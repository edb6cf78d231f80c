//! Pointer-path traversal for tracking values in another process's address
//! space: start from a base address, follow a fixed chain of pointer-sized
//! reads, and add a final byte offset to reach the field of interest.

mod address;
mod deep_pointer;
mod memory;
mod value;

pub use address::Address;
pub use deep_pointer::DeepPointer;
pub use deep_pointer::DerefType;
pub use deep_pointer::ResolveError;
pub use memory::MemoryReader;
pub use memory::ReadError;
pub use memory::SnapshotMemory;
pub use value::MemValue;
