//! Pointer paths and their traversal.
//!
//! A pointer path is a base address, an ordered chain of byte offsets, and the
//! width of the target's pointers. Resolving it follows the chain: every
//! offset but the last is added to the current address and a pointer-sized
//! value is read there and followed; the last offset is only added, never
//! dereferenced, because it locates the field of interest itself.

use vstd::bytes::{spec_u32_from_le_bytes, spec_u64_from_le_bytes, u32_from_le_bytes, u64_from_le_bytes};
use vstd::prelude::*;

use crate::address::Address;
use crate::memory::MemoryReader;
use crate::memory::ReadError;
use crate::value::MemValue;

verus! {

/// The width of the intermediate pointers of a path, matching the target
/// process's architecture.
#[derive(Clone, Copy, Debug, PartialEq, Eq, Structural)]
pub enum DerefType {
    /// 4-byte pointers, as in a 32-bit target process.
    Bit32,
    /// 8-byte pointers, as in a 64-bit target process.
    Bit64,
}

impl Default for DerefType {
    /// 8-byte pointers.
    fn default() -> (r: Self)
        ensures
            r is Bit64,
    {
        DerefType::Bit64
    }
}

/// Why a resolve failed. A failed resolve does not poison the path, which can
/// be retried once the target's state has moved on.
#[derive(Clone, Copy, Debug, PartialEq, Eq, Structural)]
pub enum ResolveError {
    /// Traversal was asked to start from the null address.
    NullBase,
    /// The path has no offsets, so there is no final offset to apply.
    EmptyPath,
    /// A memory read failed; carries the reader's cause.
    ReadFailed(ReadError),
    /// The bytes at the final address are not a legal representation of the
    /// requested type.
    InvalidBitPattern,
}

/// The pointer-sized value that a read at `address` yields: 4 or 8
/// little-endian bytes per `width`, widened to a full 64-bit address.
pub open spec fn pointer_value_at<R: MemoryReader>(
    mem: R,
    width: DerefType,
    address: u64,
) -> Result<u64, ReadError> {
    match width {
        DerefType::Bit32 => match mem.bytes_at(address, 4) {
            Ok(bytes) => Ok(spec_u32_from_le_bytes(bytes) as u64),
            Err(e) => Err(e),
        },
        DerefType::Bit64 => match mem.bytes_at(address, 8) {
            Ok(bytes) => Ok(spec_u64_from_le_bytes(bytes)),
            Err(e) => Err(e),
        },
    }
}

/// Follows the intermediate offsets of a path: at each step the pointer at
/// `address + offset` is read and traversal continues from the value read.
/// The first failed read aborts the whole walk.
pub open spec fn follow_chain<R: MemoryReader>(
    mem: R,
    width: DerefType,
    address: u64,
    intermediate: Seq<u64>,
) -> Result<u64, ReadError>
    decreases intermediate.len(),
{
    if intermediate.len() == 0 {
        Ok(address)
    } else {
        match pointer_value_at(mem, width, address.wrapping_add(intermediate[0])) {
            Ok(next) => follow_chain(mem, width, next, intermediate.drop_first()),
            Err(e) => Err(e),
        }
    }
}

/// The addresses at which `follow_chain` issues reads: one per intermediate
/// offset, up to and including the first failing read.
pub open spec fn chain_trace<R: MemoryReader>(
    mem: R,
    width: DerefType,
    address: u64,
    intermediate: Seq<u64>,
) -> Seq<u64>
    decreases intermediate.len(),
{
    if intermediate.len() == 0 {
        Seq::empty()
    } else {
        let read_address = address.wrapping_add(intermediate[0]);
        match pointer_value_at(mem, width, read_address) {
            Ok(next) => seq![read_address] + chain_trace(mem, width, next, intermediate.drop_first()),
            Err(_) => seq![read_address],
        }
    }
}

/// What resolving a path to an address returns: a null base and an empty
/// offset chain fail fast; otherwise the intermediate offsets are followed
/// and the last offset is added to the pointer reached — the final step is
/// never dereferenced.
pub open spec fn resolve_spec<R: MemoryReader>(
    mem: R,
    width: DerefType,
    base: u64,
    offsets: Seq<u64>,
) -> Result<u64, ResolveError> {
    if base == 0 {
        Err(ResolveError::NullBase)
    } else if offsets.len() == 0 {
        Err(ResolveError::EmptyPath)
    } else {
        match follow_chain(mem, width, base, offsets.drop_last()) {
            Ok(address) => Ok(address.wrapping_add(offsets.last())),
            Err(e) => Err(ResolveError::ReadFailed(e)),
        }
    }
}

/// The addresses read while resolving a path to an address.
pub open spec fn resolve_trace<R: MemoryReader>(
    mem: R,
    width: DerefType,
    base: u64,
    offsets: Seq<u64>,
) -> Seq<u64> {
    if base == 0 || offsets.len() == 0 {
        Seq::empty()
    } else {
        chain_trace(mem, width, base, offsets.drop_last())
    }
}

/// What resolving a path to a value of type `T` returns: the resolved address
/// is read once more, and the bytes found there are accepted only if they are
/// a legal representation of `T`.
pub open spec fn resolve_value_spec<T: MemValue, R: MemoryReader>(
    mem: R,
    width: DerefType,
    base: u64,
    offsets: Seq<u64>,
) -> Result<T, ResolveError> {
    match resolve_spec(mem, width, base, offsets) {
        Ok(address) => match mem.bytes_at(address, T::size()) {
            Ok(bytes) => if T::valid(bytes) {
                Ok(T::decode_spec(bytes))
            } else {
                Err(ResolveError::InvalidBitPattern)
            },
            Err(e) => Err(ResolveError::ReadFailed(e)),
        },
        Err(e) => Err(e),
    }
}

/// The addresses read while resolving a path to a value: the traversal's
/// reads, plus the final read at the resolved address when one was reached.
pub open spec fn resolve_value_trace<R: MemoryReader>(
    mem: R,
    width: DerefType,
    base: u64,
    offsets: Seq<u64>,
) -> Seq<u64> {
    match resolve_spec(mem, width, base, offsets) {
        Ok(address) => resolve_trace(mem, width, base, offsets) + seq![address],
        Err(_) => resolve_trace(mem, width, base, offsets),
    }
}

/// Reads one pointer-sized value at `address` and widens it to 64 bits.
fn read_pointer<R: MemoryReader>(reader: &mut R, width: DerefType, address: u64) -> (r: Result<
    u64,
    ReadError,
>)
    ensures
        forall|a: u64, c: nat| final(reader).bytes_at(a, c) == old(reader).bytes_at(a, c),
        final(reader).reads() == old(reader).reads().push(address),
        r == pointer_value_at(*old(reader), width, address),
{
    match width {
        DerefType::Bit32 => match reader.read_bytes(address, 4) {
            Ok(bytes) => Ok(u32_from_le_bytes(bytes.as_slice()) as u64),
            Err(e) => Err(e),
        },
        DerefType::Bit64 => match reader.read_bytes(address, 8) {
            Ok(bytes) => Ok(u64_from_le_bytes(bytes.as_slice())),
            Err(e) => Err(e),
        },
    }
}

/// An immutable pointer path: a base address, an ordered chain of byte
/// offsets, and the width of the target's pointers.
///
/// `CAP` bounds the depth of the chain; construction rules out anything
/// deeper. A path carries no cursor or cached state: every resolve is a fresh
/// traversal, and a path can be shared and retried freely.
#[derive(Clone, Debug)]
pub struct DeepPointer<const CAP: usize> {
    base_address: Address,
    path: Vec<u64>,
    deref_type: DerefType,
}

impl<const CAP: usize> DeepPointer<CAP> {
    /// The base address the path starts from.
    pub closed spec fn base(&self) -> u64 {
        self.base_address@
    }

    /// The offsets, in traversal order.
    pub closed spec fn offsets(&self) -> Seq<u64> {
        self.path@
    }

    /// The width of the intermediate pointers.
    pub closed spec fn width(&self) -> DerefType {
        self.deref_type
    }

    /// The capacity invariant: the chain is no deeper than `CAP`.
    pub closed spec fn wf(&self) -> bool {
        self.path@.len() <= CAP
    }

    /// Creates a path from a base address, a pointer width, and the offsets.
    ///
    /// The capacity must be positive and at least `path.len()`: a deeper
    /// chain is a defect in the embedding program, not a runtime condition,
    /// so it is ruled out here rather than silently truncated.
    pub fn new(base_address: Address, deref_type: DerefType, path: &[u64]) -> (r: Self)
        requires
            0 < CAP,
            path@.len() <= CAP,
        ensures
            r.wf(),
            r.base() == base_address@,
            r.offsets() == path@,
            r.width() == deref_type,
    {
        DeepPointer { base_address, path: vstd::slice::slice_to_vec(path), deref_type }
    }

    /// Creates a path with 4-byte intermediate pointers.
    pub fn new_32bit(base_address: Address, path: &[u64]) -> (r: Self)
        requires
            0 < CAP,
            path@.len() <= CAP,
        ensures
            r.wf(),
            r.base() == base_address@,
            r.offsets() == path@,
            r.width() is Bit32,
    {
        Self::new(base_address, DerefType::Bit32, path)
    }

    /// Creates a path with 8-byte intermediate pointers.
    pub fn new_64bit(base_address: Address, path: &[u64]) -> (r: Self)
        requires
            0 < CAP,
            path@.len() <= CAP,
        ensures
            r.wf(),
            r.base() == base_address@,
            r.offsets() == path@,
            r.width() is Bit64,
    {
        Self::new(base_address, DerefType::Bit64, path)
    }

    /// A copy of this path that starts from a different base address; the
    /// offsets and the width are unchanged, and the original is untouched.
    pub fn with_base_address(&self, base_address: Address) -> (r: Self)
        ensures
            r.base() == base_address@,
            r.offsets() == self.offsets(),
            r.width() == self.width(),
            r.wf() == self.wf(),
    {
        let path = self.path.clone();
        proof {
            assert(path@ =~= self.path@);
        }
        DeepPointer { base_address, path, deref_type: self.deref_type }
    }

    /// Resolves the path to the address of the value of interest, starting
    /// from `base_address` in place of the path's own base.
    pub fn deref_offsets_from<R: MemoryReader>(
        &self,
        reader: &mut R,
        base_address: Address,
    ) -> (r: Result<Address, ResolveError>)
        ensures
            forall|a: u64, c: nat| final(reader).bytes_at(a, c) == old(reader).bytes_at(a, c),
            final(reader).reads() == old(reader).reads() + resolve_trace(
                *old(reader),
                self.width(),
                base_address@,
                self.offsets(),
            ),
            match r {
                Ok(address) => resolve_spec(*old(reader), self.width(), base_address@, self.offsets())
                    == Ok::<u64, ResolveError>(address@),
                Err(e) => resolve_spec(*old(reader), self.width(), base_address@, self.offsets())
                    == Err::<u64, ResolveError>(e),
            },
    {
        let ghost mem0 = *reader;
        let ghost offs = self.offsets();
        if base_address.is_null() {
            proof {
                assert(mem0.reads() + resolve_trace(mem0, self.width(), base_address@, offs)
                    =~= mem0.reads());
            }
            return Err(ResolveError::NullBase);
        }
        let count = self.path.len();
        if count == 0 {
            proof {
                assert(mem0.reads() + resolve_trace(mem0, self.width(), base_address@, offs)
                    =~= mem0.reads());
            }
            return Err(ResolveError::EmptyPath);
        }
        let ghost intermediate = offs.drop_last();
        let mut address: u64 = base_address.value();
        let mut index: usize = 0;
        let ghost mut issued: Seq<u64> = Seq::empty();
        proof {
            assert(intermediate.skip(0) =~= intermediate);
            assert(mem0.reads() + issued =~= mem0.reads());
        }
        while index < count - 1
            invariant
                mem0 == *old(reader),
                base_address@ != 0,
                count == offs.len(),
                0 < count,
                index <= count - 1,
                offs == self.offsets(),
                count == self.path.len(),
                intermediate == offs.drop_last(),
                forall|a: u64, c: nat| reader.bytes_at(a, c) == mem0.bytes_at(a, c),
                reader.reads() == mem0.reads() + issued,
                follow_chain(mem0, self.width(), base_address@, intermediate) == follow_chain(
                    mem0,
                    self.width(),
                    address,
                    intermediate.skip(index as int),
                ),
                chain_trace(mem0, self.width(), base_address@, intermediate) == issued
                    + chain_trace(mem0, self.width(), address, intermediate.skip(index as int)),
            decreases count - index,
        {
            let offset = self.path[index];
            let read_address = address.wrapping_add(offset);
            let ghost before = *reader;
            let outcome = read_pointer(reader, self.deref_type, read_address);
            proof {
                let rest = intermediate.skip(index as int);
                assert(rest.len() > 0);
                assert(rest[0] == intermediate[index as int]);
                assert(intermediate[index as int] == offs[index as int]);
                assert(rest.drop_first() =~= intermediate.skip(index as int + 1));
                assert(before.bytes_at(read_address, 4) == mem0.bytes_at(read_address, 4));
                assert(before.bytes_at(read_address, 8) == mem0.bytes_at(read_address, 8));
                assert(pointer_value_at(before, self.width(), read_address) == pointer_value_at(
                    mem0,
                    self.width(),
                    read_address,
                ));
            }
            match outcome {
                Ok(next) => {
                    proof {
                        issued = issued.push(read_address);
                        assert(mem0.reads() + issued =~= reader.reads());
                        assert((issued.drop_last() + (seq![read_address] + chain_trace(
                            mem0,
                            self.width(),
                            next,
                            intermediate.skip(index as int + 1),
                        ))) =~= issued + chain_trace(
                            mem0,
                            self.width(),
                            next,
                            intermediate.skip(index as int + 1),
                        ));
                    }
                    address = next;
                    index += 1;
                },
                Err(e) => {
                    proof {
                        assert(mem0.reads() + (issued + seq![read_address]) =~= reader.reads());
                        assert(chain_trace(mem0, self.width(), base_address@, intermediate)
                            == issued + seq![read_address]);
                        assert(resolve_trace(mem0, self.width(), base_address@, offs) == issued
                            + seq![read_address]);
                    }
                    return Err(ResolveError::ReadFailed(e));
                },
            }
        }
        proof {
            assert(intermediate.skip(index as int) =~= Seq::<u64>::empty());
            assert(follow_chain(mem0, self.width(), base_address@, intermediate) == Ok::<
                u64,
                ReadError,
            >(address));
            assert(chain_trace(mem0, self.width(), address, intermediate.skip(index as int))
                =~= Seq::<u64>::empty());
            assert(issued + Seq::<u64>::empty() =~= issued);
            assert(offs[count - 1] == offs.last());
        }
        let last = self.path[count - 1];
        Ok(Address::new(address.wrapping_add(last)))
    }

    /// Resolves the path to the address of the value of interest, starting
    /// from the path's own base address.
    pub fn deref_offsets<R: MemoryReader>(&self, reader: &mut R) -> (r: Result<
        Address,
        ResolveError,
    >)
        ensures
            forall|a: u64, c: nat| final(reader).bytes_at(a, c) == old(reader).bytes_at(a, c),
            final(reader).reads() == old(reader).reads() + resolve_trace(
                *old(reader),
                self.width(),
                self.base(),
                self.offsets(),
            ),
            match r {
                Ok(address) => resolve_spec(*old(reader), self.width(), self.base(), self.offsets())
                    == Ok::<u64, ResolveError>(address@),
                Err(e) => resolve_spec(*old(reader), self.width(), self.base(), self.offsets())
                    == Err::<u64, ResolveError>(e),
            },
    {
        let base = self.base_address;
        self.deref_offsets_from(reader, base)
    }

    /// Resolves the path and reads the value of interest at the resolved
    /// address, starting from `base_address` in place of the path's own base.
    pub fn deref_from<T: MemValue, R: MemoryReader>(
        &self,
        reader: &mut R,
        base_address: Address,
    ) -> (r: Result<T, ResolveError>)
        ensures
            forall|a: u64, c: nat| final(reader).bytes_at(a, c) == old(reader).bytes_at(a, c),
            final(reader).reads() == old(reader).reads() + resolve_value_trace(
                *old(reader),
                self.width(),
                base_address@,
                self.offsets(),
            ),
            r == resolve_value_spec::<T, R>(*old(reader), self.width(), base_address@, self.offsets()),
    {
        let ghost mem0 = *reader;
        let ghost offs = self.offsets();
        match self.deref_offsets_from(reader, base_address) {
            Ok(address) => {
                let ghost before = *reader;
                let size = T::byte_size();
                let outcome = reader.read_bytes(address.value(), size);
                proof {
                    assert(before.bytes_at(address@, T::size()) == mem0.bytes_at(
                        address@,
                        T::size(),
                    ));
                    assert(mem0.reads() + (resolve_trace(mem0, self.width(), base_address@, offs)
                        + seq![address@]) =~= before.reads().push(address@));
                }
                match outcome {
                    Ok(bytes) => match T::decode(bytes.as_slice()) {
                        Some(value) => Ok(value),
                        None => Err(ResolveError::InvalidBitPattern),
                    },
                    Err(e) => Err(ResolveError::ReadFailed(e)),
                }
            },
            Err(e) => Err(e),
        }
    }

    /// Resolves the path and reads the value of interest at the resolved
    /// address, starting from the path's own base address.
    pub fn deref<T: MemValue, R: MemoryReader>(&self, reader: &mut R) -> (r: Result<
        T,
        ResolveError,
    >)
        ensures
            forall|a: u64, c: nat| final(reader).bytes_at(a, c) == old(reader).bytes_at(a, c),
            final(reader).reads() == old(reader).reads() + resolve_value_trace(
                *old(reader),
                self.width(),
                self.base(),
                self.offsets(),
            ),
            r == resolve_value_spec::<T, R>(*old(reader), self.width(), self.base(), self.offsets()),
    {
        let base = self.base_address;
        self.deref_from(reader, base)
    }
}

/// A path with a single offset dereferences nothing: resolving it from a
/// non-null base issues no read and returns `base + offsets[0]` exactly.
pub proof fn lemma_single_offset_is_pure_addition<R: MemoryReader>(
    mem: R,
    width: DerefType,
    base: u64,
    offsets: Seq<u64>,
)
    requires
        base != 0,
        offsets.len() == 1,
    ensures
        resolve_spec(mem, width, base, offsets) == Ok::<u64, ResolveError>(
            base.wrapping_add(offsets[0]),
        ),
        resolve_trace(mem, width, base, offsets) == Seq::<u64>::empty(),
{
    assert(offsets.drop_last() =~= Seq::<u64>::empty());
    assert(offsets.last() == offsets[0]);
}

/// A chain walk that succeeds reads exactly once per intermediate offset: the
/// first read at `address + intermediate[0]`, and each later read at the value
/// the previous read returned plus the next offset.
proof fn lemma_chain_trace_on_success<R: MemoryReader>(
    mem: R,
    width: DerefType,
    address: u64,
    intermediate: Seq<u64>,
)
    requires
        follow_chain(mem, width, address, intermediate) is Ok,
    ensures
        chain_trace(mem, width, address, intermediate).len() == intermediate.len(),
        intermediate.len() > 0 ==> chain_trace(mem, width, address, intermediate)[0]
            == address.wrapping_add(intermediate[0]),
        forall|j: int|
            0 <= j < intermediate.len() - 1 ==> pointer_value_at(
                mem,
                width,
                #[trigger] chain_trace(mem, width, address, intermediate)[j],
            ) is Ok && chain_trace(mem, width, address, intermediate)[j + 1] == (pointer_value_at(
                mem,
                width,
                chain_trace(mem, width, address, intermediate)[j],
            )->Ok_0).wrapping_add(intermediate[j + 1]),
        intermediate.len() > 0 ==> pointer_value_at(
            mem,
            width,
            chain_trace(mem, width, address, intermediate).last(),
        ) is Ok && follow_chain(mem, width, address, intermediate) == Ok::<u64, ReadError>(
            pointer_value_at(
                mem,
                width,
                chain_trace(mem, width, address, intermediate).last(),
            )->Ok_0,
        ),
    decreases intermediate.len(),
{
    if intermediate.len() > 0 {
        let read_address = address.wrapping_add(intermediate[0]);
        let step = pointer_value_at(mem, width, read_address);
        if step is Ok {
            let next = step->Ok_0;
            let rest = intermediate.drop_first();
            lemma_chain_trace_on_success(mem, width, next, rest);
            let trace = chain_trace(mem, width, address, intermediate);
            let rest_trace = chain_trace(mem, width, next, rest);
            assert(trace == seq![read_address] + rest_trace);
            if rest.len() > 0 {
                assert(trace.last() == rest_trace.last());
            } else {
                assert(trace.last() == read_address);
            }
            assert forall|j: int| 0 <= j < intermediate.len() - 1 implies pointer_value_at(
                mem,
                width,
                #[trigger] chain_trace(mem, width, address, intermediate)[j],
            ) is Ok && chain_trace(mem, width, address, intermediate)[j + 1] == (pointer_value_at(
                mem,
                width,
                chain_trace(mem, width, address, intermediate)[j],
            )->Ok_0).wrapping_add(intermediate[j + 1]) by {
                if j == 0 {
                    assert(trace[0] == read_address);
                    if rest.len() > 0 {
                        assert(trace[1] == rest_trace[0]);
                        assert(rest_trace[0] == next.wrapping_add(rest[0]));
                        assert(rest[0] == intermediate[1]);
                    }
                } else {
                    assert(trace[j] == rest_trace[j - 1]);
                    assert(trace[j + 1] == rest_trace[j]);
                    assert(rest[j - 1 + 1] == intermediate[j + 1]);
                }
            }
        }
    }
}

/// A successful resolve of a path of `N` offsets issues exactly `N - 1`
/// reads: the first at `base + offsets[0]`, each later one at the pointer the
/// previous read returned plus the next offset. The last offset is never read
/// through: the result is the last pointer read plus that offset.
pub proof fn lemma_reads_on_success<R: MemoryReader>(
    mem: R,
    width: DerefType,
    base: u64,
    offsets: Seq<u64>,
)
    requires
        resolve_spec(mem, width, base, offsets) is Ok,
    ensures
        resolve_trace(mem, width, base, offsets).len() == offsets.len() - 1,
        offsets.len() > 1 ==> resolve_trace(mem, width, base, offsets)[0] == base.wrapping_add(
            offsets[0],
        ),
        forall|j: int|
            0 <= j < offsets.len() - 2 ==> pointer_value_at(
                mem,
                width,
                #[trigger] resolve_trace(mem, width, base, offsets)[j],
            ) is Ok && resolve_trace(mem, width, base, offsets)[j + 1] == (pointer_value_at(
                mem,
                width,
                resolve_trace(mem, width, base, offsets)[j],
            )->Ok_0).wrapping_add(offsets[j + 1]),
        offsets.len() > 1 ==> resolve_spec(mem, width, base, offsets) == Ok::<u64, ResolveError>(
            (pointer_value_at(
                mem,
                width,
                resolve_trace(mem, width, base, offsets).last(),
            )->Ok_0).wrapping_add(offsets.last()),
        ),
{
    let intermediate = offsets.drop_last();
    lemma_chain_trace_on_success(mem, width, base, intermediate);
    assert(intermediate.len() > 0 ==> intermediate[0] == offsets[0]);
    assert forall|j: int| 0 <= j < offsets.len() - 2 implies pointer_value_at(
        mem,
        width,
        #[trigger] resolve_trace(mem, width, base, offsets)[j],
    ) is Ok && resolve_trace(mem, width, base, offsets)[j + 1] == (pointer_value_at(
        mem,
        width,
        resolve_trace(mem, width, base, offsets)[j],
    )->Ok_0).wrapping_add(offsets[j + 1]) by {
        assert(intermediate[j + 1] == offsets[j + 1]);
    }
}

/// Resolving a path with no offsets fails with `EmptyPath` whatever the
/// non-null base, and issues no read. (From the null base itself, `NullBase`
/// wins: the null check comes first.)
pub proof fn lemma_empty_path_fails<R: MemoryReader>(
    mem: R,
    width: DerefType,
    base: u64,
    offsets: Seq<u64>,
)
    requires
        base != 0,
        offsets.len() == 0,
    ensures
        resolve_spec(mem, width, base, offsets) == Err::<u64, ResolveError>(
            ResolveError::EmptyPath,
        ),
        resolve_trace(mem, width, base, offsets) == Seq::<u64>::empty(),
{
}

/// Resolving from the null base fails with `NullBase` before any read is
/// issued, whatever the offsets and the width.
pub proof fn lemma_null_base_fails<R: MemoryReader>(mem: R, width: DerefType, offsets: Seq<u64>)
    ensures
        resolve_spec(mem, width, 0, offsets) == Err::<u64, ResolveError>(ResolveError::NullBase),
        resolve_trace(mem, width, 0, offsets) == Seq::<u64>::empty(),
{
}

/// Re-basing a path changes only the start of traversal: against the same
/// memory, the re-based path resolves exactly as the original's offsets and
/// width do from the new base — reads included.
pub proof fn lemma_rebase_resolves_from_new_base<const CAP: usize, R: MemoryReader>(
    original: DeepPointer<CAP>,
    rebased: DeepPointer<CAP>,
    mem: R,
)
    requires
        rebased.offsets() == original.offsets(),
        rebased.width() == original.width(),
    ensures
        resolve_spec(mem, rebased.width(), rebased.base(), rebased.offsets()) == resolve_spec(
            mem,
            original.width(),
            rebased.base(),
            original.offsets(),
        ),
        resolve_trace(mem, rebased.width(), rebased.base(), rebased.offsets()) == resolve_trace(
            mem,
            original.width(),
            rebased.base(),
            original.offsets(),
        ),
{
}

impl<const CAP: usize> Default for DeepPointer<CAP> {
    /// An empty path: null base, no offsets, 8-byte pointers.
    fn default() -> (r: Self)
        ensures
            r.wf(),
            r.base() == 0,
            r.offsets().len() == 0,
            r.width() is Bit64,
    {
        DeepPointer {
            base_address: Address::default(),
            path: Vec::new(),
            deref_type: DerefType::default(),
        }
    }
}

} // verus!
