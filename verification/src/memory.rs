//! The memory-read collaborator: the contract the traversal needs from a
//! reader of the target process, and an in-memory snapshot reader.

use vstd::prelude::*;

verus! {

/// Why a memory read failed, as reported by the reader.
#[derive(Clone, Copy, Debug, PartialEq, Eq, Structural)]
pub enum ReadError {
    /// The requested range is not mapped in the target process.
    UnmappedMemory,
    /// The target process denied access to the requested range.
    PermissionDenied,
    /// The target process is gone.
    ProcessGone,
}

/// The capability to read raw bytes out of the target process.
///
/// A reader stands for one consistent snapshot of the target's memory:
/// `bytes_at` says what a read of `count` bytes at `address` returns, and
/// issuing a read never changes it. `reads` logs the address of every read
/// issued, oldest first, failed reads included. A live target whose memory
/// has moved on is a new snapshot, read through a fresh reader value.
pub trait MemoryReader: Sized {
    /// What a read of `count` bytes at `address` returns.
    spec fn bytes_at(&self, address: u64, count: nat) -> Result<Seq<u8>, ReadError>;

    /// The addresses of all reads issued so far, oldest first.
    spec fn reads(&self) -> Seq<u64>;

    /// Reads `count` bytes at `address` from the target process.
    fn read_bytes(&mut self, address: u64, count: usize) -> (r: Result<Vec<u8>, ReadError>)
        ensures
            final(self).reads() == old(self).reads().push(address),
            forall|a: u64, c: nat| final(self).bytes_at(a, c) == old(self).bytes_at(a, c),
            match r {
                Ok(bytes) => bytes@.len() == count && old(self).bytes_at(address, count as nat)
                    == Ok::<Seq<u8>, ReadError>(bytes@),
                Err(e) => old(self).bytes_at(address, count as nat) == Err::<Seq<u8>, ReadError>(e),
            },
    ;
}

/// The byte that a store of `cells` holds at `address`: the latest entry for
/// that address wins, and an address without an entry is unmapped.
pub open spec fn cell_lookup(cells: Seq<(u64, u8)>, address: u64) -> Option<u8>
    decreases cells.len(),
{
    if cells.len() == 0 {
        None
    } else if cells.last().0 == address {
        Some(cells.last().1)
    } else {
        cell_lookup(cells.drop_last(), address)
    }
}

/// What reading `count` bytes at `address` from `cells` returns: the run of
/// bytes starting at `address`, or unmapped if any byte of the run is missing.
pub open spec fn cells_read(cells: Seq<(u64, u8)>, address: u64, count: nat) -> Result<
    Seq<u8>,
    ReadError,
>
    decreases count,
{
    if count == 0 {
        Ok(Seq::empty())
    } else {
        match cell_lookup(cells, address) {
            Some(byte) => match cells_read(cells, address.wrapping_add(1), (count - 1) as nat) {
                Ok(rest) => Ok(seq![byte] + rest),
                Err(e) => Err(e),
            },
            None => Err(ReadError::UnmappedMemory),
        }
    }
}

fn find_cell(cells: &Vec<(u64, u8)>, address: u64) -> (r: Option<u8>)
    ensures
        r == cell_lookup(cells@, address),
{
    let mut index: usize = cells.len();
    proof {
        assert(cells@.take(index as int) =~= cells@);
    }
    while index > 0
        invariant
            index <= cells.len(),
            cell_lookup(cells@, address) == cell_lookup(cells@.take(index as int), address),
        decreases index,
    {
        let pair = cells[index - 1];
        proof {
            let prefix = cells@.take(index as int);
            assert(prefix.last() == cells@[index - 1]);
            assert(prefix.drop_last() =~= cells@.take(index as int - 1));
        }
        if pair.0 == address {
            return Some(pair.1);
        }
        index -= 1;
    }
    proof {
        assert(cells@.take(0) =~= Seq::<(u64, u8)>::empty());
    }
    None
}

fn read_cells(cells: &Vec<(u64, u8)>, address: u64, count: usize) -> (r: Result<Vec<u8>, ReadError>)
    ensures
        match r {
            Ok(bytes) => bytes@.len() == count && cells_read(cells@, address, count as nat)
                == Ok::<Seq<u8>, ReadError>(bytes@),
            Err(e) => cells_read(cells@, address, count as nat) == Err::<Seq<u8>, ReadError>(e),
        },
    decreases count,
{
    if count == 0 {
        let bytes: Vec<u8> = Vec::new();
        proof {
            assert(bytes@ =~= Seq::<u8>::empty());
        }
        Ok(bytes)
    } else {
        match find_cell(cells, address) {
            Some(byte) => match read_cells(cells, address.wrapping_add(1), count - 1) {
                Ok(mut rest) => {
                    let ghost tail = rest@;
                    rest.insert(0, byte);
                    proof {
                        assert(rest@ =~= seq![byte] + tail);
                    }
                    Ok(rest)
                },
                Err(e) => Err(e),
            },
            None => Err(ReadError::UnmappedMemory),
        }
    }
}

/// Distinct small offsets from one address stay distinct under wrapping
/// addition.
proof fn lemma_wrapped_offsets_distinct(address: u64, i: u64, j: u64)
    requires
        i < j,
        j <= 8,
    ensures
        address.wrapping_add(i) != address.wrapping_add(j),
{
}

/// An in-memory snapshot of (part of) a target process's memory, with the
/// read log the `MemoryReader` contract calls for. It backs the tests of the
/// traversal logic; reading a live process is a different implementation of
/// the same contract.
pub struct SnapshotMemory {
    cells: Vec<(u64, u8)>,
    issued: Vec<u64>,
}

impl SnapshotMemory {
    /// The byte mapped at `address`, if any.
    pub closed spec fn cell(&self, address: u64) -> Option<u8> {
        cell_lookup(self.cells@, address)
    }

    /// An empty snapshot: nothing mapped, no read issued yet.
    pub fn new() -> (r: Self)
        ensures
            forall|a: u64| r.cell(a) is None,
            r.reads() == Seq::<u64>::empty(),
    {
        let r = SnapshotMemory { cells: Vec::new(), issued: Vec::new() };
        proof {
            assert(r.issued@ =~= Seq::<u64>::empty());
        }
        r
    }

    /// Maps one byte, replacing whatever was mapped at `address`.
    pub fn set_byte(&mut self, address: u64, value: u8)
        ensures
            forall|a: u64|
                final(self).cell(a) == (if a == address {
                    Some(value)
                } else {
                    old(self).cell(a)
                }),
            final(self).reads() == old(self).reads(),
    {
        self.cells.push((address, value));
        proof {
            assert forall|a: u64|
                self.cell(a) == (if a == address {
                    Some(value)
                } else {
                    old(self).cell(a)
                }) by {
                assert(self.cells@.last() == (address, value));
                assert(self.cells@.drop_last() =~= old(self).cells@);
            }
        }
    }

    /// Maps the four little-endian bytes of a 32-bit value at `address`.
    pub fn set_narrow(&mut self, address: u64, value: u32)
        ensures
            final(self).cell(address) == Some((value & 0xff) as u8),
            final(self).cell(address.wrapping_add(1)) == Some(((value >> 8) & 0xff) as u8),
            final(self).cell(address.wrapping_add(2)) == Some(((value >> 16) & 0xff) as u8),
            final(self).cell(address.wrapping_add(3)) == Some(((value >> 24) & 0xff) as u8),
            forall|a: u64|
                (a != address && a != address.wrapping_add(1) && a != address.wrapping_add(2) && a
                    != address.wrapping_add(3)) ==> final(self).cell(a) == old(self).cell(a),
            final(self).reads() == old(self).reads(),
    {
        proof {
            lemma_wrapped_offsets_distinct(address, 0, 1);
            lemma_wrapped_offsets_distinct(address, 0, 2);
            lemma_wrapped_offsets_distinct(address, 0, 3);
            lemma_wrapped_offsets_distinct(address, 1, 2);
            lemma_wrapped_offsets_distinct(address, 1, 3);
            lemma_wrapped_offsets_distinct(address, 2, 3);
            assert(address.wrapping_add(0) == address);
        }
        self.set_byte(address, (value & 0xff) as u8);
        self.set_byte(address.wrapping_add(1), ((value >> 8) & 0xff) as u8);
        self.set_byte(address.wrapping_add(2), ((value >> 16) & 0xff) as u8);
        self.set_byte(address.wrapping_add(3), ((value >> 24) & 0xff) as u8);
    }

    /// Maps the eight little-endian bytes of a 64-bit value at `address`.
    pub fn set_wide(&mut self, address: u64, value: u64)
        ensures
            final(self).cell(address) == Some((value & 0xff) as u8),
            final(self).cell(address.wrapping_add(1)) == Some(((value >> 8) & 0xff) as u8),
            final(self).cell(address.wrapping_add(2)) == Some(((value >> 16) & 0xff) as u8),
            final(self).cell(address.wrapping_add(3)) == Some(((value >> 24) & 0xff) as u8),
            final(self).cell(address.wrapping_add(4)) == Some(((value >> 32) & 0xff) as u8),
            final(self).cell(address.wrapping_add(5)) == Some(((value >> 40) & 0xff) as u8),
            final(self).cell(address.wrapping_add(6)) == Some(((value >> 48) & 0xff) as u8),
            final(self).cell(address.wrapping_add(7)) == Some(((value >> 56) & 0xff) as u8),
            forall|a: u64|
                (a != address && a != address.wrapping_add(1) && a != address.wrapping_add(2) && a
                    != address.wrapping_add(3) && a != address.wrapping_add(4) && a
                    != address.wrapping_add(5) && a != address.wrapping_add(6) && a
                    != address.wrapping_add(7)) ==> final(self).cell(a) == old(self).cell(a),
            final(self).reads() == old(self).reads(),
    {
        proof {
            assert forall|i: u64, j: u64| i < j && j <= 7 implies address.wrapping_add(i)
                != address.wrapping_add(j) by {
                lemma_wrapped_offsets_distinct(address, i, j);
            }
            assert(address.wrapping_add(0) == address);
        }
        self.set_byte(address, (value & 0xff) as u8);
        self.set_byte(address.wrapping_add(1), ((value >> 8) & 0xff) as u8);
        self.set_byte(address.wrapping_add(2), ((value >> 16) & 0xff) as u8);
        self.set_byte(address.wrapping_add(3), ((value >> 24) & 0xff) as u8);
        self.set_byte(address.wrapping_add(4), ((value >> 32) & 0xff) as u8);
        self.set_byte(address.wrapping_add(5), ((value >> 40) & 0xff) as u8);
        self.set_byte(address.wrapping_add(6), ((value >> 48) & 0xff) as u8);
        self.set_byte(address.wrapping_add(7), ((value >> 56) & 0xff) as u8);
    }

    /// How many reads have been issued against this snapshot.
    pub fn read_count(&self) -> (n: usize)
        ensures
            n == self.reads().len(),
    {
        self.issued.len()
    }

    /// The address of the `index`-th read issued, oldest first.
    pub fn read_address(&self, index: usize) -> (r: u64)
        requires
            index < self.reads().len(),
        ensures
            r == self.reads()[index as int],
    {
        self.issued[index]
    }
}

impl MemoryReader for SnapshotMemory {
    closed spec fn bytes_at(&self, address: u64, count: nat) -> Result<Seq<u8>, ReadError> {
        cells_read(self.cells@, address, count)
    }

    closed spec fn reads(&self) -> Seq<u64> {
        self.issued@
    }

    fn read_bytes(&mut self, address: u64, count: usize) -> (r: Result<Vec<u8>, ReadError>) {
        self.issued.push(address);
        read_cells(&self.cells, address, count)
    }
}

} // verus!
