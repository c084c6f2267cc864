//! Page-based linear memory: bounds-checked reads and writes, growth by whole
//! zero-filled pages up to a fixed ceiling, and clearing.
use vstd::prelude::*;

use crate::VmError;

verus! {

/// Size of one memory page in bytes (64 KiB).
pub const PAGE_SIZE: usize = 65_536;

/// Ceiling on the memory of one machine in bytes (64 MiB).
pub const MAX_MEM_LIMIT: usize = 67_108_864;

/// Abstract state of a [`LinearMemoryIsolate`].
#[verifier::ext_equal]
pub struct MemoryView {
    /// The memory's bytes, address 0 first.
    pub bytes: Seq<u8>,
    /// Number of pages the memory is said to hold.
    pub current_pages: usize,
    /// Number of pages the memory may grow to.
    pub max_pages: usize,
}

/// `n` zero bytes.
pub open spec fn zero_bytes(n: nat) -> Seq<u8> {
    Seq::new(n, |i: int| 0u8)
}

/// `s` cut or zero-extended to exactly `n` bytes.
pub open spec fn resized(s: Seq<u8>, n: nat) -> Seq<u8> {
    if n <= s.len() {
        s.take(n as int)
    } else {
        s + zero_bytes((n - s.len()) as nat)
    }
}

/// The number of pages a fresh memory asked for `initial_pages` gets.
pub open spec fn initial_page_count(initial_pages: usize) -> usize {
    if initial_pages <= MAX_MEM_LIMIT / PAGE_SIZE {
        initial_pages
    } else {
        (MAX_MEM_LIMIT / PAGE_SIZE) as usize
    }
}

impl MemoryView {
    /// A fresh memory asked for `initial_pages` pages.
    pub open spec fn initial(initial_pages: usize) -> MemoryView {
        let pages = initial_page_count(initial_pages);
        MemoryView {
            bytes: zero_bytes((pages * PAGE_SIZE) as nat),
            current_pages: pages,
            max_pages: (MAX_MEM_LIMIT / PAGE_SIZE) as usize,
        }
    }

    /// The byte length agrees with the page count, which is within the ceiling.
    pub open spec fn well_formed(self) -> bool {
        &&& self.bytes.len() == self.current_pages * PAGE_SIZE
        &&& self.current_pages <= self.max_pages
        &&& self.max_pages == MAX_MEM_LIMIT / PAGE_SIZE
    }

    /// Whether `len` bytes starting at `offset` lie inside the memory.
    pub open spec fn in_bounds(self, offset: usize, len: nat) -> bool {
        offset + len <= self.bytes.len()
    }

    /// Reading `len` bytes at `offset`: the bytes there, or a violation at `offset`.
    pub open spec fn read_outcome(self, offset: usize, len: nat) -> Result<Seq<u8>, VmError> {
        if self.in_bounds(offset, len) {
            Ok(self.bytes.subrange(offset as int, offset + len))
        } else {
            Err(VmError::MemoryAccessViolation { address: offset })
        }
    }

    /// The memory with `src` written at `offset` (meaningful when in bounds).
    pub open spec fn written(self, offset: usize, src: Seq<u8>) -> Seq<u8> {
        Seq::new(
            self.bytes.len(),
            |i: int| if offset <= i < offset + src.len() { src[i - offset] } else { self.bytes[i] },
        )
    }

    /// Writing `src` at `offset`: all of it, or nothing and a violation at `offset`.
    pub open spec fn write_outcome(self, offset: usize, src: Seq<u8>) -> (MemoryView, Result<(), VmError>) {
        if self.in_bounds(offset, src.len()) {
            (
                MemoryView {
                    bytes: self.written(offset, src),
                    current_pages: self.current_pages,
                    max_pages: self.max_pages,
                },
                Ok(()),
            )
        } else {
            (self, Err(VmError::MemoryAccessViolation { address: offset }))
        }
    }

    /// Growing by `additional_pages`: refused past `usize` or past the ceiling,
    /// else the bytes are resized to the new page count and the former page count
    /// is returned.
    pub open spec fn grow_outcome(self, additional_pages: usize) -> (MemoryView, Result<usize, VmError>) {
        let total = self.current_pages + additional_pages;
        if total > usize::MAX {
            (self, Err(VmError::MemoryAccessViolation { address: usize::MAX }))
        } else if total > self.max_pages {
            (self, Err(VmError::MemoryAccessViolation { address: self.bytes.len() as usize }))
        } else {
            (
                MemoryView {
                    bytes: resized(self.bytes, (total * PAGE_SIZE) as nat),
                    current_pages: total as usize,
                    max_pages: self.max_pages,
                },
                Ok(self.current_pages),
            )
        }
    }
}

/// A read of the range just written gives back exactly the bytes written.
pub proof fn lemma_read_after_write(m: MemoryView, offset: usize, src: Seq<u8>)
    requires
        m.write_outcome(offset, src).1 is Ok,
    ensures
        m.write_outcome(offset, src).0.read_outcome(offset, src.len()) == Ok::<Seq<u8>, VmError>(src),
{
    let w = m.write_outcome(offset, src).0;
    assert(w.bytes.subrange(offset as int, offset + src.len()) =~= src);
}

/// A write leaves every range it does not overlap as it was.
pub proof fn lemma_write_keeps_other_ranges(
    m: MemoryView,
    offset: usize,
    src: Seq<u8>,
    other: usize,
    len: nat,
)
    requires
        other + len <= offset || offset + src.len() <= other,
    ensures
        m.write_outcome(offset, src).0.read_outcome(other, len) == m.read_outcome(other, len),
{
    let w = m.write_outcome(offset, src).0;
    if m.in_bounds(offset, src.len()) && m.in_bounds(other, len) {
        assert(w.bytes.subrange(other as int, other + len) =~= m.bytes.subrange(other as int, other + len));
    }
}

/// A refused write or growth changes nothing, and a read out of bounds fails
/// exactly when the range passes the end.
pub proof fn lemma_refusals_change_nothing(m: MemoryView, offset: usize, src: Seq<u8>, pages: usize)
    ensures
        m.write_outcome(offset, src).1 is Err ==> m.write_outcome(offset, src).0 == m,
        m.grow_outcome(pages).1 is Err ==> m.grow_outcome(pages).0 == m,
        m.write_outcome(offset, src).1 is Err <==> !m.in_bounds(offset, src.len()),
        m.read_outcome(offset, src.len()) is Err <==> !m.in_bounds(offset, src.len()),
{
}

/// Growth keeps every byte already there and adds only zero bytes, a whole page
/// count of them.
pub proof fn lemma_grow_keeps_contents(m: MemoryView, additional_pages: usize)
    requires
        m.well_formed(),
        m.grow_outcome(additional_pages).1 is Ok,
    ensures
        m.grow_outcome(additional_pages).0.bytes.len() == m.bytes.len() + additional_pages * PAGE_SIZE,
        m.grow_outcome(additional_pages).0.bytes.take(m.bytes.len() as int) == m.bytes,
        forall|i: int|
            m.bytes.len() <= i < m.grow_outcome(additional_pages).0.bytes.len()
                ==> #[trigger] m.grow_outcome(additional_pages).0.bytes[i] == 0,
        m.grow_outcome(additional_pages).1 == Ok::<usize, VmError>(m.current_pages),
{
    let total = m.current_pages + additional_pages;
    assert(total * PAGE_SIZE == m.current_pages * PAGE_SIZE + additional_pages * PAGE_SIZE) by (nonlinear_arith)
        requires
            total == m.current_pages + additional_pages,
    ;
    let g = m.grow_outcome(additional_pages).0;
    assert(g.bytes.take(m.bytes.len() as int) =~= m.bytes);
}

/// Writes, growth within the ceiling and clearing keep a well-formed memory
/// well formed; a fresh memory is well formed.
pub proof fn lemma_operations_keep_well_formed(
    m: MemoryView,
    offset: usize,
    src: Seq<u8>,
    additional_pages: usize,
    initial_pages: usize,
)
    requires
        m.well_formed(),
    ensures
        m.write_outcome(offset, src).0.well_formed(),
        m.grow_outcome(additional_pages).0.well_formed(),
        (MemoryView { bytes: Seq::empty(), current_pages: 0, max_pages: m.max_pages }).well_formed(),
        MemoryView::initial(initial_pages).well_formed(),
{
    let total = m.current_pages + additional_pages;
    if total <= m.max_pages {
        assert(total * PAGE_SIZE >= m.current_pages * PAGE_SIZE) by (nonlinear_arith)
            requires
                total >= m.current_pages,
        ;
    }
}

/// Linear memory of a machine.
#[derive(Debug, Clone)]
pub struct LinearMemoryIsolate {
    /// The memory's bytes.
    pub raw_buffer: Vec<u8>,
    /// Pages currently allocated.
    pub current_pages: usize,
    /// Page ceiling.
    pub max_pages: usize,
}

impl View for LinearMemoryIsolate {
    type V = MemoryView;

    open spec fn view(&self) -> MemoryView {
        MemoryView { bytes: self.raw_buffer@, current_pages: self.current_pages, max_pages: self.max_pages }
    }
}

impl LinearMemoryIsolate {
    /// A zero-filled memory of `initial_pages` pages, capped at the ceiling.
    pub fn new(initial_pages: usize) -> (mem: Self)
        ensures
            mem@ == MemoryView::initial(initial_pages),
    {
        let max_pages = MAX_MEM_LIMIT / PAGE_SIZE;
        let targeted_initial = if initial_pages <= max_pages {
            initial_pages
        } else {
            max_pages
        };
        let raw_buffer = vec![0u8; targeted_initial * PAGE_SIZE];
        proof {
            assert(raw_buffer@ =~= zero_bytes((targeted_initial * PAGE_SIZE) as nat));
        }
        LinearMemoryIsolate { raw_buffer, current_pages: targeted_initial, max_pages }
    }

    /// Copies the `destination.len()` bytes at `offset` into `destination`; out of
    /// bounds it fails with a violation at `offset` and leaves `destination` as it was.
    pub fn read_bytes(&self, offset: usize, destination: &mut [u8]) -> (r: Result<(), VmError>)
        ensures
            final(destination)@.len() == old(destination)@.len(),
            match self@.read_outcome(offset, old(destination)@.len()) {
                Ok(bytes) => r == Ok::<(), VmError>(()) && final(destination)@ == bytes,
                Err(e) => r == Err::<(), VmError>(e) && final(destination)@ == old(destination)@,
            },
    {
        let buffer_len = self.raw_buffer.len();
        let end_address = match offset.checked_add(destination.len()) {
            Some(end) => end,
            None => return Err(VmError::MemoryAccessViolation { address: offset }),
        };
        if end_address > buffer_len {
            return Err(VmError::MemoryAccessViolation { address: offset });
        }
        let n = destination.len();
        let mut i: usize = 0;
        while i < n
            invariant
                i <= n,
                n == destination@.len(),
                offset + n == end_address,
                end_address <= self.raw_buffer@.len(),
                forall|j: int| 0 <= j < i ==> destination@[j] == self.raw_buffer@[offset + j],
            decreases n - i,
        {
            destination[i] = self.raw_buffer[offset + i];
            i = i + 1;
        }
        proof {
            assert(destination@ =~= self.raw_buffer@.subrange(offset as int, offset + n));
        }
        Ok(())
    }

    /// Writes all of `source` at `offset`; out of bounds it fails with a violation
    /// at `offset` and changes nothing.
    pub fn write_bytes(&mut self, offset: usize, source: &[u8]) -> (r: Result<(), VmError>)
        ensures
            final(self)@ == old(self)@.write_outcome(offset, source@).0,
            r == old(self)@.write_outcome(offset, source@).1,
    {
        let buffer_len = self.raw_buffer.len();
        let end_address = match offset.checked_add(source.len()) {
            Some(end) => end,
            None => return Err(VmError::MemoryAccessViolation { address: offset }),
        };
        if end_address > buffer_len {
            return Err(VmError::MemoryAccessViolation { address: offset });
        }
        let n = source.len();
        let mut i: usize = 0;
        while i < n
            invariant
                i <= n,
                n == source@.len(),
                offset + n == end_address,
                end_address <= self.raw_buffer@.len(),
                self.raw_buffer@.len() == old(self).raw_buffer@.len(),
                self.current_pages == old(self).current_pages,
                self.max_pages == old(self).max_pages,
                forall|j: int|
                    0 <= j < self.raw_buffer@.len() ==> #[trigger] self.raw_buffer@[j] == if offset <= j < offset + i {
                        source@[j - offset]
                    } else {
                        old(self).raw_buffer@[j]
                    },
            decreases n - i,
        {
            self.raw_buffer[offset + i] = source[i];
            i = i + 1;
        }
        proof {
            assert(self.raw_buffer@ =~= old(self)@.written(offset, source@));
        }
        Ok(())
    }

    /// Grows the memory by `additional_pages` zero-filled pages and returns the
    /// former page count; fails with a violation at `usize::MAX` when the page count
    /// would pass `usize`, and at the current byte length when it would pass the
    /// ceiling.
    pub fn dynamically_grow_heap(&mut self, additional_pages: usize) -> (r: Result<usize, VmError>)
        requires
            old(self).current_pages + additional_pages <= old(self).max_pages ==> (old(self).current_pages
                + additional_pages) * PAGE_SIZE <= usize::MAX,
        ensures
            final(self)@ == old(self)@.grow_outcome(additional_pages).0,
            r == old(self)@.grow_outcome(additional_pages).1,
    {
        let total_requested = match self.current_pages.checked_add(additional_pages) {
            Some(total) => total,
            None => return Err(VmError::MemoryAccessViolation { address: usize::MAX }),
        };
        if total_requested > self.max_pages {
            return Err(VmError::MemoryAccessViolation { address: self.raw_buffer.len() });
        }
        let updated_byte_allocation = total_requested * PAGE_SIZE;
        self.raw_buffer.resize(updated_byte_allocation, 0);
        proof {
            assert(self.raw_buffer@ =~= resized(old(self).raw_buffer@, updated_byte_allocation as nat));
        }
        let baseline_pages = self.current_pages;
        self.current_pages = total_requested;
        Ok(baseline_pages)
    }

    /// The memory's length in bytes.
    pub fn active_byte_capacity(&self) -> (n: usize)
        ensures
            n == self@.bytes.len(),
    {
        self.raw_buffer.len()
    }

    /// Overwrites every byte with zero, then empties the memory and sets its page
    /// count to zero; the ceiling stays.
    pub fn purge_and_zeroize(&mut self)
        ensures
            final(self)@.bytes == Seq::<u8>::empty(),
            final(self)@.current_pages == 0,
            final(self)@.max_pages == old(self)@.max_pages,
    {
        let len = self.raw_buffer.len();
        let mut i: usize = 0;
        while i < len
            invariant
                i <= len,
                len == self.raw_buffer.len(),
                self.max_pages == old(self).max_pages,
                forall|j: int| 0 <= j < i ==> self.raw_buffer@[j] == 0,
            decreases len - i,
        {
            self.raw_buffer[i] = 0;
            i = i + 1;
        }
        self.raw_buffer.clear();
        self.current_pages = 0;
    }
}

} // verus!
