//! A bump allocator over the guest buffer arena.

use vstd::prelude::*;

use super::layout::{DATA_BASE, MAX_TOTAL_BYTES, TOTAL_MEM_SIZE};

verus! {

/// Hands out guest addresses, wrapping within the arena, under a byte budget.
#[derive(Debug, Clone, Copy, PartialEq, Eq, Structural)]
pub struct DataAlloc {
    pub next: u64,
    pub budget: u64,
}

impl DataAlloc {
    /// The cursor is never below the arena, and no further out than the budget
    /// allows.
    pub open spec fn wf(self) -> bool {
        &&& DATA_BASE <= self.next <= DATA_BASE + MAX_TOTAL_BYTES
        &&& self.budget <= MAX_TOTAL_BYTES
    }

    /// A full budget, and the cursor at the start of the arena.
    pub open spec fn fresh() -> Self {
        DataAlloc { next: DATA_BASE, budget: MAX_TOTAL_BYTES }
    }

    /// Where `len` bytes land: at the cursor, or back at the start of the arena
    /// if they do not fit.
    pub open spec fn gpa(self, len: int) -> int {
        if self.next + len > TOTAL_MEM_SIZE {
            DATA_BASE as int
        } else {
            self.next as int
        }
    }

    /// Whether the budget pays for `len` bytes.
    pub open spec fn affords(self, len: int) -> bool {
        len <= self.budget
    }

    /// State after a request for `len` bytes.
    pub open spec fn after(self, len: int) -> Self {
        if self.affords(len) {
            DataAlloc { next: (self.gpa(len) + len) as u64, budget: (self.budget - len) as u64 }
        } else {
            self
        }
    }

    /// State after `n` requests for `len` bytes each.
    pub open spec fn after_each(self, len: int, n: int) -> Self
        decreases n,
    {
        if n <= 0 {
            self
        } else {
            self.after_each(len, n - 1).after(len)
        }
    }

    /// State after a series of requests of any lengths.
    pub open spec fn after_all(self, lens: Seq<u32>) -> Self
        decreases lens.len(),
    {
        if lens.len() == 0 {
            self
        } else {
            self.after_all(lens.drop_last()).after(lens.last() as int)
        }
    }

    /// Bytes that a series of requests of any lengths is granted.
    pub open spec fn granted(self, lens: Seq<u32>) -> int
        decreases lens.len(),
    {
        if lens.len() == 0 {
            0
        } else {
            self.granted(lens.drop_last()) + if self.after_all(lens.drop_last()).affords(
                lens.last() as int,
            ) {
                lens.last() as int
            } else {
                0
            }
        }
    }

    /// Creates an allocator with nothing handed out.
    pub fn new() -> (data: Self)
        ensures
            data.wf(),
            data == Self::fresh(),
    {
        DataAlloc { next: DATA_BASE, budget: MAX_TOTAL_BYTES }
    }

    /// Returns a guest address for `len` bytes, or nothing once the budget does
    /// not pay for them. Wrapping may alias a buffer that is still in use, which
    /// is intended.
    pub fn alloc_bytes(&mut self, len: u32) -> (gpa: Option<u64>)
        requires
            old(self).wf(),
        ensures
            final(self).wf(),
            gpa == (if old(self).affords(len as int) {
                Some(old(self).gpa(len as int) as u64)
            } else {
                None
            }),
            *final(self) == old(self).after(len as int),
    {
        let len: u64 = len as u64;
        if len > self.budget {
            return None;
        }
        self.budget = self.budget - len;
        if self.next + len > TOTAL_MEM_SIZE {
            self.next = DATA_BASE;
        }
        let gpa: u64 = self.next;
        self.next = self.next + len;
        Some(gpa)
    }
}

/// An allocation that is granted and no larger than the arena lies within it,
/// and so within guest memory and clear of the rings.
pub proof fn granted_bytes_stay_in_arena(data: DataAlloc, len: int)
    requires
        data.wf(),
        0 <= len <= TOTAL_MEM_SIZE - DATA_BASE,
        data.affords(len),
    ensures
        DATA_BASE <= data.gpa(len),
        data.gpa(len) + len <= TOTAL_MEM_SIZE,
        data.after(len).wf(),
        data.after(len).next <= TOTAL_MEM_SIZE,
{
}

/// The budget loses exactly the bytes that were handed out, so that no series of
/// requests, of whatever lengths, gets more than it holds.
pub proof fn budget_pays_for_every_byte(data: DataAlloc, lens: Seq<u32>)
    requires
        data.wf(),
    ensures
        data.after_all(lens).wf(),
        data.after_all(lens).budget + data.granted(lens) == data.budget,
        0 <= data.granted(lens) <= data.budget,
    decreases lens.len(),
{
    if lens.len() > 0 {
        budget_pays_for_every_byte(data, lens.drop_last());
    }
}

/// A budget that pays for `n` equal requests together grants each of them, and
/// loses what they ask for.
pub proof fn affordable_requests_are_granted(data: DataAlloc, len: int, n: int)
    requires
        data.wf(),
        0 <= len,
        0 <= n,
        data.affords(n * len),
    ensures
        data.after_each(len, n).wf(),
        data.after_each(len, n).budget == data.budget - n * len,
        n > 0 ==> data.after_each(len, n - 1).affords(len),
    decreases n,
{
    if n > 0 {
        assert(n * len == (n - 1) * len + len) by (nonlinear_arith);
        assert(0 <= (n - 1) * len) by (nonlinear_arith)
            requires
                0 <= len,
                1 <= n,
        ;
        affordable_requests_are_granted(data, len, n - 1);
    } else {
        assert(0 * len == 0) by (nonlinear_arith);
    }
}

/// A request that the budget pays for goes behind the one before it, or to the
/// start of the arena where it does not fit, and costs its length. One that the
/// budget does not pay for changes nothing.
pub proof fn requests_follow_each_other(data: DataAlloc, len: int)
    requires
        data.wf(),
        0 <= len,
    ensures
        data.affords(len) <==> len <= data.budget,
        data.next + len <= TOTAL_MEM_SIZE ==> data.gpa(len) == data.next,
        data.next + len > TOTAL_MEM_SIZE ==> data.gpa(len) == DATA_BASE,
        len <= data.budget ==> {
            &&& data.after(len).next == data.gpa(len) + len
            &&& data.after(len).budget == data.budget - len
        },
        len > data.budget ==> data.after(len) == data,
{
}

/// Equal requests are made one by one.
pub proof fn equal_requests_come_one_by_one(data: DataAlloc, len: int, n: int)
    requires
        0 <= n,
    ensures
        data.after_each(len, 0) == data,
        data.after_each(len, n + 1) == data.after_each(len, n).after(len),
{
}

/// A fresh allocator starts at the arena and has one megabyte to hand out.
pub proof fn fresh_arena_is_whole()
    ensures
        DataAlloc::fresh().next == DATA_BASE,
        DataAlloc::fresh().budget == MAX_TOTAL_BYTES == 1024 * 1024,
{
}

} // verus!
