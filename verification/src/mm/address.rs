//! Byte addresses and page numbers.

use crate::config::PAGE_SIZE;
use vstd::prelude::*;
use vstd::std_specs::convert::FromSpecImpl;

verus! {

/// A virtual byte address.
#[derive(Copy, Clone, PartialEq, Eq, Structural, Debug)]
pub struct VirtAddr(pub usize);

/// A virtual page number: a virtual address divided by the page size.
#[derive(Copy, Clone, PartialEq, Eq, Structural, Debug)]
pub struct VirtPageNum(pub usize);

/// A physical page number, naming one frame of physical memory.
#[derive(Copy, Clone, PartialEq, Eq, Structural, Debug)]
pub struct PhysPageNum(pub usize);

impl VirtAddr {
    /// Offset of the address inside its page.
    pub open spec fn spec_page_offset(self) -> int {
        self.0 as int % PAGE_SIZE as int
    }

    /// Number of the page that holds the address.
    pub open spec fn spec_floor(self) -> int {
        self.0 as int / PAGE_SIZE as int
    }

    /// Number of the first page that starts at or after the address.
    pub open spec fn spec_ceil(self) -> int {
        (self.0 as int + PAGE_SIZE as int - 1) / PAGE_SIZE as int
    }

    /// Whether the address is the first byte of a page.
    pub open spec fn spec_aligned(self) -> bool {
        self.spec_page_offset() == 0
    }

    /// Offset of the address inside its page.
    pub fn page_offset(&self) -> (r: usize)
        ensures
            r == self.spec_page_offset(),
            r < PAGE_SIZE,
    {
        self.0 % PAGE_SIZE
    }

    /// The page that holds the address (rounding down).
    pub fn floor(&self) -> (r: VirtPageNum)
        ensures
            r.0 == self.spec_floor(),
    {
        VirtPageNum(self.0 / PAGE_SIZE)
    }

    /// The first page that starts at or after the address (rounding up).
    pub fn ceil(&self) -> (r: VirtPageNum)
        ensures
            r.0 == self.spec_ceil(),
            self.spec_floor() <= r.0 <= self.spec_floor() + 1,
            self.spec_aligned() <==> r.0 == self.spec_floor(),
    {
        if self.0 % PAGE_SIZE == 0 {
            VirtPageNum(self.0 / PAGE_SIZE)
        } else {
            VirtPageNum(self.0 / PAGE_SIZE + 1)
        }
    }

    /// Whether the address is the first byte of a page.
    pub fn aligned(&self) -> (r: bool)
        ensures
            r == self.spec_aligned(),
    {
        self.page_offset() == 0
    }
}

impl From<usize> for VirtAddr {
    fn from(v: usize) -> (r: Self) {
        VirtAddr(v)
    }
}

impl FromSpecImpl<usize> for VirtAddr {
    open spec fn obeys_from_spec() -> bool {
        true
    }

    open spec fn from_spec(v: usize) -> Self {
        VirtAddr(v)
    }
}

} // verus!
