//! The mapping table of one address space.
//!
//! A [`MemorySet`] records which virtual pages of an address space are
//! mapped and with which permissions.  Its mathematical model is a map
//! from page numbers to permissions; every operation is specified over
//! that map.

use crate::mm::address::{VirtAddr, VirtPageNum};
use vstd::prelude::*;

verus! {

/// Permission bit: the page may be read.
pub const PERM_R: u8 = 0x02;

/// Permission bit: the page may be written.
pub const PERM_W: u8 = 0x04;

/// Permission bit: instructions may be fetched from the page.
pub const PERM_X: u8 = 0x08;

/// Permission bit: the page is accessible from user mode.
pub const PERM_U: u8 = 0x10;

/// Access rights of a mapped page, as a set of `PERM_*` bits.
#[derive(Copy, Clone, PartialEq, Eq, Structural, Debug)]
pub struct MapPermission {
    pub bits: u8,
}

/// A port descriptor is acceptable when it has no bit outside the low
/// three and at least one of those three set.
pub open spec fn valid_port(port: usize) -> bool {
    1 <= port <= 7
}

/// The permissions that a valid port descriptor asks for: bit 0 grants
/// reading, bit 1 writing, bit 2 execution; user access is always granted.
pub open spec fn port_permission(port: usize) -> MapPermission {
    MapPermission { bits: (2 * port + 16) as u8 }
}

impl MapPermission {
    pub open spec fn spec_readable(self) -> bool {
        self.bits & PERM_R != 0
    }

    pub open spec fn spec_writable(self) -> bool {
        self.bits & PERM_W != 0
    }

    pub open spec fn spec_executable(self) -> bool {
        self.bits & PERM_X != 0
    }

    pub open spec fn spec_user(self) -> bool {
        self.bits & PERM_U != 0
    }

    /// Permissions of a page that only the kernel reads and writes.
    pub open spec fn spec_kernel_rw() -> MapPermission {
        MapPermission { bits: 0x06 }
    }

    /// Permissions of a page that only the kernel reads and writes.
    pub fn kernel_rw() -> (r: MapPermission)
        ensures
            r == MapPermission::spec_kernel_rw(),
            r.spec_readable(),
            r.spec_writable(),
            !r.spec_executable(),
            !r.spec_user(),
    {
        assert(0x06u8 & 0x02u8 != 0 && 0x06u8 & 0x04u8 != 0 && 0x06u8 & 0x08u8 == 0 && 0x06u8
            & 0x10u8 == 0) by (bit_vector);
        assert(0x02u8 | 0x04u8 == 0x06u8) by (bit_vector);
        MapPermission { bits: PERM_R | PERM_W }
    }

    /// Converts a valid port descriptor to permissions.
    pub fn from_port(port: usize) -> (r: MapPermission)
        requires
            valid_port(port),
        ensures
            r == port_permission(port),
            r.spec_readable() <==> port & 1 != 0,
            r.spec_writable() <==> port & 2 != 0,
            r.spec_executable() <==> port & 4 != 0,
            r.spec_user(),
    {
        let low: u8 = port as u8;
        let bits: u8 = (low << 1) | PERM_U;
        assert(bits == (2 * low + 16) as u8 && (bits & 0x02 != 0 <==> low & 1 != 0) && (bits & 0x04
            != 0 <==> low & 2 != 0) && (bits & 0x08 != 0 <==> low & 4 != 0) && bits & 0x10 != 0)
            by (bit_vector)
            requires
                1 <= low <= 7,
                bits == (low << 1) | 0x10,
        ;
        assert((port & 1 != 0 <==> low & 1 != 0) && (port & 2 != 0 <==> low & 2 != 0) && (port & 4
            != 0 <==> low & 4 != 0)) by (bit_vector)
            requires
                1 <= port <= 7,
                low == port as u8,
        ;
        MapPermission { bits }
    }

    pub fn readable(&self) -> (r: bool)
        ensures
            r == self.spec_readable(),
    {
        self.bits & PERM_R != 0
    }

    pub fn writable(&self) -> (r: bool)
        ensures
            r == self.spec_writable(),
    {
        self.bits & PERM_W != 0
    }

    pub fn executable(&self) -> (r: bool)
        ensures
            r == self.spec_executable(),
    {
        self.bits & PERM_X != 0
    }

    pub fn user(&self) -> (r: bool)
        ensures
            r == self.spec_user(),
    {
        self.bits & PERM_U != 0
    }
}

/// The pages `start <= p < end`, all mapped with `perm`, added to `space`.
pub open spec fn map_pages(
    space: Map<int, MapPermission>,
    start: int,
    end: int,
    perm: MapPermission,
) -> Map<int, MapPermission> {
    Map::new(
        |p: int| space.dom().contains(p) || start <= p < end,
        |p: int|
            if start <= p < end {
                perm
            } else {
                space[p]
            },
    )
}

/// `space` without the pages `start <= p < end`.
pub open spec fn unmap_pages(space: Map<int, MapPermission>, start: int, end: int) -> Map<
    int,
    MapPermission,
> {
    Map::new(|p: int| space.dom().contains(p) && !(start <= p < end), |p: int| space[p])
}

/// No page `start <= p < end` is mapped in `space`.
pub open spec fn range_free(space: Map<int, MapPermission>, start: int, end: int) -> bool {
    forall|p: int| start <= p < end ==> !#[trigger] space.dom().contains(p)
}

/// Every page `start <= p < end` is mapped in `space`.
pub open spec fn range_mapped(space: Map<int, MapPermission>, start: int, end: int) -> bool {
    forall|p: int| start <= p < end ==> #[trigger] space.dom().contains(p)
}

/// What `mmap` on the addresses `start_va .. end_va` returns in `space`:
/// 0 when none of the pages is mapped yet, -1 otherwise.
pub open spec fn spec_mmap_result(
    space: Map<int, MapPermission>,
    start_va: VirtAddr,
    end_va: VirtAddr,
) -> isize {
    if range_free(space, start_va.spec_floor(), end_va.spec_ceil()) {
        0isize
    } else {
        -1isize
    }
}

/// What `mmap` on the addresses `start_va .. end_va` makes of `space`:
/// the pages are added when none of them is mapped yet, and nothing
/// changes otherwise.
pub open spec fn spec_mmap(
    space: Map<int, MapPermission>,
    start_va: VirtAddr,
    end_va: VirtAddr,
    port: usize,
) -> Map<int, MapPermission> {
    if range_free(space, start_va.spec_floor(), end_va.spec_ceil()) {
        map_pages(space, start_va.spec_floor(), end_va.spec_ceil(), port_permission(port))
    } else {
        space
    }
}

/// What `unmap` on the addresses `start_va .. end_va` returns in `space`:
/// 0 when every page is mapped, -1 otherwise.
pub open spec fn spec_unmap_result(
    space: Map<int, MapPermission>,
    start_va: VirtAddr,
    end_va: VirtAddr,
) -> isize {
    if range_mapped(space, start_va.spec_floor(), end_va.spec_ceil()) {
        0isize
    } else {
        -1isize
    }
}

/// What `unmap` on the addresses `start_va .. end_va` makes of `space`:
/// the pages are removed when every one of them is mapped, and nothing
/// changes otherwise.
pub open spec fn spec_unmap(
    space: Map<int, MapPermission>,
    start_va: VirtAddr,
    end_va: VirtAddr,
) -> Map<int, MapPermission> {
    if range_mapped(space, start_va.spec_floor(), end_va.spec_ceil()) {
        unmap_pages(space, start_va.spec_floor(), end_va.spec_ceil())
    } else {
        space
    }
}

/// A run of consecutive pages `start_vpn <= p < end_vpn` that share one
/// permission.
#[derive(Copy, Clone)]
struct MapArea {
    start_vpn: usize,
    end_vpn: usize,
    perm: MapPermission,
}

spec fn covers_page(areas: Seq<MapArea>, i: int, p: int) -> bool {
    0 <= i < areas.len() && areas[i].start_vpn <= p < areas[i].end_vpn
}

spec fn page_mapped(areas: Seq<MapArea>, p: int) -> bool {
    exists|i: int| covers_page(areas, i, p)
}

spec fn page_index(areas: Seq<MapArea>, p: int) -> int {
    choose|i: int| covers_page(areas, i, p)
}

spec fn areas_view(areas: Seq<MapArea>) -> Map<int, MapPermission> {
    Map::new(|p: int| page_mapped(areas, p), |p: int| areas[page_index(areas, p)].perm)
}

spec fn apart(a: MapArea, b: MapArea) -> bool {
    a.end_vpn <= b.start_vpn || b.end_vpn <= a.start_vpn
}

spec fn areas_wf(areas: Seq<MapArea>) -> bool {
    &&& forall|i: int| 0 <= i < areas.len() ==> (#[trigger] areas[i]).start_vpn < areas[i].end_vpn
    &&& forall|i: int, j: int|
        0 <= i < j < areas.len() ==> apart(#[trigger] areas[i], #[trigger] areas[j])
}

/// In a well-formed table the area that covers a page is unique, so it
/// decides the page's permission.
proof fn lemma_covering_area(areas: Seq<MapArea>, i: int, p: int)
    requires
        areas_wf(areas),
        covers_page(areas, i, p),
    ensures
        page_mapped(areas, p),
        page_index(areas, p) == i,
        areas_view(areas).dom().contains(p),
        areas_view(areas)[p] == areas[i].perm,
{
    let k = page_index(areas, p);
    assert(covers_page(areas, k, p));
    if k < i {
        assert(apart(areas[k], areas[i]));
    } else if i < k {
        assert(apart(areas[i], areas[k]));
    }
}

/// Appending an area that touches no mapped page adds exactly its pages.
proof fn lemma_push_area(areas: Seq<MapArea>, a: MapArea)
    requires
        areas_wf(areas),
        a.start_vpn < a.end_vpn,
        range_free(areas_view(areas), a.start_vpn as int, a.end_vpn as int),
    ensures
        areas_wf(areas.push(a)),
        areas_view(areas.push(a)) == map_pages(
            areas_view(areas),
            a.start_vpn as int,
            a.end_vpn as int,
            a.perm,
        ),
{
    let grown = areas.push(a);
    let n = areas.len() as int;
    assert forall|i: int, j: int| 0 <= i < j < grown.len() implies apart(
        #[trigger] grown[i],
        #[trigger] grown[j],
    ) by {
        if j == n {
            let b = areas[i];
            let shared = if a.start_vpn <= b.start_vpn {
                b.start_vpn as int
            } else {
                a.start_vpn as int
            };
            if !apart(b, a) {
                assert(covers_page(areas, i, shared));
                assert(areas_view(areas).dom().contains(shared));
            }
        } else {
            assert(apart(areas[i], areas[j]));
        }
    }
    let target = map_pages(areas_view(areas), a.start_vpn as int, a.end_vpn as int, a.perm);
    assert forall|p: int| areas_view(grown).dom().contains(p) implies #[trigger] target.dom()
        .contains(p) by {
        let i = page_index(grown, p);
        assert(covers_page(grown, i, p));
        if i < n {
            assert(covers_page(areas, i, p));
        }
    }
    assert forall|p: int| #[trigger] target.dom().contains(p) implies areas_view(
        grown,
    ).dom().contains(p) && areas_view(grown)[p] == target[p] by {
        if a.start_vpn <= p < a.end_vpn {
            assert(covers_page(grown, n, p));
            lemma_covering_area(grown, n, p);
        } else {
            let i = page_index(areas, p);
            assert(covers_page(areas, i, p));
            lemma_covering_area(areas, i, p);
            assert(covers_page(grown, i, p));
            lemma_covering_area(grown, i, p);
        }
    }
    assert(areas_view(grown) =~= target);
}

/// The mapping table of one address space, together with the token that
/// names its page-table root.
pub struct MemorySet {
    token: usize,
    areas: Vec<MapArea>,
}

impl MemorySet {
    /// The mapped pages and their permissions.
    pub closed spec fn view(&self) -> Map<int, MapPermission> {
        areas_view(self.areas@)
    }

    /// The token given when the address space was made.
    pub closed spec fn spec_token(&self) -> usize {
        self.token
    }

    /// Well-formedness: every area is non-empty and no page belongs to two
    /// areas.
    pub closed spec fn wf(&self) -> bool {
        areas_wf(self.areas@)
    }

    /// An address space with nothing mapped.
    pub fn new_bare(token: usize) -> (r: MemorySet)
        ensures
            r.wf(),
            r@ == Map::<int, MapPermission>::empty(),
            r.spec_token() == token,
    {
        let r = MemorySet { token, areas: Vec::new() };
        assert(r@ =~= Map::<int, MapPermission>::empty());
        r
    }

    /// The token that names this address space's page-table root.
    pub fn token(&self) -> (r: usize)
        ensures
            r == self.spec_token(),
    {
        self.token
    }

    /// Index of the area that covers page `vpn`, if any.
    fn find_area(&self, vpn: usize) -> (r: Option<usize>)
        requires
            self.wf(),
        ensures
            match r {
                Some(i) => covers_page(self.areas@, i as int, vpn as int),
                None => !page_mapped(self.areas@, vpn as int),
            },
    {
        let mut i: usize = 0;
        while i < self.areas.len()
            invariant
                0 <= i <= self.areas.len(),
                forall|k: int| 0 <= k < i ==> !covers_page(self.areas@, k, vpn as int),
            decreases self.areas.len() - i,
        {
            let a = self.areas[i];
            if a.start_vpn <= vpn && vpn < a.end_vpn {
                return Some(i);
            }
            i += 1;
        }
        None
    }

    /// The permissions of page `vpn`, or `None` when it is not mapped.
    pub fn permission_of(&self, vpn: VirtPageNum) -> (r: Option<MapPermission>)
        requires
            self.wf(),
        ensures
            match r {
                Some(perm) => self@.dom().contains(vpn.0 as int) && self@[vpn.0 as int] == perm,
                None => !self@.dom().contains(vpn.0 as int),
            },
    {
        match self.find_area(vpn.0) {
            Some(i) => {
                proof {
                    lemma_covering_area(self.areas@, i as int, vpn.0 as int);
                }
                Some(self.areas[i].perm)
            },
            None => None,
        }
    }

    /// Whether page `vpn` is mapped.
    pub fn is_mapped(&self, vpn: VirtPageNum) -> (r: bool)
        requires
            self.wf(),
        ensures
            r == self@.dom().contains(vpn.0 as int),
    {
        self.find_area(vpn.0).is_some()
    }

    /// Whether no page of `start <= p < end` is mapped.
    pub fn is_range_free(&self, start: VirtPageNum, end: VirtPageNum) -> (r: bool)
        requires
            self.wf(),
        ensures
            r == range_free(self@, start.0 as int, end.0 as int),
    {
        let mut i: usize = 0;
        while i < self.areas.len()
            invariant
                0 <= i <= self.areas.len(),
                self.wf(),
                forall|k: int, p: int|
                    0 <= k < i && start.0 <= p < end.0 ==> !#[trigger] covers_page(
                        self.areas@,
                        k,
                        p,
                    ),
            decreases self.areas.len() - i,
        {
            let a = self.areas[i];
            let lo: usize = if a.start_vpn < start.0 {
                start.0
            } else {
                a.start_vpn
            };
            if lo < a.end_vpn && lo < end.0 {
                proof {
                    assert(covers_page(self.areas@, i as int, lo as int));
                    lemma_covering_area(self.areas@, i as int, lo as int);
                }
                return false;
            }
            i += 1;
        }
        true
    }

    /// Whether every page of `start <= p < end` is mapped.
    pub fn is_range_mapped(&self, start: VirtPageNum, end: VirtPageNum) -> (r: bool)
        requires
            self.wf(),
        ensures
            r == range_mapped(self@, start.0 as int, end.0 as int),
    {
        let mut cur: usize = start.0;
        while cur < end.0
            invariant
                self.wf(),
                start.0 <= cur,
                forall|p: int| start.0 <= p < cur && p < end.0 ==> page_mapped(self.areas@, p),
            decreases end.0 - cur,
        {
            match self.find_area(cur) {
                Some(i) => {
                    let a = self.areas[i];
                    assert forall|p: int| start.0 <= p < a.end_vpn && p < end.0 implies page_mapped(
                        self.areas@,
                        p,
                    ) by {
                        if p >= cur {
                            assert(covers_page(self.areas@, i as int, p));
                        }
                    }
                    cur = if a.end_vpn < end.0 {
                        a.end_vpn
                    } else {
                        end.0
                    };
                },
                None => {
                    assert(!self@.dom().contains(cur as int));
                    return false;
                },
            }
        }
        true
    }

    /// Maps the pages from the one that holds `start_va` up to, but not
    /// including, the first that starts at or after `end_va`.
    ///
    /// The caller has checked that none of these pages is mapped yet.
    pub fn insert_framed_area(&mut self, start_va: VirtAddr, end_va: VirtAddr, perm: MapPermission)
        requires
            old(self).wf(),
            range_free(old(self)@, start_va.spec_floor(), end_va.spec_ceil()),
        ensures
            final(self).wf(),
            final(self).spec_token() == old(self).spec_token(),
            final(self)@ == map_pages(old(self)@, start_va.spec_floor(), end_va.spec_ceil(), perm),
    {
        let start = start_va.floor();
        let end = end_va.ceil();
        if start.0 < end.0 {
            let area = MapArea { start_vpn: start.0, end_vpn: end.0, perm };
            proof {
                lemma_push_area(self.areas@, area);
            }
            self.areas.push(area);
        } else {
            assert(self@ =~= map_pages(self@, start.0 as int, end.0 as int, perm));
        }
    }

    /// Removes the pages `start <= p < end` from the table, splitting the
    /// areas that reach into the range.
    fn remove_range(&mut self, start: usize, end: usize)
        requires
            old(self).wf(),
            start < end,
        ensures
            final(self).wf(),
            final(self).spec_token() == old(self).spec_token(),
            final(self)@ == unmap_pages(old(self)@, start as int, end as int),
    {
        let mut kept: Vec<MapArea> = Vec::new();
        let ghost before = self.areas@;
        let ghost mut origin: Seq<int> = Seq::empty();
        let mut i: usize = 0;
        while i < self.areas.len()
            invariant
                0 <= i <= self.areas.len(),
                self.areas@ == before,
                areas_wf(before),
                start < end,
                origin.len() == kept.len(),
                forall|j: int|
                    0 <= j < kept.len() ==> {
                        let o = #[trigger] origin[j];
                        &&& 0 <= o < i
                        &&& before[o].start_vpn <= kept[j].start_vpn
                        &&& kept[j].start_vpn < kept[j].end_vpn
                        &&& kept[j].end_vpn <= before[o].end_vpn
                        &&& kept[j].perm == before[o].perm
                        &&& (kept[j].end_vpn <= start || end <= kept[j].start_vpn)
                    },
                forall|j1: int, j2: int|
                    0 <= j1 < j2 < kept.len() ==> {
                        &&& #[trigger] origin[j1] <= #[trigger] origin[j2]
                        &&& origin[j1] == origin[j2] ==> kept[j1].end_vpn <= kept[j2].start_vpn
                    },
                forall|k: int, p: int|
                    0 <= k < i && #[trigger] covers_page(before, k, p) && !(start <= p < end)
                        ==> page_mapped(kept@, p),
            decreases self.areas.len() - i,
        {
            let a = self.areas[i];
            let ghost kept_before = kept@;
            let ghost origin_before = origin;
            if a.end_vpn <= start || end <= a.start_vpn {
                kept.push(a);
                proof {
                    origin = origin.push(i as int);
                }
            } else {
                if a.start_vpn < start {
                    kept.push(MapArea { start_vpn: a.start_vpn, end_vpn: start, perm: a.perm });
                    proof {
                        origin = origin.push(i as int);
                    }
                }
                if end < a.end_vpn {
                    kept.push(MapArea { start_vpn: end, end_vpn: a.end_vpn, perm: a.perm });
                    proof {
                        origin = origin.push(i as int);
                    }
                }
            }
            proof {
                assert forall|j: int| 0 <= j < kept.len() implies {
                    let o = #[trigger] origin[j];
                    &&& 0 <= o < i + 1
                    &&& before[o].start_vpn <= kept[j].start_vpn
                    &&& kept[j].start_vpn < kept[j].end_vpn
                    &&& kept[j].end_vpn <= before[o].end_vpn
                    &&& kept[j].perm == before[o].perm
                    &&& (kept[j].end_vpn <= start || end <= kept[j].start_vpn)
                } by {
                    if j < kept_before.len() {
                        assert(origin[j] == origin_before[j]);
                        assert(kept[j] == kept_before[j]);
                    }
                }
                assert forall|j1: int, j2: int| 0 <= j1 < j2 < kept.len() implies {
                    &&& #[trigger] origin[j1] <= #[trigger] origin[j2]
                    &&& origin[j1] == origin[j2] ==> kept[j1].end_vpn <= kept[j2].start_vpn
                } by {
                    if j1 < kept_before.len() {
                        assert(origin[j1] == origin_before[j1]);
                        assert(kept[j1] == kept_before[j1]);
                    }
                    if j2 < kept_before.len() {
                        assert(origin[j2] == origin_before[j2]);
                        assert(kept[j2] == kept_before[j2]);
                    }
                }
                assert forall|k: int, p: int|
                    0 <= k < i + 1 && #[trigger] covers_page(before, k, p) && !(start <= p
                        < end) implies page_mapped(kept@, p) by {
                    if k < i {
                        let j = page_index(kept_before, p);
                        assert(covers_page(kept_before, j, p));
                        assert(covers_page(kept@, j, p));
                    } else {
                        if a.end_vpn <= start || end <= a.start_vpn {
                            assert(covers_page(kept@, kept_before.len() as int, p));
                        } else if p < start {
                            assert(covers_page(kept@, kept_before.len() as int, p));
                        } else {
                            assert(covers_page(kept@, kept@.len() - 1, p));
                        }
                    }
                }
            }
            i += 1;
        }
        proof {
            let after = kept@;
            assert forall|j1: int, j2: int| 0 <= j1 < j2 < after.len() implies apart(
                #[trigger] after[j1],
                #[trigger] after[j2],
            ) by {
                let o1 = origin[j1];
                let o2 = origin[j2];
                if o1 != o2 {
                    assert(apart(before[o1], before[o2]));
                }
            }
            assert forall|j: int| 0 <= j < after.len() implies (#[trigger] after[j]).start_vpn
                < after[j].end_vpn by {
                let o = origin[j];
            }
            assert(areas_wf(after));
            let target = unmap_pages(areas_view(before), start as int, end as int);
            assert forall|p: int| areas_view(after).dom().contains(p) implies #[trigger] target
                .dom().contains(p) && areas_view(after)[p] == target[p] by {
                let j = page_index(after, p);
                assert(covers_page(after, j, p));
                lemma_covering_area(after, j, p);
                let o = origin[j];
                assert(covers_page(before, o, p));
                lemma_covering_area(before, o, p);
            }
            assert forall|p: int| #[trigger] target.dom().contains(p) implies areas_view(
                after,
            ).dom().contains(p) by {
                let k = page_index(before, p);
                assert(covers_page(before, k, p));
            }
            assert(areas_view(after) =~= target);
        }
        self.areas = kept;
    }

    /// Maps the pages of `start_va .. end_va` with the permissions that
    /// `port` asks for, unless one of them is mapped already.
    ///
    /// Returns 0 when the pages were mapped and -1, leaving the address
    /// space as it was, when the range overlaps an existing mapping.
    pub fn mmap(&mut self, start_va: VirtAddr, end_va: VirtAddr, port: usize) -> (r: isize)
        requires
            old(self).wf(),
            valid_port(port),
        ensures
            final(self).wf(),
            final(self).spec_token() == old(self).spec_token(),
            r == spec_mmap_result(old(self)@, start_va, end_va),
            final(self)@ == spec_mmap(old(self)@, start_va, end_va, port),
            r == -1 ==> *final(self) == *old(self),
    {
        if !self.is_range_free(start_va.floor(), end_va.ceil()) {
            return -1;
        }
        let perm = MapPermission::from_port(port);
        self.insert_framed_area(start_va, end_va, perm);
        0
    }

    /// Unmaps the pages of `start_va .. end_va`, provided every one of
    /// them is mapped.
    ///
    /// Returns 0 when the pages were removed and -1, leaving the address
    /// space as it was, when some page of the range is not mapped.
    pub fn unmap(&mut self, start_va: VirtAddr, end_va: VirtAddr) -> (r: isize)
        requires
            old(self).wf(),
        ensures
            final(self).wf(),
            final(self).spec_token() == old(self).spec_token(),
            r == spec_unmap_result(old(self)@, start_va, end_va),
            final(self)@ == spec_unmap(old(self)@, start_va, end_va),
            r == -1 ==> *final(self) == *old(self),
    {
        let start = start_va.floor();
        let end = end_va.ceil();
        if !self.is_range_mapped(start, end) {
            return -1;
        }
        if start.0 < end.0 {
            self.remove_range(start.0, end.0);
        } else {
            assert(self@ =~= unmap_pages(self@, start.0 as int, end.0 as int));
        }
        0
    }
}

} // verus!
