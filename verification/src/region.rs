//! Where a device's regions go in the guest's memory.

use vstd::prelude::*;
use vstd::pervasive::unreached;

use crate::device_info::VfioPlatformRegionInfo;

verus! {

/// `size` rounded up to a multiple of the page size.
pub open spec fn page_ceil(size: int, page_size: int) -> int {
    if size % page_size == 0 {
        size
    } else {
        size - size % page_size + page_size
    }
}

/// Where region `i` goes if the regions are packed one behind the other from `base` on, each taking
/// whole pages.
pub open spec fn packed_gpa(
    base: int,
    regions: Seq<VfioPlatformRegionInfo>,
    page_size: int,
    i: nat,
) -> int
    decreases i,
{
    if i == 0 {
        base
    } else {
        packed_gpa(base, regions, page_size, (i - 1) as nat) + page_ceil(
            regions[i - 1].size as int,
            page_size,
        )
    }
}

/// The addresses of the regions: one for each if the configuration gives as many, packed from a
/// single one if it gives one only, and else none.
pub open spec fn region_gpas_of(
    map: Seq<u64>,
    regions: Seq<VfioPlatformRegionInfo>,
    page_size: int,
) -> Seq<u64> {
    if map.len() == regions.len() {
        map
    } else if map.len() == 1 && regions.len() > 0 {
        Seq::new(
            regions.len(),
            |i: int| packed_gpa(map[0] as int, regions, page_size, i as nat) as u64,
        )
    } else {
        Seq::empty()
    }
}

/// No packed address leaves the range of 64 bits, nor does the one behind the last region.
pub open spec fn layout_fits_in(
    map: Seq<u64>,
    regions: Seq<VfioPlatformRegionInfo>,
    page_size: int,
) -> bool {
    map.len() != regions.len() && map.len() == 1 && regions.len() > 0 ==> packed_gpa(
        map[0] as int,
        regions,
        page_size,
        regions.len(),
    ) <= u64::MAX
}

/// A region that is to be mapped `len` bytes long at `gpa`. There is no length if it leaves the range
/// of 64 bits.
#[derive(Clone, Copy, Debug, PartialEq, Eq, Structural)]
pub struct PlannedRegion {
    pub region: VfioPlatformRegionInfo,
    pub gpa: u64,
    pub len: Option<u64>,
}

/// The length of a region in whole pages.
pub open spec fn planned_len(region: VfioPlatformRegionInfo, page_size: int) -> Option<u64> {
    if page_ceil(region.size as int, page_size) <= u64::MAX {
        Some(page_ceil(region.size as int, page_size) as u64)
    } else {
        None
    }
}

/// The regions that are to be mapped.
pub open spec fn plan_of(map: Seq<u64>, regions: Seq<VfioPlatformRegionInfo>, page_size: int) -> Seq<
    PlannedRegion,
> {
    let gpas = region_gpas_of(map, regions, page_size);
    Seq::new(
        gpas.len(),
        |i: int|
            PlannedRegion {
                region: regions[i],
                gpa: gpas[i],
                len: planned_len(regions[i], page_size),
            },
    )
}

/// Rounding up gives the least multiple of the page size that is not below the size.
pub proof fn law_page_ceil(size: int, page_size: int)
    requires
        0 <= size,
        0 < page_size,
    ensures
        page_ceil(size, page_size) % page_size == 0,
        size <= page_ceil(size, page_size) < size + page_size,
{
    let q = size / page_size;
    vstd::arithmetic::div_mod::lemma_fundamental_div_mod(size, page_size);
    vstd::arithmetic::div_mod::lemma_mod_bound(size, page_size);
    if size % page_size != 0 {
        assert(page_ceil(size, page_size) == page_size * (q + 1)) by (nonlinear_arith)
            requires
                page_ceil(size, page_size) == size - size % page_size + page_size,
                size == page_size * q + size % page_size,
        ;
        vstd::arithmetic::div_mod::lemma_mod_multiples_basic(q + 1, page_size);
        assert((q + 1) * page_size == page_size * (q + 1)) by (nonlinear_arith);
    }
}

/// Packed addresses grow with the region's number.
proof fn lemma_packed_grows(
    base: int,
    regions: Seq<VfioPlatformRegionInfo>,
    page_size: int,
    i: nat,
    j: nat,
)
    requires
        0 < page_size,
        i <= j <= regions.len(),
    ensures
        packed_gpa(base, regions, page_size, i) <= packed_gpa(base, regions, page_size, j),
    decreases j,
{
    if i < j {
        lemma_packed_grows(base, regions, page_size, i, (j - 1) as nat);
        law_page_ceil(regions[j - 1].size as int, page_size);
    }
}

/// Packed regions follow each other without gap or overlap, in order.
pub proof fn law_packed_regions_are_disjoint(
    base: u64,
    regions: Seq<VfioPlatformRegionInfo>,
    page_size: int,
    i: int,
    j: int,
)
    requires
        0 < page_size,
        regions.len() != 1,
        layout_fits_in(seq![base], regions, page_size),
        0 <= i < j < regions.len(),
    ensures
        ({
            let plan = plan_of(seq![base], regions, page_size);
            &&& plan.len() == regions.len()
            &&& plan[0].gpa == base
            &&& plan[i].len matches Some(len)
            &&& plan[i].gpa + len <= plan[j].gpa
            &&& j == i + 1 ==> plan[i].gpa + len == plan[j].gpa
            &&& plan[j].len matches Some(len_j)
            &&& plan[j].gpa + len_j <= u64::MAX
        }),
{
    let n = regions.len();
    lemma_packed_grows(base as int, regions, page_size, 0, i as nat);
    lemma_packed_grows(base as int, regions, page_size, (i + 1) as nat, j as nat);
    lemma_packed_grows(base as int, regions, page_size, j as nat, n);
    lemma_packed_grows(base as int, regions, page_size, i as nat, j as nat);
    lemma_packed_grows(base as int, regions, page_size, (j + 1) as nat, n);
    law_page_ceil(regions[i].size as int, page_size);
    law_page_ceil(regions[j].size as int, page_size);
    assert(packed_gpa(base as int, regions, page_size, 0) == base);
}

/// From a base at a page boundary, every packed region starts at a page boundary.
pub proof fn law_packed_regions_are_aligned(
    base: int,
    regions: Seq<VfioPlatformRegionInfo>,
    page_size: int,
    i: nat,
)
    requires
        0 < page_size,
        base % page_size == 0,
        i <= regions.len(),
    ensures
        packed_gpa(base, regions, page_size, i) % page_size == 0,
    decreases i,
{
    if i > 0 {
        law_packed_regions_are_aligned(base, regions, page_size, (i - 1) as nat);
        law_page_ceil(regions[i - 1].size as int, page_size);
        vstd::arithmetic::div_mod::lemma_add_mod_noop(
            packed_gpa(base, regions, page_size, (i - 1) as nat),
            page_ceil(regions[i - 1].size as int, page_size),
            page_size,
        );
        vstd::arithmetic::div_mod::lemma_small_mod(0, page_size as nat);
    }
}

/// For a device with one region the two ways to give addresses agree.
pub proof fn law_single_region(base: u64, regions: Seq<VfioPlatformRegionInfo>, page_size: int)
    requires
        regions.len() == 1,
    ensures
        region_gpas_of(seq![base], regions, page_size)[0] == packed_gpa(
            base as int,
            regions,
            page_size,
            0,
        ),
{
}

/// Regions that the configuration places one by one are placed there, and if it gives neither one
/// address for each region nor a single one, none is mapped.
pub proof fn law_placement(map: Seq<u64>, regions: Seq<VfioPlatformRegionInfo>, page_size: int)
    ensures
        map.len() == regions.len() ==> {
            &&& plan_of(map, regions, page_size).len() == regions.len()
            &&& forall|i: int|
                0 <= i < regions.len() ==> (#[trigger] plan_of(map, regions, page_size)[i]).gpa
                    == map[i]
        },
        map.len() != regions.len() && map.len() != 1 ==> plan_of(map, regions, page_size).len()
            == 0,
{
}

/// Rounds up to a multiple of the page size, unless that leaves the range.
fn checked_page_ceil(size: u64, page_size: u64) -> (r: Option<u64>)
    requires
        page_size > 0,
    ensures
        match r {
            Some(v) => v == page_ceil(size as int, page_size as int),
            None => page_ceil(size as int, page_size as int) > u64::MAX,
        },
{
    proof {
        vstd::arithmetic::div_mod::lemma_mod_decreases(size as nat, page_size as nat);
    }
    let over: u64 = size % page_size;
    if over == 0 {
        Some(size)
    } else {
        (size - over).checked_add(page_size)
    }
}

/// Where the regions go if they are packed from `base` on, unless that leaves the range.
fn pack(base: u64, regions: &[VfioPlatformRegionInfo], page_size: u64) -> (r: Option<Vec<u64>>)
    requires
        page_size > 0,
    ensures
        match r {
            Some(gpas) => {
                &&& packed_gpa(base as int, regions@, page_size as int, regions@.len()) <= u64::MAX
                &&& gpas@ == Seq::new(
                    regions@.len(),
                    |i: int| packed_gpa(base as int, regions@, page_size as int, i as nat) as u64,
                )
            },
            None => packed_gpa(base as int, regions@, page_size as int, regions@.len()) > u64::MAX,
        },
{
    let mut gpas: Vec<u64> = Vec::new();
    let mut next: u64 = base;
    let mut i: usize = 0;
    while i < regions.len()
        invariant
            page_size > 0,
            i <= regions@.len(),
            next == packed_gpa(base as int, regions@, page_size as int, i as nat),
            gpas@ == Seq::new(
                i as nat,
                |j: int| packed_gpa(base as int, regions@, page_size as int, j as nat) as u64,
            ),
        decreases regions.len() - i,
    {
        proof {
            let n = regions@.len();
            lemma_packed_grows(base as int, regions@, page_size as int, 0, i as nat);
            lemma_packed_grows(base as int, regions@, page_size as int, (i + 1) as nat, n);
        }
        gpas.push(next);
        next = match checked_page_ceil(regions[i].size, page_size) {
            None => {
                return None;
            },
            Some(len) => match next.checked_add(len) {
                None => {
                    return None;
                },
                Some(sum) => sum,
            },
        };
        i = i + 1;
    }
    Some(gpas)
}

/// Whether every packed address stays in the range of 64 bits.
pub fn layout_fits(map: &[u64], regions: &[VfioPlatformRegionInfo], page_size: u64) -> (r: bool)
    requires
        page_size > 0,
    ensures
        r == layout_fits_in(map@, regions@, page_size as int),
{
    if map.len() != regions.len() && map.len() == 1 && regions.len() > 0 {
        pack(map[0], regions, page_size).is_some()
    } else {
        true
    }
}

/// The addresses of the regions.
fn region_gpas(map: &[u64], regions: &[VfioPlatformRegionInfo], page_size: u64) -> (gpas: Vec<u64>)
    requires
        page_size > 0,
        layout_fits_in(map@, regions@, page_size as int),
    ensures
        gpas@ == region_gpas_of(map@, regions@, page_size as int),
{
    if map.len() == regions.len() {
        let mut gpas: Vec<u64> = Vec::new();
        let mut i: usize = 0;
        while i < map.len()
            invariant
                i <= map@.len(),
                gpas@ == map@.take(i as int),
            decreases map.len() - i,
        {
            gpas.push(map[i]);
            i = i + 1;
        }
        assert(map@.take(i as int) =~= map@);
        gpas
    } else if map.len() == 1 && regions.len() > 0 {
        match pack(map[0], regions, page_size) {
            Some(gpas) => gpas,
            None => unreached(),
        }
    } else {
        Vec::new()
    }
}

/// Places the regions.
pub fn plan_regions(map: &[u64], regions: &[VfioPlatformRegionInfo], page_size: u64) -> (plan: Vec<
    PlannedRegion,
>)
    requires
        page_size > 0,
        layout_fits_in(map@, regions@, page_size as int),
    ensures
        plan@ == plan_of(map@, regions@, page_size as int),
{
    let gpas: Vec<u64> = region_gpas(map, regions, page_size);
    let mut plan: Vec<PlannedRegion> = Vec::new();
    let mut i: usize = 0;
    while i < gpas.len()
        invariant
            page_size > 0,
            i <= gpas@.len() <= regions@.len(),
            gpas@ == region_gpas_of(map@, regions@, page_size as int),
            plan@ == plan_of(map@, regions@, page_size as int).take(i as int),
        decreases gpas.len() - i,
    {
        let region: VfioPlatformRegionInfo = regions[i];
        let len: Option<u64> = checked_page_ceil(region.size, page_size);
        let planned = PlannedRegion { region, gpa: gpas[i], len };
        plan.push(planned);
        assert(plan_of(map@, regions@, page_size as int).take(i + 1) =~= plan_of(
            map@,
            regions@,
            page_size as int,
        ).take(i as int).push(planned));
        i = i + 1;
    }
    assert(plan_of(map@, regions@, page_size as int).take(i as int) =~= plan_of(
        map@,
        regions@,
        page_size as int,
    ));
    plan
}

/// No smaller multiple of the page size will do.
proof fn lemma_page_ceil_is_least(size: int, page_size: int, l: int)
    requires
        0 <= size <= l,
        0 < page_size,
        l % page_size == 0,
    ensures
        page_ceil(size, page_size) <= l,
{
    law_page_ceil(size, page_size);
    let c = page_ceil(size, page_size);
    vstd::arithmetic::div_mod::lemma_fundamental_div_mod(c, page_size);
    vstd::arithmetic::div_mod::lemma_fundamental_div_mod(l, page_size);
    let (a, b) = (c / page_size, l / page_size);
    if b < a {
        assert(page_size * b <= page_size * a - page_size) by (nonlinear_arith)
            requires
                b < a,
                0 < page_size,
        ;
    } else {
        assert(page_size * a <= page_size * b) by (nonlinear_arith)
            requires
                a <= b,
                0 < page_size,
        ;
    }
}

/// Every region that is planned is the device's own, in the device's order, and takes whole pages: the
/// least multiple of the page size that is not below the region's size. It has no length only if there
/// is no such multiple in 64 bits.
pub proof fn law_planned_regions(
    map: Seq<u64>,
    regions: Seq<VfioPlatformRegionInfo>,
    page_size: int,
    i: int,
)
    requires
        0 < page_size,
        0 <= i < plan_of(map, regions, page_size).len(),
    ensures
        ({
            let planned = plan_of(map, regions, page_size)[i];
            &&& plan_of(map, regions, page_size).len() == regions.len()
            &&& planned.region == regions[i]
            &&& planned.len matches Some(len) ==> {
                &&& len as int % page_size == 0
                &&& regions[i].size <= len < regions[i].size + page_size
            }
            &&& planned.len is None ==> forall|l: int|
                #![trigger l % page_size]
                l % page_size == 0 && regions[i].size <= l ==> l > u64::MAX
        }),
{
    law_page_ceil(regions[i].size as int, page_size);
    if plan_of(map, regions, page_size)[i].len is None {
        assert forall|l: int|
            #![trigger l % page_size]
            l % page_size == 0 && regions[i].size <= l implies l > u64::MAX by {
            lemma_page_ceil_is_least(regions[i].size as int, page_size, l);
        }
    }
}

/// Where the regions go: to the configured addresses, one for each; or, from a single address on, one
/// behind the other, each right where the one before it ends; or nowhere.
pub proof fn law_where_regions_go(
    map: Seq<u64>,
    regions: Seq<VfioPlatformRegionInfo>,
    page_size: int,
    i: int,
)
    requires
        0 < page_size,
        layout_fits_in(map, regions, page_size),
    ensures
        ({
            let plan = plan_of(map, regions, page_size);
            &&& map.len() == regions.len() ==> plan.len() == regions.len() && (0 <= i < plan.len()
                ==> plan[i].gpa == map[i])
            &&& map.len() != regions.len() && map.len() == 1 ==> {
                &&& plan.len() == regions.len()
                &&& plan.len() > 0 ==> plan[0].gpa == map[0]
                &&& 0 <= i && i + 1 < plan.len() ==> (plan[i].len matches Some(len) && plan[i].gpa
                    + len == plan[i + 1].gpa)
                &&& 0 <= i < plan.len() ==> (plan[i].len matches Some(len) && plan[i].gpa + len
                    <= u64::MAX)
            }
            &&& map.len() != regions.len() && map.len() != 1 ==> plan.len() == 0
        }),
{
    if map.len() != regions.len() && map.len() == 1 && regions.len() > 0 {
        assert(map =~= seq![map[0]]);
        let n = regions.len();
        if 0 <= i < n {
            if i + 1 < n {
                law_packed_regions_are_disjoint(map[0], regions, page_size, i, i + 1);
            }
            if i > 0 {
                law_packed_regions_are_disjoint(map[0], regions, page_size, 0, i);
            }
        }
        assert(packed_gpa(map[0] as int, regions, page_size, 0) == map[0]);
    }
}

/// Packing adds up the lengths: each region moves the next one on by the least multiple of the page
/// size that it fits in; and packed regions stay in range if and only if what is added up for all of
/// them does.
pub proof fn law_packing_adds_up(
    map: Seq<u64>,
    base: int,
    regions: Seq<VfioPlatformRegionInfo>,
    page_size: int,
    i: nat,
)
    requires
        0 < page_size,
    ensures
        packed_gpa(base, regions, page_size, 0) == base,
        ({
            let step = packed_gpa(base, regions, page_size, i + 1) - packed_gpa(
                base,
                regions,
                page_size,
                i,
            );
            &&& step % page_size == 0
            &&& regions[i as int].size <= step < regions[i as int].size + page_size
        }),
        map.len() == regions.len() || map.len() != 1 ==> layout_fits_in(map, regions, page_size),
        map.len() != regions.len() && map.len() == 1 && regions.len() > 0 ==> (layout_fits_in(
            map,
            regions,
            page_size,
        ) <==> packed_gpa(map[0] as int, regions, page_size, regions.len()) <= u64::MAX),
        regions.len() == 0 ==> layout_fits_in(map, regions, page_size),
{
    law_page_ceil(regions[i as int].size as int, page_size);
}

} // verus!
