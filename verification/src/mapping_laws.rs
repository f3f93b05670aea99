//! What becomes of each region of a plan when a device's regions are mapped.

use vstd::prelude::*;

use crate::mapping;
use crate::mapping::{
    DevMemMapping, MapAnswer, MapCall, MapStage, MapStateView, MapStepView, PlatformRegionMapping,
};
use crate::platform_laws;
use crate::region::PlannedRegion;
use crate::step;
use crate::step::Step;

verus! {

/// The call that gives the guest a region that it sees.
pub open spec fn guest_call(seen: PlatformRegionMapping) -> MapCall {
    MapCall::CreateUserMemoryRegion {
        slot: seen.slot,
        gpa: seen.gpa,
        len: seen.size,
        readonly: false,
        log_dirty_pages: false,
    }
}

/// The calls that give the guest the regions that it sees.
pub open spec fn guest_calls(seen: Seq<PlatformRegionMapping>) -> Seq<MapCall> {
    seen.map_values(|m: PlatformRegionMapping| guest_call(m))
}

/// The slots of the regions that the guest sees.
pub open spec fn slots_of(seen: Seq<PlatformRegionMapping>) -> Seq<u32> {
    seen.map_values(|m: PlatformRegionMapping| m.slot)
}

/// The calls that gave the guest memory, or tried to, on the way.
pub open spec fn given(step: MapStepView, answers: Seq<MapAnswer>) -> Seq<MapCall>
    decreases answers.len(),
{
    match step {
        Step::Done(_) => Seq::empty(),
        Step::Call(state, call) => if answers.len() == 0 {
            Seq::empty()
        } else {
            let rest = given(mapping::map_next(state, answers[0]), answers.skip(1));
            if call is CreateUserMemoryRegion {
                seq![call] + rest
            } else {
                rest
            }
        },
    }
}

/// The slots that were allotted on the way.
pub open spec fn allotted(step: MapStepView, answers: Seq<MapAnswer>) -> Seq<u32>
    decreases answers.len(),
{
    match step {
        Step::Done(_) => Seq::empty(),
        Step::Call(state, _) => if answers.len() == 0 {
            Seq::empty()
        } else {
            let rest = allotted(mapping::map_next(state, answers[0]), answers.skip(1));
            match answers[0] {
                MapAnswer::Slot(slot) => seq![slot] + rest,
                _ => rest,
            }
        },
    }
}

/// The answer leaves the region that is being mapped out.
pub open spec fn skips(state: MapStateView, answer: MapAnswer) -> bool {
    state.stage is MmapDevMem && answer == MapAnswer::DevMem(DevMemMapping::Failed)
}

/// The regions of the plan that were left out on the way.
pub open spec fn skipped(step: MapStepView, answers: Seq<MapAnswer>) -> Set<int>
    decreases answers.len(),
{
    match step {
        Step::Done(_) => Set::empty(),
        Step::Call(state, _) => if answers.len() == 0 {
            Set::empty()
        } else {
            let rest = skipped(mapping::map_next(state, answers[0]), answers.skip(1));
            if skips(state, answers[0]) {
                rest.insert(state.at)
            } else {
                rest
            }
        },
    }
}

/// The numbers from `from` to below `n` without those that are left out, in order.
pub open spec fn kept_from(from: int, n: int, left_out: Set<int>) -> Seq<int>
    decreases n - from,
{
    if from >= n {
        Seq::empty()
    } else if left_out.contains(from) {
        kept_from(from + 1, n, left_out)
    } else {
        seq![from] + kept_from(from + 1, n, left_out)
    }
}

/// What is left out below does not matter.
proof fn lemma_kept_same(from: int, n: int, a: Set<int>, b: Set<int>)
    requires
        forall|k: int| from <= k ==> (#[trigger] a.contains(k) <==> b.contains(k)),
    ensures
        kept_from(from, n, a) == kept_from(from, n, b),
    decreases n - from,
{
    if from < n {
        assert(a.contains(from) <==> b.contains(from));
        lemma_kept_same(from + 1, n, a, b);
    }
}

/// If one number at most is left out, those below it are kept in their place and those above it move
/// up by one.
proof fn lemma_kept_but_one(from: int, n: int, left_out: Set<int>, k: int)
    requires
        from <= n,
        forall|j: int| from <= j < n ==> (#[trigger] left_out.contains(j) <==> j == k),
    ensures
        ({
            let kept = kept_from(from, n, left_out);
            &&& kept.len() == n - from - (if from <= k < n {
                1int
            } else {
                0int
            })
            &&& forall|i: int|
                0 <= i < kept.len() ==> #[trigger] kept[i] == from + i + (if from <= k <= from + i {
                    1int
                } else {
                    0int
                })
        }),
    decreases n - from,
{
    if from < n {
        assert(left_out.contains(from) <==> from == k);
        lemma_kept_but_one(from + 1, n, left_out, k);
        let rest = kept_from(from + 1, n, left_out);
        let kept = kept_from(from, n, left_out);
        assert forall|i: int| 0 <= i < kept.len() implies #[trigger] kept[i] == from + i + (if from
            <= k <= from + i {
            1int
        } else {
            0int
        }) by {
            if from == k {
                assert(kept[i] == rest[i]);
            } else if i > 0 {
                assert(kept[i] == rest[i - 1]);
            }
        }
    }
}

/// The slot of the region that is being given to the guest.
spec fn slot_in_hand(state: MapStateView) -> Seq<u32> {
    match state.stage {
        MapStage::Create { slot } => seq![slot],
        _ => Seq::empty(),
    }
}

/// The region that the guest sees once the one that is being mapped is there.
spec fn in_hand(state: MapStateView, slot: u32) -> PlatformRegionMapping {
    let planned = state.plan[state.at];
    PlatformRegionMapping {
        index: planned.region.index,
        slot,
        gpa: planned.gpa,
        size: planned.len->0,
    }
}

/// The call is the one that the state waits for.
spec fn fits_stage(state: MapStateView, call: MapCall) -> bool {
    &&& mapping::map_can_resume(state)
    &&& state.stage is MmapDevMem || state.stage is OpenDevMem ==> !platform_laws::mappable(
        state.plan[state.at],
    )
    &&& match state.stage {
        MapStage::Create { slot } => call == guest_call(in_hand(state, slot)),
        _ => call !is CreateUserMemoryRegion,
    }
}

/// The regions that are kept from `at` on are those that the guest sees behind the first `m`.
spec fn keeps(
    plan: Seq<PlannedRegion>,
    at: int,
    left_out: Set<int>,
    seen: Seq<PlatformRegionMapping>,
    m: int,
) -> bool {
    let kept = kept_from(at, plan.len() as int, left_out);
    &&& seen.len() == m + kept.len()
    &&& forall|i: int|
        0 <= i < kept.len() ==> at <= #[trigger] kept[i] < plan.len() && platform_laws::is_planned(
            plan[kept[i]],
            seen[m + i],
        )
}

/// What mapping that goes on from a state adds to what has been mapped.
proof fn lemma_history(state: MapStateView, call: MapCall, answers: Seq<MapAnswer>)
    requires
        fits_stage(state, call),
        step::accepted(
            platform_laws::map_rule(),
            |state: MapStateView, answer: MapAnswer| mapping::map_answers(state, answer),
            Step::Call(state, call),
            answers,
        ),
    ensures
        ({
            let start: MapStepView = Step::Call(state, call);
            let given = given(start, answers);
            let slots = slot_in_hand(state) + allotted(start, answers);
            let left_out = skipped(start, answers);
            &&& forall|k: int|
                #[trigger] left_out.contains(k) ==> state.at <= k < state.plan.len()
                    && !platform_laws::mappable(state.plan[k])
            &&& match step::run(platform_laws::map_rule(), start, answers) {
                Step::Done(Ok(seen)) => {
                    &&& guest_calls(seen) == guest_calls(state.mapped) + given
                    &&& slots_of(seen) == slots_of(state.mapped) + slots
                    &&& keeps(state.plan, state.at, left_out, seen, state.mapped.len() as int)
                },
                _ => true,
            }
        }),
    decreases answers.len(),
{
    reveal_with_fuel(step::run, 2);
    reveal_with_fuel(given, 2);
    reveal_with_fuel(allotted, 2);
    reveal_with_fuel(skipped, 2);
    reveal_with_fuel(kept_from, 2);
    let start: MapStepView = Step::Call(state, call);
    let n = state.plan.len() as int;
    if answers.len() > 0 {
        let answer = answers[0];
        let rest = answers.skip(1);
        assert(mapping::map_answers(state, answer));
        let next = mapping::map_next(state, answer);
        if let MapStage::Create { slot } = state.stage {
            let more = state.mapped.push(in_hand(state, slot));
            assert(guest_calls(more) =~= guest_calls(state.mapped).push(
                guest_call(in_hand(state, slot)),
            ));
            assert(slots_of(more) =~= slots_of(state.mapped).push(slot));
        }
        if let Step::Call(after, then) = next {
            assert(fits_stage(after, then));
            lemma_history(after, then, rest);
            let later = skipped(next, rest);
            let left_out = skipped(start, answers);
            if let Step::Done(Ok(seen)) = step::run(platform_laws::map_rule(), start, answers) {
                if after.at == state.at {
                    assert(later == left_out);
                } else {
                    assert(!later.contains(state.at));
                    lemma_kept_same(state.at + 1, n, later, left_out);
                    let kept = kept_from(state.at, n, left_out);
                    let tail = kept_from(state.at + 1, n, later);
                    if !skips(state, answer) {
                        assert(kept == seq![state.at] + tail);
                        let m = state.mapped.len() as int;
                        lemma_first_seen(state, call, answers, seen);
                        assert forall|i: int| 0 <= i < kept.len() implies state.at
                            <= #[trigger] kept[i] < n && platform_laws::is_planned(
                            state.plan[kept[i]],
                            seen[m + i],
                        ) by {
                            if i > 0 {
                                assert(kept[i] == tail[i - 1]);
                            }
                        }
                    }
                }
            }
        }
    }
}

/// What has been mapped stays at the front of what the guest sees.
proof fn lemma_front(state: MapStateView, call: MapCall, answers: Seq<MapAnswer>)
    requires
        step::accepted(
            platform_laws::map_rule(),
            |state: MapStateView, answer: MapAnswer| mapping::map_answers(state, answer),
            Step::Call(state, call),
            answers,
        ),
    ensures
        step::run(platform_laws::map_rule(), Step::Call(state, call), answers) matches Step::Done(
            Ok(seen),
        ) ==> state.mapped.len() <= seen.len() && seen.take(state.mapped.len() as int)
            == state.mapped,
    decreases answers.len(),
{
    reveal_with_fuel(step::run, 2);
    if answers.len() > 0 {
        assert(mapping::map_answers(state, answers[0]));
        match mapping::map_next(state, answers[0]) {
            Step::Call(after, then) => {
                lemma_front(after, then, answers.skip(1));
                if let Step::Done(Ok(seen)) = step::run(
                    platform_laws::map_rule(),
                    Step::Call(state, call),
                    answers,
                ) {
                    let m = state.mapped.len() as int;
                    assert(after.mapped.take(m) =~= state.mapped);
                    assert(seen.take(m) =~= seen.take(after.mapped.len() as int).take(m));
                }
            },
            Step::Done(Ok(seen)) => {
                assert(seen.take(state.mapped.len() as int) =~= state.mapped);
            },
            Step::Done(Err(_)) => {},
        }
    }
}

/// A region that was given to the guest is the next that it sees.
proof fn lemma_first_seen(
    state: MapStateView,
    call: MapCall,
    answers: Seq<MapAnswer>,
    seen: Seq<PlatformRegionMapping>,
)
    requires
        fits_stage(state, call),
        answers.len() > 0,
        step::accepted(
            platform_laws::map_rule(),
            |state: MapStateView, answer: MapAnswer| mapping::map_answers(state, answer),
            Step::Call(state, call),
            answers,
        ),
        mapping::map_next(state, answers[0]) matches Step::Call(after, _) && after.at != state.at,
        !skips(state, answers[0]),
        step::run(platform_laws::map_rule(), Step::Call(state, call), answers) == MapStepView::Done(
            Ok(seen),
        ),
    ensures
        state.mapped.len() < seen.len(),
        platform_laws::is_planned(state.plan[state.at], seen[state.mapped.len() as int]),
{
    assert(mapping::map_answers(state, answers[0]));
    if let Step::Call(after, then) = mapping::map_next(state, answers[0]) {
        lemma_front(after, then, answers.skip(1));
        let m = state.mapped.len() as int;
        assert(after.mapped.len() == m + 1);
        assert(seen[m] == seen.take(m + 1)[m]);
    }
}

/// The history from the start.
proof fn lemma_whole_history(plan: Seq<PlannedRegion>, answers: Seq<MapAnswer>)
    requires
        mapping::has_len(plan, 0),
        platform_laws::map_accepted(plan, answers),
    ensures
        ({
            let start = mapping::map_from(plan, 0, Seq::empty());
            let left_out = skipped(start, answers);
            &&& forall|k: int|
                #[trigger] left_out.contains(k) ==> 0 <= k < plan.len() && !platform_laws::mappable(
                    plan[k],
                )
            &&& match platform_laws::map_run(plan, answers) {
                Step::Done(Ok(seen)) => {
                    &&& guest_calls(seen) == given(start, answers)
                    &&& slots_of(seen) == allotted(start, answers)
                    &&& keeps(plan, 0, left_out, seen, 0)
                },
                _ => true,
            }
        }),
{
    let none = Seq::<PlatformRegionMapping>::empty();
    let start = mapping::map_from(plan, 0, none);
    if let Step::Call(state, call) = start {
        lemma_history(state, call, answers);
        assert(guest_calls(none) + given(start, answers) =~= given(start, answers));
        assert(slots_of(none) + (slot_in_hand(state) + allotted(start, answers)) =~= allotted(
            start,
            answers,
        ));
    } else {
        assert(guest_calls(none) =~= Seq::empty());
        assert(slots_of(none) =~= Seq::empty());
    }
}

/// The guest is given memory for the regions that it ends up with, once for each and in order, and
/// for nothing else; and just their slots are allotted.
pub proof fn law_guest_is_given_what_it_sees(plan: Seq<PlannedRegion>, answers: Seq<MapAnswer>)
    requires
        mapping::has_len(plan, 0),
        platform_laws::map_accepted(plan, answers),
    ensures
        ({
            let start = mapping::map_from(plan, 0, Seq::empty());
            platform_laws::map_run(plan, answers) matches Step::Done(Ok(seen)) ==> {
                &&& given(start, answers) == guest_calls(seen)
                &&& allotted(start, answers) == slots_of(seen)
            }
        }),
{
    lemma_whole_history(plan, answers);
}

/// The guest sees every region of the plan that was not left out, in order and where the plan puts
/// it; and only regions that VFIO lets nobody map are left out.
pub proof fn law_what_is_not_left_out_is_seen(plan: Seq<PlannedRegion>, answers: Seq<MapAnswer>)
    requires
        mapping::has_len(plan, 0),
        platform_laws::map_accepted(plan, answers),
    ensures
        ({
            let left_out = skipped(mapping::map_from(plan, 0, Seq::empty()), answers);
            let kept = kept_from(0, plan.len() as int, left_out);
            &&& forall|k: int|
                #[trigger] left_out.contains(k) ==> 0 <= k < plan.len() && !platform_laws::mappable(
                    plan[k],
                )
            &&& platform_laws::map_run(plan, answers) matches Step::Done(Ok(seen)) ==> {
                &&& seen.len() == kept.len()
                &&& forall|i: int|
                    0 <= i < seen.len() ==> 0 <= kept[i] < plan.len() && platform_laws::is_planned(
                        plan[kept[i]],
                        #[trigger] seen[i],
                    )
            }
        }),
{
    lemma_whole_history(plan, answers);
    let left_out = skipped(mapping::map_from(plan, 0, Seq::empty()), answers);
    let kept = kept_from(0, plan.len() as int, left_out);
    if let Step::Done(Ok(seen)) = platform_laws::map_run(plan, answers) {
        assert forall|i: int| 0 <= i < seen.len() implies 0 <= kept[i] < plan.len()
            && platform_laws::is_planned(plan[kept[i]], #[trigger] seen[i]) by {
            assert(0 <= kept[i] < plan.len());
        }
    }
}

/// If one region alone is left out, the guest sees all others where the plan puts them.
pub proof fn law_others_keep_their_place(
    plan: Seq<PlannedRegion>,
    answers: Seq<MapAnswer>,
    k: int,
)
    requires
        mapping::has_len(plan, 0),
        platform_laws::map_accepted(plan, answers),
        skipped(mapping::map_from(plan, 0, Seq::empty()), answers) == set![k],
    ensures
        platform_laws::map_run(plan, answers) matches Step::Done(Ok(seen)) ==> {
            &&& 0 <= k < plan.len()
            &&& seen.len() == plan.len() - 1
            &&& forall|i: int|
                0 <= i < k ==> platform_laws::is_planned(plan[i], #[trigger] seen[i])
            &&& forall|i: int|
                k <= i < seen.len() ==> platform_laws::is_planned(plan[i + 1], #[trigger] seen[i])
        },
{
    law_what_is_not_left_out_is_seen(plan, answers);
    let left_out = skipped(mapping::map_from(plan, 0, Seq::empty()), answers);
    let kept = kept_from(0, plan.len() as int, left_out);
    assert(left_out.contains(k));
    lemma_kept_but_one(0, plan.len() as int, left_out, k);
    if let Step::Done(Ok(seen)) = platform_laws::map_run(plan, answers) {
        assert forall|i: int| 0 <= i < k implies platform_laws::is_planned(
            plan[i],
            #[trigger] seen[i],
        ) by {
            assert(kept[i] == i);
        }
        assert forall|i: int| k <= i < seen.len() implies platform_laws::is_planned(
            plan[i + 1],
            #[trigger] seen[i],
        ) by {
            assert(kept[i] == i + 1);
        }
    }
}

} // verus!
