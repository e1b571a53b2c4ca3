//! The fan-in of the forecast fetches: one fetch per ranked location, joined
//! under a first-failure-wins policy, results kept in ranking order.
//!
//! The caller runs the fetches concurrently and reports each outcome to a
//! `FanIn` as it arrives; the `FanIn` decides when the aggregate is settled.

use vstd::prelude::*;

use crate::failure::Failure;
use crate::location::Location;
use crate::weather::Weather;

verus! {

/// One entry of the aggregate result: a location and the weather there.
#[derive(Debug)]
pub struct ResultItem {
    pub location: Location,
    pub weather: Weather,
}

/// What the join knows after an outcome came in.
#[derive(Debug)]
pub enum Verdict {
    /// Some fetches have yet to report, and none has failed.
    Pending,
    /// This outcome is the first failure: the aggregate fails with it.
    Failed(Failure),
    /// Every fetch has reported success.
    Complete,
    /// The aggregate had already failed; this outcome is dropped.
    Discarded,
}

/// The join of the forecast fetches for a list of ranked locations.
pub struct FanIn {
    locations: Vec<Location>,
    slots: Vec<Option<Weather>>,
    failed: bool,
}

/// Whether every fetch has reported a weather.
pub open spec fn all_filled(slots: Seq<Option<Weather>>) -> bool {
    forall|j: int| 0 <= j < slots.len() ==> #[trigger] slots[j] is Some
}

/// The weathers that have been reported, in location order.
pub open spec fn filled_weathers(slots: Seq<Option<Weather>>) -> Seq<Weather> {
    slots.map_values(|o: Option<Weather>| o->Some_0)
}

/// No fetch has reported yet.
pub open spec fn no_reports(n: nat) -> Seq<Option<Weather>> {
    Seq::new(n, |i: int| None)
}

/// The aggregate that the join settles on, given what has been reported so far
/// and the outcomes that come in after it, in the order they come in (each
/// the index of a location and what its fetch gave). `None` while it is not
/// settled: as soon as every fetch has succeeded it is their weathers in
/// location order; as soon as a fetch fails it is that failure.
pub open spec fn join_outcome(
    slots: Seq<Option<Weather>>,
    events: Seq<(int, Result<Weather, Failure>)>,
) -> Option<Result<Seq<Weather>, Failure>>
    decreases events.len(),
{
    if all_filled(slots) {
        Some(Ok(filled_weathers(slots)))
    } else if events.len() == 0 {
        None
    } else {
        match events[0].1 {
            Err(f) => Some(Err(f)),
            Ok(w) => join_outcome(slots.update(events[0].0, Some(w)), events.drop_first()),
        }
    }
}

/// Every event names one of `n` locations, and the events up to `upto`
/// (exclusive) name pairwise distinct ones.
pub open spec fn distinct_reports(
    n: nat,
    events: Seq<(int, Result<Weather, Failure>)>,
    upto: int,
) -> bool {
    &&& forall|t: int| 0 <= t < events.len() ==> 0 <= #[trigger] events[t].0 < n
    &&& forall|s: int, t: int|
        0 <= s < t < upto ==> #[trigger] events[s].0 != #[trigger] events[t].0
}

/// Some event names the location at `j`.
pub open spec fn reported(events: Seq<(int, Result<Weather, Failure>)>, j: int) -> bool {
    exists|t: int| 0 <= t < events.len() && #[trigger] events[t].0 == j
}

impl FanIn {
    /// The locations whose fetches are joined, in ranking order.
    pub closed spec fn locations(&self) -> Seq<Location> {
        self.locations@
    }

    /// For each location, the weather its fetch reported, if it has.
    pub closed spec fn slots(&self) -> Seq<Option<Weather>> {
        self.slots@
    }

    /// Whether a fetch has failed.
    pub closed spec fn failed(&self) -> bool {
        self.failed
    }

    /// The join's own consistency: one slot per location.
    pub closed spec fn wf(&self) -> bool {
        self.slots@.len() == self.locations@.len()
    }

    /// A join of the fetches for `locations`, none of which has reported.
    pub fn new(locations: Vec<Location>) -> (r: FanIn)
        ensures
            r.wf(),
            r.locations() == locations@,
            r.slots() == no_reports(locations@.len()),
            !r.failed(),
    {
        let n = locations.len();
        let mut slots: Vec<Option<Weather>> = Vec::new();
        while slots.len() < n
            invariant
                slots.len() <= n,
                forall|j: int| 0 <= j < slots.len() ==> #[trigger] slots@[j] is None,
            decreases n - slots.len(),
        {
            slots.push(None);
        }
        assert(slots@ =~= no_reports(n as nat));
        FanIn { locations, slots, failed: false }
    }

    /// The number of fetches joined.
    pub fn len(&self) -> (r: usize)
        requires
            self.wf(),
        ensures
            r == self.locations().len(),
            r == self.slots().len(),
    {
        self.locations.len()
    }

    /// Whether every fetch has succeeded, so that the aggregate can be taken.
    /// With no locations this holds from the start.
    pub fn is_complete(&self) -> (r: bool)
        ensures
            r == (!self.failed() && all_filled(self.slots())),
    {
        if self.failed {
            return false;
        }
        let mut j: usize = 0;
        while j < self.slots.len()
            invariant
                j <= self.slots@.len(),
                forall|i: int| 0 <= i < j ==> #[trigger] self.slots@[i] is Some,
            decreases self.slots@.len() - j,
        {
            if self.slots[j].is_none() {
                return false;
            }
            j = j + 1;
        }
        true
    }

    /// Takes in what the fetch for the location at `index` gave.
    ///
    /// The first failure settles the aggregate; outcomes that come in after
    /// it are dropped. A success fills the location's slot, and completes the
    /// join when it is the last one missing.
    pub fn accept(&mut self, index: usize, outcome: Result<Weather, Failure>) -> (r: Verdict)
        requires
            old(self).wf(),
            index < old(self).slots().len(),
            !old(self).failed() ==> old(self).slots()[index as int] is None,
        ensures
            final(self).wf(),
            final(self).locations() == old(self).locations(),
            old(self).failed() ==> (r is Discarded && final(self).slots() == old(self).slots()
                && final(self).failed()),
            !old(self).failed() ==> match outcome {
                Err(f) => r == Verdict::Failed(f) && final(self).failed() && final(self).slots()
                    == old(self).slots(),
                Ok(w) => !final(self).failed() && final(self).slots() == old(self).slots().update(
                    index as int,
                    Some(w),
                ) && (r is Complete <==> all_filled(final(self).slots())) && (r is Pending
                    <==> !all_filled(final(self).slots())),
            },
    {
        if self.failed {
            return Verdict::Discarded;
        }
        match outcome {
            Err(f) => {
                self.failed = true;
                Verdict::Failed(f)
            },
            Ok(w) => {
                self.slots.set(index, Some(w));
                if self.is_complete() {
                    Verdict::Complete
                } else {
                    Verdict::Pending
                }
            },
        }
    }

    /// The aggregate of a complete join: each location with its weather, in
    /// ranking order.
    pub fn finish(self) -> (r: Vec<ResultItem>)
        requires
            self.wf(),
            !self.failed(),
            all_filled(self.slots()),
        ensures
            r@.len() == self.locations().len(),
            forall|i: int|
                0 <= i < r@.len() ==> (#[trigger] r@[i]).location == self.locations()[i]
                    && r@[i].weather == filled_weathers(self.slots())[i],
    {
        let ghost locs = self.locations@;
        let ghost slots = self.slots@;
        let n = self.locations.len();
        let mut locations = self.locations;
        let mut weathers = self.slots;
        let mut items: Vec<ResultItem> = Vec::new();
        while items.len() < n
            invariant
                n == locs.len(),
                n == slots.len(),
                all_filled(slots),
                items.len() <= n,
                locations@ == locs.subrange(items.len() as int, n as int),
                weathers@ == slots.subrange(items.len() as int, n as int),
                forall|i: int|
                    0 <= i < items@.len() ==> (#[trigger] items@[i]).location == locs[i]
                        && items@[i].weather == filled_weathers(slots)[i],
            decreases n - items.len(),
        {
            let ghost k = items.len() as int;
            let location = locations.remove(0);
            let slot = weathers.remove(0);
            assert(slot == slots[k]);
            let weather = slot.unwrap();
            items.push(ResultItem { location, weather });
            proof {
                assert(locations@ =~= locs.subrange(items.len() as int, n as int));
                assert(weathers@ =~= slots.subrange(items.len() as int, n as int));
            }
        }
        items
    }
}

proof fn lemma_failure_settles(
    n: nat,
    slots: Seq<Option<Weather>>,
    events: Seq<(int, Result<Weather, Failure>)>,
    k: int,
)
    requires
        slots.len() == n,
        0 <= k < events.len(),
        forall|t: int| 0 <= t < events.len() ==> 0 <= #[trigger] events[t].0 < n,
        forall|t: int| 0 <= t < k ==> #[trigger] events[t].0 != events[k].0,
        forall|t: int| 0 <= t < k ==> (#[trigger] events[t]).1 is Ok,
        events[k].1 is Err,
        slots[events[k].0] is None,
    ensures
        join_outcome(slots, events) == Some(Err::<Seq<Weather>, Failure>(events[k].1->Err_0)),
    decreases k,
{
    assert(!(slots[events[k].0] is Some));
    assert(!all_filled(slots));
    if k > 0 {
        let w = events[0].1->Ok_0;
        let next = slots.update(events[0].0, Some(w));
        let rest = events.drop_first();
        assert(rest[k - 1] == events[k]);
        assert forall|t: int| 0 <= t < k - 1 implies #[trigger] rest[t].0 != rest[k - 1].0 by {
            assert(rest[t] == events[t + 1]);
        }
        assert forall|t: int| 0 <= t < k - 1 implies (#[trigger] rest[t]).1 is Ok by {
            assert(rest[t] == events[t + 1]);
        }
        assert forall|t: int| 0 <= t < rest.len() implies 0 <= #[trigger] rest[t].0 < n by {
            assert(rest[t] == events[t + 1]);
        }
        lemma_failure_settles(n, next, rest, k - 1);
    }
}

/// First failure wins: however the fetches interleave, once a fetch fails
/// before every fetch has succeeded, the aggregate is that failure, never a
/// partial list of results. Here the events are the outcomes in the order
/// they came in, the one at `k` is the first failure, and the fetches that
/// reported up to it are distinct.
pub proof fn lemma_first_failure_wins(
    n: nat,
    events: Seq<(int, Result<Weather, Failure>)>,
    k: int,
)
    requires
        0 <= k < events.len(),
        distinct_reports(n, events, k + 1),
        events[k].1 is Err,
        forall|t: int| 0 <= t < k ==> (#[trigger] events[t]).1 is Ok,
    ensures
        join_outcome(no_reports(n), events) == Some(
            Err::<Seq<Weather>, Failure>(events[k].1->Err_0),
        ),
{
    assert forall|t: int| 0 <= t < k implies #[trigger] events[t].0 != events[k].0 by {
        assert(events[t].0 != events[k].0);
    }
    lemma_failure_settles(n, no_reports(n), events, k);
}

proof fn lemma_successes_settle(
    weathers: Seq<Weather>,
    slots: Seq<Option<Weather>>,
    events: Seq<(int, Result<Weather, Failure>)>,
)
    requires
        slots.len() == weathers.len(),
        distinct_reports(weathers.len(), events, events.len() as int),
        forall|t: int|
            0 <= t < events.len() ==> (#[trigger] events[t]).1 == Ok::<Weather, Failure>(
                weathers[events[t].0],
            ),
        forall|t: int| 0 <= t < events.len() ==> slots[#[trigger] events[t].0] is None,
        forall|j: int|
            0 <= j < slots.len() ==> #[trigger] slots[j] == Some(weathers[j]) || reported(
                events,
                j,
            ),
    ensures
        join_outcome(slots, events) == Some(Ok::<Seq<Weather>, Failure>(weathers)),
    decreases events.len(),
{
    if events.len() == 0 {
        assert(all_filled(slots));
        assert(filled_weathers(slots) =~= weathers);
    } else {
        let i0 = events[0].0;
        assert(!(slots[i0] is Some));
        assert(!all_filled(slots));
        let next = slots.update(i0, Some(weathers[i0]));
        let rest = events.drop_first();
        assert forall|t: int| 0 <= t < rest.len() implies 0 <= #[trigger] rest[t].0
            < weathers.len() by {
            assert(rest[t] == events[t + 1]);
        }
        assert forall|s: int, t: int|
            0 <= s < t < rest.len() implies #[trigger] rest[s].0
            != #[trigger] rest[t].0 by {
            assert(rest[s] == events[s + 1]);
            assert(rest[t] == events[t + 1]);
        }
        assert forall|t: int| 0 <= t < rest.len() implies (#[trigger] rest[t]).1 == Ok::<
            Weather,
            Failure,
        >(weathers[rest[t].0]) by {
            assert(rest[t] == events[t + 1]);
        }
        assert forall|t: int| 0 <= t < rest.len() implies next[#[trigger] rest[t].0] is None by {
            assert(rest[t] == events[t + 1]);
            assert(events[0].0 != events[t + 1].0);
        }
        assert forall|j: int| 0 <= j < next.len() implies #[trigger] next[j] == Some(weathers[j])
            || reported(rest, j) by {
            if j != i0 && next[j] != Some(weathers[j]) {
                assert(slots[j] != Some(weathers[j]));
                let t = choose|t: int| 0 <= t < events.len() && #[trigger] events[t].0 == j;
                assert(t != 0);
                assert(rest[t - 1] == events[t]);
            }
        }
        lemma_successes_settle(weathers, next, rest);
    }
}

/// The aggregate does not depend on the order in which the fetches finish:
/// when every location's fetch reports exactly once, and each reports the
/// weather at its location, the aggregate is those weathers in location
/// order, whatever the order of arrival.
pub proof fn lemma_order_of_arrival_irrelevant(
    weathers: Seq<Weather>,
    events: Seq<(int, Result<Weather, Failure>)>,
)
    requires
        distinct_reports(weathers.len(), events, events.len() as int),
        forall|j: int| 0 <= j < weathers.len() ==> #[trigger] reported(events, j),
        forall|t: int|
            0 <= t < events.len() ==> (#[trigger] events[t]).1 == Ok::<Weather, Failure>(
                weathers[events[t].0],
            ),
    ensures
        join_outcome(no_reports(weathers.len()), events) == Some(
            Ok::<Seq<Weather>, Failure>(weathers),
        ),
{
    let slots = no_reports(weathers.len());
    assert forall|j: int| 0 <= j < slots.len() implies #[trigger] slots[j] == Some(weathers[j])
        || reported(events, j) by {
        assert(reported(events, j));
    }
    lemma_successes_settle(weathers, slots, events);
}

} // verus!
