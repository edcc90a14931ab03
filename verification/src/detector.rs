//! The state that a criticality detector keeps: the observed time series,
//! the perturbations applied to the system and the recovery of each.
//!
//! The state is generic over the sample type `S`: it stores, orders and looks
//! samples up, while the arithmetic on them is handed in by the caller.
use vstd::prelude::*;

verus! {

/// A perturbation applied to the system.
#[derive(Debug, Clone, Copy)]
pub struct Perturbation<S> {
    /// Index of the observation at which the perturbation was applied.
    pub index: usize,
    /// Magnitude of the perturbation.
    pub magnitude: S,
    /// Time step at which the perturbation occurred.
    pub time_step: usize,
}

/// The recovery of the system from one perturbation.
#[derive(Debug, Clone, Copy)]
pub struct RecoveryEvent<S> {
    pub perturbation_time: usize,
    pub recovery_time: Option<usize>,
    pub baseline_value: S,
    pub perturbed_value: S,
}

/// The same event, marked as recovered at `time`.
pub open spec fn recovered_at<S>(ev: RecoveryEvent<S>, time: usize) -> RecoveryEvent<S> {
    RecoveryEvent {
        perturbation_time: ev.perturbation_time,
        recovery_time: Some(time),
        baseline_value: ev.baseline_value,
        perturbed_value: ev.perturbed_value,
    }
}

/// How long the system took to recover from the perturbation of `ev`: the
/// distance from the perturbation to the recovery, or 0 where the recovery is
/// recorded as earlier than the perturbation.
pub open spec fn recovery_duration<S>(ev: RecoveryEvent<S>) -> nat {
    match ev.recovery_time {
        Some(t) => if t >= ev.perturbation_time {
            (t - ev.perturbation_time) as nat
        } else {
            0
        },
        None => 0,
    }
}

/// The number of events of `evs` that have recovered.
pub open spec fn recovered_count<S>(evs: Seq<RecoveryEvent<S>>) -> nat
    decreases evs.len(),
{
    if evs.len() == 0 {
        0
    } else {
        recovered_count(evs.drop_last()) + if evs.last().recovery_time is Some {
            1nat
        } else {
            0nat
        }
    }
}

/// The recovery durations of the events of `evs`, summed.
pub open spec fn total_recovery_duration<S>(evs: Seq<RecoveryEvent<S>>) -> nat
    decreases evs.len(),
{
    if evs.len() == 0 {
        0
    } else {
        total_recovery_duration(evs.drop_last()) + recovery_duration(evs.last())
    }
}

/// The number of recovered events is at most the number of events.
pub proof fn lemma_recovered_count_bounded<S>(evs: Seq<RecoveryEvent<S>>)
    ensures
        recovered_count(evs) <= evs.len(),
    decreases evs.len(),
{
    if evs.len() > 0 {
        lemma_recovered_count_bounded(evs.drop_last());
    }
}

/// Where no event has recovered, the total recovery duration is 0.
pub proof fn lemma_no_recovery_no_duration<S>(evs: Seq<RecoveryEvent<S>>)
    requires
        recovered_count(evs) == 0,
    ensures
        total_recovery_duration(evs) == 0,
    decreases evs.len(),
{
    if evs.len() > 0 {
        lemma_no_recovery_no_duration(evs.drop_last());
    }
}

/// Marking an event as recovered at `time` records exactly that time and
/// leaves the rest of the event as it was; its recovery duration is then the
/// distance from the perturbation to `time` (0 if `time` is earlier).
pub proof fn lemma_recovered_at<S>(ev: RecoveryEvent<S>, time: usize)
    ensures
        recovered_at(ev, time).recovery_time == Some(time),
        recovered_at(ev, time).perturbation_time == ev.perturbation_time,
        recovered_at(ev, time).baseline_value == ev.baseline_value,
        recovered_at(ev, time).perturbed_value == ev.perturbed_value,
        time >= ev.perturbation_time ==> recovery_duration(recovered_at(ev, time)) + ev.perturbation_time
            == time,
        time < ev.perturbation_time ==> recovery_duration(recovered_at(ev, time)) == 0,
{
}

/// An event that has not recovered has no recovery duration; a recovered
/// one's duration is how far its recovery lies after its perturbation.
pub proof fn lemma_recovery_duration<S>(ev: RecoveryEvent<S>)
    ensures
        ev.recovery_time is None ==> recovery_duration(ev) == 0,
        ev.recovery_time is Some && ev.recovery_time->0 >= ev.perturbation_time ==> recovery_duration(ev)
            + ev.perturbation_time == ev.recovery_time->0,
        ev.recovery_time is Some && ev.recovery_time->0 < ev.perturbation_time ==> recovery_duration(ev)
            == 0,
{
}

/// Appending an event raises the recovered count by one exactly when the
/// event has recovered, whatever the count before, and raises the total
/// duration by the event's duration.
pub proof fn lemma_totals_push<S>(evs: Seq<RecoveryEvent<S>>, ev: RecoveryEvent<S>)
    ensures
        ev.recovery_time is Some ==> recovered_count(evs.push(ev)) == recovered_count(evs) + 1,
        ev.recovery_time is None ==> recovered_count(evs.push(ev)) == recovered_count(evs),
        total_recovery_duration(evs.push(ev)) == total_recovery_duration(evs) + recovery_duration(ev),
{
    assert(evs.push(ev).drop_last() =~= evs);
}

/// The recovered count is the number of events whose recovery time is set.
pub proof fn lemma_recovered_count_is_filter<S>(evs: Seq<RecoveryEvent<S>>)
    ensures
        recovered_count(evs) == evs.filter(|e: RecoveryEvent<S>| e.recovery_time is Some).len(),
    decreases evs.len(),
{
    reveal_with_fuel(Seq::<_>::filter, 1);
    if evs.len() > 0 {
        lemma_recovered_count_is_filter(evs.drop_last());
    }
}

/// Every event counts: with all events recovered the count is the number of
/// events, with none recovered it is 0.
pub proof fn lemma_recovered_count_extremes<S>(evs: Seq<RecoveryEvent<S>>)
    ensures
        (forall|i: int| 0 <= i < evs.len() ==> (#[trigger] evs[i]).recovery_time is Some)
            ==> recovered_count(evs) == evs.len(),
        (forall|i: int| 0 <= i < evs.len() ==> (#[trigger] evs[i]).recovery_time is None)
            ==> recovered_count(evs) == 0,
    decreases evs.len(),
{
    if evs.len() > 0 {
        let prefix = evs.drop_last();
        assert forall|i: int| 0 <= i < prefix.len() implies #[trigger] prefix[i] == evs[i] by {}
        lemma_recovered_count_extremes(prefix);
    }
}

/// The number of leading observations that a detector takes as its early,
/// pre-transition regime.
pub const EARLY_WINDOW: usize = 10;

/// Every event of `before` that had recovered is unchanged in `after`, and
/// no event was dropped.
pub open spec fn recoveries_kept<S>(before: Seq<RecoveryEvent<S>>, after: Seq<RecoveryEvent<S>>) -> bool {
    &&& before.len() <= after.len()
    &&& forall|i: int|
        0 <= i < before.len() && (#[trigger] before[i]).recovery_time is Some ==> after[i] == before[i]
}

/// The observations, perturbations and recoveries of one detector.
pub struct DetectorState<S> {
    history: Vec<S>,
    perturbations: Vec<Perturbation<S>>,
    recoveries: Vec<RecoveryEvent<S>>,
    baseline: S,
    rest_baseline: S,
}

impl<S: Copy> DetectorState<S> {
    /// The observed time series, oldest first.
    pub closed spec fn spec_history(&self) -> Seq<S> {
        self.history@
    }

    /// The recorded perturbations, in the order they were recorded.
    pub closed spec fn spec_perturbations(&self) -> Seq<Perturbation<S>> {
        self.perturbations@
    }

    /// One recovery event per recorded perturbation, in the same order.
    pub closed spec fn spec_recoveries(&self) -> Seq<RecoveryEvent<S>> {
        self.recoveries@
    }

    /// The baseline that holds while nothing has been observed.
    pub closed spec fn spec_rest_baseline(&self) -> S {
        self.rest_baseline
    }

    /// The baseline of the system: its first observation, or the resting
    /// baseline while nothing has been observed.
    pub open spec fn spec_baseline(&self) -> S {
        if self.spec_history().len() == 0 {
            self.spec_rest_baseline()
        } else {
            self.spec_history()[0]
        }
    }

    /// The value that a perturbation at observation `index` is measured from:
    /// that observation where it exists, else the baseline.
    pub open spec fn baseline_at(&self, index: int) -> S {
        if 0 <= index < self.spec_history().len() {
            self.spec_history()[index]
        } else {
            self.spec_baseline()
        }
    }

    /// A perturbation at an existing observation is measured from that
    /// observation, whatever the index; beyond the history it is measured
    /// from the first observation, or from the resting baseline while
    /// nothing has been observed.
    pub proof fn lemma_baseline_at(&self, index: int)
        ensures
            0 <= index < self.spec_history().len() ==> self.baseline_at(index) == self.spec_history()[index],
            !(0 <= index < self.spec_history().len()) && self.spec_history().len() > 0
                ==> self.baseline_at(index) == self.spec_history()[0],
            self.spec_history().len() == 0 ==> self.baseline_at(index) == self.spec_rest_baseline(),
    {
    }

    /// Each recovery event belongs to the perturbation at the same position.
    pub open spec fn events_aligned(&self) -> bool {
        &&& self.spec_perturbations().len() == self.spec_recoveries().len()
        &&& forall|i: int|
            0 <= i < self.spec_recoveries().len() ==> #[trigger] self.spec_recoveries()[i].perturbation_time
                == self.spec_perturbations()[i].time_step
    }

    /// The internal invariant of the state.
    pub closed spec fn well_formed(&self) -> bool {
        &&& self.baseline == self.spec_baseline()
        &&& self.events_aligned()
    }

    /// Each recovery event belongs to the perturbation recorded with it: the
    /// two lists have the same length and the same time steps, whatever
    /// operations led to the state.
    pub proof fn lemma_events_aligned(&self)
        requires
            self.well_formed(),
        ensures
            self.events_aligned(),
    {
    }

    /// An empty state whose baseline is `rest_baseline` until the first
    /// observation.
    pub fn new(rest_baseline: S) -> (r: Self)
        ensures
            r.well_formed(),
            r.spec_history() == Seq::<S>::empty(),
            r.spec_perturbations() == Seq::<Perturbation<S>>::empty(),
            r.spec_recoveries() == Seq::<RecoveryEvent<S>>::empty(),
            r.spec_rest_baseline() == rest_baseline,
    {
        DetectorState {
            history: Vec::new(),
            perturbations: Vec::new(),
            recoveries: Vec::new(),
            baseline: rest_baseline,
            rest_baseline,
        }
    }

    /// Record an observation of the system state.
    pub fn observe(&mut self, value: S)
        requires
            old(self).well_formed(),
        ensures
            final(self).well_formed(),
            final(self).spec_history() == old(self).spec_history().push(value),
            final(self).spec_perturbations() == old(self).spec_perturbations(),
            final(self).spec_recoveries() == old(self).spec_recoveries(),
            final(self).spec_rest_baseline() == old(self).spec_rest_baseline(),
            recoveries_kept(old(self).spec_recoveries(), final(self).spec_recoveries()),
    {
        if self.history.is_empty() {
            self.baseline = value;
        }
        self.history.push(value);
    }

    /// The observed time series.
    pub fn history(&self) -> (r: &[S])
        ensures
            r@ == self.spec_history(),
    {
        self.history.as_slice()
    }

    /// The recovery events, one per recorded perturbation.
    pub fn recoveries(&self) -> (r: &[RecoveryEvent<S>])
        ensures
            r@ == self.spec_recoveries(),
    {
        self.recoveries.as_slice()
    }

    /// Forget every observation, perturbation and recovery.
    pub fn reset(&mut self)
        requires
            old(self).well_formed(),
        ensures
            final(self).well_formed(),
            final(self).spec_history() == Seq::<S>::empty(),
            final(self).spec_perturbations() == Seq::<Perturbation<S>>::empty(),
            final(self).spec_recoveries() == Seq::<RecoveryEvent<S>>::empty(),
            final(self).spec_rest_baseline() == old(self).spec_rest_baseline(),
    {
        self.history.clear();
        self.perturbations.clear();
        self.recoveries.clear();
        self.baseline = self.rest_baseline;
    }

    /// Record a perturbation of `magnitude` applied at observation `index`
    /// and time step `time_step`, and open its recovery event.
    ///
    /// The event's baseline is the observation at `index` where there is one,
    /// and the system's baseline otherwise; its perturbed value is what
    /// `offset` gives for that baseline and the magnitude.
    pub fn record_perturbation<F: Fn(S, S) -> S>(
        &mut self,
        index: usize,
        magnitude: S,
        time_step: usize,
        offset: F,
    )
        requires
            old(self).well_formed(),
            forall|b: S, m: S| offset.requires((b, m)),
        ensures
            final(self).well_formed(),
            final(self).spec_history() == old(self).spec_history(),
            final(self).spec_rest_baseline() == old(self).spec_rest_baseline(),
            final(self).spec_perturbations() == old(self).spec_perturbations().push(
                Perturbation { index, magnitude, time_step },
            ),
            final(self).spec_recoveries().len() == old(self).spec_recoveries().len() + 1,
            final(self).spec_recoveries().drop_last() == old(self).spec_recoveries(),
            final(self).spec_recoveries().last().perturbation_time == time_step,
            final(self).spec_recoveries().last().recovery_time == None::<usize>,
            final(self).spec_recoveries().last().baseline_value == old(self).baseline_at(index as int),
            index < old(self).spec_history().len() ==> final(self).spec_recoveries().last().baseline_value
                == old(self).spec_history()[index as int],
            index >= old(self).spec_history().len() && old(self).spec_history().len() > 0
                ==> final(self).spec_recoveries().last().baseline_value == old(self).spec_history()[0],
            old(self).spec_history().len() == 0 ==> final(self).spec_recoveries().last().baseline_value
                == old(self).spec_rest_baseline(),
            call_ensures(
                offset,
                (old(self).baseline_at(index as int), magnitude),
                final(self).spec_recoveries().last().perturbed_value,
            ),
            recoveries_kept(old(self).spec_recoveries(), final(self).spec_recoveries()),
    {
        let baseline = if index < self.history.len() {
            self.history[index]
        } else {
            self.baseline
        };
        let perturbed_value = offset(baseline, magnitude);
        self.perturbations.push(Perturbation { index, magnitude, time_step });
        self.recoveries.push(
            RecoveryEvent {
                perturbation_time: time_step,
                recovery_time: None,
                baseline_value: baseline,
                perturbed_value,
            },
        );
        proof {
            assert(self.recoveries@.drop_last() =~= old(self).recoveries@);
            assert(forall|i: int| 0 <= i < old(self).recoveries@.len() ==> self.recoveries@[i] == old(self).recoveries@[i]);
        }
    }

    /// Check whether the system has recovered from perturbation
    /// `perturbation_idx`, judging the latest observation against the
    /// event's baseline with `within_tolerance(current, baseline)`.
    ///
    /// An unknown perturbation has not recovered; one already marked as
    /// recovered stays so; with no observation there is nothing to judge.
    /// Otherwise the event is marked as recovered at `current_time` exactly
    /// when `within_tolerance` accepts.
    pub fn check_recovery<F: Fn(S, S) -> bool>(
        &mut self,
        perturbation_idx: usize,
        current_time: usize,
        within_tolerance: F,
    ) -> (r: bool)
        requires
            old(self).well_formed(),
            forall|c: S, b: S| within_tolerance.requires((c, b)),
        ensures
            final(self).well_formed(),
            final(self).spec_history() == old(self).spec_history(),
            final(self).spec_perturbations() == old(self).spec_perturbations(),
            final(self).spec_rest_baseline() == old(self).spec_rest_baseline(),
            recoveries_kept(old(self).spec_recoveries(), final(self).spec_recoveries()),
            r == (perturbation_idx < final(self).spec_recoveries().len()
                && final(self).spec_recoveries()[perturbation_idx as int].recovery_time is Some),
            perturbation_idx >= old(self).spec_recoveries().len() ==> {
                &&& !r
                &&& final(self).spec_recoveries() == old(self).spec_recoveries()
            },
            perturbation_idx < old(self).spec_recoveries().len() ==> {
                let ev = old(self).spec_recoveries()[perturbation_idx as int];
                let hist = old(self).spec_history();
                if ev.recovery_time is Some {
                    &&& r
                    &&& final(self).spec_recoveries() == old(self).spec_recoveries()
                } else if hist.len() == 0 {
                    &&& !r
                    &&& final(self).spec_recoveries() == old(self).spec_recoveries()
                } else {
                    &&& call_ensures(within_tolerance, (hist.last(), ev.baseline_value), r)
                    &&& r ==> final(self).spec_recoveries() == old(self).spec_recoveries().update(
                        perturbation_idx as int,
                        recovered_at(ev, current_time),
                    )
                    &&& !r ==> final(self).spec_recoveries() == old(self).spec_recoveries()
                    &&& r ==> final(self).spec_recoveries()[perturbation_idx as int].recovery_time == Some(
                        current_time,
                    )
                    &&& r ==> final(self).spec_recoveries()[perturbation_idx as int].perturbation_time
                        == ev.perturbation_time
                }
            },
    {
        if perturbation_idx >= self.recoveries.len() {
            return false;
        }
        if self.recoveries[perturbation_idx].recovery_time.is_some() {
            return true;
        }
        if self.history.is_empty() {
            return false;
        }
        let current = self.history[self.history.len() - 1];
        let ev = self.recoveries[perturbation_idx];
        if within_tolerance(current, ev.baseline_value) {
            self.recoveries[perturbation_idx] = RecoveryEvent {
                perturbation_time: ev.perturbation_time,
                recovery_time: Some(current_time),
                baseline_value: ev.baseline_value,
                perturbed_value: ev.perturbed_value,
            };
            true
        } else {
            false
        }
    }

    /// The summed recovery durations of the recovered events and their
    /// number, or `None` where the sum exceeds `usize::MAX`.
    pub fn recovery_totals(&self) -> (r: Option<(usize, usize)>)
        ensures
            total_recovery_duration(self.spec_recoveries()) <= usize::MAX ==> r == Some(
                (
                    total_recovery_duration(self.spec_recoveries()) as usize,
                    recovered_count(self.spec_recoveries()) as usize,
                ),
            ),
            total_recovery_duration(self.spec_recoveries()) > usize::MAX ==> r is None,
            recovered_count(self.spec_recoveries()) <= self.spec_recoveries().len(),
            recovered_count(self.spec_recoveries()) == 0 ==> r == Some((0usize, 0usize)),
    {
        let n = self.recoveries.len();
        let mut total: usize = 0;
        let mut count: usize = 0;
        let mut i: usize = 0;
        let mut overflow = false;
        proof {
            lemma_recovered_count_bounded(self.recoveries@);
        }
        while i < n
            invariant
                n == self.recoveries@.len(),
                0 <= i <= n,
                count == recovered_count(self.recoveries@.take(i as int)),
                !overflow ==> total == total_recovery_duration(self.recoveries@.take(i as int)),
                overflow ==> total_recovery_duration(self.recoveries@.take(i as int)) > usize::MAX,
            decreases n - i,
        {
            let ghost prefix = self.recoveries@.take(i as int);
            let ghost next = self.recoveries@.take(i + 1);
            proof {
                assert(next.drop_last() =~= prefix);
                lemma_recovered_count_bounded(next);
            }
            let ev = &self.recoveries[i];
            match ev.recovery_time {
                Some(t) => {
                    count = count + 1;
                    let d = t.saturating_sub(ev.perturbation_time);
                    if !overflow {
                        match total.checked_add(d) {
                            Some(v) => total = v,
                            None => overflow = true,
                        }
                    }
                },
                None => {},
            }
            i = i + 1;
        }
        proof {
            assert(self.recoveries@.take(n as int) =~= self.recoveries@);
            lemma_recovered_count_bounded(self.recoveries@);
            if recovered_count(self.recoveries@) == 0 {
                lemma_no_recovery_no_duration(self.recoveries@);
            }
        }
        if overflow {
            None
        } else {
            Some((total, count))
        }
    }

    /// Apply a statistic to each sliding window of `window` observations.
    ///
    /// With at least `window` observations, the result holds
    /// `per_window(start, start + window)` for every window start, in order:
    /// `len - window + 1` values. With fewer observations it holds the single
    /// value `whole()`, a statistic of the entire series.
    pub fn rolling<R, F: Fn(usize, usize) -> R, G: Fn() -> R>(
        &self,
        window: usize,
        per_window: F,
        whole: G,
    ) -> (r: Vec<R>)
        requires
            forall|s: usize, e: usize|
                s <= e <= self.spec_history().len() ==> #[trigger] per_window.requires((s, e)),
            whole.requires(()),
        ensures
            self.spec_history().len() < window ==> {
                &&& r@.len() == 1
                &&& call_ensures(whole, (), r@[0])
            },
            self.spec_history().len() >= window ==> {
                &&& r@.len() == self.spec_history().len() - window + 1
                &&& forall|i: int|
                    0 <= i < r@.len() ==> call_ensures(
                        per_window,
                        (i as usize, (i + window) as usize),
                        #[trigger] r@[i],
                    )
            },
    {
        let len = self.history.len();
        let mut result: Vec<R> = Vec::new();
        if len < window {
            let v = whole();
            result.push(v);
            return result;
        }
        let last = len - window;
        let mut start: usize = 0;
        loop
            invariant_except_break
                len == self.spec_history().len(),
                window <= len,
                last == len - window,
                start <= last,
                result@.len() == start,
                forall|s: usize, e: usize|
                    s <= e <= self.spec_history().len() ==> #[trigger] per_window.requires((s, e)),
                forall|i: int|
                    0 <= i < result@.len() ==> call_ensures(
                        per_window,
                        (i as usize, (i + window) as usize),
                        #[trigger] result@[i],
                    ),
            ensures
                result@.len() == last + 1,
                forall|i: int|
                    0 <= i < result@.len() ==> call_ensures(
                        per_window,
                        (i as usize, (i + window) as usize),
                        #[trigger] result@[i],
                    ),
            decreases last - start,
        {
            let v = per_window(start, start + window);
            result.push(v);
            if start == last {
                break;
            }
            start = start + 1;
        }
        result
    }

    /// The early regime of the series: its first `EARLY_WINDOW` observations,
    /// where there are more than that many.
    pub fn early_history(&self) -> (r: Option<&[S]>)
        ensures
            self.spec_history().len() > EARLY_WINDOW ==> (r matches Some(w) && w@ == self.spec_history().take(
                EARLY_WINDOW as int,
            )),
            self.spec_history().len() <= EARLY_WINDOW ==> r is None,
            r matches Some(w) ==> w@.len() == 10 && self.spec_history().len() > 10,
            self.spec_history().len() > 10 ==> r is Some,
    {
        if self.history.len() > EARLY_WINDOW {
            Some(vstd::slice::slice_subrange(self.history.as_slice(), 0, EARLY_WINDOW))
        } else {
            None
        }
    }
}

} // verus!
