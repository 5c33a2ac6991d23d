use vstd::prelude::*;

use crate::dtypes::{
    Altitudes, Coordinate, Distances, Fraction, TargetSection, Times, WindowSection,
    MAX_DISTANCE_MM, MAX_DISTANCE_STEP_MM, MAX_SERIES_LEN, MAX_TIMESTAMP_MS, MAX_ALTITUDE_MM,
};
use crate::errors::InputDataError;
use crate::math::{count_valid, opt_seq_bounded, valid_count, lemma_valid_count_le_len};

verus! {

/// The tolerance used when a caller does not pass one: one percent.
pub open spec fn spec_default_tolerance() -> Fraction {
    Fraction { num: 1, den: 100 }
}

pub fn default_tolerance() -> (r: Fraction)
    ensures
        r == spec_default_tolerance(),
        r.wf(),
{
    Fraction { num: 1, den: 100 }
}

/// The mathematical shadow of one search call: the same series as sequences,
/// with the requested distance widened to an unbounded integer.
#[verifier::ext_equal]
pub struct InputView {
    pub desired_distance: int,
    pub tolerance: Fraction,
    pub coordinates: Seq<Coordinate>,
    pub times: Seq<Option<i64>>,
    pub distances: Seq<u64>,
    pub altitudes: Seq<Option<i64>>,
}

impl InputView {
    pub open spec fn len(&self) -> int {
        self.distances.len() as int
    }

    /// What validation establishes before any distance work happens.
    pub open spec fn wf_base(&self) -> bool {
        &&& 0 < self.desired_distance <= MAX_DISTANCE_MM
        &&& self.tolerance.wf()
        &&& self.coordinates.len() == self.times.len()
        &&& 2 <= self.coordinates.len() <= MAX_SERIES_LEN
        &&& opt_seq_bounded(self.times, MAX_TIMESTAMP_MS as int)
        &&& self.altitudes.len() <= MAX_SERIES_LEN
        &&& opt_seq_bounded(self.altitudes, MAX_ALTITUDE_MM as int)
    }

    /// What holds of the cumulative distance series once it is built: one
    /// entry per sample, starting at zero, never decreasing, never beyond the
    /// overall distance cap.
    pub open spec fn distances_ok(&self) -> bool {
        &&& self.distances.len() == self.coordinates.len()
        &&& self.distances.len() >= 1
        &&& self.distances[0] == 0
        &&& forall|i: int| 0 <= i < self.distances.len() ==> #[trigger] self.distances[i]
            <= MAX_DISTANCE_MM
        &&& forall|i: int| 0 <= i < self.distances.len() - 1 ==> #[trigger] self.distances[i]
            <= self.distances[i + 1]
    }
}

/// A non-decreasing series never steps backwards over any span.
pub proof fn lemma_distances_monotonic(v: InputView, s: int, e: int)
    requires
        v.distances_ok(),
        0 <= s <= e < v.distances.len(),
    ensures
        v.distances[s] <= v.distances[e],
    decreases e - s,
{
    if s < e {
        lemma_distances_monotonic(v, s, e - 1);
    }
}

/// The distance the window `[s, e]` covers.
pub open spec fn spec_window_distance(v: InputView, s: int, e: int) -> int {
    v.distances[e] - v.distances[s]
}

/// The symmetric candidacy band: the window distance lies within
/// `desired * (1 ± t)`, with both sides multiplied by the tolerance
/// denominator so the test is exact.
pub open spec fn spec_in_bounds(window_distance: int, desired: int, t: Fraction) -> bool {
    &&& window_distance * t.den <= desired * (t.den + t.num)
    &&& window_distance * t.den >= desired * (t.den - t.num)
}

/// Whether `window_distance` is close enough to `desired_distance`, as a
/// fraction of it.
pub fn distance_in_bounds(
    window_distance: u64,
    desired_distance: i64,
    percentage_threshold: Fraction,
) -> (r: bool)
    requires
        percentage_threshold.wf(),
        window_distance <= MAX_DISTANCE_MM,
        0 <= desired_distance <= MAX_DISTANCE_MM,
    ensures
        r == spec_in_bounds(
            window_distance as int,
            desired_distance as int,
            percentage_threshold,
        ),
{
    let wd: i128 = window_distance as i128;
    let de: i128 = desired_distance as i128;
    let di: i128 = percentage_threshold.den as i128;
    let ni: i128 = percentage_threshold.num as i128;
    proof {
        assert(wd * di <= 210000000000000000000000000000i128 && wd * di >= 0i128)
            by (nonlinear_arith)
            requires
                0 <= wd <= 210000000000000000i128,
                0 <= di <= 1000000000000i128,
        ;
        assert(de * (di + ni) <= 420000000000000000000000000000i128 && de * (di + ni) >= 0i128)
            by (nonlinear_arith)
            requires
                0 <= de <= 210000000000000000i128,
                0 <= di + ni <= 2000000000000i128,
        ;
        assert(de * (di - ni) <= 420000000000000000000000000000i128 && de * (di - ni)
            >= -420000000000000000000000000000i128) by (nonlinear_arith)
            requires
                0 <= de <= 210000000000000000i128,
                -1000000000000i128 <= di - ni <= 1000000000000i128,
        ;
    }
    let lhs: i128 = wd * di;
    lhs <= de * (di + ni) && lhs >= de * (di - ni)
}

/// How the best section reacts to one window: it is replaced exactly when
/// the window distance lies in the candidacy band and the window's metric
/// value strictly exceeds the best value seen so far — so a tie keeps the
/// window that was found first.
pub open spec fn spec_update_best(
    data: InputView,
    best: TargetSection,
    s: int,
    e: int,
    v: Fraction,
) -> TargetSection {
    if spec_in_bounds(spec_window_distance(data, s, e), data.desired_distance, data.tolerance)
        && Fraction::spec_gt(v, best.target_value) {
        TargetSection { start: s as u32, end: e as u32, target_value: v, valid: true }
    } else {
        best
    }
}

/// A window whose metric value merely equals the best value recorded so far
/// never replaces it: the earlier window wins the tie.
pub proof fn lemma_tie_keeps_earlier_best(
    data: InputView,
    best: TargetSection,
    s: int,
    e: int,
    v: Fraction,
)
    requires
        v.num * best.target_value.den == best.target_value.num * v.den,
    ensures
        spec_update_best(data, best, s, e, v) == best,
{
}

/// One move of the two-pointer scan from window `[s, e]`: grow the window
/// while it is shorter than the requested distance, otherwise slide its
/// start forward — or its end, when the window is already empty, so the scan
/// always makes progress.
pub open spec fn spec_scan_step(data: InputView, s: int, e: int) -> (int, int) {
    if spec_window_distance(data, s, e) < data.desired_distance {
        (s, e + 1)
    } else if s < e {
        (s + 1, e)
    } else {
        (s, e + 1)
    }
}

/// The whole scan, as a recursion over its `(start, end, best)` state: step,
/// offer the new window to the best section, and continue until the window
/// end reaches the last sample.
pub open spec fn spec_scan<M: MetricPolicy>(
    p: &M,
    data: InputView,
    s: int,
    e: int,
    best: TargetSection,
) -> TargetSection
    decreases data.distances.len() - 1 - e, e - s,
        when 0 <= s <= e <= data.distances.len() - 1
{
    if e >= data.distances.len() - 1 {
        best
    } else {
        let next = spec_scan_step(data, s, e);
        spec_scan(
            p,
            data,
            next.0,
            next.1,
            spec_update_best(data, best, next.0, next.1, p.spec_value(data, next.0, next.1)),
        )
    }
}

/// The engine-level side of the tie rule: once `best` is recorded, the rest
/// of the scan never displaces it as long as no later window strictly
/// exceeds its metric value — windows that merely tie it change nothing, so
/// the first window found with the maximal value wins.
pub proof fn lemma_scan_keeps_unbeaten_best<M: MetricPolicy>(
    p: &M,
    data: InputView,
    s: int,
    e: int,
    best: TargetSection,
)
    requires
        0 <= s <= e <= data.distances.len() - 1,
        forall|a: int, b: int|
            0 <= a <= b <= data.distances.len() - 1 ==> !Fraction::spec_gt(
                #[trigger] p.spec_value(data, a, b),
                best.target_value,
            ),
    ensures
        spec_scan(p, data, s, e, best) == best,
    decreases data.distances.len() - 1 - e, e - s,
{
    if e < data.distances.len() - 1 {
        let next = spec_scan_step(data, s, e);
        assert(!Fraction::spec_gt(p.spec_value(data, next.0, next.1), best.target_value));
        lemma_scan_keeps_unbeaten_best(p, data, next.0, next.1, best);
    }
}

/// If no window at all carries a positive metric value, the scan never
/// records a candidate and ends on the sentinel it started from.
pub proof fn lemma_scan_keeps_initial<M: MetricPolicy>(p: &M, data: InputView, s: int, e: int)
    requires
        0 <= s <= e <= data.distances.len() - 1,
        forall|a: int, b: int|
            0 <= a <= b <= data.distances.len() - 1 ==> #[trigger] p.spec_value(data, a, b).num
                == 0,
    ensures
        spec_scan(p, data, s, e, TargetSection::spec_initial()) == TargetSection::spec_initial(),
{
    assert forall|a: int, b: int|
        0 <= a <= b <= data.distances.len() - 1 implies !Fraction::spec_gt(
        #[trigger] p.spec_value(data, a, b),
        TargetSection::spec_initial().target_value,
    ) by {
        assert(p.spec_value(data, a, b).num == 0);
    }
    lemma_scan_keeps_unbeaten_best(p, data, s, e, TargetSection::spec_initial());
}

/// The strategy a search maximizes: how a window's metric value is defined,
/// and how the scan's bookkeeping step applies it.
pub trait MetricPolicy: Sized {
    /// What the policy needs of the input beyond the engine's own demands.
    spec fn data_ok(&self, data: InputView) -> bool;

    /// The metric value of the window `[s, e]`.
    spec fn spec_value(&self, data: InputView, s: int, e: int) -> Fraction;

    /// Recomputes the window's distance and metric value and lets the window
    /// challenge the best section found so far.
    fn update(
        &self,
        input_data: &InputData,
        window_sec: &mut WindowSection,
        target_sec: &mut TargetSection,
    )
        requires
            input_data@.wf_base(),
            input_data@.distances_ok(),
            self.data_ok(input_data@),
            old(window_sec).start <= old(window_sec).end,
            (old(window_sec).end as int) < input_data@.distances.len(),
        ensures
            final(window_sec).start == old(window_sec).start,
            final(window_sec).end == old(window_sec).end,
            final(window_sec).distance as int == spec_window_distance(
                input_data@,
                old(window_sec).start as int,
                old(window_sec).end as int,
            ),
            *final(target_sec) == spec_update_best(
                input_data@,
                *old(target_sec),
                old(window_sec).start as int,
                old(window_sec).end as int,
                self.spec_value(
                    input_data@,
                    old(window_sec).start as int,
                    old(window_sec).end as int,
                ),
            ),
    ;
}

/// One search call: the requested distance, the parallel sample series, and
/// the cumulative distances built for them.
#[derive(Debug, PartialEq)]
pub struct InputData {
    pub desired_distance: i64,
    pub coordinates: Vec<Coordinate>,
    pub times: Times,
    pub distances: Distances,
    pub altitudes: Altitudes,
    pub tolerance: Fraction,
}

impl View for InputData {
    type V = InputView;

    open spec fn view(&self) -> InputView {
        InputView {
            desired_distance: self.desired_distance as int,
            tolerance: self.tolerance,
            coordinates: self.coordinates@,
            times: self.times.values@,
            distances: self.distances.values@,
            altitudes: self.altitudes.values@,
        }
    }
}

/// What validation decides, given only the coordinate and time series: the
/// two series must be of one length and each must keep at least two usable
/// samples.
pub open spec fn spec_generic_checks(coords: Seq<Coordinate>, times: Seq<Option<i64>>) -> Result<
    (),
    InputDataError,
> {
    if coords.len() != times.len() {
        Err(InputDataError::InconsistentLength)
    } else if valid_count(coords) < 2 || valid_count(times) < 2 {
        Err(InputDataError::TooFewDataPoints)
    } else {
        Ok(())
    }
}

/// Checks lengths and the number of usable samples of the coordinate and
/// time series.
pub fn generic_data_checks(coordinates: &Vec<Coordinate>, times: &Vec<Option<i64>>) -> (r: Result<
    (),
    InputDataError,
>)
    ensures
        r == spec_generic_checks(coordinates@, times@),
{
    if coordinates.len() != times.len() {
        return Err(InputDataError::InconsistentLength);
    }
    let coordinates_normal: usize = count_valid(coordinates);
    let times_normal: usize = count_valid(times);
    if coordinates_normal < 2 || times_normal < 2 {
        Err(InputDataError::TooFewDataPoints)
    } else {
        Ok(())
    }
}

/// The sum of a series of distance increments.
pub open spec fn spec_total(s: Seq<u64>) -> int
    decreases s.len(),
{
    if s.len() == 0 {
        0
    } else {
        spec_total(s.drop_last()) + s.last()
    }
}

/// Every increment respects the per-step cap.
pub open spec fn increments_bounded(s: Seq<u64>) -> bool {
    forall|i: int| 0 <= i < s.len() ==> #[trigger] s[i] <= MAX_DISTANCE_STEP_MM
}

/// The cumulative distance series an increment series gives rise to: entry
/// `i` is the sum of the first `i` increments.
pub open spec fn spec_distance_series(increments: Seq<u64>) -> Seq<u64> {
    Seq::new(increments.len() + 1, |i: int| spec_total(increments.take(i)) as u64)
}

/// The tolerance a caller asked for, or the default when none was passed.
pub open spec fn spec_tolerance_or_default(tolerance: Option<Fraction>) -> Fraction {
    match tolerance {
        Some(t) => t,
        None => spec_default_tolerance(),
    }
}

pub proof fn lemma_total_bound(s: Seq<u64>)
    requires
        increments_bounded(s),
    ensures
        0 <= spec_total(s) <= s.len() * (MAX_DISTANCE_STEP_MM as int),
    decreases s.len(),
{
    if s.len() > 0 {
        assert(increments_bounded(s.drop_last())) by {
            assert(forall|i: int| 0 <= i < s.len() - 1 ==> s.drop_last()[i] == s[i]);
        }
        lemma_total_bound(s.drop_last());
        assert(s.last() == s[s.len() - 1]);
    }
}

impl InputData {
    /// Validates the raw input and assembles the search state. The distance
    /// series starts empty and is filled by `compute_vector_of_distances`.
    pub fn new(
        desired_distance: i64,
        coordinates: Vec<Coordinate>,
        times: Vec<Option<i64>>,
        altitudes: Option<Vec<Option<i64>>>,
        tolerance: Option<Fraction>,
    ) -> (r: Result<InputData, InputDataError>)
        requires
            desired_distance <= MAX_DISTANCE_MM,
            coordinates@.len() <= MAX_SERIES_LEN,
            opt_seq_bounded(times@, MAX_TIMESTAMP_MS as int),
            altitudes matches Some(a) ==> a@.len() <= MAX_SERIES_LEN && opt_seq_bounded(
                a@,
                MAX_ALTITUDE_MM as int,
            ),
            tolerance matches Some(t) ==> t.wf(),
        ensures
            desired_distance <= 0 ==> r == Err::<InputData, InputDataError>(
                InputDataError::InvalidDesiredDistance,
            ),
            desired_distance > 0 && spec_generic_checks(coordinates@, times@) is Err ==> r == Err::<
                InputData,
                InputDataError,
            >(spec_generic_checks(coordinates@, times@)->Err_0),
            desired_distance > 0 && spec_generic_checks(coordinates@, times@) is Ok <==> r is Ok,
            r matches Ok(d) ==> {
                &&& d.desired_distance == desired_distance
                &&& d.coordinates@ == coordinates@
                &&& d.times.values@ == times@
                &&& d.distances.values@.len() == 0
                &&& d.altitudes.values@ == (match altitudes {
                    Some(a) => a@,
                    None => Seq::<Option<i64>>::empty(),
                })
                &&& d.tolerance == (match tolerance {
                    Some(t) => t,
                    None => spec_default_tolerance(),
                })
                &&& d@.wf_base()
            },
    {
        if desired_distance <= 0 {
            Err(InputDataError::InvalidDesiredDistance)
        } else {
            match generic_data_checks(&coordinates, &times) {
                Ok(_) => {
                    proof {
                        lemma_valid_count_le_len(coordinates@);
                    }
                    Ok(
                        InputData {
                            desired_distance,
                            coordinates,
                            times: Times { values: times },
                            distances: Distances { values: Vec::new() },
                            altitudes: Altitudes {
                                values: match altitudes {
                                    Some(a) => a,
                                    None => Vec::new(),
                                },
                            },
                            tolerance: match tolerance {
                                Some(t) => t,
                                None => default_tolerance(),
                            },
                        },
                    )
                },
                Err(e) => Err(e),
            }
        }
    }

    /// Whether the trace as a whole is long enough for the requested
    /// distance; decided on the last cumulative distance, so only once the
    /// series is built.
    pub fn check_if_total_distance_suffice(&self) -> (r: Result<(), InputDataError>)
        requires
            self.distances.values@.len() >= 1,
        ensures
            r == if (self.distances.values@.last() as int) < self.desired_distance {
                Err::<(), InputDataError>(InputDataError::DistanceTooSmall)
            } else {
                Ok::<(), InputDataError>(())
            },
    {
        let total_distance: u64 = self.distances.values[self.distances.values.len() - 1];
        if self.desired_distance > 0 && (self.desired_distance as u64) > total_distance {
            Err(InputDataError::DistanceTooSmall)
        } else {
            Ok(())
        }
    }

    /// Builds the cumulative distance series from the per-step increments:
    /// entry `i` is the sum of the first `i` increments, so the series
    /// starts at zero and never decreases.
    pub fn compute_vector_of_distances(&mut self, increments: &Vec<u64>)
        requires
            old(self).distances.values@.len() == 0,
            old(self).coordinates@.len() >= 1,
            old(self).coordinates@.len() <= MAX_SERIES_LEN,
            increments@.len() + 1 == old(self).coordinates@.len(),
            increments_bounded(increments@),
        ensures
            final(self).desired_distance == old(self).desired_distance,
            final(self).coordinates == old(self).coordinates,
            final(self).times == old(self).times,
            final(self).altitudes == old(self).altitudes,
            final(self).tolerance == old(self).tolerance,
            final(self).distances.values@.len() == old(self).coordinates@.len(),
            forall|i: int| 0 <= i < final(self).distances.values@.len()
                ==> final(self).distances.values@[i] as int == spec_total(increments@.take(i)),
            final(self).distances.values@.last() as int == spec_total(increments@),
            forall|i: int| 0 <= i < final(self).distances.values@.len() - 1
                ==> #[trigger] final(self).distances.values@[i]
                <= final(self).distances.values@[i + 1],
            final(self)@.distances_ok(),
    {
        let ghost incs = increments@;
        let mut distance: u64 = 0;
        self.distances.values.push(distance);
        let n: usize = increments.len();
        let mut i: usize = 0;
        while i < n
            invariant
                n == incs.len(),
                n + 1 == self.coordinates@.len(),
                n + 1 <= MAX_SERIES_LEN,
                increments@ == incs,
                increments_bounded(incs),
                i <= n,
                self.distances.values@.len() == i + 1,
                distance == self.distances.values@.last(),
                forall|j: int| 0 <= j <= i ==> #[trigger] self.distances.values@[j] as int
                    == spec_total(incs.take(j)),
                distance as int <= (i as int) * (MAX_DISTANCE_STEP_MM as int),
                self.desired_distance == old(self).desired_distance,
                self.coordinates == old(self).coordinates,
                self.times == old(self).times,
                self.altitudes == old(self).altitudes,
                self.tolerance == old(self).tolerance,
            decreases n - i,
        {
            proof {
                assert(incs.take(i + 1).drop_last() =~= incs.take(i as int));
                assert(incs.take(i + 1).last() == incs[i as int]);
            }
            distance = distance + increments[i];
            self.distances.values.push(distance);
            i += 1;
        }
        proof {
            assert(incs.take(n as int) =~= incs);
            assert forall|i: int|
                0 <= i < self.distances.values@.len() implies #[trigger] self.distances.values@[i]
                <= MAX_DISTANCE_MM by {
                lemma_total_bound(incs.take(i));
                assert(incs.take(i).len() <= MAX_SERIES_LEN);
            }
            assert forall|i: int|
                0 <= i < self.distances.values@.len() - 1 implies #[trigger] self
                .distances
                .values@[i] <= self.distances.values@[i + 1] by {
                assert(incs.take(i + 1).drop_last() =~= incs.take(i));
                assert(incs.take(i + 1).last() == incs[i]);
            }
        }
    }

    /// The two-pointer scan: starting from the empty window at the first
    /// sample, repeatedly grow or slide the window and offer it to the
    /// policy, until the window end reaches the last sample. Reports
    /// `NoSectionFound` when the scan ends on the sentinel.
    pub fn search_section<M: MetricPolicy>(&self, policy: &M) -> (r: Result<
        TargetSection,
        InputDataError,
    >)
        requires
            self@.wf_base(),
            self@.distances_ok(),
            policy.data_ok(self@),
        ensures
            ({
                let best = spec_scan(policy, self@, 0, 0, TargetSection::spec_initial());
                &&& (best.target_value.num == 0 || best.start == best.end) ==> r == Err::<
                    TargetSection,
                    InputDataError,
                >(InputDataError::NoSectionFound)
                &&& !(best.target_value.num == 0 || best.start == best.end) ==> r == Ok::<
                    TargetSection,
                    InputDataError,
                >(best)
            }),
            r matches Ok(sec) ==> sec.valid && sec.start < sec.end && sec.target_value.num > 0 && (
            sec.end as int) < self@.distances.len(),
    {
        let n: usize = self.distances.values.len();
        let desired: u64 = self.desired_distance as u64;
        let mut window_sec = WindowSection::default();
        let mut target_sec = TargetSection::default();
        while (window_sec.end as usize) < n - 1
            invariant
                n == self@.distances.len(),
                2 <= n <= MAX_SERIES_LEN,
                desired as int == self@.desired_distance,
                self@.wf_base(),
                self@.distances_ok(),
                policy.data_ok(self@),
                window_sec.start <= window_sec.end,
                (window_sec.end as int) <= n - 1,
                window_sec.distance as int == spec_window_distance(
                    self@,
                    window_sec.start as int,
                    window_sec.end as int,
                ),
                target_sec.start <= target_sec.end,
                (target_sec.end as int) <= n - 1,
                target_sec == TargetSection::spec_initial() || (target_sec.valid
                    && target_sec.start <= target_sec.end && target_sec.target_value.num > 0),
                spec_scan(
                    policy,
                    self@,
                    window_sec.start as int,
                    window_sec.end as int,
                    target_sec,
                ) == spec_scan(policy, self@, 0, 0, TargetSection::spec_initial()),
            decreases n - 1 - window_sec.end, window_sec.end - window_sec.start,
        {
            let ghost s0 = window_sec.start as int;
            let ghost e0 = window_sec.end as int;
            let ghost t0 = target_sec;
            if window_sec.distance < desired {
                window_sec.end = window_sec.end + 1;
            } else {
                if window_sec.start < window_sec.end {
                    window_sec.start = window_sec.start + 1;
                } else {
                    window_sec.end = window_sec.end + 1;
                }
            }
            proof {
                assert(spec_scan_step(self@, s0, e0) == (
                    window_sec.start as int,
                    window_sec.end as int,
                ));
            }
            policy.update(self, &mut window_sec, &mut target_sec);
            proof {
                let v = policy.spec_value(self@, window_sec.start as int, window_sec.end as int);
                if Fraction::spec_gt(v, t0.target_value) {
                    Fraction::lemma_gt_implies_pos(v, t0.target_value);
                }
                assert(spec_scan(policy, self@, s0, e0, t0) == spec_scan(
                    policy,
                    self@,
                    window_sec.start as int,
                    window_sec.end as int,
                    target_sec,
                ));
            }
        }
        if target_sec.target_value.num == 0 || target_sec.start == target_sec.end {
            Err(InputDataError::NoSectionFound)
        } else {
            Ok(target_sec)
        }
    }
}

/// The distance the window `[start, end]` covers: the cumulative distance
/// at `end` minus the one at `start`, as a signed value.
pub fn get_distance(distances: &Vec<u64>, start: usize, end: usize) -> (r: i64)
    requires
        start < distances@.len(),
        end < distances@.len(),
        forall|i: int| 0 <= i < distances@.len() ==> #[trigger] distances@[i] <= MAX_DISTANCE_MM,
    ensures
        r as int == distances@[end as int] - distances@[start as int],
{
    let at_end: u64 = distances[end];
    let at_start: u64 = distances[start];
    proof {
        assert(at_end <= MAX_DISTANCE_MM);
        assert(at_start <= MAX_DISTANCE_MM);
    }
    (at_end as i64) - (at_start as i64)
}

} // verus!
