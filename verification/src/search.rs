//! The search for the times that price previously took to travel the
//! stop-loss distance.
//!
//! Candles are fetched newest first. The first stage probes the preset
//! timeframes in order, fetching the latest candles of each, until one of
//! them shows a move of the requested size; that timeframe is kept. The
//! second stage then fetches windows of candles ending at the last recorded
//! move, until enough moves are recorded or the request budget is spent.
//! Each recorded move stores the time from the previous move (initially: the
//! start of the search) back to the opening of the candle that completed it.
//!
//! The caller performs the requests, decides for every candle (newest first)
//! whether it leaves the current price range, and moves the range; this
//! state machine decides what to request next, records the moves, and says
//! when to stop.
use vstd::prelude::*;

use crate::average::{
    accumulation_fits, average_result, fits_i64, lemma_whole_secs_bounds, weighted_average_secs,
    weighted_average, weighted_sum, whole_secs, SearchError,
};
use crate::timestamp::{checked_sub_ms, is_timestamp_ms, TIMESTAMP_MAX_MS, TIMESTAMP_MIN_MS};

verus! {

/// How many moves the search tries to record.
pub const RUN_TIMES: usize = 10;

/// How many windows the second stage may request at most.
pub const MAX_WINDOW_REQUESTS: u32 = 10;

/// How many candles a probe of the first stage asks for.
pub const PROBE_CANDLES: u32 = 1000;

/// How many candle lengths a window of the second stage reaches back.
pub const WINDOW_CANDLES: i64 = 999;

/// Number of preset timeframes probed by the first stage.
pub const PRESET_COUNT: usize = 3;

/// Widest distance between two supported instants, in milliseconds.
pub open spec fn max_gap_ms() -> int {
    TIMESTAMP_MAX_MS - TIMESTAMP_MIN_MS
}

/// Candle length used for a request.
#[derive(Clone, Copy, Debug, PartialEq, Eq)]
pub enum Timeframe {
    /// One minute (`1m`).
    Minute,
    /// One hour (`1h`).
    Hour,
    /// One week (`1w`).
    Week,
}

pub open spec fn spec_duration_ms(tf: Timeframe) -> int {
    match tf {
        Timeframe::Minute => 60_000,
        Timeframe::Hour => 3_600_000,
        Timeframe::Week => 604_800_000,
    }
}

/// The `i`-th preset timeframe, probed in this order: `1m`, `1h`, `1w`.
pub open spec fn preset_timeframe(i: int) -> Timeframe {
    if i == 0 {
        Timeframe::Minute
    } else if i == 1 {
        Timeframe::Hour
    } else {
        Timeframe::Week
    }
}

impl Timeframe {
    /// Length of one candle, in milliseconds.
    pub fn duration_ms(&self) -> (d: i64)
        ensures
            d == spec_duration_ms(*self),
    {
        match self {
            Timeframe::Minute => 60_000,
            Timeframe::Hour => 3_600_000,
            Timeframe::Week => 604_800_000,
        }
    }
}

fn preset(i: usize) -> (tf: Timeframe)
    ensures
        tf == preset_timeframe(i as int),
{
    if i == 0 {
        Timeframe::Minute
    } else if i == 1 {
        Timeframe::Hour
    } else {
        Timeframe::Week
    }
}

/// A request for candles.
#[derive(Clone, Copy, Debug, PartialEq, Eq)]
pub enum Request {
    /// The latest `limit` candles of `timeframe`.
    Latest { timeframe: Timeframe, limit: u32 },
    /// The candles of `timeframe` between the two instants (milliseconds since
    /// the Unix epoch).
    Window { timeframe: Timeframe, start_ms: i64, end_ms: i64 },
}

/// What the caller has to do next.
#[derive(Clone, Copy, Debug, PartialEq, Eq)]
pub enum Step {
    /// Perform this request, then report the crossings of the candles it
    /// returned, newest first.
    Fetch(Request),
    /// The search is over: the weighted average time of a move, in whole
    /// seconds, or why there is none.
    Finished(Result<i64, SearchError>),
}

/// Where the search stands.
#[derive(Clone, Copy, Debug, PartialEq, Eq)]
pub enum Phase {
    /// About to probe the preset timeframe `next` (all were probed when
    /// `next` is the number of presets).
    Probing { next: usize },
    /// Scanning the latest candles of the preset timeframe `index`.
    ProbeScan { index: usize },
    /// The probe of `timeframe` just recorded the first move; the rest of its
    /// candles are ignored.
    Found { timeframe: Timeframe },
    /// About to request another window of `timeframe`; `requests` windows
    /// were requested so far.
    Extending { timeframe: Timeframe, requests: u32 },
    /// Scanning the window that was requested after `requests` others.
    ExtendScan { timeframe: Timeframe, requests: u32 },
}

/// Abstract state of a search.
pub struct SearchModel {
    /// When the search started (milliseconds since the Unix epoch).
    pub start_ms: int,
    /// Opening time of the candle that completed the last move, or the start.
    pub prev_ms: int,
    /// The recorded move durations in milliseconds, newest move first.
    pub durations: Seq<i64>,
    pub phase: Phase,
}

/// Sum of a sequence of durations.
pub open spec fn sum_ms(s: Seq<i64>) -> int
    decreases s.len(),
{
    if s.len() == 0 {
        0
    } else {
        sum_ms(s.drop_last()) + s.last()
    }
}

/// The states a search can reach.
pub open spec fn model_wf(m: SearchModel) -> bool {
    &&& is_timestamp_ms(m.start_ms)
    &&& is_timestamp_ms(m.prev_ms)
    &&& m.start_ms - m.prev_ms == sum_ms(m.durations)
    &&& m.durations.len() <= RUN_TIMES
    &&& forall|i: int|
        0 <= i < m.durations.len() ==> -max_gap_ms() <= #[trigger] m.durations[i] <= max_gap_ms()
    &&& match m.phase {
        Phase::Probing { next } => next <= PRESET_COUNT && m.durations.len() == 0,
        Phase::ProbeScan { index } => index < PRESET_COUNT && m.durations.len() == 0,
        Phase::Found { .. } => m.durations.len() == 1,
        Phase::Extending { requests, .. } => requests <= MAX_WINDOW_REQUESTS && m.durations.len()
            >= 1,
        Phase::ExtendScan { requests, .. } => requests < MAX_WINDOW_REQUESTS
            && m.durations.len() >= 1,
    }
}

/// A search that starts at `now_ms`.
pub open spec fn initial_model(now_ms: int) -> SearchModel {
    SearchModel {
        start_ms: now_ms,
        prev_ms: now_ms,
        durations: Seq::empty(),
        phase: Phase::Probing { next: 0 },
    }
}

/// Whether a crossing reported now is recorded.
pub open spec fn accepts_crossing(m: SearchModel) -> bool {
    match m.phase {
        Phase::ProbeScan { .. } => true,
        Phase::ExtendScan { .. } => m.durations.len() < RUN_TIMES,
        _ => false,
    }
}

/// The state after the candle opened at `open_ms` left the price range.
pub open spec fn after_crossing(m: SearchModel, open_ms: int) -> SearchModel {
    if !accepts_crossing(m) {
        m
    } else {
        let recorded = SearchModel {
            prev_ms: open_ms,
            durations: m.durations.push((m.prev_ms - open_ms) as i64),
            ..m
        };
        match m.phase {
            Phase::ProbeScan { index } => SearchModel {
                phase: Phase::Found { timeframe: preset_timeframe(index as int) },
                ..recorded
            },
            _ => recorded,
        }
    }
}

/// Closes the batch of candles being scanned, if any.
pub open spec fn close_batch(m: SearchModel) -> SearchModel {
    match m.phase {
        Phase::ProbeScan { index } => SearchModel { phase: Phase::Probing { next: (index + 1) as usize }, ..m },
        Phase::Found { timeframe } => SearchModel {
            phase: Phase::Extending { timeframe, requests: 0 },
            ..m
        },
        Phase::ExtendScan { timeframe, requests } => SearchModel {
            phase: Phase::Extending { timeframe, requests: (requests + 1) as u32 },
            ..m
        },
        _ => m,
    }
}

/// Start of the next window: `WINDOW_CANDLES` candles before the last move.
pub open spec fn window_start(m: SearchModel, tf: Timeframe) -> int {
    m.prev_ms - spec_duration_ms(tf) * WINDOW_CANDLES
}

/// Whether the second stage wants another window.
pub open spec fn wants_window(m: SearchModel, requests: u32) -> bool {
    m.durations.len() < RUN_TIMES && requests < MAX_WINDOW_REQUESTS
}

/// What the search asks for next, from the state `m`.
pub open spec fn step_of(m: SearchModel) -> Step {
    let c = close_batch(m);
    match c.phase {
        Phase::Probing { next } => if next < PRESET_COUNT {
            Step::Fetch(
                Request::Latest { timeframe: preset_timeframe(next as int), limit: PROBE_CANDLES },
            )
        } else {
            Step::Finished(Err(SearchError::NoTimeframe))
        },
        Phase::Extending { timeframe, requests } => if wants_window(c, requests) {
            if is_timestamp_ms(window_start(c, timeframe)) {
                Step::Fetch(
                    Request::Window {
                        timeframe,
                        start_ms: window_start(c, timeframe) as i64,
                        end_ms: c.prev_ms as i64,
                    },
                )
            } else {
                Step::Finished(Err(SearchError::TimeOutOfRange))
            }
        } else {
            Step::Finished(average_result(c.durations))
        },
        _ => Step::Finished(Err(SearchError::NoData)),
    }
}

/// The state after `step_of(m)` was handed out.
pub open spec fn after_step(m: SearchModel) -> SearchModel {
    let c = close_batch(m);
    match step_of(m) {
        Step::Fetch(_) => match c.phase {
            Phase::Probing { next } => SearchModel { phase: Phase::ProbeScan { index: next }, ..c },
            Phase::Extending { timeframe, requests } => SearchModel {
                phase: Phase::ExtendScan { timeframe, requests },
                ..c
            },
            _ => c,
        },
        Step::Finished(_) => c,
    }
}

/// Upper bound on the requests the search can still hand out.
pub open spec fn fuel(m: SearchModel) -> int {
    match m.phase {
        Phase::Probing { next } => PRESET_COUNT - next + MAX_WINDOW_REQUESTS,
        Phase::ProbeScan { index } => PRESET_COUNT - index - 1 + MAX_WINDOW_REQUESTS,
        Phase::Found { .. } => MAX_WINDOW_REQUESTS as int,
        Phase::Extending { requests, .. } => MAX_WINDOW_REQUESTS - requests,
        Phase::ExtendScan { requests, .. } => MAX_WINDOW_REQUESTS - requests - 1,
    }
}

/// A search for previous moves of the stop-loss distance.
pub struct MoveSearch {
    start_ms: i64,
    prev_ms: i64,
    durations: Vec<i64>,
    phase: Phase,
}

impl View for MoveSearch {
    type V = SearchModel;

    closed spec fn view(&self) -> SearchModel {
        SearchModel {
            start_ms: self.start_ms as int,
            prev_ms: self.prev_ms as int,
            durations: self.durations@,
            phase: self.phase,
        }
    }
}

proof fn lemma_sum_push(s: Seq<i64>, x: i64)
    ensures
        sum_ms(s.push(x)) == sum_ms(s) + x,
{
    assert(s.push(x).drop_last() =~= s);
}

/// In every reachable state, each term and running total of the weighted
/// average fits in an `i64`.
proof fn lemma_wf_accumulation_fits(m: SearchModel)
    requires
        model_wf(m),
    ensures
        accumulation_fits(m.durations),
{
    let s = m.durations;
    let n = s.len() as int;
    let b = max_gap_ms();
    assert forall|k: int| 0 <= k < s.len() implies #[trigger] fits_i64(
        weighted_sum(s.subrange(k, s.len() as int)),
    ) && fits_i64(whole_secs(s[k] as int) * (s.len() - k)) by {
        lemma_weighted_sum_bound(s, k);
        let x = whole_secs(s[k] as int);
        let w = n - k;
        assert(-b <= x <= b) by {
            assert(-b <= s[k] <= b);
            lemma_whole_secs_bounds(s[k] as int);
        }
        assert(-b * 100 <= -b * 10 * w && b * 10 * w <= b * 100) by (nonlinear_arith)
            requires
                1 <= w <= 10,
                b >= 0,
        {
        }
        assert(-b * 10 <= x * w <= b * 10) by (nonlinear_arith)
            requires
                -b <= x <= b,
                1 <= w <= 10,
                b >= 0,
        {
        }
    }
}

proof fn lemma_weighted_sum_bound(s: Seq<i64>, k: int)
    requires
        0 <= k <= s.len(),
        s.len() <= RUN_TIMES,
        forall|i: int| 0 <= i < s.len() ==> -max_gap_ms() <= #[trigger] s[i] <= max_gap_ms(),
    ensures
        -max_gap_ms() * 10 * (s.len() - k) <= weighted_sum(s.subrange(k, s.len() as int))
            <= max_gap_ms() * 10 * (s.len() - k),
    decreases s.len() - k,
{
    let b = max_gap_ms();
    let n = s.len() as int;
    if k == n {
        assert(s.subrange(n, n) =~= Seq::<i64>::empty());
    } else {
        lemma_weighted_sum_bound(s, k + 1);
        let t = s.subrange(k, n);
        assert(t.drop_first() =~= s.subrange(k + 1, n));
        assert(t[0] == s[k]);
        let x = whole_secs(s[k] as int);
        let w = n - k;
        assert(-b <= x <= b) by {
            assert(-b <= s[k] <= b);
            lemma_whole_secs_bounds(s[k] as int);
        }
        assert(-b * 10 <= x * w <= b * 10) by (nonlinear_arith)
            requires
                -b <= x <= b,
                1 <= w <= 10,
                b >= 0,
        {
        }
        assert(weighted_sum(t) == x * w + weighted_sum(s.subrange(k + 1, n)));
        assert(b * 10 * w == b * 10 * (w - 1) + b * 10) by (nonlinear_arith);
    }
}

impl MoveSearch {
    /// The invariant of a search: its abstract state is a reachable one.
    pub open spec fn wf(&self) -> bool {
        model_wf(self@)
    }

    /// Starts a search at `now_ms` (milliseconds since the Unix epoch).
    pub fn new(now_ms: i64) -> (s: MoveSearch)
        requires
            is_timestamp_ms(now_ms as int),
        ensures
            s.wf(),
            s@ == initial_model(now_ms as int),
    {
        let s = MoveSearch {
            start_ms: now_ms,
            prev_ms: now_ms,
            durations: Vec::new(),
            phase: Phase::Probing { next: 0 },
        };
        assert(s@.durations =~= Seq::<i64>::empty());
        s
    }

    /// The durations recorded so far, in milliseconds, newest move first.
    pub fn durations_ms(&self) -> (d: &Vec<i64>)
        ensures
            d@ == self@.durations,
    {
        &self.durations
    }

    /// Where the search stands.
    pub fn phase(&self) -> (p: Phase)
        ensures
            p == self@.phase,
    {
        self.phase
    }

    /// Reports that the candle opened at `open_ms` left the current price
    /// range (the caller then re-centres the range on the crossed bound).
    /// Returns whether the caller should keep scanning the current batch.
    pub fn record_crossing(&mut self, open_ms: i64) -> (keep_scanning: bool)
        requires
            old(self).wf(),
            is_timestamp_ms(open_ms as int),
        ensures
            final(self).wf(),
            final(self)@ == after_crossing(old(self)@, open_ms as int),
            keep_scanning == accepts_crossing(final(self)@),
            fuel(final(self)@) <= fuel(old(self)@),
    {
        let accepted = match self.phase {
            Phase::ProbeScan { .. } => true,
            Phase::ExtendScan { .. } => self.durations.len() < RUN_TIMES,
            _ => false,
        };
        if !accepted {
            return false;
        }
        let ghost before = self@;
        let gap = self.prev_ms - open_ms;
        self.durations.push(gap);
        self.prev_ms = open_ms;
        proof {
            lemma_sum_push(before.durations, gap);
        }
        match self.phase {
            Phase::ProbeScan { index } => {
                self.phase = Phase::Found { timeframe: preset(index) };
                false
            },
            _ => self.durations.len() < RUN_TIMES,
        }
    }

    /// Closes the batch being scanned, if any, and says what to do next.
    pub fn next_step(&mut self) -> (step: Step)
        requires
            old(self).wf(),
        ensures
            final(self).wf(),
            step == step_of(old(self)@),
            final(self)@ == after_step(old(self)@),
            step is Fetch ==> fuel(final(self)@) < fuel(old(self)@),
            step is Fetch ==> accepts_crossing(final(self)@),
    {
        match self.phase {
            Phase::ProbeScan { index } => {
                self.phase = Phase::Probing { next: index + 1 };
            },
            Phase::Found { timeframe } => {
                self.phase = Phase::Extending { timeframe, requests: 0 };
            },
            Phase::ExtendScan { timeframe, requests } => {
                self.phase = Phase::Extending { timeframe, requests: requests + 1 };
            },
            _ => {},
        }
        match self.phase {
            Phase::Probing { next } => {
                if next < PRESET_COUNT {
                    self.phase = Phase::ProbeScan { index: next };
                    Step::Fetch(Request::Latest { timeframe: preset(next), limit: PROBE_CANDLES })
                } else {
                    Step::Finished(Err(SearchError::NoTimeframe))
                }
            },
            Phase::Extending { timeframe, requests } => {
                if self.durations.len() < RUN_TIMES && requests < MAX_WINDOW_REQUESTS {
                    let reach = timeframe.duration_ms() * WINDOW_CANDLES;
                    match checked_sub_ms(self.prev_ms, reach) {
                        Some(start_ms) => {
                            self.phase = Phase::ExtendScan { timeframe, requests };
                            Step::Fetch(
                                Request::Window { timeframe, start_ms, end_ms: self.prev_ms },
                            )
                        },
                        None => Step::Finished(Err(SearchError::TimeOutOfRange)),
                    }
                } else {
                    proof {
                        lemma_wf_accumulation_fits(self@);
                    }
                    Step::Finished(weighted_average_secs(&self.durations))
                }
            },
            _ => Step::Finished(Err(SearchError::NoData)),
        }
    }
}

/// The recorded durations account for the whole time travelled back: from
/// the start of the search to the last recorded move.
pub proof fn lemma_durations_cover_elapsed(m: SearchModel)
    requires
        model_wf(m),
    ensures
        m.start_ms - m.prev_ms == sum_ms(m.durations),
{
}

/// A search never records more than `RUN_TIMES` moves, and hands out at most
/// `PRESET_COUNT + MAX_WINDOW_REQUESTS` requests: every request spends fuel,
/// recording a move never adds any, and a search starts with that much.
pub proof fn lemma_requests_bounded(m: SearchModel, open_ms: int)
    requires
        model_wf(m),
        is_timestamp_ms(open_ms),
    ensures
        m.durations.len() <= RUN_TIMES,
        0 <= fuel(m) <= PRESET_COUNT + MAX_WINDOW_REQUESTS,
        fuel(initial_model(open_ms)) == PRESET_COUNT + MAX_WINDOW_REQUESTS,
        step_of(m) is Fetch ==> fuel(after_step(m)) < fuel(m),
        fuel(after_crossing(m, open_ms)) <= fuel(m),
{
}

/// A search never ends for lack of recorded moves: once a probe succeeded
/// there is at least one, and before that it ends only by giving up on the
/// preset timeframes.
pub proof fn lemma_never_ends_without_data(m: SearchModel)
    requires
        model_wf(m),
    ensures
        step_of(m) != Step::Finished(Err(SearchError::NoData)),
        step_of(m) == Step::Finished(Err(SearchError::NoTimeframe)) ==> m.durations.len() == 0,
{
}

/// The probes ask for the latest 1000 candles of `1m`, then `1h`, then `1w`,
/// and the search gives up once all three came back without a move.
pub proof fn lemma_probe_order(m: SearchModel, next: int)
    requires
        model_wf(m),
        m.phase == (Phase::Probing { next: next as usize }) || (next >= 1 && m.phase == (
        Phase::ProbeScan { index: (next - 1) as usize })),
    ensures
        next == 0 ==> step_of(m) == Step::Fetch(
            Request::Latest { timeframe: Timeframe::Minute, limit: 1000 },
        ),
        next == 1 ==> step_of(m) == Step::Fetch(
            Request::Latest { timeframe: Timeframe::Hour, limit: 1000 },
        ),
        next == 2 ==> step_of(m) == Step::Fetch(
            Request::Latest { timeframe: Timeframe::Week, limit: 1000 },
        ),
        next == 3 ==> step_of(m) == Step::Finished(Err(SearchError::NoTimeframe)),
{
}

/// A move found by a probe fixes the timeframe to the probed one (`1m`,
/// `1h`, `1w` for the first, second, third probe), is recorded as the time
/// back from the last move, and ends the probe.
pub proof fn lemma_probe_fixes_timeframe(m: SearchModel, index: usize, open_ms: int)
    requires
        model_wf(m),
        is_timestamp_ms(open_ms),
        m.phase == (Phase::ProbeScan { index }),
    ensures
        after_crossing(m, open_ms).phase == (Phase::Found {
            timeframe: if index == 0 {
                Timeframe::Minute
            } else if index == 1 {
                Timeframe::Hour
            } else {
                Timeframe::Week
            },
        }),
        after_crossing(m, open_ms).durations == seq![(m.prev_ms - open_ms) as i64],
        after_crossing(m, open_ms).prev_ms == open_ms,
        after_crossing(m, open_ms).start_ms == m.start_ms,
        !accepts_crossing(after_crossing(m, open_ms)),
{
    assert(m.durations.push((m.prev_ms - open_ms) as i64) =~= seq![(m.prev_ms - open_ms) as i64]);
}

/// While windows are being scanned, every move is appended (newest last in
/// time, so at the end of the list) until ten are recorded; after that the
/// batch is not scanned further and nothing changes.
pub proof fn lemma_window_crossing_records(
    m: SearchModel,
    tf: Timeframe,
    used: u32,
    open_ms: int,
)
    requires
        model_wf(m),
        is_timestamp_ms(open_ms),
        m.phase == (Phase::ExtendScan { timeframe: tf, requests: used }),
    ensures
        m.durations.len() < 10 ==> {
            let a = after_crossing(m, open_ms);
            &&& a.durations == m.durations.push((m.prev_ms - open_ms) as i64)
            &&& a.prev_ms == open_ms
            &&& a.start_ms == m.start_ms
            &&& a.phase == m.phase
            &&& accepts_crossing(a) == (m.durations.len() + 1 < 10)
        },
        m.durations.len() >= 10 ==> after_crossing(m, open_ms) == m && !accepts_crossing(m),
{
}

/// Once a probe found the timeframe `tf`, the search keeps asking for windows
/// of exactly 999 candles of `tf` (1 min, 1 h or 1 week each) ending at the
/// last move, for as long as fewer than ten moves are recorded and fewer than
/// ten windows were asked for; it finishes only then, with the weighted
/// average of all recorded moves, or when a window would start before the
/// earliest supported instant. `used` counts the windows asked for, the one
/// being scanned included.
pub proof fn lemma_window_search(m: SearchModel)
    requires
        model_wf(m),
        m.phase is Found || m.phase is Extending || m.phase is ExtendScan,
    ensures
        ({
            let (tf, used) = match m.phase {
                Phase::Found { timeframe } => (timeframe, 0int),
                Phase::Extending { timeframe, requests } => (timeframe, requests as int),
                Phase::ExtendScan { timeframe, requests } => (timeframe, requests + 1),
                _ => (Timeframe::Minute, 0int),
            };
            let candle: int = match tf {
                Timeframe::Minute => 60_000,
                Timeframe::Hour => 3_600_000,
                Timeframe::Week => 604_800_000,
            };
            let start = m.prev_ms - 999 * candle;
            &&& (m.durations.len() < 10 && used < 10 && is_timestamp_ms(start)) ==> step_of(m)
                == Step::Fetch(
                Request::Window { timeframe: tf, start_ms: start as i64, end_ms: m.prev_ms as i64 },
            )
            &&& (m.durations.len() < 10 && used < 10 && !is_timestamp_ms(start)) ==> step_of(m)
                == Step::Finished(Err(SearchError::TimeOutOfRange))
            &&& (m.durations.len() >= 10 || used >= 10) ==> step_of(m) == Step::Finished(
                Ok(weighted_average(m.durations) as i64),
            )
            &&& step_of(m) is Finished ==> (m.durations.len() == 10 || used == 10 || step_of(m)
                == Step::Finished(Err(SearchError::TimeOutOfRange)))
        }),
        m.durations.len() >= 1,
{
}

} // verus!
