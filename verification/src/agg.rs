//! The week aggregator: a stateful reducer over an ascending-timestamp
//! stream of accepted records.  It detects ISO-week boundary crossings,
//! flushes completed week summaries, keeps running totals for the whole
//! period, and classifies each day line's colour.

use vstd::prelude::*;

use crate::color::{classify_spec, ColorState, DayColor};
use crate::time::{
    iso_week_monday, iso_week_of, iso_week_start_of, iso_year_of, iso_year_week, weekday_of,
    weekday_of_day, Timestamp, Weekday, MAX_DAY, MIN_DAY,
};

verus! {

/// One decoded activity record, with its measurements as plain integers:
/// distance in meters, timer in whole seconds, average speed in meters per
/// hour, ascent and descent in meters, temperature in whole degrees.
#[derive(Clone, Copy, Debug, PartialEq, Eq, Structural)]
pub struct Record {
    pub start_ts: Timestamp,
    pub ts: Timestamp,
    pub distance_m: u64,
    pub timer_secs: u64,
    pub avg_speed: u64,
    pub avg_temp: i64,
    pub total_ascent: u64,
    pub total_descent: u64,
}

impl Record {
    pub open spec fn wf(self) -> bool {
        self.start_ts.wf() && self.ts.wf() && self.avg_temp > i64::MIN
    }
}

/// The data of one formatted day line: the record's measurements together
/// with the weekday and its colour class.
#[derive(Clone, Copy, Debug, PartialEq, Eq, Structural)]
pub struct DayLine {
    pub weekday: Weekday,
    pub color: DayColor,
    pub distance_m: u64,
    pub timer_secs: u64,
    pub avg_speed: u64,
    pub avg_temp: i64,
    pub total_ascent: u64,
    pub total_descent: u64,
}

/// The day line a record gets, once its weekday is classified.
pub open spec fn day_line_of(c: DayColor, wd: Weekday, r: Record) -> DayLine {
    DayLine {
        weekday: wd,
        color: c,
        distance_m: r.distance_m,
        timer_secs: r.timer_secs,
        avg_speed: r.avg_speed,
        avg_temp: r.avg_temp,
        total_ascent: r.total_ascent,
        total_descent: r.total_descent,
    }
}

/// A flushed week: its ISO year and week number, the day numbers of the
/// Monday and Sunday bounding that ISO week, the week's totals and its day
/// lines in arrival order.
#[derive(Clone, Debug)]
pub struct WeekSummary {
    pub iso_year: i32,
    pub week: u32,
    pub monday: i32,
    pub sunday: i32,
    pub distance_m: u64,
    pub timer_secs: u64,
    pub rides: u32,
    pub days: Vec<DayLine>,
}

#[verifier::ext_equal]
pub struct SummaryView {
    pub iso_year: int,
    pub week: int,
    pub monday: int,
    pub sunday: int,
    pub distance_m: int,
    pub timer_secs: int,
    pub rides: int,
    pub days: Seq<DayLine>,
}

impl View for WeekSummary {
    type V = SummaryView;

    open spec fn view(&self) -> SummaryView {
        SummaryView {
            iso_year: self.iso_year as int,
            week: self.week as int,
            monday: self.monday as int,
            sunday: self.sunday as int,
            distance_m: self.distance_m as int,
            timer_secs: self.timer_secs as int,
            rides: self.rides as int,
            days: self.days@,
        }
    }
}

impl WeekSummary {
    pub open spec fn wf(self) -> bool {
        1 <= self.monday <= MAX_DAY && self.sunday as int == self.monday as int + 6
            && self.rides as int == self.days@.len() && forall|i: int|
            0 <= i < self.days@.len() ==> (#[trigger] self.days@[i]).avg_temp > i64::MIN
    }
}

/// The accumulator of the currently open week.
pub struct WeekAcc {
    pub week: u32,
    pub last_ts: Timestamp,
    pub distance_m: u64,
    pub timer_secs: u64,
    pub rides: u32,
    pub days: Vec<DayLine>,
}

#[verifier::ext_equal]
pub struct WeekAccView {
    pub week: int,
    pub last_ts: Timestamp,
    pub distance_m: int,
    pub timer_secs: int,
    pub rides: int,
    pub days: Seq<DayLine>,
}

impl View for WeekAcc {
    type V = WeekAccView;

    open spec fn view(&self) -> WeekAccView {
        WeekAccView {
            week: self.week as int,
            last_ts: self.last_ts,
            distance_m: self.distance_m as int,
            timer_secs: self.timer_secs as int,
            rides: self.rides as int,
            days: self.days@,
        }
    }
}

/// The reducer over the accepted record stream.
pub struct Aggregator {
    pub current: Option<WeekAcc>,
    pub distance_m: u64,
    pub timer_secs: u64,
    pub rides: u32,
    pub color: ColorState,
}

#[verifier::ext_equal]
pub struct AggView {
    pub current: Option<WeekAccView>,
    pub distance_m: int,
    pub timer_secs: int,
    pub rides: int,
    pub color: ColorState,
}

impl View for Aggregator {
    type V = AggView;

    open spec fn view(&self) -> AggView {
        AggView {
            current: match self.current {
                Some(w) => Some(w@),
                None => None,
            },
            distance_m: self.distance_m as int,
            timer_secs: self.timer_secs as int,
            rides: self.rides as int,
            color: self.color,
        }
    }
}

/// The aggregator state before any record was fed.
pub open spec fn init_view() -> AggView {
    AggView {
        current: None,
        distance_m: 0,
        timer_secs: 0,
        rides: 0,
        color: ColorState { last: None, toggle: false },
    }
}

/// The summary a week accumulator flushes to: year, week and week bounds
/// are taken from the accumulator's last record.
pub open spec fn summary_of(w: WeekAccView) -> SummaryView {
    let y = iso_year_of(w.last_ts.day as int);
    let wk = iso_week_of(w.last_ts.day as int);
    SummaryView {
        iso_year: y,
        week: wk,
        monday: iso_week_start_of(y, wk),
        sunday: iso_week_start_of(y, wk) + 6,
        distance_m: w.distance_m,
        timer_secs: w.timer_secs,
        rides: w.rides,
        days: w.days,
    }
}

/// An empty accumulator for a new week.
pub open spec fn fresh_acc(wk: int, ts: Timestamp) -> WeekAccView {
    WeekAccView { week: wk, last_ts: ts, distance_m: 0, timer_secs: 0, rides: 0, days: Seq::empty() }
}

/// One step of the reducer: what feeding a record returns and leaves
/// behind.  A summary is emitted exactly when a week was open and the
/// record's ISO week number differs from it.
pub open spec fn feed_model(a: AggView, r: Record) -> (AggView, Option<SummaryView>) {
    let wk = iso_week_of(r.ts.day as int);
    let wd = weekday_of_day(r.ts.day as int);
    let step = classify_spec(a.color, wd);
    let line = day_line_of(step.0, wd, r);
    let flushed = match a.current {
        Some(w) => if w.week != wk {
            (Some(summary_of(w)), fresh_acc(wk, r.ts))
        } else {
            (None::<SummaryView>, w)
        },
        None => (None::<SummaryView>, fresh_acc(wk, r.ts)),
    };
    let base = flushed.1;
    let acc2 = WeekAccView {
        week: wk,
        last_ts: r.ts,
        distance_m: base.distance_m + r.distance_m,
        timer_secs: base.timer_secs + r.timer_secs,
        rides: base.rides + 1,
        days: base.days.push(line),
    };
    (
        AggView {
            current: Some(acc2),
            distance_m: a.distance_m + r.distance_m,
            timer_secs: a.timer_secs + r.timer_secs,
            rides: a.rides + 1,
            color: step.1,
        },
        flushed.0,
    )
}

/// The terminal flush: the still-open week's summary, if any week is open.
pub open spec fn finish_model(a: AggView) -> Option<SummaryView> {
    match a.current {
        Some(w) => Some(summary_of(w)),
        None => None,
    }
}

/// Feeding a whole sequence of records, collecting the emitted summaries
/// in order.
pub open spec fn run_model(a: AggView, rs: Seq<Record>) -> (AggView, Seq<SummaryView>)
    decreases rs.len(),
{
    if rs.len() == 0 {
        (a, Seq::empty())
    } else {
        let step = feed_model(a, rs[0]);
        let rest = run_model(step.0, rs.drop_first());
        (rest.0, opt_to_seq(step.1) + rest.1)
    }
}

pub open spec fn opt_to_seq<T>(o: Option<T>) -> Seq<T> {
    match o {
        Some(x) => seq![x],
        None => Seq::empty(),
    }
}

pub open spec fn sum_distance(rs: Seq<Record>) -> int
    decreases rs.len(),
{
    if rs.len() == 0 {
        0
    } else {
        rs[0].distance_m + sum_distance(rs.drop_first())
    }
}

pub open spec fn sum_timer(rs: Seq<Record>) -> int
    decreases rs.len(),
{
    if rs.len() == 0 {
        0
    } else {
        rs[0].timer_secs + sum_timer(rs.drop_first())
    }
}

pub open spec fn sum_ev_distance(es: Seq<SummaryView>) -> int
    decreases es.len(),
{
    if es.len() == 0 {
        0
    } else {
        es[0].distance_m + sum_ev_distance(es.drop_first())
    }
}

pub open spec fn sum_ev_timer(es: Seq<SummaryView>) -> int
    decreases es.len(),
{
    if es.len() == 0 {
        0
    } else {
        es[0].timer_secs + sum_ev_timer(es.drop_first())
    }
}

pub open spec fn sum_ev_rides(es: Seq<SummaryView>) -> int
    decreases es.len(),
{
    if es.len() == 0 {
        0
    } else {
        es[0].rides + sum_ev_rides(es.drop_first())
    }
}

/// The totals of the currently open week, or zero with no open week.
pub open spec fn open_distance(a: AggView) -> int {
    match a.current {
        Some(w) => w.distance_m,
        None => 0,
    }
}

pub open spec fn open_timer(a: AggView) -> int {
    match a.current {
        Some(w) => w.timer_secs,
        None => 0,
    }
}

pub open spec fn open_rides(a: AggView) -> int {
    match a.current {
        Some(w) => w.rides,
        None => 0,
    }
}

proof fn lemma_sum_ev_append(s: Seq<SummaryView>, t: Seq<SummaryView>)
    ensures
        sum_ev_distance(s + t) == sum_ev_distance(s) + sum_ev_distance(t),
        sum_ev_timer(s + t) == sum_ev_timer(s) + sum_ev_timer(t),
        sum_ev_rides(s + t) == sum_ev_rides(s) + sum_ev_rides(t),
    decreases s.len(),
{
    if s.len() == 0 {
        assert(s + t =~= t);
    } else {
        assert((s + t)[0] == s[0]);
        assert((s + t).drop_first() =~= s.drop_first() + t);
        lemma_sum_ev_append(s.drop_first(), t);
    }
}

/// A run's period totals grow by exactly the sums over the fed records.
pub proof fn lemma_run_totals(a: AggView, rs: Seq<Record>)
    ensures
        run_model(a, rs).0.distance_m == a.distance_m + sum_distance(rs),
        run_model(a, rs).0.timer_secs == a.timer_secs + sum_timer(rs),
        run_model(a, rs).0.rides == a.rides + rs.len(),
    decreases rs.len(),
{
    if rs.len() > 0 {
        lemma_run_totals(feed_model(a, rs[0]).0, rs.drop_first());
    }
}

/// Along a run, the period totals minus the open week's totals grow by
/// exactly the totals of the summaries emitted on the way.
proof fn lemma_run_split(a: AggView, rs: Seq<Record>)
    ensures
        ({
            let run = run_model(a, rs);
            run.0.distance_m - open_distance(run.0) == a.distance_m - open_distance(a)
                + sum_ev_distance(run.1) && run.0.timer_secs - open_timer(run.0) == a.timer_secs
                - open_timer(a) + sum_ev_timer(run.1) && run.0.rides - open_rides(run.0) == a.rides
                - open_rides(a) + sum_ev_rides(run.1)
        }),
    decreases rs.len(),
{
    if rs.len() > 0 {
        let step = feed_model(a, rs[0]);
        lemma_run_split(step.0, rs.drop_first());
        let rest = run_model(step.0, rs.drop_first());
        lemma_sum_ev_append(opt_to_seq(step.1), rest.1);
        match step.1 {
            Some(s) => {
                assert(opt_to_seq(step.1) =~= seq![s]);
                assert(seq![s].drop_first() =~= Seq::<SummaryView>::empty());
                assert(sum_ev_distance(Seq::<SummaryView>::empty()) == 0);
                assert(sum_ev_timer(Seq::<SummaryView>::empty()) == 0);
                assert(sum_ev_rides(Seq::<SummaryView>::empty()) == 0);
                assert(sum_ev_distance(seq![s]) == s.distance_m);
                assert(sum_ev_timer(seq![s]) == s.timer_secs);
                assert(sum_ev_rides(seq![s]) == s.rides);
            },
            None => {
                assert(opt_to_seq(step.1) =~= Seq::<SummaryView>::empty());
                assert(sum_ev_distance(Seq::<SummaryView>::empty()) == 0);
                assert(sum_ev_timer(Seq::<SummaryView>::empty()) == 0);
                assert(sum_ev_rides(Seq::<SummaryView>::empty()) == 0);
            },
        }
        assert(step.0.distance_m - open_distance(step.0) == a.distance_m - open_distance(a)
            + sum_ev_distance(opt_to_seq(step.1)));
        assert(run_model(a, rs).0 == rest.0);
        assert(run_model(a, rs).1 == opt_to_seq(step.1) + rest.1);
    }
}

/// The grand total over a whole run from the initial state equals the sum
/// over all fed records, and also equals the sum of the totals of the
/// summaries emitted at week boundaries plus the one of the terminal
/// flush: no accepted record is lost and none is counted twice.
pub proof fn lemma_grand_total(rs: Seq<Record>)
    ensures
        ({
            let run = run_model(init_view(), rs);
            let all = run.1 + opt_to_seq(finish_model(run.0));
            run.0.distance_m == sum_distance(rs) && run.0.timer_secs == sum_timer(rs)
                && run.0.rides == rs.len() && sum_ev_distance(all) == sum_distance(rs)
                && sum_ev_timer(all) == sum_timer(rs) && sum_ev_rides(all) == rs.len()
        }),
{
    let run = run_model(init_view(), rs);
    let fin = opt_to_seq(finish_model(run.0));
    lemma_run_totals(init_view(), rs);
    lemma_run_split(init_view(), rs);
    lemma_sum_ev_append(run.1, fin);
    match finish_model(run.0) {
        Some(s) => {
            assert(fin =~= seq![s]);
            assert(seq![s].drop_first() =~= Seq::<SummaryView>::empty());
            assert(sum_ev_distance(Seq::<SummaryView>::empty()) == 0);
            assert(sum_ev_timer(Seq::<SummaryView>::empty()) == 0);
            assert(sum_ev_rides(Seq::<SummaryView>::empty()) == 0);
            assert(sum_ev_distance(seq![s]) == s.distance_m);
            assert(sum_ev_timer(seq![s]) == s.timer_secs);
            assert(sum_ev_rides(seq![s]) == s.rides);
        },
        None => {
            assert(fin =~= Seq::<SummaryView>::empty());
            assert(sum_ev_distance(Seq::<SummaryView>::empty()) == 0);
            assert(sum_ev_timer(Seq::<SummaryView>::empty()) == 0);
            assert(sum_ev_rides(Seq::<SummaryView>::empty()) == 0);
        },
    }
}

/// The ISO week number of a record's timestamp.
pub open spec fn week_of_rec(r: Record) -> int {
    iso_week_of(r.ts.day as int)
}

/// Records sharing a week number stand next to each other: between two
/// records of one week no record of another week occurs.  An ascending
/// stream has this within one year; it is the hypothesis under which a
/// week number identifies one accumulation run.
pub open spec fn weeks_contiguous(rs: Seq<Record>) -> bool {
    forall|i: int, j: int, k: int|
        #![trigger rs[i], rs[j], rs[k]]
        0 <= i < j < k < rs.len() && week_of_rec(rs[i]) == week_of_rec(rs[k])
            ==> week_of_rec(rs[j]) == week_of_rec(rs[i])
}

/// The records of a stream whose ISO week number is `w`, in order.
pub open spec fn recs_of_week(rs: Seq<Record>, w: int) -> Seq<Record>
    decreases rs.len(),
{
    if rs.len() == 0 {
        Seq::empty()
    } else if week_of_rec(rs[0]) == w {
        seq![rs[0]] + recs_of_week(rs.drop_first(), w)
    } else {
        recs_of_week(rs.drop_first(), w)
    }
}

/// Length of the initial run of records with week number `w`.
pub open spec fn seg_len(rs: Seq<Record>, w: int) -> int
    decreases rs.len(),
{
    if rs.len() == 0 || week_of_rec(rs[0]) != w {
        0
    } else {
        1 + seg_len(rs.drop_first(), w)
    }
}

/// A summary's totals are the sums over exactly the records of its week.
pub open spec fn summary_matches(rs: Seq<Record>, s: SummaryView) -> bool {
    s.distance_m == sum_distance(recs_of_week(rs, s.week)) && s.timer_secs == sum_timer(
        recs_of_week(rs, s.week),
    ) && s.rides == recs_of_week(rs, s.week).len()
}

/// Some record of the stream has the summary's week number.
pub open spec fn week_present(rs: Seq<Record>, s: SummaryView) -> bool {
    exists|idx: int| 0 <= idx < rs.len() && week_of_rec(#[trigger] rs[idx]) == s.week
}

proof fn lemma_seg_len_props(rs: Seq<Record>, w: int)
    ensures
        0 <= seg_len(rs, w) <= rs.len(),
        forall|i: int| 0 <= i < seg_len(rs, w) ==> week_of_rec(#[trigger] rs[i]) == w,
        seg_len(rs, w) < rs.len() ==> week_of_rec(rs[seg_len(rs, w)]) != w,
        rs.len() > 0 && week_of_rec(rs[0]) == w ==> seg_len(rs, w) >= 1,
    decreases rs.len(),
{
    if rs.len() > 0 && week_of_rec(rs[0]) == w {
        lemma_seg_len_props(rs.drop_first(), w);
        assert forall|i: int| 0 <= i < seg_len(rs, w) implies week_of_rec(#[trigger] rs[i])
            == w by {
            if i > 0 {
                assert(rs.drop_first()[i - 1] == rs[i]);
            }
        }
        if seg_len(rs, w) < rs.len() {
            assert(rs.drop_first()[seg_len(rs, w) - 1] == rs[seg_len(rs, w)]);
        }
    }
}

proof fn lemma_recs_append(s: Seq<Record>, t: Seq<Record>, w: int)
    ensures
        recs_of_week(s + t, w) =~= recs_of_week(s, w) + recs_of_week(t, w),
    decreases s.len(),
{
    if s.len() == 0 {
        assert(s + t =~= t);
        assert(recs_of_week(s, w) =~= Seq::<Record>::empty());
    } else {
        assert((s + t)[0] == s[0]);
        assert((s + t).drop_first() =~= s.drop_first() + t);
        lemma_recs_append(s.drop_first(), t, w);
    }
}

proof fn lemma_recs_uniform(s: Seq<Record>, w: int)
    requires
        forall|i: int| 0 <= i < s.len() ==> week_of_rec(#[trigger] s[i]) == w,
    ensures
        recs_of_week(s, w) =~= s,
    decreases s.len(),
{
    if s.len() > 0 {
        assert forall|i: int| 0 <= i < s.drop_first().len() implies week_of_rec(
            #[trigger] s.drop_first()[i],
        ) == w by {
            assert(s.drop_first()[i] == s[i + 1]);
        }
        lemma_recs_uniform(s.drop_first(), w);
    }
}

proof fn lemma_recs_absent(s: Seq<Record>, w: int)
    requires
        forall|i: int| 0 <= i < s.len() ==> week_of_rec(#[trigger] s[i]) != w,
    ensures
        recs_of_week(s, w) =~= Seq::<Record>::empty(),
    decreases s.len(),
{
    if s.len() > 0 {
        assert forall|i: int| 0 <= i < s.drop_first().len() implies week_of_rec(
            #[trigger] s.drop_first()[i],
        ) != w by {
            assert(s.drop_first()[i] == s[i + 1]);
        }
        lemma_recs_absent(s.drop_first(), w);
    }
}

proof fn lemma_run_model_append(a: AggView, s: Seq<Record>, t: Seq<Record>)
    ensures
        run_model(a, s + t).0 == run_model(run_model(a, s).0, t).0,
        run_model(a, s + t).1 =~= run_model(a, s).1 + run_model(run_model(a, s).0, t).1,
    decreases s.len(),
{
    if s.len() == 0 {
        assert(s + t =~= t);
        assert(run_model(a, s).1 =~= Seq::<SummaryView>::empty());
    } else {
        assert((s + t)[0] == s[0]);
        assert((s + t).drop_first() =~= s.drop_first() + t);
        let st = feed_model(a, s[0]);
        lemma_run_model_append(st.0, s.drop_first(), t);
        assert(run_model(a, s + t).1 =~= opt_to_seq(st.1) + run_model(st.0, s.drop_first() + t).1);
        assert(opt_to_seq(st.1) + (run_model(st.0, s.drop_first()).1 + run_model(
            run_model(st.0, s.drop_first()).0,
            t,
        ).1) =~= (opt_to_seq(st.1) + run_model(st.0, s.drop_first()).1) + run_model(
            run_model(st.0, s.drop_first()).0,
            t,
        ).1);
    }
}

proof fn lemma_run_same_week(a: AggView, rs: Seq<Record>, w: int)
    requires
        a.current is Some,
        a.current.unwrap().week == w,
        iso_week_of(a.current.unwrap().last_ts.day as int) == w,
        forall|i: int| 0 <= i < rs.len() ==> week_of_rec(#[trigger] rs[i]) == w,
    ensures
        ({
            let run = run_model(a, rs);
            run.1 =~= Seq::<SummaryView>::empty() && run.0.current is Some
                && run.0.current.unwrap().week == w && iso_week_of(
                run.0.current.unwrap().last_ts.day as int,
            ) == w && run.0.current.unwrap().distance_m == a.current.unwrap().distance_m
                + sum_distance(rs) && run.0.current.unwrap().timer_secs
                == a.current.unwrap().timer_secs + sum_timer(rs) && run.0.current.unwrap().rides
                == a.current.unwrap().rides + rs.len()
        }),
    decreases rs.len(),
{
    if rs.len() > 0 {
        let st = feed_model(a, rs[0]);
        assert(week_of_rec(rs[0]) == w);
        assert(st.1 is None);
        assert forall|i: int| 0 <= i < rs.drop_first().len() implies week_of_rec(
            #[trigger] rs.drop_first()[i],
        ) == w by {
            assert(rs.drop_first()[i] == rs[i + 1]);
        }
        lemma_run_same_week(st.0, rs.drop_first(), w);
        assert(run_model(a, rs).1 =~= opt_to_seq(st.1) + run_model(st.0, rs.drop_first()).1);
    }
}

proof fn lemma_run_flush_head(a: AggView, rs: Seq<Record>)
    requires
        a.current is Some,
        rs.len() > 0,
        week_of_rec(rs[0]) != a.current.unwrap().week,
    ensures
        ({
            let cleared = AggView {
                current: None,
                distance_m: a.distance_m,
                timer_secs: a.timer_secs,
                rides: a.rides,
                color: a.color,
            };
            run_model(a, rs).0 == run_model(cleared, rs).0 && run_model(a, rs).1 =~= seq![
                summary_of(a.current.unwrap()),
            ] + run_model(cleared, rs).1
        }),
{
    let cleared = AggView {
        current: None,
        distance_m: a.distance_m,
        timer_secs: a.timer_secs,
        rides: a.rides,
        color: a.color,
    };
    let st = feed_model(a, rs[0]);
    let stc = feed_model(cleared, rs[0]);
    assert(st.0 =~~= stc.0);
    assert(st.1 == Some(summary_of(a.current.unwrap())));
    assert(stc.1 is None);
    assert(run_model(a, rs).1 =~= opt_to_seq(st.1) + run_model(st.0, rs.drop_first()).1);
    assert(run_model(cleared, rs).1 =~= opt_to_seq(stc.1) + run_model(stc.0, rs.drop_first()).1);
    assert(opt_to_seq(stc.1) + run_model(stc.0, rs.drop_first()).1 =~= run_model(
        stc.0,
        rs.drop_first(),
    ).1);
    assert(opt_to_seq(st.1) =~= seq![summary_of(a.current.unwrap())]);
}

proof fn lemma_weeks_gen(a: AggView, rs: Seq<Record>)
    requires
        a.current is None,
        weeks_contiguous(rs),
    ensures
        ({
            let run = run_model(a, rs);
            let all = run.1 + opt_to_seq(finish_model(run.0));
            forall|k: int|
                0 <= k < all.len() ==> summary_matches(rs, #[trigger] all[k]) && week_present(
                    rs,
                    all[k],
                )
        }),
    decreases rs.len(),
{
    let run = run_model(a, rs);
    let all = run.1 + opt_to_seq(finish_model(run.0));
    if rs.len() == 0 {
        assert(all =~= Seq::<SummaryView>::empty());
    } else {
        let w0 = week_of_rec(rs[0]);
        lemma_seg_len_props(rs, w0);
        let j = seg_len(rs, w0);
        let seg = rs.take(j);
        let rest = rs.skip(j);
        assert(rs =~= seg + rest);
        assert forall|i: int| 0 <= i < seg.len() implies week_of_rec(#[trigger] seg[i]) == w0 by {
            assert(seg[i] == rs[i]);
        }
        lemma_run_model_append(a, seg, rest);
        // running the uniform head segment: one fresh week, no emission
        let st0 = feed_model(a, seg[0]);
        assert(seg[0] == rs[0]);
        assert(st0.1 is None);
        assert(st0.0.current is Some);
        assert(st0.0.current.unwrap().week == w0);
        assert(iso_week_of(st0.0.current.unwrap().last_ts.day as int) == w0);
        assert forall|i: int| 0 <= i < seg.drop_first().len() implies week_of_rec(
            #[trigger] seg.drop_first()[i],
        ) == w0 by {
            assert(seg.drop_first()[i] == seg[i + 1]);
        }
        lemma_run_same_week(st0.0, seg.drop_first(), w0);
        let segrun = run_model(a, seg);
        assert(segrun.1 =~= opt_to_seq(st0.1) + run_model(st0.0, seg.drop_first()).1);
        assert(segrun.1 =~= Seq::<SummaryView>::empty());
        let accs = segrun.0.current.unwrap();
        assert(accs.week == w0 && iso_week_of(accs.last_ts.day as int) == w0);
        // its totals are the sums over the segment
        assert(sum_distance(seg) == seg[0].distance_m + sum_distance(seg.drop_first()));
        assert(sum_timer(seg) == seg[0].timer_secs + sum_timer(seg.drop_first()));
        assert(accs.distance_m == sum_distance(seg));
        assert(accs.timer_secs == sum_timer(seg));
        assert(accs.rides == seg.len());
        lemma_recs_uniform(seg, w0);
        lemma_recs_append(seg, rest, w0);
        // no record of the rest is of week w0
        assert forall|i: int| 0 <= i < rest.len() implies week_of_rec(#[trigger] rest[i])
            != w0 by {
            assert(rest[i] == rs[j + i]);
            if week_of_rec(rs[j + i]) == w0 {
                if i == 0 {
                    assert(week_of_rec(rs[j]) != w0);
                } else {
                    assert(0 < j < j + i < rs.len());
                    assert(week_of_rec(rs[j]) == w0);
                }
            }
        }
        lemma_recs_absent(rest, w0);
        assert(recs_of_week(rs, w0) =~= seg);
        if rest.len() == 0 {
            assert(run.0 == segrun.0);
            assert(run.1 =~= segrun.1 + run_model(segrun.0, rest).1);
            assert(run_model(segrun.0, rest).1 =~= Seq::<SummaryView>::empty());
            assert(run.1 =~= Seq::<SummaryView>::empty());
            let s0 = summary_of(accs);
            assert(finish_model(run.0) == Some(s0));
            assert(all =~= seq![s0]);
            assert(s0.week == w0);
            assert(summary_matches(rs, s0));
            assert(week_of_rec(rs[0]) == s0.week);
            assert(week_present(rs, s0));
        } else {
            assert(week_of_rec(rest[0]) != w0) by {
                assert(rest[0] == rs[j]);
            }
            lemma_run_flush_head(segrun.0, rest);
            let cleared = AggView {
                current: None,
                distance_m: segrun.0.distance_m,
                timer_secs: segrun.0.timer_secs,
                rides: segrun.0.rides,
                color: segrun.0.color,
            };
            // the tail inherits contiguity
            assert forall|i: int, jj: int, k: int|
                #![trigger rest[i], rest[jj], rest[k]]
                0 <= i < jj < k < rest.len() && week_of_rec(rest[i]) == week_of_rec(
                    rest[k],
                ) implies week_of_rec(rest[jj]) == week_of_rec(rest[i]) by {
                assert(rest[i] == rs[j + i]);
                assert(rest[jj] == rs[j + jj]);
                assert(rest[k] == rs[j + k]);
            }
            lemma_weeks_gen(cleared, rest);
            let restrun = run_model(cleared, rest);
            let all_rest = restrun.1 + opt_to_seq(finish_model(restrun.0));
            let s0 = summary_of(accs);
            assert(run.0 == restrun.0);
            assert(run.1 =~= segrun.1 + run_model(segrun.0, rest).1);
            assert(run.1 =~= seq![s0] + restrun.1);
            assert(all =~= seq![s0] + all_rest);
            assert(s0.week == w0);
            assert(summary_matches(rs, s0));
            assert forall|k: int|
                0 <= k < all.len() implies summary_matches(rs, #[trigger] all[k]) && week_present(
                    rs,
                    all[k],
                ) by {
                if k == 0 {
                    assert(all[0] == s0);
                    assert(week_of_rec(rs[0]) == s0.week);
                    assert(week_present(rs, s0));
                } else {
                    let s = all_rest[k - 1];
                    assert(all[k] == s);
                    assert(summary_matches(rest, s) && week_present(rest, s));
                    let idx = choose|idx: int|
                        0 <= idx < rest.len() && week_of_rec(#[trigger] rest[idx]) == s.week;
                    assert(rest[idx] == rs[j + idx]);
                    assert(week_present(rs, s));
                    assert(s.week != w0);
                    lemma_recs_absent(seg, s.week);
                    lemma_recs_append(seg, rest, s.week);
                    assert(recs_of_week(rs, s.week) =~= recs_of_week(rest, s.week));
                    assert(summary_matches(rs, s));
                }
            }
        }
    }
}

/// Each emitted week summary — those flushed at boundary crossings and
/// the one of the terminal flush — carries as its totals the sums of
/// `distance`, `time` and count over exactly the records whose ISO week
/// number equals the summary's, provided records of one week number stand
/// contiguously in the stream (as they do in an ascending stream within
/// one year).
pub proof fn lemma_week_summary_totals(rs: Seq<Record>)
    requires
        weeks_contiguous(rs),
    ensures
        ({
            let run = run_model(init_view(), rs);
            let all = run.1 + opt_to_seq(finish_model(run.0));
            forall|k: int| 0 <= k < all.len() ==> summary_matches(rs, #[trigger] all[k])
        }),
{
    lemma_weeks_gen(init_view(), rs);
}

impl Aggregator {
    /// Internal consistency: the open week's number is the ISO week number
    /// of its last record, its totals never exceed the period totals, and
    /// it holds one day line per accumulated ride.
    pub open spec fn wf(self) -> bool {
        match self.current {
            Some(w) => w.week as int == iso_week_of(w.last_ts.day as int) && 1 <= w.week <= 53
                && w.last_ts.wf() && w.distance_m <= self.distance_m
                && w.timer_secs <= self.timer_secs && w.rides <= self.rides && w.rides >= 1
                && w.rides as int == w.days@.len() && forall|i: int|
                0 <= i < w.days@.len() ==> (#[trigger] w.days@[i]).avg_temp > i64::MIN,
            None => true,
        }
    }

    /// A fresh reducer: no open week, zero totals, untouched colour state.
    pub fn new() -> (a: Aggregator)
        ensures
            a.wf(),
            a@ == init_view(),
    {
        Aggregator {
            current: None,
            distance_m: 0,
            timer_secs: 0,
            rides: 0,
            color: ColorState { last: None, toggle: false },
        }
    }

    /// Feeds one accepted record, returning the completed week's summary
    /// when the record's ISO week number differs from the open week's.
    pub fn feed(&mut self, r: Record) -> (ev: Option<WeekSummary>)
        requires
            old(self).wf(),
            r.wf(),
            old(self).distance_m + r.distance_m <= u64::MAX,
            old(self).timer_secs + r.timer_secs <= u64::MAX,
            old(self).rides < u32::MAX,
        ensures
            final(self).wf(),
            final(self)@ == feed_model(old(self)@, r).0,
            (ev is Some) == (feed_model(old(self)@, r).1 is Some),
            ev is Some ==> ev.unwrap()@ == feed_model(old(self)@, r).1.unwrap()
                && ev.unwrap().wf(),
    {
        let (_y, wk) = iso_year_week(r.ts.day);
        let prev = self.current.take();
        let mut ev: Option<WeekSummary> = None;
        let mut acc: WeekAcc = match prev {
            None => WeekAcc {
                week: wk,
                last_ts: r.ts,
                distance_m: 0,
                timer_secs: 0,
                rides: 0,
                days: Vec::new(),
            },
            Some(w) => {
                if w.week != wk {
                    ev = Some(flush_week(w));
                    WeekAcc {
                        week: wk,
                        last_ts: r.ts,
                        distance_m: 0,
                        timer_secs: 0,
                        rides: 0,
                        days: Vec::new(),
                    }
                } else {
                    w
                }
            },
        };
        let wd = weekday_of(r.ts);
        let c = self.color.classify(wd);
        let line = DayLine {
            weekday: wd,
            color: c,
            distance_m: r.distance_m,
            timer_secs: r.timer_secs,
            avg_speed: r.avg_speed,
            avg_temp: r.avg_temp,
            total_ascent: r.total_ascent,
            total_descent: r.total_descent,
        };
        acc.distance_m = acc.distance_m + r.distance_m;
        acc.timer_secs = acc.timer_secs + r.timer_secs;
        acc.rides = acc.rides + 1;
        acc.last_ts = r.ts;
        acc.days.push(line);
        self.distance_m = self.distance_m + r.distance_m;
        self.timer_secs = self.timer_secs + r.timer_secs;
        self.rides = self.rides + 1;
        self.current = Some(acc);
        proof {
            assert(final(self)@ =~~= feed_model(old(self)@, r).0);
        }
        ev
    }

    /// The terminal flush at end of stream: the summary of the still-open
    /// week, if one is open.  Leaves the reducer unchanged.
    pub fn finish(&self) -> (ev: Option<WeekSummary>)
        requires
            self.wf(),
        ensures
            (ev is Some) == (finish_model(self@) is Some),
            ev is Some ==> ev.unwrap()@ == finish_model(self@).unwrap() && ev.unwrap().wf(),
    {
        match &self.current {
            None => None,
            Some(w) => {
                let days2 = copy_days(&w.days);
                let w2 = WeekAcc {
                    week: w.week,
                    last_ts: w.last_ts,
                    distance_m: w.distance_m,
                    timer_secs: w.timer_secs,
                    rides: w.rides,
                    days: days2,
                };
                assert(w2@ =~~= w@);
                Some(flush_week(w2))
            },
        }
    }
}

/// Builds the summary of a completed week accumulator.
fn flush_week(w: WeekAcc) -> (s: WeekSummary)
    requires
        w.last_ts.wf(),
        w.week as int == iso_week_of(w.last_ts.day as int),
        w.rides as int == w.days@.len(),
        forall|i: int| 0 <= i < w.days@.len() ==> (#[trigger] w.days@[i]).avg_temp > i64::MIN,
    ensures
        s@ == summary_of(w@),
        s.wf(),
{
    let (y, wk) = iso_year_week(w.last_ts.day);
    let monday = iso_week_monday(y, wk);
    let s = WeekSummary {
        iso_year: y,
        week: wk,
        monday,
        sunday: monday + 6,
        distance_m: w.distance_m,
        timer_secs: w.timer_secs,
        rides: w.rides,
        days: w.days,
    };
    assert(s@ =~~= summary_of(w@));
    s
}

/// An element-wise copy of a day-line vector.
fn copy_days(days: &Vec<DayLine>) -> (r: Vec<DayLine>)
    ensures
        r@ == days@,
{
    let mut r: Vec<DayLine> = Vec::new();
    let mut i: usize = 0;
    while i < days.len()
        invariant
            i <= days.len(),
            r@ == days@.take(i as int),
        decreases days.len() - i,
    {
        r.push(days[i]);
        assert(r@ =~= days@.take(i as int + 1));
        i = i + 1;
    }
    assert(r@ =~= days@);
    r
}

} // verus!
