//! The report driver: the date-window filter and the single pass that
//! turns a path-ordered stream of decode results into week-summary and
//! diagnostic events, period totals and the effective window start.

use vstd::prelude::*;

use crate::agg::{
    feed_model, finish_model, init_view, opt_to_seq, run_model, sum_distance, sum_timer, AggView,
    Aggregator, Record, SummaryView, WeekSummary,
};
use crate::time::{ts_le, ts_le_exec, Timestamp};

verus! {

/// What reading and decoding one file produced: a record, or the text of
/// the decode error.
#[derive(Clone, Debug)]
pub enum InputItem {
    Rec(Record),
    Bad(String),
}

/// The requested date window: an optional inclusive lower and upper bound.
/// Without an upper bound the window is open-ended ("since" mode) and the
/// report announces the first accepted record's timestamp as the effective
/// start.
#[derive(Clone, Copy, Debug)]
pub struct ReportConfig {
    pub from: Option<Timestamp>,
    pub until: Option<Timestamp>,
}

impl ReportConfig {
    pub open spec fn wf(self) -> bool {
        (match self.from {
            Some(f) => f.wf(),
            None => true,
        }) && (match self.until {
            Some(u) => u.wf(),
            None => true,
        }) && (match (self.from, self.until) {
            (Some(f), Some(u)) => ts_le(f, u),
            _ => true,
        })
    }

    /// Validates a requested window.  An inverted window (both bounds
    /// given and start after end) is rejected, and nothing else is.
    pub fn new(from: Option<Timestamp>, until: Option<Timestamp>) -> (r: Option<ReportConfig>)
        requires
            from matches Some(f) ==> f.wf(),
            until matches Some(u) ==> u.wf(),
        ensures
            (r is Some) == !(from matches Some(f) && until matches Some(u) && !ts_le(f, u)),
            r matches Some(c) ==> c == (ReportConfig { from, until }) && c.wf(),
    {
        match (from, until) {
            (Some(f), Some(u)) => {
                if ts_le_exec(f, u) {
                    Some(ReportConfig { from, until })
                } else {
                    None
                }
            },
            _ => Some(ReportConfig { from, until }),
        }
    }

    /// No upper bound was requested: the window is open-ended.
    pub open spec fn spec_since_mode(self) -> bool {
        self.until is None
    }

    /// Decides `spec_since_mode`.
    pub fn since_mode(&self) -> (r: bool)
        ensures
            r == self.spec_since_mode(),
    {
        match self.until {
            None => true,
            Some(_) => false,
        }
    }
}

/// A record is accepted exactly when its timestamp lies within both
/// requested bounds.
pub open spec fn in_window(cfg: ReportConfig, ts: Timestamp) -> bool {
    (match cfg.from {
        Some(f) => ts_le(f, ts),
        None => true,
    }) && (match cfg.until {
        Some(u) => ts_le(ts, u),
        None => true,
    })
}

/// Decides `in_window`.
pub fn accepts(cfg: &ReportConfig, ts: Timestamp) -> (r: bool)
    ensures
        r == in_window(*cfg, ts),
{
    let lo = match cfg.from {
        Some(f) => ts_le_exec(f, ts),
        None => true,
    };
    let hi = match cfg.until {
        Some(u) => ts_le_exec(ts, u),
        None => true,
    };
    lo && hi
}

/// The accepted records of an input stream, in order: the decoded records
/// whose timestamps lie in the window.
pub open spec fn accepted_of(cfg: ReportConfig, items: Seq<InputItem>) -> Seq<Record>
    decreases items.len(),
{
    if items.len() == 0 {
        Seq::empty()
    } else {
        let rest = accepted_of(cfg, items.drop_first());
        match items[0] {
            InputItem::Rec(r) => if in_window(cfg, r.ts) {
                seq![r] + rest
            } else {
                rest
            },
            InputItem::Bad(_) => rest,
        }
    }
}

/// The timestamp of the first accepted record, if any record is accepted.
pub open spec fn first_accepted_of(cfg: ReportConfig, items: Seq<InputItem>) -> Option<Timestamp> {
    if accepted_of(cfg, items).len() == 0 {
        None
    } else {
        Some(accepted_of(cfg, items)[0].ts)
    }
}

/// An output event of the pass, in stream order: a flushed week summary
/// or one decode diagnostic.
#[derive(Clone, Debug)]
pub enum ReportEvent {
    Week(WeekSummary),
    Diag(String),
}

#[verifier::ext_equal]
pub enum EventModel {
    Week(SummaryView),
    Diag(Seq<char>),
}

pub open spec fn event_view(e: ReportEvent) -> EventModel {
    match e {
        ReportEvent::Week(s) => EventModel::Week(s@),
        ReportEvent::Diag(m) => EventModel::Diag(m@),
    }
}

pub open spec fn map_week(o: Option<SummaryView>) -> Seq<EventModel> {
    match o {
        Some(s) => seq![EventModel::Week(s)],
        None => Seq::empty(),
    }
}

/// What one input item contributes: a diagnostic event for a decode
/// failure, a reducer step for an accepted record, nothing for a rejected
/// one.
pub open spec fn item_step(cfg: ReportConfig, a: AggView, x: InputItem) -> (
    Seq<EventModel>,
    AggView,
) {
    match x {
        InputItem::Bad(m) => (seq![EventModel::Diag(m@)], a),
        InputItem::Rec(r) => if in_window(cfg, r.ts) {
            let st = feed_model(a, r);
            (map_week(st.1), st.0)
        } else {
            (Seq::empty(), a)
        },
    }
}

/// The whole pass over the input stream, without the terminal flush.
pub open spec fn run_items(cfg: ReportConfig, a: AggView, items: Seq<InputItem>) -> (
    Seq<EventModel>,
    AggView,
)
    decreases items.len(),
{
    if items.len() == 0 {
        (Seq::empty(), a)
    } else {
        let hd = item_step(cfg, a, items[0]);
        let rest = run_items(cfg, hd.1, items.drop_first());
        (hd.0 + rest.0, rest.1)
    }
}

/// The events of a finished report: those of the pass followed by the
/// terminal flush.
pub open spec fn report_events(cfg: ReportConfig, items: Seq<InputItem>) -> Seq<EventModel> {
    let run = run_items(cfg, init_view(), items);
    run.0 + map_week(finish_model(run.1))
}

/// A finished report: the events in stream order, the period totals over
/// all accepted records, and the first accepted record's timestamp.
pub struct Report {
    pub events: Vec<ReportEvent>,
    pub total_distance_m: u64,
    pub total_timer_secs: u64,
    pub total_rides: u32,
    pub first_accepted: Option<Timestamp>,
}

impl Report {
    pub open spec fn wf(self) -> bool {
        (match self.first_accepted {
            Some(t) => t.wf(),
            None => true,
        }) && forall|i: int|
            0 <= i < self.events@.len() ==> (match #[trigger] self.events@[i] {
                ReportEvent::Week(s) => s.wf(),
                ReportEvent::Diag(_) => true,
            })
    }
}

proof fn lemma_accepted_append(cfg: ReportConfig, s: Seq<InputItem>, t: Seq<InputItem>)
    ensures
        accepted_of(cfg, s + t) =~= accepted_of(cfg, s) + accepted_of(cfg, t),
    decreases s.len(),
{
    if s.len() == 0 {
        assert(s + t =~= t);
        assert(accepted_of(cfg, s) =~= Seq::<Record>::empty());
    } else {
        assert((s + t)[0] == s[0]);
        assert((s + t).drop_first() =~= s.drop_first() + t);
        lemma_accepted_append(cfg, s.drop_first(), t);
    }
}

proof fn lemma_sums_nonneg(rs: Seq<Record>)
    ensures
        sum_distance(rs) >= 0,
        sum_timer(rs) >= 0,
    decreases rs.len(),
{
    if rs.len() > 0 {
        lemma_sums_nonneg(rs.drop_first());
    }
}

proof fn lemma_sum_append(s: Seq<Record>, t: Seq<Record>)
    ensures
        sum_distance(s + t) == sum_distance(s) + sum_distance(t),
        sum_timer(s + t) == sum_timer(s) + sum_timer(t),
    decreases s.len(),
{
    if s.len() == 0 {
        assert(s + t =~= t);
    } else {
        assert((s + t)[0] == s[0]);
        assert((s + t).drop_first() =~= s.drop_first() + t);
        lemma_sum_append(s.drop_first(), t);
    }
}

proof fn lemma_run_items_snoc(cfg: ReportConfig, a: AggView, s: Seq<InputItem>, x: InputItem)
    ensures
        ({
            let whole = run_items(cfg, a, s.push(x));
            let run = run_items(cfg, a, s);
            let st = item_step(cfg, run.1, x);
            whole.0 =~~= run.0 + st.0 && whole.1 == st.1
        }),
    decreases s.len(),
{
    if s.len() == 0 {
        let st0 = item_step(cfg, a, x);
        assert(s.push(x)[0] == x);
        assert(s.push(x).drop_first() =~= Seq::<InputItem>::empty());
        assert(run_items(cfg, st0.1, Seq::<InputItem>::empty()).0 =~= Seq::<EventModel>::empty());
        assert(run_items(cfg, a, s.push(x)).0 =~~= st0.0 + Seq::<EventModel>::empty());
        assert(st0.0 + Seq::<EventModel>::empty() =~= st0.0);
        assert(run_items(cfg, a, s).0 =~= Seq::<EventModel>::empty());
        assert(Seq::<EventModel>::empty() + st0.0 =~= st0.0);
    } else {
        assert(s.push(x)[0] == s[0]);
        assert(s.push(x).drop_first() =~= s.drop_first().push(x));
        let hd = item_step(cfg, a, s[0]);
        lemma_run_items_snoc(cfg, hd.1, s.drop_first(), x);
        let runt = run_items(cfg, hd.1, s.drop_first());
        let st = item_step(cfg, runt.1, x);
        assert(run_items(cfg, a, s.push(x)).0 =~~= hd.0 + (runt.0 + st.0));
        assert(hd.0 + (runt.0 + st.0) =~~= (hd.0 + runt.0) + st.0);
    }
}

proof fn lemma_accepted_snoc(cfg: ReportConfig, s: Seq<InputItem>, x: InputItem)
    ensures
        accepted_of(cfg, s.push(x)) =~= accepted_of(cfg, s) + accepted_of(cfg, seq![x]),
{
    assert(s.push(x) =~= s + seq![x]);
    lemma_accepted_append(cfg, s, seq![x]);
}

/// The week summaries among a sequence of events, in order.
pub open spec fn weeks_of(es: Seq<EventModel>) -> Seq<SummaryView>
    decreases es.len(),
{
    if es.len() == 0 {
        Seq::empty()
    } else {
        let rest = weeks_of(es.drop_first());
        match es[0] {
            EventModel::Week(s) => seq![s] + rest,
            EventModel::Diag(_) => rest,
        }
    }
}

proof fn lemma_weeks_of_append(s: Seq<EventModel>, t: Seq<EventModel>)
    ensures
        weeks_of(s + t) =~= weeks_of(s) + weeks_of(t),
    decreases s.len(),
{
    if s.len() == 0 {
        assert(s + t =~= t);
        assert(weeks_of(s) =~= Seq::<SummaryView>::empty());
    } else {
        assert((s + t)[0] == s[0]);
        assert((s + t).drop_first() =~= s.drop_first() + t);
        lemma_weeks_of_append(s.drop_first(), t);
    }
}

/// The pass over the mixed stream agrees with the plain reducer run over
/// just the accepted records: the final aggregator state is the same, and
/// the week events, in order, are exactly the reducer's emissions.
pub proof fn lemma_run_items_vs_model(cfg: ReportConfig, a: AggView, items: Seq<InputItem>)
    ensures
        run_items(cfg, a, items).1 == run_model(a, accepted_of(cfg, items)).0,
        weeks_of(run_items(cfg, a, items).0) == run_model(a, accepted_of(cfg, items)).1,
    decreases items.len(),
{
    if items.len() == 0 {
        assert(accepted_of(cfg, items) =~= Seq::<Record>::empty());
        assert(weeks_of(run_items(cfg, a, items).0) =~= Seq::<SummaryView>::empty());
    } else {
        let hd = item_step(cfg, a, items[0]);
        lemma_run_items_vs_model(cfg, hd.1, items.drop_first());
        let rest = run_items(cfg, hd.1, items.drop_first());
        lemma_weeks_of_append(hd.0, rest.0);
        match items[0] {
            InputItem::Bad(m) => {
                assert(hd.0 =~= seq![EventModel::Diag(m@)]);
                assert(seq![EventModel::Diag(m@)].drop_first() =~= Seq::<EventModel>::empty());
                assert(weeks_of(Seq::<EventModel>::empty()) == Seq::<SummaryView>::empty());
                assert(weeks_of(hd.0) =~= Seq::<SummaryView>::empty());
                assert(weeks_of(run_items(cfg, a, items).0) =~= weeks_of(rest.0));
            },
            InputItem::Rec(r) => {
                if in_window(cfg, r.ts) {
                    let st = feed_model(a, r);
                    let acc = accepted_of(cfg, items);
                    assert(acc =~= seq![r] + accepted_of(cfg, items.drop_first()));
                    assert(acc[0] == r);
                    assert(acc.drop_first() =~= accepted_of(cfg, items.drop_first()));
                    match st.1 {
                        Some(s) => {
                            assert(hd.0 =~= seq![EventModel::Week(s)]);
                            assert(seq![EventModel::Week(s)].drop_first() =~= Seq::<
                                EventModel,
                            >::empty());
                            assert(weeks_of(Seq::<EventModel>::empty()) == Seq::<
                                SummaryView,
                            >::empty());
                            assert(seq![s] + Seq::<SummaryView>::empty() =~= seq![s]);
                            assert(weeks_of(hd.0) =~= seq![s]);
                        },
                        None => {
                            assert(hd.0 =~= Seq::<EventModel>::empty());
                            assert(weeks_of(hd.0) =~= Seq::<SummaryView>::empty());
                        },
                    }
                    assert(weeks_of(run_items(cfg, a, items).0) =~= weeks_of(hd.0) + weeks_of(
                        rest.0,
                    ));
                    assert(run_model(a, acc).1 =~= opt_to_seq(st.1) + run_model(
                        st.0,
                        acc.drop_first(),
                    ).1);
                    assert(weeks_of(hd.0) =~= opt_to_seq(st.1));
                } else {
                    assert(hd.0 =~= Seq::<EventModel>::empty());
                    assert(weeks_of(hd.0) =~= Seq::<SummaryView>::empty());
                    assert(accepted_of(cfg, items) =~= accepted_of(cfg, items.drop_first()));
                    assert(weeks_of(run_items(cfg, a, items).0) =~= weeks_of(rest.0));
                }
            },
        }
    }
}

/// The week summaries of a finished report, in order, are exactly the
/// reducer's emissions over the accepted records followed by the terminal
/// flush; together with the reducer laws this pins their totals.
pub proof fn lemma_report_weeks(cfg: ReportConfig, items: Seq<InputItem>)
    ensures
        weeks_of(report_events(cfg, items)) == ({
            let run = run_model(init_view(), accepted_of(cfg, items));
            run.1 + opt_to_seq(finish_model(run.0))
        }),
{
    lemma_run_items_vs_model(cfg, init_view(), items);
    let run = run_items(cfg, init_view(), items);
    lemma_weeks_of_append(run.0, map_week(finish_model(run.1)));
    match finish_model(run.1) {
        Some(s) => {
            assert(map_week(finish_model(run.1)) =~= seq![EventModel::Week(s)]);
            assert(seq![EventModel::Week(s)].drop_first() =~= Seq::<EventModel>::empty());
            assert(weeks_of(Seq::<EventModel>::empty()) == Seq::<SummaryView>::empty());
            assert(seq![s] + Seq::<SummaryView>::empty() =~= seq![s]);
            assert(weeks_of(map_week(finish_model(run.1))) =~= seq![s]);
            assert(weeks_of(report_events(cfg, items)) =~= run_model(
                init_view(),
                accepted_of(cfg, items),
            ).1 + opt_to_seq(finish_model(run_model(init_view(), accepted_of(cfg, items)).0)));
        },
        None => {
            assert(map_week(finish_model(run.1)) =~= Seq::<EventModel>::empty());
            assert(weeks_of(Seq::<EventModel>::empty()) =~= Seq::<SummaryView>::empty());
            assert(weeks_of(report_events(cfg, items)) =~= run_model(
                init_view(),
                accepted_of(cfg, items),
            ).1 + opt_to_seq(finish_model(run_model(init_view(), accepted_of(cfg, items)).0)));
        },
    }
}

proof fn lemma_run_items_drop_outside(cfg: ReportConfig, a: AggView, items: Seq<InputItem>, i: int)
    requires
        0 <= i < items.len(),
        items[i] matches InputItem::Rec(r) && !in_window(cfg, r.ts),
    ensures
        run_items(cfg, a, items).0 == run_items(cfg, a, items.remove(i)).0,
        run_items(cfg, a, items).1 == run_items(cfg, a, items.remove(i)).1,
        accepted_of(cfg, items) == accepted_of(cfg, items.remove(i)),
    decreases items.len(),
{
    if i == 0 {
        assert(items.remove(0) =~= items.drop_first());
        assert(item_step(cfg, a, items[0]).0 =~= Seq::<EventModel>::empty());
        assert(item_step(cfg, a, items[0]).1 == a);
        assert(run_items(cfg, a, items).0 =~= Seq::<EventModel>::empty() + run_items(
            cfg,
            a,
            items.drop_first(),
        ).0);
        assert(Seq::<EventModel>::empty() + run_items(cfg, a, items.drop_first()).0 =~= run_items(
            cfg,
            a,
            items.drop_first(),
        ).0);
    } else {
        assert(items.remove(i)[0] == items[0]);
        assert(items.remove(i).drop_first() =~= items.drop_first().remove(i - 1));
        let hd = item_step(cfg, a, items[0]);
        lemma_run_items_drop_outside(cfg, hd.1, items.drop_first(), i - 1);
        assert(run_items(cfg, a, items).0 =~= hd.0 + run_items(cfg, hd.1, items.drop_first()).0);
        assert(run_items(cfg, a, items.remove(i)).0 =~= hd.0 + run_items(
            cfg,
            hd.1,
            items.remove(i).drop_first(),
        ).0);
    }
}

/// A record whose timestamp lies outside the window contributes to no
/// accumulator and appears in no output: removing its item from the input
/// stream changes neither the report's events (week summaries, terminal
/// flush and diagnostics alike), nor the accepted records, and so neither
/// the period totals nor the announced effective start.
pub proof fn lemma_outside_window_ignored(cfg: ReportConfig, items: Seq<InputItem>, i: int)
    requires
        0 <= i < items.len(),
        items[i] matches InputItem::Rec(r) && !in_window(cfg, r.ts),
    ensures
        report_events(cfg, items) == report_events(cfg, items.remove(i)),
        accepted_of(cfg, items) == accepted_of(cfg, items.remove(i)),
        first_accepted_of(cfg, items) == first_accepted_of(cfg, items.remove(i)),
{
    lemma_run_items_drop_outside(cfg, init_view(), items, i);
}

/// Runs the whole pass: filters the decode results to the window, feeds
/// the accepted records to the aggregator in order, collects the emitted
/// week summaries and the decode diagnostics in stream order, performs the
/// terminal flush and reports the period totals.
pub fn build_report(cfg: &ReportConfig, items: &Vec<InputItem>) -> (rep: Report)
    requires
        cfg.wf(),
        forall|i: int|
            0 <= i < items@.len() ==> ((#[trigger] items@[i]) matches InputItem::Rec(r)
                ==> r.wf()),
        sum_distance(accepted_of(*cfg, items@)) <= u64::MAX,
        sum_timer(accepted_of(*cfg, items@)) <= u64::MAX,
        accepted_of(*cfg, items@).len() < u32::MAX,
    ensures
        rep.wf(),
        rep.events@.map_values(|e: ReportEvent| event_view(e)) == report_events(*cfg, items@),
        rep.total_distance_m as int == sum_distance(accepted_of(*cfg, items@)),
        rep.total_timer_secs as int == sum_timer(accepted_of(*cfg, items@)),
        rep.total_rides as int == accepted_of(*cfg, items@).len(),
        rep.first_accepted == first_accepted_of(*cfg, items@),
{
    let ghost all_acc = accepted_of(*cfg, items@);
    let mut agg = Aggregator::new();
    let mut events: Vec<ReportEvent> = Vec::new();
    let mut first: Option<Timestamp> = None;
    let mut idx: usize = 0;
    proof {
        assert(items@.take(0) =~= Seq::<InputItem>::empty());
        assert(accepted_of(*cfg, items@.take(0)) =~= Seq::<Record>::empty());
        assert(events@.map_values(|e: ReportEvent| event_view(e)) =~= Seq::<EventModel>::empty());
    }
    while idx < items.len()
        invariant
            idx <= items@.len(),
            cfg.wf(),
            forall|i: int|
                0 <= i < items@.len() ==> ((#[trigger] items@[i]) matches InputItem::Rec(r)
                    ==> r.wf()),
            sum_distance(all_acc) <= u64::MAX,
            sum_timer(all_acc) <= u64::MAX,
            all_acc.len() < u32::MAX,
            all_acc == accepted_of(*cfg, items@),
            agg.wf(),
            agg@ == run_items(*cfg, init_view(), items@.take(idx as int)).1,
            events@.map_values(|e: ReportEvent| event_view(e)) == run_items(
                *cfg,
                init_view(),
                items@.take(idx as int),
            ).0,
            agg.distance_m as int == sum_distance(accepted_of(*cfg, items@.take(idx as int))),
            agg.timer_secs as int == sum_timer(accepted_of(*cfg, items@.take(idx as int))),
            agg.rides as int == accepted_of(*cfg, items@.take(idx as int)).len(),
            first == first_accepted_of(*cfg, items@.take(idx as int)),
            first matches Some(t) ==> t.wf(),
            forall|i: int|
                0 <= i < events@.len() ==> (match #[trigger] events@[i] {
                    ReportEvent::Week(s) => s.wf(),
                    ReportEvent::Diag(_) => true,
                }),
        decreases items@.len() - idx,
    {
        let ghost pre = items@.take(idx as int);
        let ghost preacc = accepted_of(*cfg, pre);
        proof {
            assert(items@.take(idx as int + 1) =~= pre.push(items@[idx as int]));
            lemma_run_items_snoc(*cfg, init_view(), pre, items@[idx as int]);
            lemma_accepted_snoc(*cfg, pre, items@[idx as int]);
            // the whole stream splits at the cursor
            assert(items@ =~= items@.take(idx as int + 1) + items@.skip(idx as int + 1));
            lemma_accepted_append(
                *cfg,
                items@.take(idx as int + 1),
                items@.skip(idx as int + 1),
            );
            lemma_sums_nonneg(accepted_of(*cfg, items@.skip(idx as int + 1)));
            lemma_sum_append(
                accepted_of(*cfg, items@.take(idx as int + 1)),
                accepted_of(*cfg, items@.skip(idx as int + 1)),
            );
        }
        match &items[idx] {
            InputItem::Bad(m) => {
                let ghost evs_pre = events@;
                events.push(ReportEvent::Diag(m.clone()));
                proof {
                    let one = seq![items@[idx as int]];
                    assert(one[0] == items@[idx as int]);
                    assert(one.drop_first() =~= Seq::<InputItem>::empty());
                    assert(accepted_of(*cfg, Seq::<InputItem>::empty()) =~= Seq::<Record>::empty());
                    assert(accepted_of(*cfg, one) =~= Seq::<Record>::empty());
                    assert(accepted_of(*cfg, items@.take(idx as int + 1)) =~= preacc);
                    assert(events@.map_values(|e: ReportEvent| event_view(e)) =~~= evs_pre
                        .map_values(|e: ReportEvent| event_view(e)).push(
                        EventModel::Diag(m@),
                    ));
                    assert(events@.map_values(|e: ReportEvent| event_view(e)) =~~= run_items(
                        *cfg,
                        init_view(),
                        items@.take(idx as int + 1),
                    ).0);
                }
            },
            InputItem::Rec(r) => {
                let rr = *r;
                if accepts(cfg, rr.ts) {
                    proof {
                        let one = seq![items@[idx as int]];
                        assert(one[0] == items@[idx as int]);
                        assert(one.drop_first() =~= Seq::<InputItem>::empty());
                        assert(accepted_of(*cfg, Seq::<InputItem>::empty())
                            =~= Seq::<Record>::empty());
                        assert(one[0] == InputItem::Rec(rr));
                        assert(accepted_of(*cfg, one) =~= seq![rr] + Seq::<Record>::empty());
                        assert(accepted_of(*cfg, one) =~= seq![rr]);
                        assert(accepted_of(*cfg, items@.take(idx as int + 1)) =~= preacc.push(rr));
                        // sums over the extended accepted prefix
                        assert(preacc.push(rr) =~= preacc + seq![rr]);
                        lemma_sum_append(preacc, seq![rr]);
                        assert(seq![rr][0] == rr);
                        assert(seq![rr].drop_first() =~= Seq::<Record>::empty());
                        assert(sum_distance(Seq::<Record>::empty()) == 0);
                        assert(sum_timer(Seq::<Record>::empty()) == 0);
                        assert(sum_distance(seq![rr]) == rr.distance_m);
                        assert(sum_timer(seq![rr]) == rr.timer_secs);
                    }
                    if first.is_none() {
                        first = Some(rr.ts);
                    }
                    let ghost evs_pre = events@;
                    let ev = agg.feed(rr);
                    match ev {
                        Some(s) => {
                            events.push(ReportEvent::Week(s));
                            proof {
                                assert(events@.map_values(|e: ReportEvent| event_view(e)) =~~=
                                evs_pre.map_values(|e: ReportEvent| event_view(e)).push(
                                    EventModel::Week(s@),
                                ));
                                assert(events@.map_values(|e: ReportEvent| event_view(e)) =~~=
                                run_items(*cfg, init_view(), items@.take(idx as int + 1)).0);
                            }
                        },
                        None => {
                            proof {
                                assert(events@.map_values(|e: ReportEvent| event_view(e)) =~~=
                                run_items(*cfg, init_view(), items@.take(idx as int + 1)).0);
                            }
                        },
                    }
                    proof {
                        if preacc.len() == 0 {
                            assert(preacc.push(rr)[0] == rr);
                        } else {
                            assert(preacc.push(rr)[0] == preacc[0]);
                        }
                    }
                } else {
                    proof {
                        let one = seq![items@[idx as int]];
                        assert(one[0] == items@[idx as int]);
                        assert(one.drop_first() =~= Seq::<InputItem>::empty());
                        assert(accepted_of(*cfg, Seq::<InputItem>::empty())
                            =~= Seq::<Record>::empty());
                        assert(accepted_of(*cfg, one) =~= Seq::<Record>::empty());
                        assert(accepted_of(*cfg, items@.take(idx as int + 1)) =~= preacc);
                        assert(events@.map_values(|e: ReportEvent| event_view(e)) =~~= run_items(
                            *cfg,
                            init_view(),
                            items@.take(idx as int + 1),
                        ).0);
                    }
                }
            },
        }
        idx = idx + 1;
    }
    proof {
        assert(items@.take(items@.len() as int) =~= items@);
    }
    let fin = agg.finish();
    let ghost evs_pre = events@;
    match fin {
        Some(s) => {
            events.push(ReportEvent::Week(s));
            proof {
                assert(events@.map_values(|e: ReportEvent| event_view(e)) =~~= evs_pre.map_values(
                    |e: ReportEvent| event_view(e),
                ).push(EventModel::Week(s@)));
                assert(events@.map_values(|e: ReportEvent| event_view(e)) =~~= report_events(
                    *cfg,
                    items@,
                ));
            }
        },
        None => {
            proof {
                assert(events@.map_values(|e: ReportEvent| event_view(e)) =~~= report_events(
                    *cfg,
                    items@,
                ));
            }
        },
    }
    Report {
        events,
        total_distance_m: agg.distance_m,
        total_timer_secs: agg.timer_secs,
        total_rides: agg.rides,
        first_accepted: first,
    }
}

} // verus!
