use chrono::Datelike;

use ridelog::agg::{Aggregator, DayLine, Record};
use ridelog::color::{ColorState, DayColor};
use ridelog::render::{render_day_line, render_diag, render_total_line, render_week_header};
use ridelog::report::{build_report, InputItem, Report, ReportConfig, ReportEvent};
use ridelog::text::{one_decimal_string, u64_string};
use ridelog::time::{ts_le_exec, Timestamp, Weekday};

fn ts(y: i32, m: u32, d: u32, h: u32, mi: u32, s: u32) -> Timestamp {
    let date = chrono::NaiveDate::from_ymd_opt(y, m, d).unwrap();
    Timestamp { day: date.num_days_from_ce(), sec: h * 3600 + mi * 60 + s }
}

fn rec(t: Timestamp, distance_m: u64, timer_secs: u64) -> Record {
    Record {
        start_ts: t,
        ts: t,
        distance_m,
        timer_secs,
        avg_speed: 0,
        avg_temp: 0,
        total_ascent: 0,
        total_descent: 0,
    }
}

fn week_headers(rep: &Report) -> Vec<String> {
    let mut out = Vec::new();
    for e in rep.events.iter() {
        if let ReportEvent::Week(s) = e {
            out.push(render_week_header(s));
        }
    }
    out
}

#[test]
fn three_files_two_weeks() {
    // a Monday and Tuesday of ISO 2015-W01, then the Monday of 2015-W02
    let items = vec![
        InputItem::Rec(rec(ts(2014, 12, 29, 10, 0, 0), 10000, 3600)),
        InputItem::Rec(rec(ts(2014, 12, 30, 10, 0, 0), 20000, 1800)),
        InputItem::Rec(rec(ts(2015, 1, 5, 9, 0, 0), 15000, 5400)),
    ];
    let cfg = ReportConfig::new(None, None).unwrap();
    let rep = build_report(&cfg, &items);

    assert_eq!(rep.total_distance_m, 45000);
    assert_eq!(rep.total_timer_secs, 10800);
    assert_eq!(rep.total_rides, 3);
    assert_eq!(rep.events.len(), 2);

    match &rep.events[0] {
        ReportEvent::Week(s) => {
            assert_eq!(s.iso_year, 2015);
            assert_eq!(s.week, 1);
            assert_eq!(s.distance_m, 30000);
            assert_eq!(s.timer_secs, 5400);
            assert_eq!(s.rides, 2);
            assert_eq!(s.days.len(), 2);
            assert_eq!(render_week_header(s), "Week 1 (29.-04.01.2015) 30 km 1:30 2 rides");
        }
        _ => panic!("expected a week summary"),
    }
    match &rep.events[1] {
        ReportEvent::Week(s) => {
            assert_eq!(s.week, 2);
            assert_eq!(s.distance_m, 15000);
            assert_eq!(s.timer_secs, 5400);
            assert_eq!(s.rides, 1);
            assert_eq!(render_week_header(s), "Week 2 (5.-11.01.2015) 15 km 1:30 1 rides");
        }
        _ => panic!("expected a week summary"),
    }

    assert_eq!(rep.first_accepted, Some(ts(2014, 12, 29, 10, 0, 0)));
    assert_eq!(render_total_line(&cfg, &rep), "Total (29.12.2014 >): 45.0 km, 3:00 3 rides");
}

#[test]
fn empty_directory_since_mode_no_data() {
    let items: Vec<InputItem> = Vec::new();
    let cfg = ReportConfig::new(None, None).unwrap();
    let rep = build_report(&cfg, &items);
    assert_eq!(rep.events.len(), 0);
    assert_eq!(rep.total_rides, 0);
    assert_eq!(render_total_line(&cfg, &rep), "No data");
}

#[test]
fn empty_directory_range_mode_zero_total() {
    let items: Vec<InputItem> = Vec::new();
    let cfg =
        ReportConfig::new(Some(ts(2020, 1, 1, 0, 0, 0)), Some(ts(2020, 12, 31, 23, 59, 59)))
            .unwrap();
    let rep = build_report(&cfg, &items);
    assert_eq!(rep.events.len(), 0);
    assert_eq!(
        render_total_line(&cfg, &rep),
        "Total (01.01.2020 > 31.12.2020): 0.0 km, 0:00 0 rides"
    );
}

#[test]
fn decode_failure_skipped_with_diagnostic() {
    let items = vec![
        InputItem::Bad(String::from("expected value at line 1 column 1")),
        InputItem::Rec(rec(ts(2021, 6, 7, 8, 0, 0), 5000, 1200)),
    ];
    let cfg = ReportConfig::new(None, None).unwrap();
    let rep = build_report(&cfg, &items);
    assert_eq!(rep.events.len(), 2);
    match &rep.events[0] {
        ReportEvent::Diag(m) => {
            assert_eq!(render_diag(m), "Error parsing: expected value at line 1 column 1");
        }
        _ => panic!("expected a diagnostic first"),
    }
    assert!(matches!(&rep.events[1], ReportEvent::Week(_)));
    assert_eq!(rep.total_distance_m, 5000);
    assert_eq!(rep.total_rides, 1);
}

#[test]
fn inverted_window_rejected() {
    let r = ReportConfig::new(Some(ts(2021, 1, 1, 0, 0, 0)), Some(ts(2020, 1, 1, 23, 59, 59)));
    assert!(r.is_none());
    let ok = ReportConfig::new(Some(ts(2020, 1, 1, 0, 0, 0)), Some(ts(2020, 1, 1, 23, 59, 59)));
    assert!(ok.is_some());
}

#[test]
fn window_bounds_inclusive() {
    let from = ts(2020, 1, 1, 0, 0, 0);
    let until = ts(2020, 12, 31, 23, 59, 59);
    let cfg = ReportConfig::new(Some(from), Some(until)).unwrap();
    let items = vec![
        InputItem::Rec(rec(ts(2019, 12, 31, 23, 59, 59), 1, 1)),
        InputItem::Rec(rec(from, 10, 10)),
        InputItem::Rec(rec(until, 20, 20)),
        InputItem::Rec(rec(ts(2021, 1, 1, 0, 0, 0), 100, 100)),
    ];
    let rep = build_report(&cfg, &items);
    assert_eq!(rep.total_distance_m, 30);
    assert_eq!(rep.total_timer_secs, 30);
    assert_eq!(rep.total_rides, 2);
    assert_eq!(rep.first_accepted, Some(from));
}

#[test]
fn outside_record_changes_nothing() {
    let cfg = ReportConfig::new(Some(ts(2020, 3, 1, 0, 0, 0)), None).unwrap();
    let inside = vec![
        InputItem::Rec(rec(ts(2020, 3, 2, 9, 0, 0), 7000, 1500)),
        InputItem::Rec(rec(ts(2020, 3, 9, 9, 0, 0), 9000, 2500)),
    ];
    let mut with_outside = inside.clone();
    with_outside.insert(1, InputItem::Rec(rec(ts(2020, 2, 1, 9, 0, 0), 4000, 400)));
    let a = build_report(&cfg, &inside);
    let b = build_report(&cfg, &with_outside);
    assert_eq!(a.total_distance_m, b.total_distance_m);
    assert_eq!(a.total_timer_secs, b.total_timer_secs);
    assert_eq!(a.total_rides, b.total_rides);
    assert_eq!(a.first_accepted, b.first_accepted);
    assert_eq!(week_headers(&a), week_headers(&b));
    assert_eq!(a.events.len(), b.events.len());
}

#[test]
fn since_mode_announces_first_accepted() {
    let cfg = ReportConfig::new(Some(ts(2020, 1, 1, 0, 0, 0)), None).unwrap();
    let items = vec![InputItem::Rec(rec(ts(2020, 3, 5, 17, 30, 0), 21500, 3900))];
    let rep = build_report(&cfg, &items);
    assert_eq!(render_total_line(&cfg, &rep), "Total (05.03.2020 >): 21.5 km, 1:05 1 rides");
}

#[test]
fn until_only_label() {
    let cfg = ReportConfig::new(None, Some(ts(2020, 6, 30, 23, 59, 59))).unwrap();
    let items = vec![InputItem::Rec(rec(ts(2020, 6, 1, 6, 0, 0), 1000, 60))];
    let rep = build_report(&cfg, &items);
    assert_eq!(render_total_line(&cfg, &rep), "Total (> 30.06.2020): 1.0 km, 0:01 1 rides");
}

#[test]
fn weekday_colors_alternate_on_change_only() {
    let mut cs = ColorState::init();
    assert_eq!(cs.classify(Weekday::Mon), DayColor::WeekdayA);
    assert_eq!(cs.classify(Weekday::Mon), DayColor::WeekdayA);
    assert_eq!(cs.classify(Weekday::Tue), DayColor::WeekdayB);
    assert_eq!(cs.classify(Weekday::Wed), DayColor::WeekdayA);
    assert_eq!(cs.classify(Weekday::Sat), DayColor::Weekend);
    assert_eq!(cs.classify(Weekday::Sun), DayColor::Weekend);
    // after a weekend the toggle starts again from false
    assert_eq!(cs.classify(Weekday::Mon), DayColor::WeekdayA);
    assert_eq!(cs.classify(Weekday::Mon), DayColor::WeekdayA);
    assert_eq!(cs.classify(Weekday::Tue), DayColor::WeekdayB);
}

#[test]
fn weekend_fixed_whatever_the_state() {
    let mut a = ColorState { last: Some(Weekday::Fri), toggle: true };
    assert_eq!(a.classify(Weekday::Sat), DayColor::Weekend);
    assert_eq!(a, ColorState { last: Some(Weekday::Sat), toggle: false });
    let mut b = ColorState { last: None, toggle: false };
    assert_eq!(b.classify(Weekday::Sun), DayColor::Weekend);
    assert_eq!(b, ColorState { last: Some(Weekday::Sun), toggle: false });
}

#[test]
fn same_weekday_run_is_stable() {
    let mut cs = ColorState { last: Some(Weekday::Fri), toggle: false };
    let first = cs.classify(Weekday::Thu);
    let state_after = cs;
    let second = cs.classify(Weekday::Thu);
    assert_eq!(first, second);
    assert_eq!(cs, state_after);
}

#[test]
fn day_line_formatting() {
    let d = DayLine {
        weekday: Weekday::Wed,
        color: DayColor::WeekdayB,
        distance_m: 12345,
        timer_secs: 3661,
        avg_speed: 25540,
        avg_temp: -5,
        total_ascent: 350,
        total_descent: 1200,
    };
    let (name, rest) = render_day_line(&d);
    assert_eq!(name, "Wed");
    assert_eq!(rest, "  12.3 km 01:01 25.5 km/h  350\u{2197} 1200\u{2198}   -5\u{2103}");
}

#[test]
fn number_formatting() {
    assert_eq!(u64_string(0), "0");
    assert_eq!(u64_string(907), "907");
    assert_eq!(one_decimal_string(10000), "10.0");
    assert_eq!(one_decimal_string(10050), "10.1");
    assert_eq!(one_decimal_string(10049), "10.0");
    assert_eq!(one_decimal_string(49), "0.0");
    assert_eq!(one_decimal_string(50), "0.1");
}

#[test]
fn week_rounding_in_header() {
    // 30 499 m rounds down to 30 km, 30 500 m up to 31 km
    let items = vec![InputItem::Rec(rec(ts(2021, 4, 5, 10, 0, 0), 30499, 600))];
    let cfg = ReportConfig::new(None, None).unwrap();
    let rep = build_report(&cfg, &items);
    let hs = week_headers(&rep);
    assert_eq!(hs.len(), 1);
    assert!(hs[0].contains(" 30 km "));

    let items2 = vec![InputItem::Rec(rec(ts(2021, 4, 5, 10, 0, 0), 30500, 600))];
    let rep2 = build_report(&cfg, &items2);
    let hs2 = week_headers(&rep2);
    assert!(hs2[0].contains(" 31 km "));
}

#[test]
fn feed_and_finish_directly() {
    let mut agg = Aggregator::new();
    assert!(agg.feed(rec(ts(2022, 8, 1, 7, 0, 0), 1000, 100)).is_none());
    assert!(agg.feed(rec(ts(2022, 8, 3, 7, 0, 0), 2000, 200)).is_none());
    let flushed = agg.feed(rec(ts(2022, 8, 8, 7, 0, 0), 4000, 400));
    let s = flushed.expect("week boundary must flush");
    assert_eq!(s.distance_m, 3000);
    assert_eq!(s.timer_secs, 300);
    assert_eq!(s.rides, 2);
    let fin = agg.finish().expect("open week must flush at end");
    assert_eq!(fin.distance_m, 4000);
    assert_eq!(fin.rides, 1);
    assert_eq!(agg.distance_m, 7000);
    assert_eq!(agg.rides, 3);
}

#[test]
fn day_lines_in_arrival_order_with_colors() {
    // Monday, Tuesday, Tuesday again and Saturday of one ISO week
    let items = vec![
        InputItem::Rec(rec(ts(2021, 3, 1, 8, 0, 0), 1000, 100)),
        InputItem::Rec(rec(ts(2021, 3, 2, 8, 0, 0), 2000, 200)),
        InputItem::Rec(rec(ts(2021, 3, 2, 18, 0, 0), 3000, 300)),
        InputItem::Rec(rec(ts(2021, 3, 6, 8, 0, 0), 4000, 400)),
    ];
    let cfg = ReportConfig::new(None, None).unwrap();
    let rep = build_report(&cfg, &items);
    assert_eq!(rep.events.len(), 1);
    match &rep.events[0] {
        ReportEvent::Week(s) => {
            let wds: Vec<Weekday> = s.days.iter().map(|d| d.weekday).collect();
            let cols: Vec<DayColor> = s.days.iter().map(|d| d.color).collect();
            assert_eq!(wds, vec![Weekday::Mon, Weekday::Tue, Weekday::Tue, Weekday::Sat]);
            assert_eq!(
                cols,
                vec![
                    DayColor::WeekdayA,
                    DayColor::WeekdayB,
                    DayColor::WeekdayB,
                    DayColor::Weekend
                ]
            );
        }
        _ => panic!("expected a week summary"),
    }
}

#[test]
fn color_alternation_spans_week_boundaries() {
    // a Friday, then the Monday of the next ISO week: the toggle carries
    // over the flush instead of being reset
    let items = vec![
        InputItem::Rec(rec(ts(2021, 3, 5, 8, 0, 0), 1000, 100)),
        InputItem::Rec(rec(ts(2021, 3, 8, 8, 0, 0), 2000, 200)),
    ];
    let cfg = ReportConfig::new(None, None).unwrap();
    let rep = build_report(&cfg, &items);
    assert_eq!(rep.events.len(), 2);
    let mut colors = Vec::new();
    for e in rep.events.iter() {
        if let ReportEvent::Week(s) = e {
            for d in s.days.iter() {
                colors.push(d.color);
            }
        }
    }
    assert_eq!(colors, vec![DayColor::WeekdayA, DayColor::WeekdayB]);
}

#[test]
fn timestamp_order() {
    let a = ts(2020, 5, 1, 0, 0, 0);
    let b = ts(2020, 5, 1, 0, 0, 1);
    let c = ts(2020, 5, 2, 0, 0, 0);
    assert!(ts_le_exec(a, a));
    assert!(ts_le_exec(a, b));
    assert!(!ts_le_exec(b, a));
    assert!(ts_le_exec(b, c));
    assert!(!ts_le_exec(c, a));
}
