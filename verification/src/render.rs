//! Verified rendering of the report's lines as plain text.  Terminal
//! styling (bold labels, coloured weekday names) is presentation and is
//! left to the caller, which gets the weekday name and its colour class
//! separately.

use vstd::prelude::*;
use vstd::string::StringExecFns;

use crate::agg::{DayLine, SummaryView, WeekSummary};
use crate::report::{Report, ReportConfig};
use crate::text::{
    dec_seq, hh_mm_seq, hours_mins_seq, int_seq, one_decimal_seq, one_decimal_string, pad2_seq,
    pad_left_seq, push_i64, push_pad2, push_padded, push_u64, whole_scaled,
};
use crate::time::{civil_dom_of, civil_month_of, civil_of_day, civil_year_of, Timestamp, Weekday, MAX_DAY};

verus! {

/// The three-letter weekday name.
pub open spec fn weekday_name_seq(w: Weekday) -> Seq<char> {
    match w {
        Weekday::Mon => "Mon"@,
        Weekday::Tue => "Tue"@,
        Weekday::Wed => "Wed"@,
        Weekday::Thu => "Thu"@,
        Weekday::Fri => "Fri"@,
        Weekday::Sat => "Sat"@,
        Weekday::Sun => "Sun"@,
    }
}

/// Returns the three-letter weekday name.
pub fn weekday_name(w: Weekday) -> (r: String)
    ensures
        r@ == weekday_name_seq(w),
{
    match w {
        Weekday::Mon => String::from_str("Mon"),
        Weekday::Tue => String::from_str("Tue"),
        Weekday::Wed => String::from_str("Wed"),
        Weekday::Thu => String::from_str("Thu"),
        Weekday::Fri => String::from_str("Fri"),
        Weekday::Sat => String::from_str("Sat"),
        Weekday::Sun => String::from_str("Sun"),
    }
}

/// A year, zero-padded to at least four digits.
pub open spec fn year4_seq(y: nat) -> Seq<char> {
    if y < 10 {
        seq!['0', '0', '0'] + dec_seq(y)
    } else if y < 100 {
        seq!['0', '0'] + dec_seq(y)
    } else if y < 1000 {
        seq!['0'] + dec_seq(y)
    } else {
        dec_seq(y)
    }
}

fn push_year4(s: &mut String, y: u64)
    ensures
        final(s)@ == old(s)@ + year4_seq(y as nat),
{
    if y < 10 {
        proof {
            reveal_strlit("000");
        }
        s.append("000");
        assert(s@ =~= old(s)@ + seq!['0', '0', '0']);
    } else if y < 100 {
        proof {
            reveal_strlit("00");
        }
        s.append("00");
        assert(s@ =~= old(s)@ + seq!['0', '0']);
    } else if y < 1000 {
        proof {
            reveal_strlit("0");
        }
        s.append("0");
        assert(s@ =~= old(s)@ + seq!['0']);
    }
    push_u64(s, y);
    assert(final(s)@ =~= old(s)@ + year4_seq(y as nat));
}

/// A day number's civil date as `DD.MM.YYYY`.
pub open spec fn date_dmy_seq(day: int) -> Seq<char> {
    pad2_seq(civil_dom_of(day) as nat) + seq!['.'] + pad2_seq(civil_month_of(day) as nat)
        + seq!['.'] + year4_seq(civil_year_of(day) as nat)
}

fn push_date_dmy(s: &mut String, day: i32)
    requires
        1 <= day <= MAX_DAY + 6,
    ensures
        final(s)@ == old(s)@ + date_dmy_seq(day as int),
{
    let (y, m, dom) = civil_of_day(day);
    push_pad2(s, dom as u64);
    proof {
        reveal_strlit(".");
    }
    s.append(".");
    push_pad2(s, m as u64);
    s.append(".");
    push_year4(s, y as u64);
    assert(final(s)@ =~= old(s)@ + date_dmy_seq(day as int));
}

/// The part of a day line after the weekday name: distance, time, average
/// speed, ascent, descent and temperature, each in a fixed-width field.
pub open spec fn day_rest_seq(d: DayLine) -> Seq<char> {
    " "@ + pad_left_seq(one_decimal_seq(d.distance_m as nat), 5) + " km "@ + pad_left_seq(
        hh_mm_seq(d.timer_secs as nat),
        5,
    ) + " "@ + pad_left_seq(one_decimal_seq(d.avg_speed as nat), 4) + " km/h "@ + pad_left_seq(
        dec_seq(d.total_ascent as nat),
        4,
    ) + "\u{2197} "@ + pad_left_seq(dec_seq(d.total_descent as nat), 4) + "\u{2198} "@
        + pad_left_seq(int_seq(d.avg_temp as int), 4) + "\u{2103}"@
}

/// Renders one day line as its coloured part (the weekday name) and the
/// plain rest of the line.
pub fn render_day_line(d: &DayLine) -> (r: (String, String))
    requires
        d.avg_temp > i64::MIN,
    ensures
        r.0@ == weekday_name_seq(d.weekday),
        r.1@ == day_rest_seq(*d),
{
    let name = weekday_name(d.weekday);
    let mut rest = String::new();
    proof {
        reveal_strlit(" ");
        reveal_strlit(" km ");
        reveal_strlit(" km/h ");
        reveal_strlit("\u{2197} ");
        reveal_strlit("\u{2198} ");
        reveal_strlit("\u{2103}");
        reveal_strlit(":");
    }
    rest.append(" ");
    let dist = one_decimal_string(d.distance_m);
    push_padded(&mut rest, &dist, 5);
    rest.append(" km ");
    let mut time = String::new();
    push_pad2(&mut time, d.timer_secs / 3600);
    time.append(":");
    push_pad2(&mut time, (d.timer_secs / 60) % 60);
    assert(time@ =~= hh_mm_seq(d.timer_secs as nat));
    push_padded(&mut rest, &time, 5);
    rest.append(" ");
    let speed = one_decimal_string(d.avg_speed);
    push_padded(&mut rest, &speed, 4);
    rest.append(" km/h ");
    let mut asc = String::new();
    push_u64(&mut asc, d.total_ascent);
    assert(asc@ =~= dec_seq(d.total_ascent as nat));
    push_padded(&mut rest, &asc, 4);
    rest.append("\u{2197} ");
    let mut desc = String::new();
    push_u64(&mut desc, d.total_descent);
    assert(desc@ =~= dec_seq(d.total_descent as nat));
    push_padded(&mut rest, &desc, 4);
    rest.append("\u{2198} ");
    let mut temp = String::new();
    push_i64(&mut temp, d.avg_temp);
    assert(temp@ =~= int_seq(d.avg_temp as int));
    push_padded(&mut rest, &temp, 4);
    rest.append("\u{2103}");
    assert(rest@ =~= day_rest_seq(*d));
    (name, rest)
}

/// A week block's header: week number, the Monday's day of month and the
/// Sunday's full date, whole kilometers, total time and ride count.
pub open spec fn week_header_seq(v: SummaryView) -> Seq<char> {
    "Week "@ + dec_seq(v.week as nat) + " ("@ + dec_seq(civil_dom_of(v.monday) as nat) + ".-"@
        + date_dmy_seq(v.sunday) + ") "@ + dec_seq(whole_scaled(v.distance_m as nat)) + " km "@
        + hours_mins_seq(v.timer_secs as nat) + " "@ + dec_seq(v.rides as nat) + " rides"@
}

/// Renders a week summary's header line.
pub fn render_week_header(s: &WeekSummary) -> (r: String)
    requires
        s.wf(),
    ensures
        r@ == week_header_seq(s@),
{
    let mut out = String::new();
    proof {
        reveal_strlit("Week ");
        reveal_strlit(" (");
        reveal_strlit(".-");
        reveal_strlit(") ");
        reveal_strlit(" km ");
        reveal_strlit(" ");
        reveal_strlit(" rides");
        reveal_strlit(":");
    }
    out.append("Week ");
    push_u64(&mut out, s.week as u64);
    out.append(" (");
    let (_my, _mm, mdom) = civil_of_day(s.monday);
    push_u64(&mut out, mdom as u64);
    out.append(".-");
    push_date_dmy(&mut out, s.sunday);
    out.append(") ");
    let q = s.distance_m / 1000;
    proof {
        vstd::arithmetic::div_mod::lemma_fundamental_div_mod(s.distance_m as int, 1000);
        assert(q < u64::MAX);
    }
    let km = q + (if s.distance_m % 1000 >= 500 {
        1
    } else {
        0
    });
    push_u64(&mut out, km);
    out.append(" km ");
    push_u64(&mut out, s.timer_secs / 3600);
    out.append(":");
    push_pad2(&mut out, (s.timer_secs / 60) % 60);
    out.append(" ");
    push_u64(&mut out, s.rides as u64);
    out.append(" rides");
    assert(out@ =~= week_header_seq(s@));
    out
}

/// The diagnostic line printed for a file whose content fails to decode.
pub open spec fn diag_line_seq(msg: Seq<char>) -> Seq<char> {
    "Error parsing: "@ + msg
}

/// Renders the diagnostic line for one decode error.
pub fn render_diag(msg: &String) -> (r: String)
    ensures
        r@ == diag_line_seq(msg@),
{
    let mut out = String::new();
    proof {
        reveal_strlit("Error parsing: ");
    }
    out.append("Error parsing: ");
    out.append(msg.as_str());
    assert(out@ =~= diag_line_seq(msg@));
    out
}

/// The period label of the total line: in since mode the first accepted
/// record's date as the effective start, otherwise the requested bounds.
pub open spec fn period_seq(cfg: ReportConfig, first: Option<Timestamp>) -> Seq<char> {
    if cfg.spec_since_mode() {
        match first {
            Some(t) => " ("@ + date_dmy_seq(t.day as int) + " >)"@,
            None => Seq::<char>::empty(),
        }
    } else {
        match cfg.from {
            Some(f) => " ("@ + date_dmy_seq(f.day as int) + " > "@ + date_dmy_seq(
                until_day(cfg),
            ) + ")"@,
            None => " (> "@ + date_dmy_seq(until_day(cfg)) + ")"@,
        }
    }
}

pub open spec fn until_day(cfg: ReportConfig) -> int {
    match cfg.until {
        Some(u) => u.day as int,
        None => 0,
    }
}

/// The report's final line: `No data` when an open-ended window accepted
/// no record at all, else the total label with the period, the overall
/// distance to one decimal, the total time and the ride count.
pub open spec fn total_line_seq(cfg: ReportConfig, rep: Report) -> Seq<char> {
    if cfg.spec_since_mode() && rep.first_accepted is None {
        "No data"@
    } else {
        "Total"@ + period_seq(cfg, rep.first_accepted) + ": "@ + one_decimal_seq(
            rep.total_distance_m as nat,
        ) + " km, "@ + hours_mins_seq(rep.total_timer_secs as nat) + " "@ + dec_seq(
            rep.total_rides as nat,
        ) + " rides"@
    }
}

/// Renders the report's final line.
pub fn render_total_line(cfg: &ReportConfig, rep: &Report) -> (r: String)
    requires
        cfg.wf(),
        rep.wf(),
    ensures
        r@ == total_line_seq(*cfg, *rep),
{
    let since = cfg.since_mode();
    if since && rep.first_accepted.is_none() {
        let out = String::from_str("No data");
        return out;
    }
    let mut out = String::new();
    proof {
        reveal_strlit("Total");
        reveal_strlit(" (");
        reveal_strlit(" >)");
        reveal_strlit(" > ");
        reveal_strlit(" (> ");
        reveal_strlit(")");
        reveal_strlit(": ");
        reveal_strlit(" km, ");
        reveal_strlit(" ");
        reveal_strlit(" rides");
        reveal_strlit(":");
    }
    out.append("Total");
    if since {
        match rep.first_accepted {
            Some(t) => {
                out.append(" (");
                push_date_dmy(&mut out, t.day);
                out.append(" >)");
            },
            None => {},
        }
    } else {
        let u = match cfg.until {
            Some(u) => u,
            None => unreached(),
        };
        match cfg.from {
            Some(f) => {
                out.append(" (");
                push_date_dmy(&mut out, f.day);
                out.append(" > ");
                push_date_dmy(&mut out, u.day);
                out.append(")");
            },
            None => {
                out.append(" (> ");
                push_date_dmy(&mut out, u.day);
                out.append(")");
            },
        }
    }
    assert(out@ =~= "Total"@ + period_seq(*cfg, rep.first_accepted));
    out.append(": ");
    let dist = one_decimal_string(rep.total_distance_m);
    out.append(dist.as_str());
    out.append(" km, ");
    push_u64(&mut out, rep.total_timer_secs / 3600);
    out.append(":");
    push_pad2(&mut out, (rep.total_timer_secs / 60) % 60);
    out.append(" ");
    push_u64(&mut out, rep.total_rides as u64);
    out.append(" rides");
    assert(out@ =~= total_line_seq(*cfg, *rep));
    out
}

} // verus!
