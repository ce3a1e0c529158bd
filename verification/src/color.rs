//! Colour classification of day lines: weekend days get a fixed class,
//! weekdays alternate between two classes whenever the weekday changes,
//! with the alternation carried across week boundaries.

use vstd::prelude::*;

use crate::time::{is_weekend, Weekday};

verus! {

/// The closed set of colour classes a day line can get.
#[derive(Clone, Copy, Debug, PartialEq, Eq, Structural)]
pub enum DayColor {
    Weekend,
    WeekdayA,
    WeekdayB,
}

/// Alternation state of the classifier: the weekday of the last classified
/// record, if any, and the toggle that picks between the two weekday
/// classes.  Never reset at week boundaries.
#[derive(Clone, Copy, Debug, PartialEq, Eq, Structural)]
pub struct ColorState {
    pub last: Option<Weekday>,
    pub toggle: bool,
}

/// What one classification step returns and leaves behind.
pub open spec fn classify_spec(s: ColorState, wd: Weekday) -> (DayColor, ColorState) {
    if is_weekend(wd) {
        (DayColor::Weekend, ColorState { last: Some(wd), toggle: false })
    } else {
        match s.last {
            None => (DayColor::WeekdayA, ColorState { last: Some(wd), toggle: true }),
            Some(prev) => {
                let t = if wd != prev {
                    !s.toggle
                } else {
                    s.toggle
                };
                (
                    if t {
                        DayColor::WeekdayA
                    } else {
                        DayColor::WeekdayB
                    },
                    ColorState { last: Some(wd), toggle: t },
                )
            },
        }
    }
}

impl ColorState {
    /// The state before any record has been classified.
    pub fn init() -> (s: ColorState)
        ensures
            s == (ColorState { last: None::<Weekday>, toggle: false }),
    {
        ColorState { last: None, toggle: false }
    }

    /// Classifies one day and advances the alternation state.
    pub fn classify(&mut self, wd: Weekday) -> (c: DayColor)
        ensures
            c == classify_spec(*old(self), wd).0,
            *final(self) == classify_spec(*old(self), wd).1,
    {
        if wd == Weekday::Sat || wd == Weekday::Sun {
            self.toggle = false;
            self.last = Some(wd);
            DayColor::Weekend
        } else {
            let c = match self.last {
                None => {
                    self.toggle = true;
                    DayColor::WeekdayA
                },
                Some(prev) => {
                    if wd != prev {
                        self.toggle = !self.toggle;
                    }
                    if self.toggle {
                        DayColor::WeekdayA
                    } else {
                        DayColor::WeekdayB
                    }
                },
            };
            self.last = Some(wd);
            c
        }
    }
}

/// Within a run of records on one and the same non-weekend weekday the
/// classification never alternates: the first record of the run fixes the
/// class, and every further record of the run gets that same class and
/// leaves the state unchanged, whatever state the run started from.
pub proof fn lemma_same_weekday_run_stable(s: ColorState, wd: Weekday)
    requires
        !is_weekend(wd),
    ensures
        classify_spec(classify_spec(s, wd).1, wd).0 == classify_spec(s, wd).0,
        classify_spec(classify_spec(s, wd).1, wd).1 == classify_spec(s, wd).1,
{
}

/// Classifying a whole sequence of weekdays, collecting the classes in
/// order.
pub open spec fn classify_seq(s: ColorState, wds: Seq<Weekday>) -> (Seq<DayColor>, ColorState)
    decreases wds.len(),
{
    if wds.len() == 0 {
        (Seq::empty(), s)
    } else {
        let st = classify_spec(s, wds[0]);
        let rest = classify_seq(st.1, wds.drop_first());
        (seq![st.0] + rest.0, rest.1)
    }
}

/// Over a run of records on one and the same non-weekend weekday, of any
/// length and from any starting state, every record gets the class the
/// run's first record got: the classification never alternates within the
/// run.
pub proof fn lemma_uniform_run(s: ColorState, wds: Seq<Weekday>)
    requires
        wds.len() > 0,
        !is_weekend(wds[0]),
        forall|i: int| 0 <= i < wds.len() ==> #[trigger] wds[i] == wds[0],
    ensures
        classify_seq(s, wds).0.len() == wds.len(),
        forall|i: int|
            0 <= i < wds.len() ==> #[trigger] classify_seq(s, wds).0[i] == classify_spec(
                s,
                wds[0],
            ).0,
        classify_seq(s, wds).1 == classify_spec(s, wds[0]).1,
    decreases wds.len(),
{
    let st = classify_spec(s, wds[0]);
    let rest = classify_seq(st.1, wds.drop_first());
    if wds.len() == 1 {
        assert(wds.drop_first() =~= Seq::<Weekday>::empty());
        assert(classify_seq(s, wds).0 =~= seq![st.0]);
    } else {
        assert(wds.drop_first()[0] == wds[1]);
        assert(wds[1] == wds[0]);
        assert forall|i: int| 0 <= i < wds.drop_first().len() implies #[trigger] wds.drop_first()[i]
            == wds.drop_first()[0] by {
            assert(wds.drop_first()[i] == wds[i + 1]);
        }
        lemma_same_weekday_run_stable(s, wds[0]);
        assert(classify_spec(st.1, wds.drop_first()[0]) == (st.0, st.1));
        lemma_uniform_run(st.1, wds.drop_first());
        assert(classify_spec(st.1, wds.drop_first()[0]).0 == st.0);
        assert forall|i: int| 0 <= i < wds.len() implies #[trigger] classify_seq(s, wds).0[i]
            == classify_spec(s, wds[0]).0 by {
            if i == 0 {
                assert(classify_seq(s, wds).0[0] == st.0);
            } else {
                assert(classify_seq(s, wds).0[i] == rest.0[i - 1]);
            }
        }
    }
}

/// A weekend day is classified `Weekend` whatever the state holds, and
/// perturbs the state no further than recording the weekday and resetting
/// the toggle to `false`.
pub proof fn lemma_weekend_fixed(s: ColorState, wd: Weekday)
    requires
        is_weekend(wd),
    ensures
        classify_spec(s, wd).0 == DayColor::Weekend,
        classify_spec(s, wd).1 == (ColorState { last: Some(wd), toggle: false }),
{
}

} // verus!
