//! The cron expression model and its matcher.
//!
//! A cron expression denotes, for each of its six fields, the set of
//! permitted values; the sets are held as fixed-length boolean tables
//! indexed by the field value.

use vstd::prelude::*;

use crate::civil::c_day;
use crate::civil::c_hour;
use crate::civil::c_minute;
use crate::civil::c_month;
use crate::civil::c_second;
use crate::civil::c_weekday;
use crate::civil::civil_of;
use crate::civil::Civil;
use crate::civil::MAX_LOCAL;
use crate::civil::MIN_LOCAL;

verus! {

/// A parsed six-field cron expression: seconds, minutes, hours, day of
/// month, month, day of week. Entry `v` of a table says whether value `v`
/// is permitted; the day-of-month and month tables have an unused entry 0,
/// and day of week runs 0 (Sunday) to 6.
pub struct CronExpr {
    pub seconds: Vec<bool>,
    pub minutes: Vec<bool>,
    pub hours: Vec<bool>,
    pub days_of_month: Vec<bool>,
    pub months: Vec<bool>,
    pub days_of_week: Vec<bool>,
}

impl CronExpr {
    /// The tables have their fixed sizes.
    pub open spec fn wf(&self) -> bool {
        &&& self.seconds@.len() == 60
        &&& self.minutes@.len() == 60
        &&& self.hours@.len() == 24
        &&& self.days_of_month@.len() == 32
        &&& self.months@.len() == 13
        &&& self.days_of_week@.len() == 7
    }

    /// Whether the expression permits every instant, as the expression
    /// `* * * * * *` does.
    pub open spec fn every_instant(&self) -> bool {
        &&& self.wf()
        &&& forall|v: int| 0 <= v < 60 ==> self.seconds@[v] && self.minutes@[v]
        &&& forall|v: int| 0 <= v < 24 ==> self.hours@[v]
        &&& forall|v: int| 1 <= v < 32 ==> self.days_of_month@[v]
        &&& forall|v: int| 1 <= v < 13 ==> self.months@[v]
        &&& forall|v: int| 0 <= v < 7 ==> self.days_of_week@[v]
    }
}

/// Whether local time `t` satisfies every field of the expression.
pub open spec fn cron_matches(e: &CronExpr, t: int) -> bool {
    &&& e.seconds@[c_second(t)]
    &&& e.minutes@[c_minute(t)]
    &&& e.hours@[c_hour(t)]
    &&& e.days_of_month@[c_day(t)]
    &&& e.months@[c_month(t)]
    &&& e.days_of_week@[c_weekday(t)]
}

/// An expression that permits every instant matches every in-range local
/// time.
pub proof fn lemma_every_instant_matches(e: &CronExpr, t: int)
    requires
        e.every_instant(),
        MIN_LOCAL <= t <= MAX_LOCAL,
    ensures
        cron_matches(e, t),
{
    crate::civil::lemma_civil_ranges(t);
}

/// Decides whether local time `t` satisfies every field of the expression.
/// The clock fields are checked first: they need no calendar walk, and a
/// mismatch there already settles the answer.
pub fn matches_at(e: &CronExpr, t: i64) -> (b: bool)
    requires
        e.wf(),
        MIN_LOCAL <= t <= MAX_LOCAL,
    ensures
        b == cron_matches(e, t as int),
{
    let clock = crate::civil::clock_of(t);
    if !e.seconds[clock.2 as usize] {
        return false;
    }
    if !e.minutes[clock.1 as usize] {
        return false;
    }
    if !e.hours[clock.0 as usize] {
        return false;
    }
    if !e.days_of_week[clock.3 as usize] {
        return false;
    }
    let c: Civil = civil_of(t);
    e.days_of_month[c.day as usize] && e.months[c.month as usize]
}

} // verus!
