//! The trigger evaluator: the next instant at which a cron expression
//! fires under a timezone, strictly after a reference instant.
//!
//! Instants are searched in UTC order, so a local time shown twice by a
//! daylight-saving fall-back resolves to its first occurrence. A local
//! time skipped by a spring-forward gap is never shown by the zone; a
//! schedule whose nominal time falls into the gap fires at the first valid
//! instant after the gap instead.

use vstd::prelude::*;

use crate::cron::cron_matches;
use crate::cron::lemma_every_instant_matches;
use crate::cron::matches_at;
use crate::cron::CronExpr;
use crate::tz::offset_at;
use crate::tz::offset_at_utc;
use crate::tz::tz_known;
use crate::tz::tz_valid;
use crate::MAX_HORIZON_SECS;
use crate::MAX_INSTANT;

verus! {

/// The local (wall-clock) time that timezone `tz` shows at UTC instant `u`.
pub open spec fn local_time(tz: Seq<char>, u: int) -> int {
    u + offset_at(tz, u)
}

/// Whether the expression fires at UTC instant `u` under timezone `tz`
/// because the instant's local rendering satisfies every cron field.
pub open spec fn fire_matches(e: &CronExpr, tz: Seq<char>, u: int) -> bool {
    cron_matches(e, local_time(tz, u))
}

/// Whether the expression fires at `u` because `u` ends a spring-forward
/// gap that swallowed a nominal local time the expression permits: the
/// zone's local clock jumps across `(local(u-1), local(u))`, and some
/// skipped nominal time in between satisfies every cron field.
pub open spec fn gap_fire(e: &CronExpr, tz: Seq<char>, u: int) -> bool {
    &&& local_time(tz, u) > local_time(tz, u - 1) + 1
    &&& exists|t: int| local_time(tz, u - 1) < t < local_time(tz, u) && cron_matches(e, t)
}

/// The expression fires at `u`: by the local rendering, or as the first
/// valid instant after a gap that swallowed a permitted nominal time.
pub open spec fn fires_at(e: &CronExpr, tz: Seq<char>, u: int) -> bool {
    fire_matches(e, tz, u) || gap_fire(e, tz, u)
}

/// `u` is the next fire instant after `reference` within `horizon`
/// seconds: it fires, lies strictly after the reference, and no earlier
/// instant strictly after the reference fires.
pub open spec fn is_next_within(
    e: &CronExpr,
    tz: Seq<char>,
    reference: int,
    horizon: int,
    u: int,
) -> bool {
    &&& reference < u <= reference + horizon
    &&& fires_at(e, tz, u)
    &&& forall|v: int| reference < v < u ==> !fires_at(e, tz, v)
}

/// No instant within `horizon` seconds strictly after `reference` fires.
pub open spec fn no_fire_within(e: &CronExpr, tz: Seq<char>, reference: int, horizon: int) -> bool {
    forall|v: int| reference < v <= reference + horizon ==> !fires_at(e, tz, v)
}

#[derive(Clone, Copy, PartialEq, Eq, Structural, Debug)]
pub enum EvalError {
    /// The timezone name is not in the timezone table.
    InvalidTimezone,
    /// No instant within the search horizon satisfies the expression.
    NoUpcomingFire,
}

/// The earliest UTC instant strictly after `reference`, and at most
/// `horizon` seconds after it, at which the expression fires under `tz`.
pub fn next_fire_within(e: &CronExpr, tz: &str, reference: i64, horizon: i64) -> (r: Result<
    i64,
    EvalError,
>)
    requires
        e.wf(),
        0 <= reference <= MAX_INSTANT,
        0 < horizon <= MAX_HORIZON_SECS,
    ensures
        r matches Err(err) && err == EvalError::InvalidTimezone <==> !tz_valid(tz@),
        r matches Err(err) && err == EvalError::NoUpcomingFire <==> tz_valid(tz@)
            && no_fire_within(e, tz@, reference as int, horizon as int),
        r matches Ok(u) ==> is_next_within(e, tz@, reference as int, horizon as int, u as int),
{
    if !tz_known(tz) {
        return Err(EvalError::InvalidTimezone);
    }
    let off0: i32 = match offset_at_utc(tz, reference) {
        Some(o) => o,
        None => {
            proof {
                assert(false);
            }
            0
        },
    };
    let mut prev_local: i64 = reference + off0 as i64;
    let mut u: i64 = reference + 1;
    while u <= reference + horizon
        invariant
            e.wf(),
            tz_valid(tz@),
            0 <= reference <= MAX_INSTANT,
            0 < horizon <= MAX_HORIZON_SECS,
            reference < u <= reference + horizon + 1,
            prev_local as int == local_time(tz@, u as int - 1),
            reference - 86400 < prev_local < u + 86400,
            forall|v: int| reference < v < u ==> !fires_at(e, tz@, v),
        decreases reference + horizon + 1 - u,
    {
        let off: i32 = match offset_at_utc(tz, u) {
            Some(o) => o,
            None => {
                proof {
                    assert(false);
                }
                0
            },
        };
        let local: i64 = u + off as i64;
        if matches_at(e, local) {
            proof {
                assert(local as int == local_time(tz@, u as int));
                assert(fire_matches(e, tz@, u as int));
                assert(fires_at(e, tz@, u as int));
                assert(!no_fire_within(e, tz@, reference as int, horizon as int));
            }
            return Ok(u);
        }
        if local > prev_local + 1 {
            // The zone's clock jumped: nominal local times strictly between
            // prev_local and local never occur. If the expression permits
            // one of them, this very instant is the first valid one after
            // the gap, and it fires.
            let mut t: i64 = prev_local + 1;
            let mut found: bool = false;
            while t < local
                invariant
                    e.wf(),
                    prev_local + 1 <= t <= local,
                    reference - 86400 < prev_local,
                    local <= u + 86400,
                    u <= MAX_INSTANT + MAX_HORIZON_SECS,
                    0 <= reference,
                    found == exists|w: int| prev_local < w < t && cron_matches(e, w),
                decreases local - t,
            {
                if matches_at(e, t) {
                    found = true;
                    proof {
                        assert(prev_local < t < t + 1 && cron_matches(e, t as int));
                    }
                }
                t = t + 1;
            }
            if found {
                proof {
                    assert(local_time(tz@, u as int) > local_time(tz@, u as int - 1) + 1);
                    let w = choose|w: int| prev_local < w < local && cron_matches(e, w);
                    assert(local_time(tz@, u as int - 1) < w < local_time(tz@, u as int)
                        && cron_matches(e, w));
                    assert(gap_fire(e, tz@, u as int));
                    assert(fires_at(e, tz@, u as int));
                    assert(!no_fire_within(e, tz@, reference as int, horizon as int));
                }
                return Ok(u);
            }
            proof {
                if gap_fire(e, tz@, u as int) {
                    let w = choose|t: int|
                        local_time(tz@, u as int - 1) < t < local_time(tz@, u as int)
                            && cron_matches(e, t);
                    assert(prev_local < w < local && cron_matches(e, w));
                    assert(false);
                }
            }
        }
        proof {
            assert(!fires_at(e, tz@, u as int));
        }
        prev_local = local;
        u = u + 1;
    }
    Err(EvalError::NoUpcomingFire)
}

/// Expressions holding the same tables fire at the same instants.
pub proof fn lemma_same_tables_same_fires(
    e1: &CronExpr,
    e2: &CronExpr,
    tz: Seq<char>,
    reference: int,
    horizon: int,
)
    requires
        e1.seconds@ == e2.seconds@,
        e1.minutes@ == e2.minutes@,
        e1.hours@ == e2.hours@,
        e1.days_of_month@ == e2.days_of_month@,
        e1.months@ == e2.months@,
        e1.days_of_week@ == e2.days_of_week@,
    ensures
        no_fire_within(e1, tz, reference, horizon) == no_fire_within(e2, tz, reference, horizon),
{
    assert forall|v: int| fires_at(e1, tz, v) == fires_at(e2, tz, v) by {
        assert forall|t: int| cron_matches(e1, t) == cron_matches(e2, t) by {}
        if gap_fire(e1, tz, v) {
            let t = choose|t: int|
                local_time(tz, v - 1) < t < local_time(tz, v) && cron_matches(e1, t);
            assert(cron_matches(e2, t));
        }
        if gap_fire(e2, tz, v) {
            let t = choose|t: int|
                local_time(tz, v - 1) < t < local_time(tz, v) && cron_matches(e2, t);
            assert(cron_matches(e1, t));
        }
    }
    if no_fire_within(e1, tz, reference, horizon) {
        assert forall|v: int| reference < v <= reference + horizon implies !fires_at(
            e2,
            tz,
            v,
        ) by {
            assert(!fires_at(e1, tz, v));
        }
    }
    if no_fire_within(e2, tz, reference, horizon) {
        assert forall|v: int| reference < v <= reference + horizon implies !fires_at(
            e1,
            tz,
            v,
        ) by {
            assert(!fires_at(e2, tz, v));
        }
    }
}

/// Law: under the every-second expression `* * * * * *`, each evaluation
/// returns exactly one second after its reference, so repeated evaluation,
/// feeding each result back as the next reference, yields a strictly
/// increasing sequence of instants spaced exactly one second apart.
///
/// The offset hypothesis restates what the timezone table guarantees of
/// every zone it holds: offsets stay strictly below a day.
pub proof fn lemma_every_second_step(
    e: &CronExpr,
    tz: Seq<char>,
    reference: int,
    horizon: int,
    u: int,
)
    requires
        e.every_instant(),
        0 <= reference <= MAX_INSTANT,
        1 <= horizon,
        -86400 < offset_at(tz, reference + 1) < 86400,
        is_next_within(e, tz, reference, horizon, u),
    ensures
        u == reference + 1,
{
    lemma_every_instant_matches(e, local_time(tz, reference + 1));
    if u > reference + 1 {
        assert(fires_at(e, tz, reference + 1));
    }
}

/// Law: under the every-second expression, the evaluator never runs out of
/// instants to return — the very next second already fires.
pub proof fn lemma_every_second_fires(e: &CronExpr, tz: Seq<char>, reference: int, horizon: int)
    requires
        e.every_instant(),
        0 <= reference <= MAX_INSTANT,
        1 <= horizon,
        -86400 < offset_at(tz, reference + 1) < 86400,
    ensures
        !no_fire_within(e, tz, reference, horizon),
{
    lemma_every_instant_matches(e, local_time(tz, reference + 1));
    assert(fires_at(e, tz, reference + 1));
}

} // verus!
