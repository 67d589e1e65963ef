//! A verified cron-driven job scheduler core.
//!
//! The library evaluates six-field cron expressions under an IANA timezone,
//! owns the registration set and the timer-loop decisions of a recurring-job
//! scheduler, and fixes the dispatch, retry and notification rules that an
//! asynchronous runtime around it must follow.
//!
//! `civil` renders instants as calendar fields; `parse` holds the cron
//! grammar and its parser; `cron` the parsed expression and its matcher;
//! `tz` the two timezone facts taken on trust from the timezone table;
//! `eval` the next-fire evaluator; `sched` the scheduler core; `notify`
//! the notification plan around one execution; `jobs` the job contract
//! and the retry rule.

use vstd::prelude::*;

pub mod civil;
pub mod cron;
pub mod eval;
pub mod jobs;
pub mod notify;
pub mod parse;
pub mod sched;
pub mod tz;

verus! {

/// Instants are seconds since the Unix epoch, kept inside a range wide
/// enough for any realistic schedule while leaving room for timezone
/// offsets and search horizons in `i64` arithmetic.
pub const MAX_INSTANT: i64 = 4102444800;

/// The longest span, in seconds, that one evaluation searches: 33 days,
/// beyond the longest gap between fires of a schedule that permits a day
/// in every month. A schedule whose next fire lies further out is stored
/// without a fire instant and re-evaluated at every tick, so it resumes as
/// soon as its fire comes within reach.
pub const MAX_HORIZON_SECS: i64 = 2851200;

} // verus!
