//! The job contract, the per-job retry rule, and the one job this crate
//! ships: a daily check-in whose network work lives outside the library.

use vstd::prelude::*;

verus! {

/// How many attempts a job makes before surfacing failure.
pub const MAX_ATTEMPTS: u64 = 3;

/// The surface every schedulable unit presents to the scheduler: a stable
/// unique name and a cron expression, both fixed for the registration's
/// lifetime. Each implementor pins both down as spec functions, so every
/// call returns the same strings. The unit's work itself runs outside the
/// library and reports back plain success or an error text.
pub trait Job {
    /// The identifier `name` returns, fixed by the implementor.
    spec fn spec_name(&self) -> Seq<char>;

    /// The expression `cron_expr` returns, fixed by the implementor.
    spec fn spec_cron_expr(&self) -> Seq<char>;

    fn name(&self) -> (n: String)
        ensures
            n@ == self.spec_name(),
    ;

    fn cron_expr(&self) -> (c: String)
        ensures
            c@ == self.spec_cron_expr(),
    ;
}

/// The retry rule a job's execution loop follows: after `attempts_done`
/// attempts whose last outcome is known, try again exactly when the last
/// attempt failed and fewer than `MAX_ATTEMPTS` attempts were made.
pub fn should_retry(attempts_done: u64, last_failed: bool) -> (r: bool)
    ensures
        r == (last_failed && attempts_done < MAX_ATTEMPTS),
{
    last_failed && attempts_done < MAX_ATTEMPTS
}

/// How many attempts the retry rule performs over the recorded outcomes
/// (`true` is a success): attempts run until the first success, but never
/// more than `max`.
pub open spec fn attempts_taken(outcomes: Seq<bool>, max: int) -> int
    decreases outcomes.len(),
{
    if outcomes.len() == 0 || max <= 0 {
        0
    } else if outcomes[0] || max == 1 {
        1
    } else {
        1 + attempts_taken(outcomes.drop_first(), max - 1)
    }
}

/// Runs the retry rule over recorded attempt outcomes; the count of
/// attempts made matches the rule, and the flag says whether the last
/// attempt made succeeded.
pub fn attempts_until_stop(outcomes: &Vec<bool>) -> (r: (usize, bool))
    requires
        outcomes@.len() >= MAX_ATTEMPTS,
    ensures
        r.0 == attempts_taken(outcomes@, MAX_ATTEMPTS as int),
        1 <= r.0 <= MAX_ATTEMPTS,
        r.1 == outcomes@[r.0 - 1],
{
    let mut i: usize = 0;
    proof {
        assert(outcomes@.skip(0) =~= outcomes@);
    }
    loop
        invariant
            i < MAX_ATTEMPTS,
            i < outcomes@.len(),
            outcomes@.len() >= MAX_ATTEMPTS,
            attempts_taken(outcomes@, MAX_ATTEMPTS as int) == i + attempts_taken(
                outcomes@.skip(i as int),
                MAX_ATTEMPTS as int - i,
            ),
            forall|k: int| 0 <= k < i ==> !outcomes@[k],
        decreases MAX_ATTEMPTS - i,
    {
        let succeeded = outcomes[i];
        i = i + 1;
        if !should_retry(i as u64, !succeeded) {
            proof {
                assert(outcomes@.skip(i - 1).drop_first() =~= outcomes@.skip(i as int));
            }
            return (i, succeeded);
        }
        proof {
            assert(outcomes@.skip(i - 1).drop_first() =~= outcomes@.skip(i as int));
        }
    }
}

/// Law: a job whose attempts all fail makes exactly `MAX_ATTEMPTS`
/// attempts before surfacing failure.
pub proof fn lemma_all_failures_take_all_attempts(outcomes: Seq<bool>)
    requires
        outcomes.len() >= MAX_ATTEMPTS,
        forall|k: int| 0 <= k < outcomes.len() ==> !outcomes[k],
    ensures
        attempts_taken(outcomes, MAX_ATTEMPTS as int) == MAX_ATTEMPTS,
{
    assert(!outcomes[0]);
    assert(!outcomes.drop_first()[0]);
    assert(!outcomes.drop_first().drop_first()[0]);
    assert(attempts_taken(outcomes.drop_first().drop_first(), 1) == 1);
    assert(attempts_taken(outcomes.drop_first(), 2) == 1 + attempts_taken(
        outcomes.drop_first().drop_first(),
        1,
    ));
    assert(attempts_taken(outcomes, 3) == 1 + attempts_taken(outcomes.drop_first(), 2));
}

/// The daily check-in job: its credentials and its schedule, read from the
/// environment by the surrounding program. Its network work is not the
/// library's concern; the scheduler sees only the name and the schedule.
pub struct BugutvCheckinJob {
    pub username: String,
    pub password: String,
    pub cron_expr: String,
}

impl BugutvCheckinJob {
    pub fn new(username: String, password: String, cron_expr: String) -> (j: BugutvCheckinJob)
        ensures
            j.username@ == username@,
            j.password@ == password@,
            j.cron_expr@ == cron_expr@,
    {
        BugutvCheckinJob { username, password, cron_expr }
    }
}

impl Job for BugutvCheckinJob {
    /// The stable identifier under which the job registers and notifies.
    open spec fn spec_name(&self) -> Seq<char> {
        "bugutv_checkin"@
    }

    /// The schedule fixed at construction.
    open spec fn spec_cron_expr(&self) -> Seq<char> {
        self.cron_expr@
    }

    fn name(&self) -> (n: String) {
        "bugutv_checkin".to_owned()
    }

    fn cron_expr(&self) -> (c: String) {
        self.cron_expr.clone()
    }
}

} // verus!
