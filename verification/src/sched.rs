//! The scheduler core: the registration set, the timer-loop decisions, and
//! the shutdown coordination around them.
//!
//! The core is purely sequential; an asynchronous runtime around it reads
//! these decisions, performs the sleeping, spawning and signal handling,
//! and reports outcomes back. Duplicate job names are rejected at
//! registration, never shadowed.

use vstd::prelude::*;

use crate::cron::CronExpr;
use crate::eval::is_next_within;
use crate::eval::next_fire_within;
use crate::eval::no_fire_within;
use crate::eval::EvalError;
use crate::parse::expr_denotes;
use crate::parse::expr_ok;
use crate::parse::parse_cron;
use crate::tz::tz_known;
use crate::tz::tz_valid;
use crate::MAX_HORIZON_SECS;
use crate::MAX_INSTANT;

verus! {

/// The scheduler's lifecycle states. `Accepting` admits registrations;
/// `Running` is entered once, by `start`; `Stopped` is terminal.
#[derive(Clone, Copy, PartialEq, Eq, Structural, Debug)]
pub enum SchedState {
    Accepting,
    Running,
    Stopped,
}

#[derive(Clone, Copy, PartialEq, Eq, Structural, Debug)]
pub enum SchedError {
    /// The cron expression is not in the grammar.
    InvalidSchedule,
    /// The scheduler's timezone is not in the timezone table.
    InvalidTimezone,
    /// A registration with the same name already exists.
    DuplicateName,
    /// The scheduler has already been started.
    AlreadyStarted,
}

/// One registered job: its unique name, its parsed schedule, and the next
/// instant at which it fires (`None` while no upcoming instant lies within
/// the search horizon — the registration is then dormant, not dead).
pub struct Registration {
    pub name: String,
    pub expr: CronExpr,
    pub next_fire: Option<i64>,
}

/// An ephemeral trigger: a job's name and the instant it was due to fire.
/// Produced by `tick`, consumed exactly once by the dispatching runtime.
pub struct TriggerEvent {
    pub name: String,
    pub at: i64,
}

/// A registration is due at `now` when its next fire instant has arrived.
pub open spec fn due(r: Registration, now: int) -> bool {
    r.next_fire matches Some(u) && u <= now
}

/// A registration is dormant when its next fire lay beyond the search
/// horizon at the last evaluation: it holds no fire instant, fires no
/// trigger, and is re-evaluated at every tick until a fire comes in reach.
pub open spec fn dormant(r: Registration) -> bool {
    r.next_fire is None
}

/// The trigger events, in registration order, that `tick` owes at `now`.
pub open spec fn due_events(jobs: Seq<Registration>, now: int) -> Seq<(Seq<char>, int)>
    decreases jobs.len(),
{
    if jobs.len() == 0 {
        Seq::empty()
    } else {
        let init = due_events(jobs.drop_last(), now);
        if due(jobs.last(), now) {
            init.push((jobs.last().name@, jobs.last().next_fire->Some_0 as int))
        } else {
            init
        }
    }
}

pub open spec fn events_view(evs: Seq<TriggerEvent>) -> Seq<(Seq<char>, int)> {
    evs.map_values(|e: TriggerEvent| (e.name@, e.at as int))
}

/// The scheduler core: the timezone every schedule is read in, the
/// registration set it exclusively owns, its lifecycle state, and the
/// one-way cancellation flag.
pub struct Scheduler {
    pub timezone: String,
    pub jobs: Vec<Registration>,
    pub state: SchedState,
    pub cancelled: bool,
}

impl Scheduler {
    /// Some registration already carries this name.
    pub open spec fn has_name(&self, n: Seq<char>) -> bool {
        exists|k: int| 0 <= k < self.jobs@.len() && self.jobs@[k].name@ == n
    }

    /// Registration names are pairwise distinct, every stored expression is
    /// well-formed, and every stored fire instant is in range.
    pub open spec fn wf(&self) -> bool {
        &&& forall|k: int| 0 <= k < self.jobs@.len() ==> (#[trigger] self.jobs@[k]).expr.wf()
        &&& forall|k: int, l: int|
            0 <= k < l < self.jobs@.len() ==> self.jobs@[k].name@ != self.jobs@[l].name@
        &&& forall|k: int|
            0 <= k < self.jobs@.len() ==> ((#[trigger] self.jobs@[k]).next_fire matches Some(u)
                ==> 0 <= u <= MAX_INSTANT + MAX_HORIZON_SECS)
    }

    /// A scheduler with no registrations, not yet started, not cancelled,
    /// under the given timezone; an unknown timezone name falls back to the
    /// default timezone rather than failing startup.
    pub fn new(tz_name: &str) -> (s: Scheduler)
        ensures
            s.wf(),
            s.jobs@.len() == 0,
            s.state == SchedState::Accepting,
            !s.cancelled,
            tz_valid(tz_name@) ==> s.timezone@ == tz_name@,
            !tz_valid(tz_name@) ==> s.timezone@ == "Asia/Shanghai"@,
    {
        let timezone: String = if tz_known(tz_name) {
            tz_name.to_owned()
        } else {
            "Asia/Shanghai".to_owned()
        };
        Scheduler { timezone, jobs: Vec::new(), state: SchedState::Accepting, cancelled: false }
    }

    /// How many jobs are registered.
    pub fn job_count(&self) -> (n: usize)
        ensures
            n == self.jobs@.len(),
    {
        self.jobs.len()
    }

    pub fn is_cancelled(&self) -> (b: bool)
        ensures
            b == self.cancelled,
    {
        self.cancelled
    }

    /// Requests cooperative shutdown. The flag moves only from active to
    /// cancelled; repeated calls are no-ops, and the result says whether
    /// this call performed the one transition.
    pub fn cancel(&mut self) -> (transitioned: bool)
        ensures
            final(self).cancelled,
            transitioned == !old(self).cancelled,
            final(self).timezone == old(self).timezone,
            final(self).jobs == old(self).jobs,
            final(self).state == old(self).state,
    {
        let transitioned = !self.cancelled;
        self.cancelled = true;
        transitioned
    }

    /// Enters the running state; fails if `start` was already called.
    pub fn start(&mut self) -> (r: Result<(), SchedError>)
        ensures
            r is Ok <==> old(self).state == SchedState::Accepting,
            r matches Err(e) ==> e == SchedError::AlreadyStarted && *final(self) == *old(self),
            r is Ok ==> final(self).state == SchedState::Running,
            final(self).timezone == old(self).timezone,
            final(self).jobs == old(self).jobs,
            final(self).cancelled == old(self).cancelled,
    {
        match self.state {
            SchedState::Accepting => {
                self.state = SchedState::Running;
                Ok(())
            },
            _ => Err(SchedError::AlreadyStarted),
        }
    }

    /// Leaves the timer loop: the cancelled scheduler becomes `Stopped`.
    pub fn stop(&mut self)
        requires
            old(self).cancelled,
        ensures
            final(self).state == SchedState::Stopped,
            final(self).timezone == old(self).timezone,
            final(self).jobs == old(self).jobs,
            final(self).cancelled == old(self).cancelled,
    {
        self.state = SchedState::Stopped;
    }

    /// Registers a job under a unique name with a cron schedule, deriving
    /// its first fire instant from `now`. A well-formed schedule whose next
    /// fire lies beyond the search horizon is accepted and stored dormant;
    /// it resumes once a tick brings its fire within reach. Registration
    /// fails, leaving the set unchanged, only on a started scheduler, a
    /// duplicate name, an expression outside the grammar, or an unknown
    /// timezone.
    pub fn register(&mut self, name: &str, cron_expr: &str, now: i64) -> (r: Result<
        (),
        SchedError,
    >)
        requires
            old(self).wf(),
            0 <= now <= MAX_INSTANT,
        ensures
            final(self).wf(),
            final(self).timezone == old(self).timezone,
            final(self).state == old(self).state,
            final(self).cancelled == old(self).cancelled,
            r is Err ==> final(self).jobs == old(self).jobs,
            r matches Err(e) && e == SchedError::AlreadyStarted <==> old(self).state
                != SchedState::Accepting,
            r matches Err(e) && e == SchedError::DuplicateName <==> old(self).state
                == SchedState::Accepting && old(self).has_name(name@),
            r matches Err(e) && e == SchedError::InvalidSchedule <==> old(self).state
                == SchedState::Accepting && !old(self).has_name(name@) && !expr_ok(cron_expr@),
            r matches Err(e) && e == SchedError::InvalidTimezone <==> old(self).state
                == SchedState::Accepting && !old(self).has_name(name@) && expr_ok(cron_expr@)
                && !tz_valid(old(self).timezone@),
            r is Ok <==> old(self).state == SchedState::Accepting && !old(self).has_name(name@)
                && expr_ok(cron_expr@) && tz_valid(old(self).timezone@),
            r is Ok ==> ({
                let js = final(self).jobs@;
                &&& js.len() == old(self).jobs@.len() + 1
                &&& js.drop_last() == old(self).jobs@
                &&& js.last().name@ == name@
                &&& expr_denotes(cron_expr@, &js.last().expr)
                &&& (js.last().next_fire matches Some(u) ==> is_next_within(
                    &js.last().expr,
                    old(self).timezone@,
                    now as int,
                    MAX_HORIZON_SECS as int,
                    u as int,
                ))
                &&& (js.last().next_fire is None ==> forall|e2: CronExpr|
                    expr_denotes(cron_expr@, &e2) ==> no_fire_within(
                        &e2,
                        old(self).timezone@,
                        now as int,
                        MAX_HORIZON_SECS as int,
                    ))
            }),
    {
        match self.state {
            SchedState::Accepting => {},
            _ => {
                return Err(SchedError::AlreadyStarted);
            },
        }
        let name_string: String = name.to_owned();
        let mut k: usize = 0;
        while k < self.jobs.len()
            invariant
                k <= self.jobs@.len(),
                forall|l: int| 0 <= l < k ==> self.jobs@[l].name@ != name_string@,
                name_string@ == name@,
                *self == *old(self),
                old(self).wf(),
                old(self).state == SchedState::Accepting,
            decreases self.jobs@.len() - k,
        {
            if self.jobs[k].name == name_string {
                return Err(SchedError::DuplicateName);
            }
            k = k + 1;
        }
        let expr = match parse_cron(cron_expr) {
            Some(e) => e,
            None => {
                return Err(SchedError::InvalidSchedule);
            },
        };
        let next_fire: Option<i64> = match next_fire_within(
            &expr,
            self.timezone.as_str(),
            now,
            MAX_HORIZON_SECS,
        ) {
            Ok(u) => Some(u),
            Err(EvalError::InvalidTimezone) => {
                return Err(SchedError::InvalidTimezone);
            },
            Err(EvalError::NoUpcomingFire) => {
                proof {
                    assert forall|e2: CronExpr| expr_denotes(cron_expr@, &e2) implies no_fire_within(
                        &e2,
                        old(self).timezone@,
                        now as int,
                        MAX_HORIZON_SECS as int,
                    ) by {
                        crate::parse::lemma_denotes_unique(cron_expr@, &expr, &e2);
                        crate::eval::lemma_same_tables_same_fires(
                            &expr,
                            &e2,
                            old(self).timezone@,
                            now as int,
                            MAX_HORIZON_SECS as int,
                        );
                    }
                }
                None
            },
        };
        self.jobs.push(Registration { name: name_string, expr, next_fire });
        Ok(())
    }

    /// One pass of the timer loop at instant `now`: while running and not
    /// cancelled, every due registration yields one trigger event and has
    /// its next fire instant recomputed from `now`, and every dormant
    /// registration is re-evaluated (without firing) so that it resumes as
    /// soon as a fire comes within the horizon; after cancellation, or
    /// outside the running state, nothing fires. The events carry the due
    /// registrations' names and overdue fire instants, in registration
    /// order. Outcomes of previously dispatched executions play no part.
    pub fn tick(&mut self, now: i64) -> (evs: Vec<TriggerEvent>)
        requires
            old(self).wf(),
            0 <= now <= MAX_INSTANT,
        ensures
            final(self).wf(),
            final(self).timezone == old(self).timezone,
            final(self).state == old(self).state,
            final(self).cancelled == old(self).cancelled,
            final(self).jobs@.len() == old(self).jobs@.len(),
            forall|k: int|
                0 <= k < old(self).jobs@.len() ==> (#[trigger] final(self).jobs@[k]).name == old(
                    self,
                ).jobs@[k].name && final(self).jobs@[k].expr == old(self).jobs@[k].expr,
            old(self).cancelled || old(self).state != SchedState::Running ==> *final(self) == *old(
                self,
            ) && evs@.len() == 0,
            !old(self).cancelled && old(self).state == SchedState::Running ==> {
                &&& events_view(evs@) == due_events(old(self).jobs@, now as int)
                &&& forall|k: int|
                    0 <= k < old(self).jobs@.len() && !due(#[trigger] old(self).jobs@[k], now as int)
                        && !dormant(old(self).jobs@[k]) ==> final(self).jobs@[k] == old(
                        self,
                    ).jobs@[k]
                &&& forall|k: int|
                    0 <= k < old(self).jobs@.len() && (due(
                        #[trigger] old(self).jobs@[k],
                        now as int,
                    ) || dormant(old(self).jobs@[k])) ==> {
                        &&& (final(self).jobs@[k].next_fire matches Some(u) ==> is_next_within(
                            &old(self).jobs@[k].expr,
                            old(self).timezone@,
                            now as int,
                            MAX_HORIZON_SECS as int,
                            u as int,
                        ))
                        &&& (final(self).jobs@[k].next_fire is None ==> !tz_valid(
                            old(self).timezone@,
                        ) || no_fire_within(
                            &old(self).jobs@[k].expr,
                            old(self).timezone@,
                            now as int,
                            MAX_HORIZON_SECS as int,
                        ))
                    }
            },
    {
        if self.cancelled {
            return Vec::new();
        }
        match self.state {
            SchedState::Running => {},
            _ => {
                return Vec::new();
            },
        }
        let ghost jobs0 = self.jobs@;
        let mut out: Vec<TriggerEvent> = Vec::new();
        let mut done: Vec<Registration> = Vec::new();
        while self.jobs.len() > 0
            invariant
                0 <= now <= MAX_INSTANT,
                jobs0.len() == done@.len() + self.jobs@.len(),
                self.jobs@ == jobs0.skip(done@.len() as int),
                self.timezone == old(self).timezone,
                self.timezone@ == old(self).timezone@,
                self.state == old(self).state,
                self.cancelled == old(self).cancelled,
                jobs0 == old(self).jobs@,
                old(self).wf(),
                events_view(out@) == due_events(jobs0.take(done@.len() as int), now as int),
                forall|k: int|
                    0 <= k < done@.len() ==> (#[trigger] done@[k]).name == jobs0[k].name
                        && done@[k].expr == jobs0[k].expr,
                forall|k: int|
                    0 <= k < done@.len() && !due(#[trigger] jobs0[k], now as int) && !dormant(
                        jobs0[k],
                    ) ==> done@[k] == jobs0[k],
                forall|k: int|
                    0 <= k < done@.len() && (due(#[trigger] jobs0[k], now as int) || dormant(
                        jobs0[k],
                    )) ==> {
                        &&& (done@[k].next_fire matches Some(u) ==> is_next_within(
                            &jobs0[k].expr,
                            old(self).timezone@,
                            now as int,
                            MAX_HORIZON_SECS as int,
                            u as int,
                        ))
                        &&& (done@[k].next_fire is None ==> !tz_valid(old(self).timezone@)
                            || no_fire_within(
                            &jobs0[k].expr,
                            old(self).timezone@,
                            now as int,
                            MAX_HORIZON_SECS as int,
                        ))
                    },
                forall|k: int|
                    0 <= k < done@.len() ==> ((#[trigger] done@[k]).next_fire matches Some(u)
                        ==> 0 <= u <= MAX_INSTANT + MAX_HORIZON_SECS),
            decreases self.jobs@.len(),
        {
            let ghost i = done@.len() as int;
            let mut r = self.jobs.remove(0);
            proof {
                assert(r == jobs0[i]);
                assert(jobs0.skip(i).drop_first() =~= jobs0.skip(i + 1));
            }
            let needs_recompute = match r.next_fire {
                Some(f) => {
                    if f <= now {
                        out.push(TriggerEvent { name: r.name.clone(), at: f });
                        true
                    } else {
                        false
                    }
                },
                None => true,
            };
            if needs_recompute {
                let nf = next_fire_within(&r.expr, self.timezone.as_str(), now, MAX_HORIZON_SECS);
                r.next_fire = match nf {
                    Ok(u) => Some(u),
                    Err(_) => None,
                };
            }
            done.push(r);
            proof {
                assert(jobs0.take(i + 1).drop_last() =~= jobs0.take(i));
                assert(jobs0.take(i + 1).last() == jobs0[i]);
                if due(jobs0[i], now as int) {
                    assert(events_view(out@) =~= due_events(jobs0.take(i + 1), now as int));
                } else {
                    assert(events_view(out@) =~= due_events(jobs0.take(i + 1), now as int));
                }
            }
        }
        proof {
            assert(jobs0.take(done@.len() as int) =~= jobs0);
        }
        self.jobs = done;
        out
    }
}

/// Law: a successful registration never blocks a later registration under
/// a distinct name. Freshness of the name is the only condition on the
/// registration set, and adding a job under one name keeps every other
/// name fresh; so two jobs with distinct names and valid schedules both
/// register without error.
pub proof fn lemma_distinct_name_stays_fresh(
    pre: &Scheduler,
    post: &Scheduler,
    n1: Seq<char>,
    n2: Seq<char>,
)
    requires
        post.jobs@.len() == pre.jobs@.len() + 1,
        post.jobs@.drop_last() == pre.jobs@,
        post.jobs@.last().name@ == n1,
        n1 != n2,
        !pre.has_name(n2),
    ensures
        !post.has_name(n2),
{
    assert forall|k: int| 0 <= k < post.jobs@.len() implies post.jobs@[k].name@ != n2 by {
        if k < pre.jobs@.len() {
            assert(post.jobs@.drop_last()[k] == post.jobs@[k]);
            assert(pre.jobs@[k] == post.jobs@[k]);
        } else {
            assert(post.jobs@[k] == post.jobs@.last());
        }
    }
}

/// Law: a due registration always yields its trigger event, whatever any
/// other registration holds or whatever any earlier execution did — job
/// outcomes are not even inputs here, so one job's failures cannot stop
/// another's triggers.
pub proof fn lemma_due_job_always_fires(jobs: Seq<Registration>, now: int, k: int)
    requires
        0 <= k < jobs.len(),
        due(jobs[k], now),
    ensures
        exists|m: int|
            0 <= m < due_events(jobs, now).len() && due_events(jobs, now)[m] == (
            jobs[k].name@,
            jobs[k].next_fire->Some_0 as int,
            ),
    decreases jobs.len(),
{
    if k == jobs.len() - 1 {
        let evs = due_events(jobs, now);
        assert(evs.last() == (jobs[k].name@, jobs[k].next_fire->Some_0 as int));
        assert(evs[evs.len() - 1] == (jobs[k].name@, jobs[k].next_fire->Some_0 as int));
    } else {
        assert(jobs.drop_last()[k] == jobs[k]);
        lemma_due_job_always_fires(jobs.drop_last(), now, k);
        let init = due_events(jobs.drop_last(), now);
        let m = choose|m: int|
            0 <= m < init.len() && init[m] == (jobs[k].name@, jobs[k].next_fire->Some_0 as int);
        if due(jobs.last(), now) {
            assert(due_events(jobs, now)[m] == init[m]);
        } else {
            assert(due_events(jobs, now)[m] == init[m]);
        }
    }
}

} // verus!
