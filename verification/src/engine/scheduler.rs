//! Scheduling of collection, processing and pushing.
//!
//! The application wakes once a minute, asks `due_messages` which messages
//! the current UTC hour and minute call for, and runs the jobs of each
//! message (`SchedulerMessage::jobs`). Cron expressions are read by the
//! `cron` crate; `CronScheduler` keeps one with the action it stands for.

use vstd::prelude::*;
use crate::text::owned;

verus! {

/// A message to the scheduler's worker.
#[derive(Clone, Copy, Debug, PartialEq, Eq, Structural)]
pub enum SchedulerMessage {
    TriggerCollect,
    TriggerProcess,
    TriggerPush,
    TriggerAll,
}

/// One job the worker runs.
#[derive(Clone, Copy, Debug, PartialEq, Eq, Structural)]
pub enum Job {
    Collect,
    Process,
    Push,
}

/// The jobs a message stands for, in the order they run.
pub open spec fn message_jobs(m: SchedulerMessage) -> Seq<Job> {
    match m {
        SchedulerMessage::TriggerCollect => seq![Job::Collect],
        SchedulerMessage::TriggerProcess => seq![Job::Process],
        SchedulerMessage::TriggerPush => seq![Job::Push],
        SchedulerMessage::TriggerAll => seq![Job::Collect, Job::Process, Job::Push],
    }
}

/// Whether the daily run is due: at 8:00.
pub open spec fn daily_due(hour: u32, minute: u32) -> bool {
    hour == 8 && minute == 0
}

/// Whether the periodic collection is due: on the full hour, every six hours.
pub open spec fn periodic_due(hour: u32, minute: u32) -> bool {
    hour % 6 == 0 && minute == 0
}

/// The messages due at `hour:minute`: the full run when it is due, then the
/// collection when it is due.
pub open spec fn due(hour: u32, minute: u32) -> Seq<SchedulerMessage> {
    (if daily_due(hour, minute) { seq![SchedulerMessage::TriggerAll] } else { Seq::empty() })
        + (if periodic_due(hour, minute) { seq![SchedulerMessage::TriggerCollect] } else { Seq::empty() })
}

/// The messages to send at the UTC time `hour:minute`.
pub fn due_messages(hour: u32, minute: u32) -> (r: Vec<SchedulerMessage>)
    ensures
        r@ == due(hour, minute),
        minute != 0 ==> r@.len() == 0,
        r@.contains(SchedulerMessage::TriggerAll) <==> (hour == 8 && minute == 0),
        r@.contains(SchedulerMessage::TriggerCollect) <==> (hour % 6 == 0 && minute == 0),
        r@.len() <= 1,
{
    let mut r: Vec<SchedulerMessage> = Vec::new();
    if hour == 8 && minute == 0 {
        r.push(SchedulerMessage::TriggerAll);
    }
    if hour % 6 == 0 && minute == 0 {
        r.push(SchedulerMessage::TriggerCollect);
    }
    proof {
        assert(r@ =~= due(hour, minute));
        lemma_due_messages(hour, minute);
    }
    r
}

/// Which messages are due when: the full run at 8:00 and at no other time;
/// the collection on the full hour at 0, 6, 12 and 18 o'clock (every hour
/// divisible by six) and at no other time; never processing or pushing
/// alone; and never two messages at once.
pub proof fn lemma_due_messages(hour: u32, minute: u32)
    ensures
        due(hour, minute).contains(SchedulerMessage::TriggerAll) <==> (hour == 8 && minute == 0),
        due(hour, minute).contains(SchedulerMessage::TriggerCollect) <==> (hour % 6 == 0 && minute
            == 0),
        hour < 24 ==> (due(hour, minute).contains(SchedulerMessage::TriggerCollect) <==> ((hour == 0
            || hour == 6 || hour == 12 || hour == 18) && minute == 0)),
        !due(hour, minute).contains(SchedulerMessage::TriggerProcess),
        !due(hour, minute).contains(SchedulerMessage::TriggerPush),
        due(hour, minute).len() <= 1,
{
    let d = due(hour, minute);
    if hour == 8 && minute == 0 {
        assert(d =~= seq![SchedulerMessage::TriggerAll]);
        assert(d[0] == SchedulerMessage::TriggerAll);
    } else if hour % 6 == 0 && minute == 0 {
        assert(d =~= seq![SchedulerMessage::TriggerCollect]);
        assert(d[0] == SchedulerMessage::TriggerCollect);
    } else {
        assert(d =~= Seq::<SchedulerMessage>::empty());
    }
}

impl SchedulerMessage {
    /// The jobs this message stands for, in the order they run: the full run
    /// is collection, then processing, then pushing.
    pub fn jobs(&self) -> (r: Vec<Job>)
        ensures
            r@ == message_jobs(*self),
    {
        let mut r: Vec<Job> = Vec::new();
        match self {
            SchedulerMessage::TriggerCollect => r.push(Job::Collect),
            SchedulerMessage::TriggerProcess => r.push(Job::Process),
            SchedulerMessage::TriggerPush => r.push(Job::Push),
            SchedulerMessage::TriggerAll => {
                r.push(Job::Collect);
                r.push(Job::Process);
                r.push(Job::Push);
            },
        }
        proof {
            assert(r@ =~= message_jobs(*self));
        }
        r
    }
}

/// A point in time: whole seconds since the Unix epoch and the nanoseconds
/// past them.
#[derive(Clone, Copy, Debug, PartialEq, Eq, Structural)]
pub struct Timestamp {
    pub secs: i64,
    pub nanos: u32,
}

/// Whether `a` is not before `b`.
pub open spec fn not_before(a: Timestamp, b: Timestamp) -> bool {
    a.secs > b.secs || (a.secs == b.secs && a.nanos >= b.nanos)
}

/// Whether a schedule whose next firing is `next` should run at `now`: it
/// should when there is a next firing and `now` is not before it.
pub open spec fn fires(now: Timestamp, next: Option<Timestamp>) -> bool {
    match next {
        Some(t) => not_before(now, t),
        None => false,
    }
}

/// Computes `fires`.
pub fn fires_at(now: &Timestamp, next: Option<Timestamp>) -> (r: bool)
    ensures
        r == fires(*now, next),
{
    match next {
        Some(t) => now.secs > t.secs || (now.secs == t.secs && now.nanos >= t.nanos),
        None => false,
    }
}

/// What `cron::Schedule::from_str` says of `expr`: `None` when it reads
/// the expression, and the text of its error otherwise.
pub uninterp spec fn cron_parse_error(expr: Seq<char>) -> Option<Seq<char>>;

/// Whether the schedule read from `expr` includes the UTC time `secs`
/// seconds and `nanos` nanoseconds after the epoch, by
/// `cron::Schedule::includes` (year, month, day of week, day of month, hour,
/// minute and second each among the schedule's values).
pub uninterp spec fn cron_fires(expr: Seq<char>, secs: i64, nanos: u32) -> bool;

/// Reads `expr` with `cron::Schedule::from_str`. The result is `Ok` exactly
/// when `cron_parse_error(expr)` is `None`; otherwise it is the error's text
/// (its `Display`), which is that name's value.
#[verifier::external_body]
fn parse_schedule(expr: &str) -> (r: Result<(), String>)
    ensures
        match r {
            Ok(_) => cron_parse_error(expr@) is None,
            Err(t) => cron_parse_error(expr@) == Some(t@),
        },
{
    match <cron::Schedule as std::str::FromStr>::from_str(expr) {
        Ok(_) => Ok(()),
        Err(e) => Err(e.to_string()),
    }
}

/// The next time after the present at which the schedule read from `expr`
/// fires, by `cron::Schedule::from_str` and then
/// `upcoming(chrono::Utc).next()`, as seconds and nanoseconds since the
/// epoch. Which time comes back depends on the clock, so only what holds of
/// every answer is stated: the schedule includes it (`next_after` builds it
/// from the schedule's own values), and it is a whole second
/// (`with_ymd_and_hms`).
#[verifier::external_body]
fn next_firing(expr: &str) -> (r: Option<Timestamp>)
    requires
        cron_parse_error(expr@) is None,
    ensures
        r matches Some(t) ==> cron_fires(expr@, t.secs, t.nanos) && t.nanos == 0,
{
    match <cron::Schedule as std::str::FromStr>::from_str(expr) {
        Ok(s) => match s.upcoming(chrono::Utc).next() {
            Some(t) => Some(Timestamp { secs: t.timestamp(), nanos: t.timestamp_subsec_nanos() }),
            None => None,
        },
        Err(_) => None,
    }
}

/// The message of a rejected cron expression whose error text is `error`.
pub open spec fn invalid_cron_message(error: Seq<char>) -> Seq<char> {
    "无效的 cron 表达式: "@ + error
}

/// A cron schedule with the action it triggers. The schedule is kept as
/// its expression, which the `cron` crate reads (the type's invariant) and
/// which is read again each time the next firing is asked for.
pub struct CronScheduler {
    expression: String,
    action: String,
}

impl CronScheduler {
    #[verifier::type_invariant]
    spec fn inv(&self) -> bool {
        cron_parse_error(self.expression@) is None
    }

    /// The cron expression of this scheduler.
    pub closed spec fn expr_view(&self) -> Seq<char> {
        self.expression@
    }

    /// The action this scheduler triggers.
    pub closed spec fn action_view(&self) -> Seq<char> {
        self.action@
    }

    /// A scheduler for the cron expression `cron_expr` and `action`; an
    /// expression the `cron` crate rejects gives `无效的 cron 表达式: `
    /// followed by its error text.
    pub fn new(cron_expr: &str, action: &str) -> (r: Result<Self, String>)
        ensures
            match cron_parse_error(cron_expr@) {
                None => r matches Ok(s) && s.expr_view() == cron_expr@ && s.action_view() == action@,
                Some(t) => r matches Err(e) && e@ == invalid_cron_message(t),
            },
    {
        match parse_schedule(cron_expr) {
            Ok(_) => Ok(Self { expression: owned(cron_expr), action: owned(action) }),
            Err(t) => {
                let mut msg = owned("无效的 cron 表达式: ");
                msg.append(t.as_str());
                Err(msg)
            },
        }
    }

    /// The action this scheduler triggers.
    pub fn action(&self) -> (r: &str)
        ensures
            r@ == self.action_view(),
    {
        self.action.as_str()
    }

    /// Whether the schedule should run at `now`: `fires(now, next)` for the
    /// next firing after the present (see `fires_at`). That firing is read
    /// from the clock; whatever it is, a `true` answer means the schedule
    /// includes some whole-second time that `now` is not before.
    pub fn should_run(&self, now: &Timestamp) -> (r: bool)
        ensures
            r ==> exists|t: Timestamp|
                #[trigger] cron_fires(self.expr_view(), t.secs, t.nanos) && t.nanos == 0
                    && not_before(*now, t),
    {
        proof {
            use_type_invariant(self);
        }
        let next = next_firing(self.expression.as_str());
        let r = fires_at(now, next);
        proof {
            if r {
                let t = next->0;
                assert(cron_fires(self.expr_view(), t.secs, t.nanos));
            }
        }
        r
    }
}

} // verus!
