//! What the worker does next, and when it tries again.

use crate::clock;
use crate::clock::UtcTime;
use crate::json::{Json, JsonView};
use crate::order;
use crate::records;
use crate::records::SessionRecord;
use vstd::prelude::*;

verus! {

/// How long a Telegram event may take, in seconds.
pub const TELEGRAM_TIMEOUT: u64 = 5_400;

/// What the user is told when a Telegram event took too long.
pub const TELEGRAM_TIMEOUT_NOTICE: &'static str =
    "Kennedy could not complete a response within 90 minutes, so this request was stopped. Please send it again if you want to retry it.";

/// Whether a session is to be taken into the history now: it was begun, or it waits
/// and its next attempt is not still to come.
pub open spec fn due(record: SessionRecord, now: UtcTime) -> bool {
    if record.phase@ == "ingress_in_progress"@ {
        true
    } else if record.phase@ == "ingress_pending"@ {
        match record.ingress_next_attempt_at {
            None => true,
            Some(next) => match clock::time_of(next@) {
                None => true,
                Some(time) => now.at_or_after(time),
            },
        }
    } else {
        false
    }
}

fn is_due(record: &SessionRecord, now: &UtcTime) -> (yes: bool)
    ensures
        yes == due(*record, *now),
{
    if *record.phase.as_str() == *"ingress_in_progress" {
        return true;
    }
    if *record.phase.as_str() != *"ingress_pending" {
        return false;
    }
    match &record.ingress_next_attempt_at {
        None => true,
        Some(next) => match clock::parse_time(next.as_str()) {
            None => true,
            Some(time) => now.reached(&time),
        },
    }
}

/// When a session was last written, or else when it started; none where neither says.
pub open spec fn record_time(record: SessionRecord) -> Option<UtcTime> {
    match clock::time_of(record.updated_at@) {
        Some(time) => Some(time),
        None => clock::time_of(record.started_at@),
    }
}

fn find_time(record: &SessionRecord) -> (time: Option<UtcTime>)
    ensures
        time == record_time(*record),
{
    match clock::parse_time(record.updated_at.as_str()) {
        Some(time) => Some(time),
        None => clock::parse_time(record.started_at.as_str()),
    }
}

/// Whether one time comes before another; an unknown time comes after every known one.
pub open spec fn earlier(a: Option<UtcTime>, b: Option<UtcTime>) -> bool {
    match (a, b) {
        (Some(a), Some(b)) => a.seconds < b.seconds || (a.seconds == b.seconds && a.nanos < b.nanos),
        (Some(_), None) => true,
        _ => false,
    }
}

/// Whether two times are the same instant, or both unknown.
pub open spec fn same_time(a: Option<UtcTime>, b: Option<UtcTime>) -> bool {
    match (a, b) {
        (Some(a), Some(b)) => a.seconds == b.seconds && a.nanos == b.nanos,
        (None, None) => true,
        _ => false,
    }
}

/// Whether one session is taken in before another: what was begun first, then the
/// older one, and among equals by their names.
pub open spec fn taken_before(a: SessionRecord, b: SessionRecord) -> bool {
    let begun_a = a.phase@ == "ingress_in_progress"@;
    let begun_b = b.phase@ == "ingress_in_progress"@;
    let time_a = record_time(a);
    let time_b = record_time(b);
    if begun_a != begun_b {
        begun_a
    } else if earlier(time_a, time_b) {
        true
    } else if same_time(time_a, time_b) {
        order::precedes(a.id@, b.id@)
    } else {
        false
    }
}

/// Whether one session is taken in before another.
pub fn ingress_precedes(a: &SessionRecord, b: &SessionRecord) -> (yes: bool)
    ensures
        yes == taken_before(*a, *b),
{
    let begun_a = *a.phase.as_str() == *"ingress_in_progress";
    let begun_b = *b.phase.as_str() == *"ingress_in_progress";
    if begun_a != begun_b {
        return begun_a;
    }
    match (find_time(a), find_time(b)) {
        (Some(first), Some(second)) => {
            if first.seconds != second.seconds {
                first.seconds < second.seconds
            } else if first.nanos != second.nanos {
                first.nanos < second.nanos
            } else {
                order::before(a.id.as_str(), b.id.as_str())
            }
        },
        (Some(_), None) => true,
        (None, Some(_)) => false,
        (None, None) => order::before(a.id.as_str(), b.id.as_str()),
    }
}

/// The order in which sessions are taken in is a strict order.
pub proof fn taking_in_is_ordered(a: SessionRecord, b: SessionRecord, c: SessionRecord)
    ensures
        !(taken_before(a, b) && taken_before(b, a)),
        taken_before(a, b) && !taken_before(c, b) ==> taken_before(a, c),
{
    order::precedes_is_total(a.id@, b.id@);
    order::precedes_is_total(b.id@, c.id@);
    order::precedes_is_total(a.id@, c.id@);
    if order::precedes(a.id@, b.id@) && order::precedes(b.id@, c.id@) {
        order::precedes_is_transitive(a.id@, b.id@, c.id@);
    }
    if order::precedes(a.id@, b.id@) && order::precedes(b.id@, a.id@) {
        order::precedes_is_transitive(a.id@, b.id@, a.id@);
        order::precedes_is_total(a.id@, a.id@);
    }
}

/// Whether the session at place `i` is the one to take in: it is due, and no other one
/// that is due comes before it.
pub open spec fn is_next(histories: Seq<SessionRecord>, now: UtcTime, i: int) -> bool {
    &&& 0 <= i < histories.len()
    &&& due(histories[i], now)
    &&& forall|j: int|
        0 <= j < histories.len() && due(#[trigger] histories[j], now) ==> !taken_before(
            histories[j],
            histories[i],
        )
    &&& forall|j: int|
        0 <= j < i && due(#[trigger] histories[j], now) ==> taken_before(histories[i], histories[j])
}

/// The place of the session to take into the history next.
pub fn next_ingress(histories: &Vec<SessionRecord>, now: &UtcTime) -> (place: Option<usize>)
    ensures
        match place {
            Some(i) => is_next(histories@, *now, i as int),
            None => forall|j: int| 0 <= j < histories.len() ==> !due(#[trigger] histories@[j], *now),
        },
{
    let mut best: Option<usize> = None;
    let mut i: usize = 0;
    while i < histories.len()
        invariant
            i <= histories.len(),
            match best {
                Some(b) => {
                    &&& b < i
                    &&& due(histories@[b as int], *now)
                    &&& forall|j: int|
                        0 <= j < i && due(#[trigger] histories@[j], *now) ==> !taken_before(
                            histories@[j],
                            histories@[b as int],
                        )
                    &&& forall|j: int|
                        0 <= j < b && due(#[trigger] histories@[j], *now) ==> taken_before(
                            histories@[b as int],
                            histories@[j],
                        )
                },
                None => forall|j: int| 0 <= j < i ==> !due(#[trigger] histories@[j], *now),
            },
        decreases histories.len() - i,
    {
        if is_due(&histories[i], now) {
            match best {
                None => {
                    proof {
                        let here = histories@[i as int];
                        taking_in_is_ordered(here, here, here);
                    }
                    best = Some(i);
                },
                Some(b) => {
                    if ingress_precedes(&histories[i], &histories[b]) {
                        proof {
                            let here = histories@[i as int];
                            taking_in_is_ordered(here, here, here);
                            assert forall|j: int|
                                0 <= j < i && due(
                                    #[trigger] histories@[j],
                                    *now,
                                ) implies taken_before(here, histories@[j]) && !taken_before(
                                histories@[j],
                                here,
                            ) by {
                                taking_in_is_ordered(here, histories@[b as int], histories@[j]);
                                taking_in_is_ordered(here, histories@[j], here);
                            }
                        }
                        best = Some(i);
                    }
                },
            }
        }
        i = i + 1;
    }
    best
}

/// Work that was begun is taken up again before anything that waits.
pub proof fn begun_work_comes_first(histories: Seq<SessionRecord>, now: UtcTime, i: int, j: int)
    requires
        is_next(histories, now, i),
        0 <= j < histories.len(),
        histories[j].phase@ == "ingress_in_progress"@,
    ensures
        histories[i].phase@ == "ingress_in_progress"@,
{
    assert(due(histories[j], now));
}

/// The one job that writes to the graph, and the session that it is for.
#[derive(Clone, Copy, Debug, PartialEq, Eq)]
pub enum WriterJob {
    Wakeup(usize),
    SelfTime(usize),
    Ingress(usize),
}

/// The first session, from place `i` on, that is active and of this type.
pub open spec fn active_of_type(
    histories: Seq<SessionRecord>,
    session_type: Seq<char>,
    i: int,
) -> Option<int>
    decreases histories.len() - i,
{
    if i < 0 || i >= histories.len() {
        None
    } else if histories[i].phase@ == "active"@ && records::type_of(histories[i]) == session_type {
        Some(i)
    } else {
        active_of_type(histories, session_type, i + 1)
    }
}

fn find_active(histories: &Vec<SessionRecord>, session_type: &str) -> (place: Option<usize>)
    ensures
        match place {
            Some(i) => active_of_type(histories@, session_type@, 0) == Some(i as int) && i
                < histories.len(),
            None => active_of_type(histories@, session_type@, 0) is None,
        },
{
    let mut i: usize = 0;
    while i < histories.len()
        invariant
            i <= histories.len(),
            active_of_type(histories@, session_type@, 0) == active_of_type(
                histories@,
                session_type@,
                i as int,
            ),
        decreases histories.len() - i,
    {
        if *histories[i].phase.as_str() == *"active" && *records::session_type(&histories[i])
            == *session_type {
            return Some(i);
        }
        i = i + 1;
    }
    None
}

/// The next job that writes to the graph; none while one is running. Sessions that were
/// woken come first, then self-time, then the history.
pub fn schedule_writer_job(histories: &Vec<SessionRecord>, now: &UtcTime, running: bool) -> (job:
    Option<WriterJob>)
    ensures
        running ==> job is None,
        !running ==> match (
            active_of_type(histories@, "wakeup"@, 0),
            active_of_type(histories@, "free-time"@, 0),
        ) {
            (Some(i), _) => job == Some(WriterJob::Wakeup(i as usize)),
            (None, Some(i)) => job == Some(WriterJob::SelfTime(i as usize)),
            (None, None) => match job {
                Some(WriterJob::Ingress(i)) => is_next(histories@, *now, i as int),
                Some(_) => false,
                None => forall|j: int|
                    0 <= j < histories.len() ==> !due(#[trigger] histories@[j], *now),
            },
        },
{
    if running {
        return None;
    }
    if let Some(i) = find_active(histories, "wakeup") {
        return Some(WriterJob::Wakeup(i));
    }
    if let Some(i) = find_active(histories, "free-time") {
        return Some(WriterJob::SelfTime(i));
    }
    match next_ingress(histories, now) {
        Some(i) => Some(WriterJob::Ingress(i)),
        None => None,
    }
}

/// After how many seconds a Telegram event that failed so often is tried again.
pub open spec fn retry_seconds(failures: u32) -> u64 {
    if failures <= 1 {
        2
    } else if failures == 2 {
        4
    } else if failures == 3 {
        8
    } else if failures == 4 {
        16
    } else if failures == 5 {
        32
    } else {
        60
    }
}

/// After how many seconds a Telegram event that failed so often is tried again.
pub fn telegram_event_retry_delay(failures: u32) -> (seconds: u64)
    ensures
        seconds == retry_seconds(failures),
{
    let exponent: u32 = if failures <= 1 {
        0
    } else if failures - 1 < 5 {
        failures - 1
    } else {
        5
    };
    let mut seconds: u64 = 2;
    let mut i: u32 = 0;
    while i < exponent
        invariant
            i <= exponent <= 5,
            seconds == (if i == 0 {
                2u64
            } else if i == 1 {
                4
            } else if i == 2 {
                8
            } else if i == 3 {
                16
            } else if i == 4 {
                32
            } else {
                64
            }),
        decreases exponent - i,
    {
        seconds = seconds * 2;
        i = i + 1;
    }
    if seconds < 60 {
        seconds
    } else {
        60
    }
}

/// Retries grow further apart, but never further than a minute.
pub proof fn retries_back_off(fewer: u32, more: u32)
    requires
        fewer <= more,
    ensures
        2 <= retry_seconds(fewer) <= retry_seconds(more) <= 60,
{
}

/// Whether the failure of a retry is worth a warning: it is a new one, or the same has
/// been repeated for a while.
pub open spec fn warns(previous: Option<Seq<char>>, error: Seq<char>, failures: u32) -> bool {
    previous != Some(error) || failures % 10 == 0
}

/// Whether the failure of a retry is worth a warning.
pub fn telegram_event_retry_should_warn(previous_error: Option<&str>, error: &str, failures: u32)
    -> (yes: bool)
    ensures
        yes == warns(previous_error.deep_view(), error@, failures),
{
    let same = match previous_error {
        Some(previous) => *previous == *error,
        None => false,
    };
    !same || failures % 10 == 0
}

/// What is remembered of an event that failed.
#[derive(Debug)]
pub struct EventRetry {
    pub failures: u32,
    pub last_error: String,
}

/// What follows from one more failure of an event: how often it has failed, after how
/// many seconds it is tried again, and whether that is worth a warning.
pub fn record_telegram_event_retry(retry: Option<EventRetry>, error: &str) -> (result: (
    EventRetry,
    u64,
    bool,
))
    ensures
        result.0.failures == match retry {
            Some(retry) => if retry.failures == u32::MAX {
                u32::MAX
            } else {
                (retry.failures + 1) as u32
            },
            None => 1,
        },
        result.0.last_error@ == error@,
        result.1 == retry_seconds(result.0.failures),
        result.2 == warns(
            match retry {
                Some(retry) => Some(retry.last_error@),
                None => None,
            },
            error@,
            result.0.failures,
        ),
{
    let (failures, warn) = match &retry {
        Some(retry) => {
            let failures: u32 = retry.failures.saturating_add(1);
            let warn = telegram_event_retry_should_warn(
                Some(retry.last_error.as_str()),
                error,
                failures,
            );
            (failures, warn)
        },
        None => (1u32, telegram_event_retry_should_warn(None, error, 1)),
    };
    let seconds: u64 = telegram_event_retry_delay(failures);
    (EventRetry { failures, last_error: error.to_owned() }, seconds, warn)
}

/// How much of an event's time is left after some of it has passed, in seconds and
/// nanoseconds.
pub fn time_left(elapsed_seconds: u64, elapsed_nanos: u32) -> (left: (u64, u32))
    requires
        elapsed_nanos < 1_000_000_000,
    ensures
        left.1 < 1_000_000_000,
        left.0 * 1_000_000_000 + left.1 == if elapsed_seconds * 1_000_000_000 + elapsed_nanos
            >= TELEGRAM_TIMEOUT * 1_000_000_000 {
            0
        } else {
            TELEGRAM_TIMEOUT * 1_000_000_000 - (elapsed_seconds * 1_000_000_000 + elapsed_nanos)
        },
{
    if elapsed_seconds >= TELEGRAM_TIMEOUT {
        return (0, 0);
    }
    let seconds: u64 = TELEGRAM_TIMEOUT - elapsed_seconds;
    if elapsed_nanos == 0 {
        (seconds, 0)
    } else {
        (seconds - 1, 1_000_000_000 - elapsed_nanos)
    }
}

/// How many nanoseconds of an event's time have passed: none where it does not say
/// when it was begun, or says a time that cannot be read or is still to come.
pub open spec fn spent_nanos(event: JsonView, now: UtcTime) -> int {
    match event.text_at("processingStartedAt"@) {
        Some(begun) => match clock::time_of(begun) {
            Some(then) => if clock::nanos_between(then, now) < 0 {
                0
            } else {
                clock::nanos_between(then, now)
            },
            None => 0,
        },
        None => 0,
    }
}

/// How much of an event's time is left, in seconds and nanoseconds.
pub fn telegram_timeout(event: &Json, now: &UtcTime) -> (left: (u64, u32))
    ensures
        left.1 < 1_000_000_000,
        left.0 * 1_000_000_000 + left.1 == if spent_nanos(event@, *now) >= TELEGRAM_TIMEOUT
            * 1_000_000_000 {
            0
        } else {
            TELEGRAM_TIMEOUT * 1_000_000_000 - spent_nanos(event@, *now)
        },
{
    let spent: i128 = match event.text_at("processingStartedAt") {
        Some(begun) => match clock::parse_time(begun) {
            Some(then) => clock::nanos_from(&then, now),
            None => 0,
        },
        None => 0,
    };
    if spent <= 0 {
        return time_left(0, 0);
    }
    if spent >= 5_400_000_000_000 {
        return (0, 0);
    }
    time_left((spent / 1_000_000_000) as u64, (spent % 1_000_000_000) as u32)
}

/// Taking in a session is due where it was begun, and where it waits and its next attempt
/// has come or was never set; no other session is taken in.
pub proof fn ingress_is_due_when_its_time_comes(record: SessionRecord, now: UtcTime)
    ensures
        record.phase@ == "ingress_in_progress"@ ==> due(record, now),
        record.phase@ == "ingress_pending"@ && record.ingress_next_attempt_at is None ==> due(
            record,
            now,
        ),
        record.phase@ == "ingress_pending"@ && record.ingress_next_attempt_at is Some
            && clock::time_of(record.ingress_next_attempt_at->0@) is Some ==> (due(record, now)
            <==> {
            let next = clock::time_of(record.ingress_next_attempt_at->0@)->0;
            next.seconds < now.seconds || next.seconds == now.seconds && next.nanos <= now.nanos
        }),
        record.phase@ == "active"@ || record.phase@ == "complete"@ ==> !due(record, now),
{
    reveal_strlit("ingress_in_progress");
    reveal_strlit("ingress_pending");
    reveal_strlit("active");
    reveal_strlit("complete");
    assert("ingress_in_progress"@.len() == 19 && "ingress_pending"@.len() == 15);
    assert("active"@.len() == 6 && "complete"@.len() == 8);
}

/// What was begun is taken in before what waits; of two alike, the one that was updated
/// earlier comes first, and of two of the same time, the one of the lower identity.
pub proof fn earlier_sessions_are_taken_in_first(a: SessionRecord, b: SessionRecord)
    ensures
        a.phase@ == "ingress_in_progress"@ && b.phase@ != "ingress_in_progress"@ ==> taken_before(
            a,
            b,
        ) && !taken_before(b, a),
        a.phase@ == b.phase@ && clock::time_of(a.updated_at@) is Some && clock::time_of(
            b.updated_at@,
        ) is Some ==> {
            let first = clock::time_of(a.updated_at@)->0;
            let second = clock::time_of(b.updated_at@)->0;
            &&& first.seconds < second.seconds ==> taken_before(a, b)
            &&& first.seconds == second.seconds && first.nanos < second.nanos ==> taken_before(a, b)
            &&& first.seconds == second.seconds && first.nanos == second.nanos ==> (taken_before(
                a,
                b,
            ) <==> order::precedes(a.id@, b.id@))
        },
{
}

/// The first active session of a type is the one that is found.
pub proof fn the_first_active_session_is_found(
    histories: Seq<SessionRecord>,
    session_type: Seq<char>,
    i: int,
    at: int,
)
    requires
        0 <= i <= at < histories.len(),
        histories[at].phase@ == "active"@,
        records::type_of(histories[at]) == session_type,
    ensures
        ({
            let place = active_of_type(histories, session_type, i);
            &&& place is Some
            &&& i <= place->0 <= at
            &&& histories[place->0].phase@ == "active"@
            &&& records::type_of(histories[place->0]) == session_type
        }),
    decreases at - i,
{
    if i < at && !(histories[i].phase@ == "active"@ && records::type_of(histories[i])
        == session_type) {
        the_first_active_session_is_found(histories, session_type, i + 1, at);
    }
}

/// The first retry comes after two seconds, each further one after twice as many, and
/// from the sixth on after a minute.
pub proof fn retries_double(failures: u32)
    ensures
        failures <= 1 ==> retry_seconds(failures) == 2,
        1 <= failures < 5 ==> retry_seconds((failures + 1) as u32) == 2 * retry_seconds(failures),
        failures >= 6 ==> retry_seconds(failures) == 60,
{
}

/// A new failure is warned of, and one that repeats every tenth time.
pub proof fn new_failures_are_warned_of(
    previous: Option<Seq<char>>,
    error: Seq<char>,
    failures: u32,
)
    ensures
        previous is None ==> warns(previous, error, failures),
        previous is Some && previous->0 != error ==> warns(previous, error, failures),
        previous == Some(error) ==> (warns(previous, error, failures) <==> failures % 10 == 0),
{
}

/// The time that an event has taken counts from when it was taken up; one that was not,
/// or that is said to be in the future, has taken none.
pub proof fn events_take_time_from_their_start(event: JsonView, now: UtcTime)
    ensures
        event.text_at("processingStartedAt"@) is None ==> spent_nanos(event, now) == 0,
        spent_nanos(event, now) >= 0,
        event.text_at("processingStartedAt"@) is Some && clock::time_of(
            event.text_at("processingStartedAt"@)->0,
        ) is Some && clock::nanos_between(
            clock::time_of(event.text_at("processingStartedAt"@)->0)->0,
            now,
        ) >= 0 ==> spent_nanos(event, now) == clock::nanos_between(
            clock::time_of(event.text_at("processingStartedAt"@)->0)->0,
            now,
        ),
{
}

} // verus!
