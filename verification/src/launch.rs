//! How sessions are set up: those that the history has, and new ones.

use crate::clock;
use crate::clock::UtcTime;
use crate::commands;
use crate::errors;
use crate::errors::ErrorReport;
use crate::json::{Json, JsonView};
use crate::records;
use crate::session::{AgentMode, SessionOptions};
use crate::text;
use crate::text::Failure;
use crate::turns;
use vstd::prelude::*;

verus! {

/// The state of a recorded session, with the size that its channel takes where it is
/// Telegram's.
pub open spec fn channelled(state: JsonView, max_media_bytes: u64) -> JsonView {
    let session_type = match state.text_at("sessionType"@) {
        Some(session_type) => session_type,
        None => "conversation"@,
    };
    if records::is_telegram(session_type) {
        let channel = match state.get("channel"@) {
            Some(channel) => if channel is Object {
                channel
            } else {
                JsonView::Object(Map::empty())
            },
            None => JsonView::Object(Map::empty()),
        };
        state.with(
            "channel"@,
            channel.with("maxObjectBytes"@, JsonView::Integer(max_media_bytes as int)),
        )
    } else {
        state
    }
}

/// The roots of a recorded session: its own, or else the given ones.
pub open spec fn roots_or(
    state: JsonView,
    user_root: Seq<char>,
    kennedy_root: Seq<char>,
) -> Seq<Seq<char>> {
    let own = records::texts_at(state, "rootNodeIds"@);
    if own.len() == 0 {
        seq![user_root, kennedy_root]
    } else {
        own
    }
}

fn two(first: &str, second: &str) -> (both: Vec<String>)
    ensures
        both.deep_view() == seq![first@, second@],
{
    let mut both: Vec<String> = Vec::new();
    both.push(first.to_owned());
    both.push(second.to_owned());
    assert(both.deep_view() =~= seq![first@, second@]);
    both
}

fn find_roots(state: &Json, user_root: &str, kennedy_root: &str) -> (roots: Vec<String>)
    ensures
        roots.deep_view() == roots_or(state@, user_root@, kennedy_root@),
{
    let own = records::string_array(state, "rootNodeIds");
    if own.len() == 0 {
        two(user_root, kennedy_root)
    } else {
        own
    }
}

/// A member, or null where there is none.
pub open spec fn member(value: JsonView, key: Seq<char>) -> JsonView {
    match value.get(key) {
        Some(inner) => inner,
        None => JsonView::Null,
    }
}

/// A member, or null where there is none.
pub fn member_of(value: &Json, key: &str) -> (inner: Json)
    ensures
        inner@ == member(value@, key@),
{
    match value.get(key) {
        Some(inner) => inner.clone(),
        None => Json::Null,
    }
}

/// The mode of a recorded session of this type.
pub open spec fn mode_of(session_type: Seq<char>) -> AgentMode {
    if session_type == "free-time"@ {
        AgentMode::FreeTime
    } else if session_type == "wakeup"@ {
        AgentMode::Wakeup
    } else {
        AgentMode::Conversation
    }
}

/// Sets up a session that the history has: the state that it goes on from, and its
/// options.
pub fn record_setup(state: &Json, max_media_bytes: u64, user_root: &str, kennedy_root: &str) -> (
result: (Json, SessionOptions))
    ensures
        result.0@ == channelled(state@, max_media_bytes),
        ({
            let kept = result.0@;
            let session_type = match state@.text_at("sessionType"@) {
                Some(session_type) => session_type,
                None => "conversation"@,
            };
            &&& result.1.session_type@ == session_type
            &&& result.1.root_node_ids.deep_view() == roots_or(kept, user_root@, kennedy_root@)
            &&& result.1.reference_root_node_ids.deep_view() == records::texts_at(
                kept,
                "referenceRootNodeIds"@,
            )
            &&& result.1.channel@ == member(kept, "channel"@)
            &&& result.1.free_time@ == member(kept, "freeTime"@)
            &&& result.1.orchestration@ == match kept.get("orchestration"@) {
                Some(record) => record,
                None => commands::owned("idle"@),
            }
            &&& result.1.provenance_id.deep_view() == kept.text_at("provenanceId"@)
            &&& result.1.mode == mode_of(session_type)
            &&& result.1.source_session_type is None
            &&& result.1.group_context@ is Null
            &&& result.1.rust_lib_session_id is None
        }),
{
    let session_type = match state.text_at("sessionType") {
        Some(session_type) => session_type.to_owned(),
        None => "conversation".to_owned(),
    };
    let kept = if *session_type.as_str() == *"telegram" || *session_type.as_str()
        == *"telegram-group" {
        let channel = match state.get("channel") {
            Some(channel) => {
                if channel.is_object() {
                    channel.clone()
                } else {
                    Json::object()
                }
            },
            None => Json::object(),
        };
        state.clone().with(
            "channel",
            channel.with("maxObjectBytes", Json::unsigned(max_media_bytes)),
        )
    } else {
        state.clone()
    };
    let mode = if *session_type.as_str() == *"free-time" {
        AgentMode::FreeTime
    } else if *session_type.as_str() == *"wakeup" {
        AgentMode::Wakeup
    } else {
        AgentMode::Conversation
    };
    let orchestration = match kept.get("orchestration") {
        Some(record) => record.clone(),
        None => commands::orchestration("idle"),
    };
    let provenance_id = match kept.text_at("provenanceId") {
        Some(id) => Some(id.to_owned()),
        None => None,
    };
    let options = SessionOptions {
        session_type,
        root_node_ids: find_roots(&kept, user_root, kennedy_root),
        reference_root_node_ids: records::string_array(&kept, "referenceRootNodeIds"),
        channel: member_of(&kept, "channel"),
        free_time: member_of(&kept, "freeTime"),
        orchestration,
        provenance_id,
        mode,
        source_session_type: None,
        group_context: Json::Null,
        rust_lib_session_id: None,
    };
    (kept, options)
}

/// What is done with a session that is queued for the history, by its phase.
#[derive(Clone, Copy, Debug, PartialEq, Eq)]
pub enum IngressStep {
    /// It is claimed first.
    Claim,
    /// It is taken in.
    Run,
    /// Another one has dealt with it.
    Skip,
}

/// What is done with a session that is queued for the history, by its phase.
pub fn ingress_step(phase: &str) -> (step: IngressStep)
    ensures
        step == if phase@ == "ingress_pending"@ {
            IngressStep::Claim
        } else if phase@ == "ingress_in_progress"@ {
            IngressStep::Run
        } else {
            IngressStep::Skip
        },
{
    if *phase == *"ingress_pending" {
        IngressStep::Claim
    } else if *phase == *"ingress_in_progress" {
        IngressStep::Run
    } else {
        IngressStep::Skip
    }
}

/// Checks that a queued session can be claimed: it has a log of its own. What it is
/// claimed under.
pub fn ingress_claim(id: &str, state: &Json) -> (result: Result<String, Failure>)
    ensures
        text::seen(result) == if state@.text_at("sessionId"@) is Some {
            Ok::<Seq<char>, Seq<char>>("session:"@ + id@)
        } else {
            Err::<Seq<char>, Seq<char>>("The queued session has no Session History ID"@)
        },
{
    match state.text_at("sessionId") {
        None => Err(Failure::fixed("The queued session has no Session History ID")),
        Some(_) => {
            let mut provenance = "session:".to_owned();
            provenance.append(id);
            Ok(provenance)
        },
    }
}

/// The group context in a channel; null where there is none.
pub open spec fn channel_context(state: JsonView) -> JsonView {
    match state.get("channel"@) {
        Some(channel) => member(channel, "groupContext"@),
        None => JsonView::Null,
    }
}

/// The session under which the taking in of a recorded one manages its sources.
pub open spec fn ingress_library(id: Seq<char>) -> Seq<char> {
    "kennedy:history-ingress:"@ + id
}

/// The session under which the taking in of a recorded one manages its sources.
pub fn ingress_library_session(id: &str) -> (session: String)
    ensures
        session@ == ingress_library(id@),
{
    let mut session = "kennedy:history-ingress:".to_owned();
    session.append(id);
    session
}

/// Sets up the session that takes in a recorded one.
pub fn ingress_setup(id: &str, state: &Json, user_root: &str, kennedy_root: &str) -> (options:
    SessionOptions)
    ensures
        options.session_type@ == "history-ingress"@,
        options.root_node_ids.deep_view() == roots_or(state@, user_root@, kennedy_root@),
        options.reference_root_node_ids.deep_view() == records::texts_at(
            state@,
            "referenceRootNodeIds"@,
        ),
        options.channel@ == member(state@, "channel"@),
        options.free_time@ is Null,
        options.orchestration@ is Null,
        options.provenance_id is None,
        options.mode matches AgentMode::Ingress { record_id } && record_id.deep_view() == Some(id@),
        options.source_session_type.deep_view() == Some(
            match state@.text_at("sessionType"@) {
                Some(source) => source,
                None => "conversation"@,
            },
        ),
        options.group_context@ == channel_context(state@),
        options.rust_lib_session_id.deep_view() == Some(ingress_library(id@)),
{
    let source = match state.text_at("sessionType") {
        Some(source) => source.to_owned(),
        None => "conversation".to_owned(),
    };
    let group_context = match state.get("channel") {
        Some(channel) => member_of(channel, "groupContext"),
        None => Json::Null,
    };
    SessionOptions {
        session_type: "history-ingress".to_owned(),
        root_node_ids: find_roots(state, user_root, kennedy_root),
        reference_root_node_ids: records::string_array(state, "referenceRootNodeIds"),
        channel: member_of(state, "channel"),
        free_time: Json::Null,
        orchestration: Json::Null,
        provenance_id: None,
        mode: AgentMode::Ingress { record_id: Some(id.to_owned()) },
        source_session_type: Some(source),
        group_context,
        rust_lib_session_id: Some(ingress_library_session(id)),
    }
}

/// The group ingress that a completed ingress belongs to.
pub fn completed_batch<'a>(state: &'a Json) -> (batch: Option<&'a str>)
    ensures
        batch.deep_view() == match state@.get("channel"@) {
            Some(channel) => channel.text_at("groupIngressBatchId"@),
            None => None,
        },
{
    match state.get("channel") {
        Some(channel) => channel.text_at("groupIngressBatchId"),
        None => None,
    }
}

/// What is recorded of an ingress that failed.
#[derive(Debug)]
pub struct IngressFailure {
    pub stage: String,
    pub code: String,
    pub message: String,
}

/// What is recorded of an ingress that failed; nothing where it has been dealt with in
/// the meantime.
pub fn record_ingress_failure(phase: &str, stage: &str, error: &ErrorReport) -> (failure: Option<
    IngressFailure,
>)
    ensures
        match failure {
            Some(failure) => {
                &&& phase@ == "ingress_pending"@ || phase@ == "ingress_in_progress"@
                &&& failure.stage@ == stage@
                &&& failure.code@ == "ingress_error"@
                &&& failure.message@ == errors::cut(
                    text::joined(error.causes.deep_view(), ": "@),
                    errors::ERROR_LIMIT as nat,
                )
            },
            None => phase@ != "ingress_pending"@ && phase@ != "ingress_in_progress"@,
        },
{
    if *phase != *"ingress_pending" && *phase != *"ingress_in_progress" {
        return None;
    }
    Some(
        IngressFailure {
            stage: stage.to_owned(),
            code: "ingress_error".to_owned(),
            message: errors::bounded_error(error),
        },
    )
}

/// Sets up a session that is woken for a user.
pub fn wakeup_setup(
    user_root: &str,
    kennedy_root: &str,
    telegram_user_id: i64,
    current_username: Option<&str>,
    handle: &str,
    display_name: &Json,
    marker: &str,
) -> (options: SessionOptions)
    ensures
        options.session_type@ == "wakeup"@,
        options.root_node_ids.deep_view() == seq![user_root@, kennedy_root@],
        options.reference_root_node_ids@.len() == 0,
        options.mode is Wakeup,
        options.channel@ == JsonView::Object(Map::empty()).with(
            "kind"@,
            JsonView::Text("wakeup"@),
        ).with("telegramUserId"@, JsonView::Integer(telegram_user_id as int)).with(
            "username"@,
            JsonView::Text(
                match current_username {
                    Some(name) => name@,
                    None => handle@,
                },
            ),
        ).with("displayName"@, display_name@).with("wakeupMarker"@, JsonView::Text(marker@)),
        options.orchestration@ == commands::owned("scheduled"@),
        options.free_time@ is Null,
        options.provenance_id is None,
        options.source_session_type is None,
        options.group_context@ is Null,
        options.rust_lib_session_id is None,
{
    let username = match current_username {
        Some(name) => name,
        None => handle,
    };
    let mut options = SessionOptions::conversation("wakeup", two(user_root, kennedy_root));
    options.mode = AgentMode::Wakeup;
    options.channel = Json::object().with("kind", Json::text("wakeup")).with(
        "telegramUserId",
        Json::Integer(telegram_user_id as i128),
    ).with("username", Json::text(username)).with("displayName", display_name.clone()).with(
        "wakeupMarker",
        Json::text(marker),
    );
    options.orchestration = commands::orchestration("scheduled");
    options
}

/// When a self-time session was asked for, and for how long.
#[derive(Debug)]
pub struct SelfTimeIntent {
    pub requested_at: String,
    /// The duration in minutes, as it was asked for.
    pub duration: Json,
    pub custom_prompt: String,
}

/// What a self-time session was asked to be, where it has not started yet.
pub open spec fn intent_of(state: JsonView, started_at: Seq<char>) -> Result<
    Option<(Seq<char>, JsonView, Seq<char>)>,
    Seq<char>,
> {
    if state.get("freeTime"@) is Some {
        Ok(None)
    } else {
        match state.get("selfTimeIntent"@) {
            None => Err("backend self-time record is missing its durable start intent"@),
            Some(intent) => match intent.get("durationMinutes"@) {
                Some(duration) => if duration is Integer || duration is Real {
                    Ok(
                        Some(
                            (
                                match intent.text_at("requestedAt"@) {
                                    Some(time) => time,
                                    None => started_at,
                                },
                                duration,
                                match intent.text_at("customPrompt"@) {
                                    Some(prompt) => prompt,
                                    None => ""@,
                                },
                            ),
                        ),
                    )
                } else {
                    Err("self-time duration is missing"@)
                },
                None => Err("self-time duration is missing"@),
            },
        }
    }
}

impl DeepView for SelfTimeIntent {
    type V = (Seq<char>, JsonView, Seq<char>);

    open spec fn deep_view(&self) -> (Seq<char>, JsonView, Seq<char>) {
        (self.requested_at@, self.duration@, self.custom_prompt@)
    }
}

/// What a self-time session was asked to be, where it has not started yet.
pub fn self_time_intent(state: &Json, started_at: &str) -> (result: Result<
    Option<SelfTimeIntent>,
    Failure,
>)
    ensures
        text::seen(result) == intent_of(state@, started_at@),
{
    if state.get("freeTime").is_some() {
        return Ok(None);
    }
    let intent = match state.get("selfTimeIntent") {
        None => return Err(
            Failure::fixed("backend self-time record is missing its durable start intent"),
        ),
        Some(intent) => intent,
    };
    let duration = match intent.get("durationMinutes") {
        Some(duration) => {
            if matches!(duration, Json::Integer(_)) || matches!(duration, Json::Real(_)) {
                duration.clone()
            } else {
                return Err(Failure::fixed("self-time duration is missing"));
            }
        },
        None => return Err(Failure::fixed("self-time duration is missing")),
    };
    let requested_at = match intent.text_at("requestedAt") {
        Some(time) => time.to_owned(),
        None => started_at.to_owned(),
    };
    let custom_prompt = match intent.text_at("customPrompt") {
        Some(prompt) => prompt.to_owned(),
        None => "".to_owned(),
    };
    Ok(Some(SelfTimeIntent { requested_at, duration, custom_prompt }))
}

/// When a self-time run starts and ends: as it was requested, and its length in
/// milliseconds later.
pub open spec fn span_of(requested_at: Seq<char>, milliseconds: i64) -> Option<
    (Seq<char>, Seq<char>),
> {
    match clock::time_of(requested_at) {
        None => None,
        Some(start) => {
            let end = clock::moved(start.seconds as int, start.nanos as int, milliseconds as int);
            if clock::representable(start.seconds as int, start.nanos as int) && milliseconds
                > i64::MIN && clock::FIRST_SECOND <= end.0 <= clock::LAST_SECOND {
                Some(
                    (
                        clock::rfc3339_text(start.seconds, start.nanos)->0,
                        clock::rfc3339_text(end.0 as i64, end.1 as u32)->0,
                    ),
                )
            } else {
                None
            }
        },
    }
}

/// When a self-time run starts and ends, in RFC 3339; `None` where the time of the
/// request cannot be read, or the end is past all dates. Up to the year 9999 and
/// outside leap seconds, the end reads as its length after the start.
pub fn self_time_span(requested_at: &str, milliseconds: i64) -> (span: Option<(String, String)>)
    ensures
        match span {
            Some((start, end)) => span_of(requested_at@, milliseconds) == Some((start@, end@)),
            None => span_of(requested_at@, milliseconds) is None,
        },
        match (span, clock::time_of(requested_at@)) {
            (Some((_, end)), Some(begun)) => {
                let distance = milliseconds * 1_000_000;
                let last = begun.seconds * 1_000_000_000 + begun.nanos + distance;
                begun.nanos < 1_000_000_000 && -62_167_219_200_000_000_000 <= last
                    < 253_402_300_800_000_000_000 ==> clock::time_of(end@) is Some
                    && clock::nanos_between(begun, clock::time_of(end@)->0) == distance
            },
            _ => true,
        },
{
    let begun = match clock::parse_time(requested_at) {
        Some(begun) => begun,
        None => return None,
    };
    let (seconds, nanos) = match clock::move_time(begun.seconds, begun.nanos, milliseconds) {
        Some(end) => end,
        None => return None,
    };
    match (clock::write_rfc3339(begun.seconds, begun.nanos), clock::write_rfc3339(seconds, nanos)) {
        (Some(start), Some(end)) => Some((start, end)),
        _ => None,
    }
}

/// The state of a self-time session as it starts; `duration` is the text of its
/// length in minutes as a floating-point number.
pub fn start_self_time(
    state: &Json,
    id: &str,
    intent: &SelfTimeIntent,
    duration: &str,
    started_text: &str,
    deadline_text: &str,
) -> (started: Json)
    requires
        turns::takes_members(state@),
    ensures
        started@ == state@.with(
            "freeTime"@,
            JsonView::Object(Map::empty()).with("runId"@, JsonView::Text(id@)).with(
                "runStartedAt"@,
                JsonView::Text(started_text@),
            ).with("deadlineAt"@, JsonView::Text(deadline_text@)).with(
                "durationMinutes"@,
                JsonView::Real(duration@),
            ).with("customPrompt"@, JsonView::Text(intent.custom_prompt@)).with(
                "sliceIndex"@,
                JsonView::Integer(1),
            ),
        ).with("orchestration"@, commands::owned("running"@)),
{
    let free_time = Json::object().with("runId", Json::text(id)).with(
        "runStartedAt",
        Json::text(started_text),
    ).with("deadlineAt", Json::text(deadline_text)).with(
        "durationMinutes",
        Json::Real(duration.to_owned()),
    ).with("customPrompt", Json::text(intent.custom_prompt.as_str())).with(
        "sliceIndex",
        Json::unsigned(1),
    );
    state.clone().with("freeTime", free_time).with(
        "orchestration",
        commands::orchestration("running"),
    )
}

/// Sets up a self-time session.
pub fn self_time_setup(
    user_root: &str,
    kennedy_root: &str,
    free_time: Json,
    provenance_id: Option<String>,
) -> (options: SessionOptions)
    ensures
        options.session_type@ == "free-time"@,
        options.root_node_ids.deep_view() == seq![user_root@, kennedy_root@],
        options.reference_root_node_ids@.len() == 0,
        options.mode is FreeTime,
        options.free_time == free_time,
        options.provenance_id == provenance_id,
        options.orchestration@ == commands::owned("running"@),
        options.channel@ is Null,
        options.source_session_type is None,
        options.group_context@ is Null,
        options.rust_lib_session_id is None,
{
    let mut options = SessionOptions::conversation("free-time", two(user_root, kennedy_root));
    options.mode = AgentMode::FreeTime;
    options.free_time = free_time;
    options.provenance_id = provenance_id;
    options.orchestration = commands::orchestration("running");
    options
}

/// How the turn of a self-time session ended.
#[derive(Clone, Copy, Debug, PartialEq, Eq)]
pub enum SliceEnd {
    Stopped,
    Finished,
    TimedOut,
}

/// Why a slice of self-time ended.
pub open spec fn slice_reason(
    end: SliceEnd,
    free_time: JsonView,
    past_deadline: bool,
    stop_requested: bool,
) -> Seq<char> {
    if end is Stopped || stop_requested {
        "user-stop"@
    } else if end is TimedOut {
        "hard-stop"@
    } else {
        match free_time.text_at("sliceEndedReason"@) {
            Some(reason) => reason,
            None => if past_deadline {
                "deadline"@
            } else {
                "tool"@
            },
        }
    }
}

/// Why a slice of self-time ended. A stop that the user asked for counts before
/// everything else.
pub fn slice_end_reason(
    end: SliceEnd,
    free_time: &Json,
    past_deadline: bool,
    stop_requested: bool,
) -> (reason: String)
    ensures
        reason@ == slice_reason(end, free_time@, past_deadline, stop_requested),
{
    if matches!(end, SliceEnd::Stopped) || stop_requested {
        return "user-stop".to_owned();
    }
    if matches!(end, SliceEnd::TimedOut) {
        return "hard-stop".to_owned();
    }
    match free_time.text_at("sliceEndedReason") {
        Some(reason) => reason.to_owned(),
        None => {
            if past_deadline {
                "deadline".to_owned()
            } else {
                "tool".to_owned()
            }
        },
    }
}

/// The seconds that a slice may go on after the end of its run.
pub const SLICE_GRACE_SECONDS: u64 = 360;

/// How long a slice may take, in seconds and nanoseconds: until six minutes after the
/// end of its run.
pub fn slice_timeout(deadline: &UtcTime, now: &UtcTime) -> (wait: (u64, u32))
    ensures
        wait.1 < 1_000_000_000,
        wait.0 * 1_000_000_000 + wait.1 == clock::wait_nanos(*deadline, SLICE_GRACE_SECONDS, *now),
{
    clock::wait_until(deadline, SLICE_GRACE_SECONDS, now)
}

/// Whether another slice follows: the user did not stop the run, and at least five
/// minutes of it are left.
pub fn has_next_slice(reason: &str, deadline: &UtcTime, now: &UtcTime) -> (yes: bool)
    ensures
        yes == (reason@ != "user-stop"@ && clock::nanos_between(*now, *deadline)
            >= 300_000_000_000),
{
    *reason != *"user-stop" && clock::nanos_from(now, deadline) >= 300_000_000_000
}

/// The number of a slice; none counts as before the first.
pub open spec fn slice_index(free_time: JsonView) -> u64 {
    match free_time.u64_at("sliceIndex"@) {
        Some(index) => index,
        None => 0,
    }
}

/// What the next slice of self-time starts from.
pub open spec fn next_slice_of(free_time: JsonView, deadline_text: Seq<char>) -> JsonView {
    let counted = free_time.with(
        "sliceIndex"@,
        JsonView::Integer(slice_index(free_time) + 1),
    ).without("sliceEndedReason"@).without("sliceEndedAt"@).without("warningNoticeAt"@).without(
        "expiredNoticeAt"@,
    );
    let handed = match counted.get("nextSessionMessage"@) {
        Some(message) => counted.with("handoffMessage"@, message),
        None => counted,
    };
    handed.without("nextSessionMessage"@).with("deadlineAt"@, JsonView::Text(deadline_text))
}

/// What the next slice of self-time starts from: the run goes on, and the message that
/// the last slice left is handed over.
pub fn next_slice(free_time: Json, deadline_text: &str) -> (next: Json)
    requires
        turns::takes_members(free_time@),
        slice_index(free_time@) < u64::MAX,
    ensures
        next@ == next_slice_of(free_time@, deadline_text@),
{
    let index: u64 = match free_time.u64_at("sliceIndex") {
        Some(index) => index,
        None => 0,
    };
    let counted = free_time.with("sliceIndex", Json::unsigned(index + 1)).without(
        "sliceEndedReason",
    ).without("sliceEndedAt").without("warningNoticeAt").without("expiredNoticeAt");
    let message = match counted.get("nextSessionMessage") {
        Some(message) => Some(message.clone()),
        None => None,
    };
    let handed = match message {
        Some(message) => counted.with("handoffMessage", message),
        None => counted,
    };
    handed.without("nextSessionMessage").with("deadlineAt", Json::text(deadline_text))
}

/// The message that a slice leaves is what the next slice is handed, and it is handed
/// over once.
pub proof fn messages_are_handed_over_once(
    free_time: JsonView,
    message: Seq<char>,
    deadline_text: Seq<char>,
)
    requires
        free_time is Object,
        free_time.text_at("nextSessionMessage"@) == Some(message),
    ensures
        ({
            let next = next_slice_of(free_time, deadline_text);
            &&& next.text_at("handoffMessage"@) == Some(message)
            &&& next.get("nextSessionMessage"@) is None
            &&& next.get("sliceEndedReason"@) is None
            &&& next.text_at("deadlineAt"@) == Some(deadline_text)
        }),
{
    reveal_strlit("nextSessionMessage");
    reveal_strlit("handoffMessage");
    reveal_strlit("deadlineAt");
    reveal_strlit("sliceIndex");
    reveal_strlit("sliceEndedReason");
    reveal_strlit("sliceEndedAt");
    reveal_strlit("warningNoticeAt");
    reveal_strlit("expiredNoticeAt");
    assert("nextSessionMessage"@.len() == 18);
    assert("handoffMessage"@.len() == 14);
    assert("deadlineAt"@.len() == 10 && "deadlineAt"@[0] == 'd');
    assert("sliceIndex"@.len() == 10 && "sliceIndex"@[0] == 's');
    assert("sliceEndedReason"@.len() == 16);
    assert("sliceEndedAt"@.len() == 12);
    assert("warningNoticeAt"@.len() == 15);
    assert("expiredNoticeAt"@.len() == 15);
}

/// `handle` without the signs that it starts with.
pub open spec fn bare_handle(handle: Seq<char>) -> Seq<char>
    decreases handle.len(),
{
    if handle.len() > 0 && handle[0] == '@' {
        bare_handle(handle.drop_first())
    } else {
        handle
    }
}

fn strip_handle(handle: &str) -> (bare: String)
    ensures
        bare@ == bare_handle(handle@),
{
    let length: usize = handle.unicode_len();
    let mut i: usize = 0;
    assert(handle@.subrange(0, length as int) =~= handle@);
    while i < length && handle.get_char(i) == '@'
        invariant
            i <= length,
            length == handle@.len(),
            bare_handle(handle@) == bare_handle(handle@.subrange(i as int, length as int)),
        decreases length - i,
    {
        assert(handle@.subrange(i as int, length as int).drop_first() =~= handle@.subrange(
            i + 1,
            length as int,
        ));
        i = i + 1;
    }
    let ghost rest = handle@.subrange(i as int, length as int);
    if i < length {
        assert(rest[0] != '@');
    }
    handle.substring_char(i, length).to_owned()
}

/// Whether a Telegram handle is that of the user of the browser.
pub fn is_web_user(handle: &str, web_handle: &str) -> (yes: bool)
    ensures
        yes == (text::lowered(bare_handle(handle@)) == text::lowered(bare_handle(web_handle@))),
{
    let left = text::lower(strip_handle(handle).as_str());
    let right = text::lower(strip_handle(web_handle).as_str());
    *left.as_str() == *right.as_str()
}

/// The user whom an event or a participant is about.
pub open spec fn event_user(event: JsonView) -> Result<i64, Seq<char>> {
    match event.get("telegramUserId"@) {
        None => Err("Telegram event omitted user ID"@),
        Some(id) => match text::signed_value(records::name_in(id)) {
            None => Err("Telegram event has an invalid user ID"@),
            Some(number) => Ok(number),
        },
    }
}

/// The user whom an event or a participant is about.
pub fn event_user_id(event: &Json) -> (result: Result<i64, Failure>)
    ensures
        match result {
            Ok(id) => event_user(event@) == Ok::<i64, Seq<char>>(id),
            Err(failure) => event_user(event@) == Err::<i64, Seq<char>>(failure@),
        },
{
    let id = match event.get("telegramUserId") {
        None => return Err(Failure::fixed("Telegram event omitted user ID")),
        Some(id) => id,
    };
    match text::parse_signed(records::value_string(id).as_str()) {
        None => Err(Failure::fixed("Telegram event has an invalid user ID")),
        Some(number) => Ok(number),
    }
}

/// A Telegram session is told how large an object may be; no other state changes, and of
/// this one nothing but its channel, of which nothing else.
pub proof fn telegram_states_hold_their_limit(
    state: JsonView,
    max_media_bytes: u64,
    key: Seq<char>,
)
    requires
        state is Object,
    ensures
        ({
            let kept = channelled(state, max_media_bytes);
            let telegram = state.text_at("sessionType"@) == Some("telegram"@) || state.text_at(
                "sessionType"@,
            ) == Some("telegram-group"@);
            let channel = state.get("channel"@);
            &&& !telegram ==> kept == state
            &&& key != "channel"@ ==> kept.get(key) == state.get(key)
            &&& telegram ==> kept.get("channel"@) is Some && kept.get("channel"@)->0.u64_at(
                "maxObjectBytes"@,
            ) == Some(max_media_bytes)
            &&& telegram && channel is Some && channel->0 is Object && key != "maxObjectBytes"@
                ==> kept.get("channel"@)->0.get(key) == channel->0.get(key)
        }),
{
    reveal_strlit("conversation");
    reveal_strlit("telegram");
    reveal_strlit("telegram-group");
    assert("conversation"@.len() == 12 && "telegram"@.len() == 8 && "telegram-group"@.len() == 14);
}

/// A session has the roots that it was given; one without any has the user's and
/// Kennedy's.
pub proof fn sessions_have_their_roots(
    state: JsonView,
    user_root: Seq<char>,
    kennedy_root: Seq<char>,
    items: Seq<JsonView>,
)
    ensures
        state.array_at("rootNodeIds"@) is None ==> roots_or(state, user_root, kennedy_root) == seq![
            user_root,
            kennedy_root,
        ],
        state.array_at("rootNodeIds"@) == Some(items) && items.len() > 0 && items[0] is Text
            ==> roots_or(state, user_root, kennedy_root) == items.filter_map(
            |item: JsonView|
                match item {
                    JsonView::Text(text) => Some(text),
                    _ => None,
                },
        ),
{
    if state.array_at("rootNodeIds"@) == Some(items) && items.len() > 0 && items[0] is Text {
        crate::json::texts_are_picked_in_order(items);
        first_text_is_picked(items);
    }
}

/// Where the first value is a text, some text is picked.
proof fn first_text_is_picked(items: Seq<JsonView>)
    requires
        items.len() > 0,
        items[0] is Text,
    ensures
        crate::json::texts_among(items).len() > 0,
    decreases items.len(),
{
    if items.len() > 1 {
        first_text_is_picked(items.drop_last());
    }
}

/// Self-time runs in its own mode, wakeups in theirs, and everything else as a
/// conversation.
pub proof fn sessions_run_in_their_mode(session_type: Seq<char>)
    ensures
        session_type == "free-time"@ <==> mode_of(session_type) is FreeTime,
        session_type == "wakeup"@ <==> mode_of(session_type) is Wakeup,
        session_type != "free-time"@ && session_type != "wakeup"@ <==> mode_of(session_type)
            is Conversation,
{
    reveal_strlit("free-time");
    reveal_strlit("wakeup");
    assert("free-time"@.len() == 9 && "wakeup"@.len() == 6);
}

/// Self-time that was begun has no intent left. One that was not is begun as it was
/// intended, from the time asked for, or else from the start of its record, and is
/// refused without a duration.
pub proof fn self_time_is_begun_as_intended(
    state: JsonView,
    started_at: Seq<char>,
    intent: JsonView,
)
    ensures
        state.get("freeTime"@) is Some ==> intent_of(state, started_at) is Ok && intent_of(
            state,
            started_at,
        )->Ok_0 is None,
        state.get("freeTime"@) is None && state.get("selfTimeIntent"@) is None ==> intent_of(
            state,
            started_at,
        ) is Err,
        state.get("freeTime"@) is None && state.get("selfTimeIntent"@) == Some(intent)
            && intent.get("durationMinutes"@) is None ==> intent_of(state, started_at) is Err,
        state.get("freeTime"@) is None && state.get("selfTimeIntent"@) == Some(intent)
            && intent.get("durationMinutes"@) is Some && (intent.get("durationMinutes"@)->0
            is Integer || intent.get("durationMinutes"@)->0 is Real) ==> {
            &&& intent_of(state, started_at) is Ok && intent_of(state, started_at)->Ok_0 is Some
            &&& match intent_of(state, started_at)->Ok_0->0 {
                (requested, duration, prompt) => {
                    &&& Some(duration) == intent.get("durationMinutes"@)
                    &&& intent.text_at("requestedAt"@) is Some ==> Some(requested)
                        == intent.text_at("requestedAt"@)
                    &&& intent.text_at("requestedAt"@) is None ==> requested == started_at
                    &&& intent.text_at("customPrompt"@) is Some ==> Some(prompt)
                        == intent.text_at("customPrompt"@)
                }
            }
        },
{
}

/// A slice of self-time ends by the user's stop before anything else, then by a hard
/// stop, then for the reason that was noted, and else by the deadline or a tool.
pub proof fn slices_end_for_one_reason(
    end: SliceEnd,
    free_time: JsonView,
    past_deadline: bool,
    stop_requested: bool,
)
    ensures
        ({
            let reason = slice_reason(end, free_time, past_deadline, stop_requested);
            let noted = free_time.text_at("sliceEndedReason"@);
            &&& end is Stopped || stop_requested ==> reason == "user-stop"@
            &&& end is TimedOut && !stop_requested ==> reason == "hard-stop"@
            &&& end is Finished && !stop_requested && noted is Some ==> Some(reason) == noted
            &&& end is Finished && !stop_requested && noted is None && past_deadline ==> reason
                == "deadline"@
            &&& end is Finished && !stop_requested && noted is None && !past_deadline ==> reason
                == "tool"@
        }),
{
}

/// The next slice of self-time counts one more, ends at the new deadline, and has no
/// marks of the last one's end.
pub proof fn slices_count_up(free_time: JsonView, deadline_text: Seq<char>)
    requires
        slice_index(free_time) < u64::MAX,
    ensures
        ({
            let next = next_slice_of(free_time, deadline_text);
            &&& free_time.u64_at("sliceIndex"@) is Some ==> next.u64_at("sliceIndex"@) == Some(
                (free_time.u64_at("sliceIndex"@)->0 + 1) as u64,
            )
            &&& next.text_at("deadlineAt"@) == Some(deadline_text)
            &&& next.get("sliceEndedReason"@) is None
            &&& next.get("sliceEndedAt"@) is None
            &&& next.get("warningNoticeAt"@) is None
            &&& next.get("expiredNoticeAt"@) is None
            &&& next.get("nextSessionMessage"@) is None
        }),
{
    reveal_strlit("sliceIndex");
    reveal_strlit("sliceEndedReason");
    reveal_strlit("sliceEndedAt");
    reveal_strlit("warningNoticeAt");
    reveal_strlit("expiredNoticeAt");
    reveal_strlit("nextSessionMessage");
    reveal_strlit("handoffMessage");
    reveal_strlit("deadlineAt");
    assert("sliceIndex"@.len() == 10 && "sliceEndedReason"@.len() == 16);
    assert("sliceEndedAt"@.len() == 12 && "warningNoticeAt"@.len() == 15);
    assert("expiredNoticeAt"@.len() == 15 && "nextSessionMessage"@.len() == 18);
    assert("handoffMessage"@.len() == 14 && "deadlineAt"@.len() == 10);
    assert("sliceIndex"@[0] == 's' && "deadlineAt"@[0] == 'd');
}

/// A handle is compared without the signs before it, however many there are.
pub proof fn handles_drop_their_signs(handle: Seq<char>)
    ensures
        bare_handle(seq!['@'] + handle) == bare_handle(handle),
        handle.len() > 0 && handle[0] != '@' ==> bare_handle(handle) == handle,
        bare_handle(handle).len() > 0 ==> bare_handle(handle)[0] != '@',
    decreases handle.len(),
{
    assert((seq!['@'] + handle).drop_first() =~= handle);
    if handle.len() > 0 && handle[0] == '@' {
        handles_drop_their_signs(handle.drop_first());
    }
}

/// The user of an event is the number that it names, written or not; without one the
/// event is refused.
pub proof fn events_name_their_user(event: JsonView, user: i64)
    ensures
        event.get("telegramUserId"@) == Some(JsonView::Text(text::signed_digits(user as int)))
            ==> event_user(event) == Ok::<i64, Seq<char>>(user),
        event.get("telegramUserId"@) is None ==> event_user(event) is Err,
{
    text::signed_numbers_read_back(user);
}

/// A session's group context is its channel's, and an absent member is null.
pub proof fn contexts_are_their_channels(state: JsonView, key: Seq<char>)
    ensures
        state.get(key) is Some ==> member(state, key) == state.get(key)->0,
        state.get(key) is None ==> member(state, key) is Null,
        state.get("channel"@) is None ==> channel_context(state) is Null,
        state.get("channel"@) is Some && state.get("channel"@)->0.get("groupContext"@) is Some
            ==> channel_context(state) == state.get("channel"@)->0.get("groupContext"@)->0,
        state.get("channel"@) is Some && state.get("channel"@)->0.get("groupContext"@) is None
            ==> channel_context(state) is Null,
{
}

/// Self time ends as long after it was asked for as it is to last.
pub proof fn self_time_lasts_as_asked(requested_at: Seq<char>, milliseconds: i64)
    requires
        clock::time_of(requested_at) is Some,
        clock::time_of(requested_at)->0.nanos < 1_000_000_000,
    ensures
        ({
            let begun = clock::time_of(requested_at)->0;
            let total = begun.seconds * 1_000_000_000 + begun.nanos + milliseconds * 1_000_000;
            let span = span_of(requested_at, milliseconds);
            &&& span is Some ==> {
                let (start, end) = span->0;
                &&& start == clock::rfc3339_text(begun.seconds, begun.nanos)->0
                &&& end == clock::rfc3339_text(
                    (total / 1_000_000_000) as i64,
                    (total % 1_000_000_000) as u32,
                )->0
            }
            &&& span is None && milliseconds > i64::MIN ==> {
                ||| !(clock::FIRST_SECOND <= begun.seconds <= clock::LAST_SECOND)
                ||| !(clock::FIRST_SECOND <= total / 1_000_000_000 <= clock::LAST_SECOND)
            }
        }),
{
    clock::times_move_by_their_distance(
        clock::time_of(requested_at)->0.seconds as int,
        clock::time_of(requested_at)->0.nanos as int,
        milliseconds as int,
    );
}

} // verus!
