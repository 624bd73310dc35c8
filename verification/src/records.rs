//! The records of sessions in the history, and what they say about what to do next.

use crate::clock;
use crate::clock::UtcTime;
use crate::json;
use crate::json::{Json, JsonView};
use crate::json_text;
use crate::order;
use crate::text;
use crate::text::Failure;
use crate::turns;
use vstd::prelude::*;

verus! {

/// How long a Telegram session lasts, in seconds.
pub const TELEGRAM_SESSION_MAX_AGE: i64 = 21_600;

/// The record of a session in the history.
#[derive(Debug)]
pub struct SessionRecord {
    pub id: String,
    pub phase: String,
    pub started_at: String,
    pub updated_at: String,
    pub state: Json,
    pub version: i64,
    pub ingress_next_attempt_at: Option<String>,
}

/// The type of a recorded session.
pub open spec fn type_of(record: SessionRecord) -> Seq<char> {
    match record.state@.text_at("sessionType"@) {
        Some(session_type) => session_type,
        None => "conversation"@,
    }
}

/// The type of a recorded session.
pub fn session_type(record: &SessionRecord) -> (session_type: &str)
    ensures
        session_type@ == type_of(*record),
{
    match record.state.text_at("sessionType") {
        Some(session_type) => session_type,
        None => "conversation",
    }
}

/// Whether a session's type is one of Telegram's.
pub open spec fn is_telegram(session_type: Seq<char>) -> bool {
    session_type == "telegram"@ || session_type == "telegram-group"@
}

fn of_telegram(session_type: &str) -> (yes: bool)
    ensures
        yes == is_telegram(session_type@),
{
    *session_type == *"telegram" || *session_type == *"telegram-group"
}

/// What a stop of this session ends.
pub open spec fn scope_of(record: SessionRecord) -> Seq<char> {
    let session_type = type_of(record);
    if record.phase@ == "active"@ && (session_type == "conversation"@ || is_telegram(session_type)) {
        "turn"@
    } else if record.phase@ == "active"@ && session_type == "free-time"@ {
        "self-time-run"@
    } else {
        "session"@
    }
}

/// What a stop of this session ends: the turn of a conversation, the run of a
/// self-time session, and otherwise the session itself.
pub fn stop_scope(record: &SessionRecord) -> (scope: &'static str)
    ensures
        scope@ == scope_of(*record),
{
    let session_type = session_type(record);
    if *record.phase.as_str() == *"active" {
        if *session_type == *"conversation" || of_telegram(session_type) {
            return "turn";
        }
        if *session_type == *"free-time" {
            return "self-time-run";
        }
    }
    "session"
}

/// What is answered to a request to stop a session.
pub fn stop_response(id: &str, scope: &str, request_id: &str) -> (response: Json)
    ensures
        response@ == JsonView::Object(Map::empty()).with("id"@, JsonView::Text(id@)).with(
            "scope"@,
            JsonView::Text(scope@),
        ).with("status"@, JsonView::Text("stopping"@)).with(
            "stopRequested"@,
            JsonView::Bool(true),
        ).with("stopRequestId"@, JsonView::Text(request_id@)),
{
    Json::object().with("id", Json::text(id)).with("scope", Json::text(scope)).with(
        "status",
        Json::text("stopping"),
    ).with("stopRequested", Json::Bool(true)).with("stopRequestId", Json::text(request_id))
}

/// Whether a requested stop is finished at once: it is for a turn, nothing runs that
/// could be told, and no command is waiting that would see it.
pub fn stops_idle_turn(scope: &str, signaled: bool, has_command: bool) -> (yes: bool)
    ensures
        yes == (scope@ == "turn"@ && !signaled && !has_command),
{
    *scope == *"turn" && !signaled && !has_command
}

/// The event that is told of a stopped turn: only Telegram's sessions have one.
pub fn interrupted_event<'a>(session_type: &str, event: Option<&'a str>) -> (told: Option<&'a str>)
    ensures
        told == if is_telegram(session_type@) {
            event
        } else {
            None
        },
{
    if of_telegram(session_type) {
        event
    } else {
        None
    }
}

/// Whether a session is a conversation in the browser.
pub fn is_browser_conversation(record: &SessionRecord) -> (yes: bool)
    ensures
        yes == (type_of(*record) == "conversation"@),
{
    *session_type(record) == *"conversation"
}

/// Whether so much time has passed since `start` that a Telegram session is too old.
pub open spec fn too_old(start: UtcTime, now: UtcTime) -> bool {
    let end = start.seconds + TELEGRAM_SESSION_MAX_AGE;
    let nanos = if start.nanos >= 1_000_000_000 {
        start.nanos - 1_000_000_000
    } else {
        start.nanos as int
    };
    now.seconds > end || (now.seconds == end && now.nanos >= nanos)
}

/// Whether a Telegram session is over: it is idle, and too old.
pub open spec fn expired(record: SessionRecord, now: UtcTime) -> bool {
    &&& record.phase@ == "active"@
    &&& is_telegram(type_of(record))
    &&& record.state@.bool_at("pendingTurn"@) != Some(true)
    &&& clock::time_of(record.started_at@) is Some
    &&& too_old(clock::time_of(record.started_at@)->0, now)
}

/// Whether a Telegram session is over: it is idle, and too old.
pub fn telegram_session_is_expired(record: &SessionRecord, now: &UtcTime) -> (yes: bool)
    ensures
        yes == expired(*record, *now),
{
    let pending = match record.state.bool_at("pendingTurn") {
        Some(flag) => flag,
        None => false,
    };
    if *record.phase.as_str() != *"active" || !of_telegram(session_type(record)) || pending {
        return false;
    }
    match clock::parse_time(record.started_at.as_str()) {
        None => false,
        Some(start) => {
            let end: i128 = start.seconds as i128 + TELEGRAM_SESSION_MAX_AGE as i128;
            let seconds: i128 = now.seconds as i128;
            let nanos: u32 = if start.nanos >= 1_000_000_000 {
                start.nanos - 1_000_000_000
            } else {
                start.nanos
            };
            seconds > end || (seconds == end && now.nanos >= nanos)
        },
    }
}

/// A session whose turn is still to run is never closed for its age.
pub proof fn pending_sessions_do_not_expire(record: SessionRecord, now: UtcTime)
    requires
        record.state@.bool_at("pendingTurn"@) == Some(true),
    ensures
        !expired(record, now),
{
}

/// The name that a value gives: a text is its own name, anything else is written out
/// as compact JSON.
pub open spec fn name_in(value: JsonView) -> Seq<char> {
    match value {
        JsonView::Text(name) => name,
        other => json_text::written(other),
    }
}

/// The name that a value gives.
pub fn value_string(value: &Json) -> (name: String)
    ensures
        name@ == name_in(value@),
{
    match value {
        Json::Text(name) => name.clone(),
        other => json_text::compact(other),
    }
}

/// The name in a member; the empty name where there is no such member.
pub open spec fn name_at(value: JsonView, key: Seq<char>) -> Seq<char> {
    match value.get(key) {
        Some(inner) => name_in(inner),
        None => Seq::empty(),
    }
}

/// The name in a member; the empty name where there is no such member.
pub fn member_name(value: &Json, key: &str) -> (name: String)
    ensures
        name@ == name_at(value@, key@),
{
    match value.get(key) {
        Some(inner) => value_string(inner),
        None => String::new(),
    }
}

/// The group of a recorded session.
pub open spec fn group_of(record: SessionRecord) -> Option<Seq<char>> {
    match record.state@.get("channel"@) {
        None => None,
        Some(channel) => {
            let found = match channel.get("groupId"@) {
                Some(id) => Some(id),
                None => match channel.get("groupContext"@) {
                    Some(context) => context.get("groupId"@),
                    None => None,
                },
            };
            match found {
                Some(id) => id.as_text(),
                None => None,
            }
        },
    }
}

/// The group of a recorded session.
pub fn record_group_id<'a>(record: &'a SessionRecord) -> (id: Option<&'a str>)
    ensures
        id.deep_view() == group_of(*record),
{
    match record.state.get("channel") {
        None => None,
        Some(channel) => {
            let found = match channel.get("groupId") {
                Some(id) => Some(id),
                None => match channel.get("groupContext") {
                    Some(context) => context.get("groupId"),
                    None => None,
                },
            };
            match found {
                Some(id) => id.as_text(),
                None => None,
            }
        },
    }
}

/// The user of a recorded session.
pub open spec fn user_of(record: SessionRecord) -> Seq<char> {
    match record.state@.get("channel"@) {
        None => Seq::empty(),
        Some(channel) => name_at(channel, "telegramUserId"@),
    }
}

/// The user of a recorded session.
pub fn record_user_id(record: &SessionRecord) -> (user: String)
    ensures
        user@ == user_of(*record),
{
    match record.state.get("channel") {
        None => String::new(),
        Some(channel) => member_name(channel, "telegramUserId"),
    }
}

/// The texts of an array member.
pub open spec fn texts_at(value: JsonView, key: Seq<char>) -> Seq<Seq<char>> {
    match value.array_at(key) {
        Some(items) => json::texts_among(items),
        None => Seq::empty(),
    }
}

/// The texts of an array member.
pub fn string_array(value: &Json, key: &str) -> (texts: Vec<String>)
    ensures
        texts.deep_view() == texts_at(value@, key@),
{
    match value.array_at(key) {
        Some(items) => json::texts_in(items),
        None => {
            let none: Vec<String> = Vec::new();
            assert(none.deep_view() =~= Seq::empty());
            none
        },
    }
}

/// The state that an ingress goes on from: its own, where it has written one down, and
/// else that of its source.
pub open spec fn ingress_state(state: JsonView) -> JsonView {
    match state.get("historyIngress"@) {
        Some(own) => own,
        None => state,
    }
}

/// The state that an ingress goes on from.
pub fn ingress_restore_state<'a>(state: &'a Json) -> (restored: &'a Json)
    ensures
        restored@ == ingress_state(state@),
{
    match state.get("historyIngress") {
        Some(own) => own,
        None => state,
    }
}

/// A text member that has to be there.
pub open spec fn required_text(value: JsonView, key: Seq<char>) -> Result<Seq<char>, Seq<char>> {
    match value.text_at(key) {
        Some(found) => if found.len() > 0 {
            Ok(found)
        } else {
            Err("backend response omitted "@ + key)
        },
        None => Err("backend response omitted "@ + key),
    }
}

/// A text member that has to be there.
pub fn required_string(value: &Json, key: &str) -> (result: Result<String, Failure>)
    ensures
        text::seen(result) == required_text(value@, key@),
{
    if let Some(found) = value.text_at(key) {
        if !found.is_empty() {
            return Ok(found.to_owned());
        }
    }
    let mut message = "backend response omitted ".to_owned();
    message.append(key);
    Err(Failure::new(message))
}

/// What is done for a group session that the history does not have.
#[derive(Debug, PartialEq, Eq)]
pub enum MissingGroupSessionRecovery {
    CompleteSilentReset,
    DetachCurrent { group_id: String, telegram_user_id: i64 },
}

/// The mathematical value of a recovery.
pub enum RecoveryView {
    CompleteSilentReset,
    DetachCurrent { group_id: Seq<char>, telegram_user_id: i64 },
}

impl DeepView for MissingGroupSessionRecovery {
    type V = RecoveryView;

    open spec fn deep_view(&self) -> RecoveryView {
        match *self {
            MissingGroupSessionRecovery::CompleteSilentReset => RecoveryView::CompleteSilentReset,
            MissingGroupSessionRecovery::DetachCurrent {
                group_id,
                telegram_user_id,
            } => RecoveryView::DetachCurrent { group_id: group_id@, telegram_user_id },
        }
    }
}

/// What is done for a group session that the history does not have.
pub open spec fn recovery_of(update: JsonView) -> Result<RecoveryView, Seq<char>> {
    if update.bool_at("resetRequired"@) == Some(true) {
        Ok(RecoveryView::CompleteSilentReset)
    } else {
        match required_text(update, "groupId"@) {
            Err(message) => Err(message),
            Ok(group_id) => match update.i64_at("telegramUserId"@) {
                None => Err("backend response omitted telegramUserId"@),
                Some(telegram_user_id) => Ok(
                    RecoveryView::DetachCurrent { group_id, telegram_user_id },
                ),
            },
        }
    }
}

/// What is done for a group session that the history does not have.
pub fn missing_group_session_recovery(update: &Json) -> (result: Result<
    MissingGroupSessionRecovery,
    Failure,
>)
    ensures
        text::seen(result) == recovery_of(update@),
{
    let reset = match update.bool_at("resetRequired") {
        Some(flag) => flag,
        None => false,
    };
    if reset {
        return Ok(MissingGroupSessionRecovery::CompleteSilentReset);
    }
    let group_id = match required_string(update, "groupId") {
        Err(failure) => return Err(failure),
        Ok(id) => id,
    };
    match update.i64_at("telegramUserId") {
        None => Err(Failure::fixed("backend response omitted telegramUserId")),
        Some(telegram_user_id) => Ok(
            MissingGroupSessionRecovery::DetachCurrent { group_id, telegram_user_id },
        ),
    }
}

/// The roots of a group's participants that are not among a session's own roots, in
/// order, each once.
pub fn participant_references(context: &Json, roots: &Vec<String>) -> (references: Vec<String>)
    ensures
        order::ascending(references.deep_view()),
        order::same_items(
            references.deep_view(),
            text::excluding(participant_roots(context@), roots.deep_view()),
        ),
{
    let found = find_participant_roots(context);
    let kept = text::exclude(&found, roots);
    order::sorted_distinct(&kept)
}

/// The roots that some participants have, in order.
pub open spec fn roots_among(participants: Seq<JsonView>) -> Seq<Seq<char>>
    decreases participants.len(),
{
    if participants.len() == 0 {
        Seq::empty()
    } else {
        match participants.last().text_at("rootNodeId"@) {
            Some(root) => roots_among(participants.drop_last()).push(root),
            None => roots_among(participants.drop_last()),
        }
    }
}

/// The roots that a group's participants have, in order.
pub open spec fn participant_roots(context: JsonView) -> Seq<Seq<char>> {
    match context.array_at("participants"@) {
        Some(items) => roots_among(items),
        None => Seq::empty(),
    }
}

fn find_participant_roots(context: &Json) -> (roots: Vec<String>)
    ensures
        roots.deep_view() == participant_roots(context@),
{
    let mut roots: Vec<String> = Vec::new();
    assert(roots.deep_view() =~= Seq::empty());
    if let Some(items) = context.array_at("participants") {
        let ghost views = json::values_of(items@);
        proof {
            json::values_at(items@);
        }
        let mut i: usize = 0;
        while i < items.len()
            invariant
                i <= items.len(),
                views == json::values_of(items@),
                views.len() == items.len(),
                forall|j: int| 0 <= j < items.len() ==> views[j] == json::value_of(items@[j]),
                roots.deep_view() == roots_among(views.take(i as int)),
            decreases items.len() - i,
        {
            assert(views.take(i + 1).drop_last() =~= views.take(i as int));
            if let Some(root) = items[i].text_at("rootNodeId") {
                let ghost before = roots.deep_view();
                roots.push(root.to_owned());
                assert(roots.deep_view() =~= before.push(root@));
            }
            i = i + 1;
        }
        assert(views.take(views.len() as int) =~= views);
    }
    roots
}

/// The references of a session never repeat one of its roots.
pub proof fn references_are_not_roots(
    references: Seq<Seq<char>>,
    context: JsonView,
    roots: Seq<Seq<char>>,
    id: Seq<char>,
)
    requires
        order::same_items(references, text::excluding(participant_roots(context), roots)),
        references.contains(id),
    ensures
        !roots.contains(id),
        participant_roots(context).contains(id),
{
    text::excluding_keeps(participant_roots(context), roots);
}

/// What follows from the attempt to write a session's state.
#[derive(Debug)]
pub enum Written {
    /// The record that was written is the one to go on with.
    Accepted,
    /// Another write came first; the record as it is now is read.
    Reread,
    /// The write has failed.
    Failed,
}

/// What follows from the attempt to write a session's state: a conflict may be an earlier
/// attempt that was written after all.
pub fn after_write(error_code: Option<&str>) -> (next: Written)
    ensures
        match error_code {
            None => next is Accepted,
            Some(code) => if code@ == "state_conflict"@ {
                next is Reread
            } else {
                next is Failed
            },
        },
{
    match error_code {
        None => Written::Accepted,
        Some(code) => {
            if *code == *"state_conflict" {
                Written::Reread
            } else {
                Written::Failed
            }
        },
    }
}

/// Whether the record that was read after a conflict holds what was to be written, so that
/// it is gone on with.
pub fn holds_write(latest: &Json, written: &Json) -> (yes: bool)
    ensures
        yes == (latest@ == written@),
{
    latest.same(written)
}

/// A session's state with the state of its history ingress in it.
pub fn ingress_checkpoint(state: Json, archive: Json) -> (written: Json)
    requires
        turns::takes_members(state@),
    ensures
        written@ == state@.with("historyIngress"@, archive@),
{
    state.with("historyIngress", archive)
}

/// What was written of a history ingress is what it is restored from.
pub proof fn ingress_restarts_from_its_checkpoint(state: JsonView, archive: JsonView)
    ensures
        ingress_state(state.with("historyIngress"@, archive)) == archive,
{
}

/// A Telegram session without a pending turn expires six hours after it was started, and
/// no earlier; no other session does.
pub proof fn telegram_sessions_expire_after_six_hours(record: SessionRecord, now: UtcTime)
    ensures
        expired(record, now) ==> {
            let session_type = record.state@.text_at("sessionType"@);
            &&& record.phase@ == "active"@
            &&& session_type == Some("telegram"@) || session_type == Some("telegram-group"@)
            &&& record.state@.bool_at("pendingTurn"@) != Some(true)
            &&& clock::time_of(record.started_at@) is Some
        },
        ({
            let session_type = record.state@.text_at("sessionType"@);
            let start = clock::time_of(record.started_at@);
            &&& record.phase@ == "active"@
            &&& session_type == Some("telegram"@) || session_type == Some("telegram-group"@)
            &&& record.state@.bool_at("pendingTurn"@) != Some(true)
            &&& start is Some
            &&& start->0.nanos < 1_000_000_000 && now.nanos < 1_000_000_000
        }) ==> (expired(record, now) <==> {
            let start = clock::time_of(record.started_at@)->0;
            now.seconds * 1_000_000_000 + now.nanos >= (start.seconds + 21_600) * 1_000_000_000
                + start.nanos
        }),
{
    reveal_strlit("conversation");
    reveal_strlit("telegram");
    reveal_strlit("telegram-group");
    assert("conversation"@.len() == 12 && "telegram"@.len() == 8 && "telegram-group"@.len() == 14);
}

/// A session without a type is a conversation. Stopping an active conversation, on the
/// web or on Telegram, stops its turn, stopping self-time stops its run, and stopping
/// anything else stops the session.
pub proof fn stops_have_their_scope(record: SessionRecord)
    ensures
        record.state@.text_at("sessionType"@) is None ==> type_of(record) == "conversation"@,
        record.state@.text_at("sessionType"@) is Some ==> Some(type_of(record))
            == record.state@.text_at("sessionType"@),
        record.phase@ == "active"@ && (type_of(record) == "conversation"@ || type_of(record)
            == "telegram"@ || type_of(record) == "telegram-group"@) ==> scope_of(record)
            == "turn"@,
        record.phase@ == "active"@ && type_of(record) == "free-time"@ ==> scope_of(record)
            == "self-time-run"@,
        record.phase@ == "active"@ && (type_of(record) == "wakeup"@ || type_of(record)
            == "history-ingress"@) ==> scope_of(record) == "session"@,
        record.phase@ != "active"@ ==> scope_of(record) == "session"@,
{
    reveal_strlit("conversation");
    reveal_strlit("telegram");
    reveal_strlit("telegram-group");
    reveal_strlit("free-time");
    reveal_strlit("wakeup");
    reveal_strlit("history-ingress");
    assert("conversation"@.len() == 12 && "telegram"@.len() == 8 && "telegram-group"@.len() == 14);
    assert("free-time"@.len() == 9 && "wakeup"@.len() == 6 && "history-ingress"@.len() == 15);
}

/// A session belongs to the group that its channel names, or else to that of the group
/// context in it, and to the user that its channel names.
pub proof fn sessions_belong_to_their_channel(record: SessionRecord, channel: JsonView)
    requires
        record.state@.get("channel"@) == Some(channel),
    ensures
        channel.get("groupId"@) is Some ==> group_of(record) == channel.text_at("groupId"@),
        channel.get("groupId"@) is None && channel.get("groupContext"@) is Some ==> group_of(record)
            == channel.get("groupContext"@)->0.text_at("groupId"@),
        channel.get("groupId"@) is None && channel.get("groupContext"@) is None ==> group_of(record)
            is None,
        channel.text_at("telegramUserId"@) is Some ==> Some(user_of(record)) == channel.text_at(
            "telegramUserId"@,
        ),
        channel.get("telegramUserId"@) is None ==> user_of(record).len() == 0,
{
}

/// The roots of the participants are those that they name, in order.
pub proof fn participants_name_their_roots(participants: Seq<JsonView>)
    ensures
        roots_among(participants) == participants.filter_map(
            |participant: JsonView| participant.text_at("rootNodeId"@),
        ),
    decreases participants.len(),
{
    if participants.len() > 0 {
        participants_name_their_roots(participants.drop_last());
    }
}

/// A group session that is missing is reset where that was asked for, and otherwise
/// detached from its group and its user.
pub proof fn missing_sessions_are_reset_or_detached(
    update: JsonView,
    group: Seq<char>,
    user: i64,
)
    ensures
        update.bool_at("resetRequired"@) == Some(true) ==> recovery_of(update) == Ok::<
            RecoveryView,
            Seq<char>,
        >(RecoveryView::CompleteSilentReset),
        update.bool_at("resetRequired"@) != Some(true) && update.text_at("groupId"@) == Some(group)
            && group.len() > 0 && update.i64_at("telegramUserId"@) == Some(user) ==> recovery_of(
            update,
        ) == Ok::<RecoveryView, Seq<char>>(
            RecoveryView::DetachCurrent { group_id: group, telegram_user_id: user },
        ),
        update.bool_at("resetRequired"@) != Some(true) && (update.text_at("groupId"@) is None
            || update.i64_at("telegramUserId"@) is None) ==> recovery_of(update) is Err,
{
}

/// A text that is required is taken as it is, and refused where it is missing or empty.
pub proof fn required_texts_are_there(value: JsonView, key: Seq<char>)
    ensures
        required_text(value, key) is Ok <==> value.text_at(key) is Some && value.text_at(
            key,
        )->0.len() > 0,
        required_text(value, key) is Ok ==> value.text_at(key) == Some(
            required_text(value, key)->Ok_0,
        ),
{
}

} // verus!
