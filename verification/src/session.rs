//! What a session is: its mode, how it is restored, and what it says between turns.

use crate::clock;
use crate::clock::UtcTime;
use crate::json::{Json, JsonView};
use crate::order;
use crate::prompts;
use crate::prompts::{Manuals, RuntimeModel};
use crate::text;
use crate::text::Failure;
use crate::transcript::{BoxOwner, BoxState};
use vstd::prelude::*;

verus! {

/// What a session is for.
#[derive(Clone, Debug, PartialEq, Eq)]
pub enum AgentMode {
    Conversation,
    FreeTime,
    Wakeup,
    Ingress { record_id: Option<String> },
}

impl AgentMode {
    /// Whether the session takes in the history of another.
    pub fn is_ingress(&self) -> (yes: bool)
        ensures
            yes == (*self is Ingress),
    {
        matches!(self, AgentMode::Ingress { .. })
    }

    /// Whether the session is a conversation with a user.
    pub fn is_conversation(&self) -> (yes: bool)
        ensures
            yes == (*self is Conversation),
    {
        matches!(self, AgentMode::Conversation)
    }
}

/// How a session is kept in the history.
#[derive(Debug, PartialEq, Eq)]
pub enum SessionKind {
    Conversation,
    Telegram,
    TelegramGroup,
    SelfTime,
    AudioIngress,
    HistoryIngress,
    Other(String),
}

/// The mathematical value of a kind.
pub enum KindView {
    Conversation,
    Telegram,
    TelegramGroup,
    SelfTime,
    AudioIngress,
    HistoryIngress,
    Other(Seq<char>),
}

impl View for SessionKind {
    type V = KindView;

    open spec fn view(&self) -> KindView {
        match *self {
            SessionKind::Conversation => KindView::Conversation,
            SessionKind::Telegram => KindView::Telegram,
            SessionKind::TelegramGroup => KindView::TelegramGroup,
            SessionKind::SelfTime => KindView::SelfTime,
            SessionKind::AudioIngress => KindView::AudioIngress,
            SessionKind::HistoryIngress => KindView::HistoryIngress,
            SessionKind::Other(name) => KindView::Other(name@),
        }
    }
}

/// How a session of this type and mode is kept in the history.
pub open spec fn kind_of(session_type: Seq<char>, mode: AgentMode) -> KindView {
    if mode is Ingress {
        KindView::HistoryIngress
    } else if session_type == "conversation"@ {
        KindView::Conversation
    } else if session_type == "telegram"@ {
        KindView::Telegram
    } else if session_type == "telegram-group"@ {
        KindView::TelegramGroup
    } else if session_type == "free-time"@ {
        KindView::SelfTime
    } else if session_type == "audio"@ {
        KindView::AudioIngress
    } else {
        KindView::Other(session_type)
    }
}

/// How a session of this type and mode is kept in the history.
pub fn session_kind(session_type: &str, mode: &AgentMode) -> (kind: SessionKind)
    ensures
        kind@ == kind_of(session_type@, *mode),
{
    if mode.is_ingress() {
        SessionKind::HistoryIngress
    } else if *session_type == *"conversation" {
        SessionKind::Conversation
    } else if *session_type == *"telegram" {
        SessionKind::Telegram
    } else if *session_type == *"telegram-group" {
        SessionKind::TelegramGroup
    } else if *session_type == *"free-time" {
        SessionKind::SelfTime
    } else if *session_type == *"audio" {
        SessionKind::AudioIngress
    } else {
        SessionKind::Other(session_type.to_owned())
    }
}

/// The deadline of a self-time session.
pub open spec fn deadline_of(free_time: JsonView) -> Option<UtcTime> {
    match free_time.text_at("deadlineAt"@) {
        Some(text) => clock::time_of(text),
        None => None,
    }
}

/// The deadline of a self-time session.
pub fn deadline(free_time: &Json) -> (time: Option<UtcTime>)
    ensures
        time == deadline_of(free_time@),
        time is Some ==> time->0.well_formed(),
{
    match free_time.text_at("deadlineAt") {
        Some(text) => clock::parse_time(text),
        None => None,
    }
}

/// What a self-time session is told about its deadline.
pub open spec fn schedule_text(deadline: Option<UtcTime>) -> Seq<char> {
    match deadline {
        Some(time) => "The self-time deadline is "@ + clock::human(time) + "."@,
        None => "The self-time deadline was not supplied."@,
    }
}

/// What a self-time session is told about its deadline.
pub fn schedule_at(deadline: Option<UtcTime>) -> (result: String)
    requires
        deadline is Some ==> deadline->0.well_formed(),
    ensures
        result@ == schedule_text(deadline),
{
    match deadline {
        Some(time) => {
            let mut result = "The self-time deadline is ".to_owned();
            result.append(clock::human_utc_datetime(&time).as_str());
            result.append(".");
            result
        },
        None => "The self-time deadline was not supplied.".to_owned(),
    }
}

/// What a self-time session is told about its deadline.
pub fn free_time_schedule(free_time: &Json) -> (result: String)
    ensures
        result@ == schedule_text(deadline_of(free_time@)),
{
    schedule_at(deadline(free_time))
}

/// What a self-time session opens with.
pub open spec fn free_time_start(free_time: JsonView) -> Seq<char> {
    let start = "Begin this self-time session."@;
    match free_time.text_at("customPrompt"@) {
        Some(custom) => if text::blank(custom) {
            start
        } else {
            start + "\n\nRequested focus:\n"@ + custom
        },
        None => start,
    }
}

/// What a self-time session opens with, and after it what the session before left
/// for it.
pub open spec fn free_time_first(free_time: JsonView) -> Seq<char> {
    match free_time.text_at("handoffMessage"@) {
        Some(message) => if text::blank(message) {
            free_time_start(free_time)
        } else {
            free_time_start(free_time) + "\n\n"@
                + ("Message from the previous self-time session:\n\n"@ + message)
        },
        None => free_time_start(free_time),
    }
}

/// What a self-time session opens with.
pub fn free_time_opening(free_time: &Json) -> (result: String)
    ensures
        result@ == free_time_start(free_time@),
{
    let mut result = "Begin this self-time session.".to_owned();
    if let Some(custom) = free_time.text_at("customPrompt") {
        if !text::is_blank(custom) {
            result.append("\n\nRequested focus:\n");
            result.append(custom);
        }
    }
    result
}

/// What a self-time session opens with, and after it what the session before left
/// for it.
pub fn free_time_first_message(free_time: &Json) -> (result: String)
    ensures
        result@ == free_time_first(free_time@),
{
    let mut result = free_time_opening(free_time);
    if let Some(message) = free_time.text_at("handoffMessage") {
        if !text::is_blank(message) {
            let mut handoff = "Message from the previous self-time session:\n\n".to_owned();
            handoff.append(message);
            result.append("\n\n");
            result.append(handoff.as_str());
        }
    }
    result
}

/// The name of the box that keeps a session going.
pub fn controller_box_name(mode: &AgentMode) -> (name: &'static str)
    ensures
        name@ == match *mode {
            AgentMode::Conversation => "Turn continuation"@,
            AgentMode::FreeTime => "Self-time continuation"@,
            AgentMode::Wakeup => "Wakeup continuation"@,
            AgentMode::Ingress { .. } => "History-ingress continuation"@,
        },
{
    match mode {
        AgentMode::Conversation => "Turn continuation",
        AgentMode::FreeTime => "Self-time continuation",
        AgentMode::Wakeup => "Wakeup continuation",
        AgentMode::Ingress { .. } => "History-ingress continuation",
    }
}

/// What keeps a session going.
pub open spec fn continuation(mode: AgentMode, free_time: JsonView) -> Seq<char> {
    match mode {
        AgentMode::Conversation => "Continue the turn. Use tools if needed, then answer the user."@,
        AgentMode::FreeTime => "Continue self time. "@ + schedule_text(deadline_of(free_time)),
        AgentMode::Wakeup =>
            "Continue this autonomous wakeup session. Sending no message is a valid outcome; call EndSession when you have finished."@,
        AgentMode::Ingress { .. } =>
            "You are in a solo history-ingress session; there is no user to receive a conversational response. If you have completed all useful memory work, call EndSession now through the native call_ktool function with no arguments. A normal response does not end this session. If work remains, continue it with tools, then call EndSession when finished."@,
    }
}

/// What keeps a session going.
pub fn controller_message(mode: &AgentMode, free_time: &Json) -> (result: String)
    ensures
        result@ == continuation(*mode, free_time@),
{
    match mode {
        AgentMode::Conversation =>
            "Continue the turn. Use tools if needed, then answer the user.".to_owned(),
        AgentMode::FreeTime => {
            let mut result = "Continue self time. ".to_owned();
            result.append(free_time_schedule(free_time).as_str());
            result
        },
        AgentMode::Wakeup =>
            "Continue this autonomous wakeup session. Sending no message is a valid outcome; call EndSession when you have finished.".to_owned(),
        AgentMode::Ingress { .. } =>
            "You are in a solo history-ingress session; there is no user to receive a conversational response. If you have completed all useful memory work, call EndSession now through the native call_ktool function with no arguments. A normal response does not end this session. If work remains, continue it with tools, then call EndSession when finished.".to_owned(),
    }
}

/// The whole seconds from now until the deadline of a self-time session.
pub open spec fn seconds_left(free_time: JsonView, now: UtcTime) -> Option<int> {
    match deadline_of(free_time) {
        Some(deadline) => Some(clock::nanos_between(now, deadline) / 1_000_000_000),
        None => None,
    }
}

/// How long a provider may take for one request, in seconds. The deadline of a
/// self-time session is `remaining` whole seconds away.
pub open spec fn request_timeout(
    mode: AgentMode,
    session_type: Seq<char>,
    remaining: Option<int>,
) -> Option<u64> {
    match mode {
        AgentMode::Conversation => if session_type == "conversation"@ {
            Some(5_400)
        } else {
            None
        },
        AgentMode::Ingress { .. } => Some(5_400),
        AgentMode::Wakeup => Some(5_400),
        AgentMode::FreeTime => match remaining {
            Some(seconds) => Some(
                if seconds > u64::MAX - 360 {
                    u64::MAX
                } else if seconds > 1 {
                    (seconds + 360) as u64
                } else {
                    361
                },
            ),
            None => None,
        },
    }
}

/// How long a provider may take for one request, in seconds.
pub fn agent_request_timeout(
    mode: &AgentMode,
    session_type: &str,
    free_time: &Json,
    now: &UtcTime,
) -> (timeout: Option<u64>)
    ensures
        timeout == request_timeout(*mode, session_type@, seconds_left(free_time@, *now)),
{
    match mode {
        AgentMode::Conversation => {
            if *session_type == *"conversation" {
                Some(5_400)
            } else {
                None
            }
        },
        AgentMode::Ingress { .. } => Some(5_400),
        AgentMode::Wakeup => Some(5_400),
        AgentMode::FreeTime => match deadline(free_time) {
            Some(deadline) => {
                let nanos: i128 = clock::nanos_from(now, &deadline);
                if nanos < 2_000_000_000 {
                    return Some(361);
                }
                let seconds: i128 = nanos / 1_000_000_000;
                if seconds > (u64::MAX - 360) as i128 {
                    return Some(u64::MAX);
                }
                Some(seconds as u64 + 360)
            },
            None => None,
        },
    }
}

/// How a session is to be made.
#[derive(Debug)]
pub struct SessionOptions {
    pub session_type: String,
    pub root_node_ids: Vec<String>,
    pub reference_root_node_ids: Vec<String>,
    pub channel: Json,
    pub free_time: Json,
    pub orchestration: Json,
    pub provenance_id: Option<String>,
    pub mode: AgentMode,
    pub source_session_type: Option<String>,
    pub group_context: Json,
    pub rust_lib_session_id: Option<String>,
}

impl SessionOptions {
    /// The options of a plain conversation.
    pub fn conversation(session_type: &str, roots: Vec<String>) -> (options: SessionOptions)
        ensures
            options.session_type@ == session_type@,
            options.root_node_ids == roots,
            options.reference_root_node_ids@.len() == 0,
            options.channel@ is Null,
            options.free_time@ is Null,
            options.orchestration@ == JsonView::Object(Map::empty()).with(
                "owner"@,
                JsonView::Text("backend"@),
            ).with("status"@, JsonView::Text("idle"@)),
            options.provenance_id is None,
            options.mode is Conversation,
            options.source_session_type is None,
            options.group_context@ is Null,
            options.rust_lib_session_id is None,
    {
        SessionOptions {
            session_type: session_type.to_owned(),
            root_node_ids: roots,
            reference_root_node_ids: Vec::new(),
            channel: Json::Null,
            free_time: Json::Null,
            orchestration: Json::object().with("owner", Json::text("backend")).with(
                "status",
                Json::text("idle"),
            ),
            provenance_id: None,
            mode: AgentMode::Conversation,
            source_session_type: None,
            group_context: Json::Null,
            rust_lib_session_id: None,
        }
    }
}

/// The type of a session that goes on from `state`. An ingress session keeps its
/// own type, whatever the session was from which it takes in.
pub open spec fn restored_type(options: SessionOptions, state: JsonView) -> Seq<char> {
    if options.mode is Ingress {
        options.session_type@
    } else {
        match state.text_at("sessionType"@) {
            Some(session_type) => session_type,
            None => options.session_type@,
        }
    }
}

/// Takes over the type of the session that goes on from `state`.
pub fn restore_session_type(options: &mut SessionOptions, state: &Json)
    ensures
        final(options).session_type@ == restored_type(*old(options), state@),
        (SessionOptions { session_type: old(options).session_type, ..*final(options) }) == *old(
            options,
        ),
{
    if !options.mode.is_ingress() {
        if let Some(session_type) = state.text_at("sessionType") {
            options.session_type = session_type.to_owned();
        }
    }
}

/// The receipt of a session's commit, where `state` holds one that is not null.
pub open spec fn stored_receipt(state: Option<JsonView>) -> Option<JsonView> {
    match state {
        None => None,
        Some(state) => match state.get("commitReceipt"@) {
            None => None,
            Some(receipt) => if receipt is Null {
                None
            } else {
                Some(receipt)
            },
        },
    }
}

/// The receipt of a session's commit, where `restored` holds one that is not null.
pub fn restore_commit_receipt(restored: Option<&Json>) -> (receipt: Option<Json>)
    ensures
        receipt.deep_view() == stored_receipt(restored.deep_view()),
{
    match restored {
        None => None,
        Some(state) => match state.get("commitReceipt") {
            None => None,
            Some(receipt) => {
                if receipt.is_null() {
                    None
                } else {
                    Some(receipt.clone())
                }
            },
        },
    }
}

/// The member `key` of `state`, or else `otherwise`.
pub open spec fn member_or(state: Option<JsonView>, key: Seq<char>, otherwise: JsonView) -> JsonView {
    match state {
        None => otherwise,
        Some(state) => match state.get(key) {
            Some(value) => value,
            None => otherwise,
        },
    }
}

/// The text member `key` of `state`.
pub open spec fn stored_text(state: Option<JsonView>, key: Seq<char>) -> Option<Seq<char>> {
    match state {
        None => None,
        Some(state) => state.text_at(key),
    }
}

fn keep_or(restored: Option<&Json>, key: &str, otherwise: Json) -> (value: Json)
    ensures
        value@ == member_or(restored.deep_view(), key@, otherwise@),
{
    match restored {
        None => otherwise,
        Some(state) => match state.get(key) {
            Some(value) => value.clone(),
            None => otherwise,
        },
    }
}

fn text_in<'a>(restored: Option<&'a Json>, key: &str) -> (value: Option<&'a str>)
    ensures
        value.deep_view() == stored_text(restored.deep_view(), key@),
{
    match restored {
        None => None,
        Some(state) => state.text_at(key),
    }
}

/// Values that a session needs when it does not go on from a stored state.
#[derive(Debug)]
pub struct FreshValues {
    pub started_at: String,
    pub session_id: String,
    /// The identifier under which managed sources are opened, without its prefix.
    pub rust_lib_session_id: String,
}

/// Everything that the stored state and the options say about a session.
#[derive(Debug)]
pub struct SessionSetup {
    pub options: SessionOptions,
    pub started_at: String,
    pub session_id: String,
    /// Whether the history already has the session.
    pub resumes: bool,
    pub rust_lib_session_id: String,
    pub source_session_type: Option<String>,
    pub commit_author: String,
    pub commit_receipt: Option<Json>,
    pub rounds_used: u64,
}

/// The context of the group that a session is in.
pub open spec fn group_context_of(given: JsonView, channel: JsonView) -> JsonView {
    if given is Null {
        member_or(Some(channel), "groupContext"@, JsonView::Null)
    } else {
        given
    }
}

/// `first`, or else `second`, or else `otherwise`.
pub open spec fn first_of(
    first: Option<Seq<char>>,
    second: Option<Seq<char>>,
    otherwise: Seq<char>,
) -> Seq<char> {
    match first {
        Some(value) => value,
        None => match second {
            Some(value) => value,
            None => otherwise,
        },
    }
}

/// Settles what a session is, from its options and from the state that it goes on
/// from. The stored state counts before the options, except that options name the
/// source session first, and an ingress session keeps its own type.
pub fn restore_session(
    options: SessionOptions,
    restored: Option<&Json>,
    fresh: FreshValues,
    runtime: &RuntimeModel,
) -> (setup: SessionSetup)
    ensures
        setup.options.session_type@ == match restored {
            Some(state) => restored_type(options, state@),
            None => options.session_type@,
        },
        setup.options.mode == options.mode,
        setup.options.provenance_id == options.provenance_id,
        setup.options.root_node_ids == options.root_node_ids,
        setup.options.channel@ == member_or(
            restored.deep_view(),
            "channel"@,
            options.channel@,
        ),
        setup.options.free_time@ == member_or(
            restored.deep_view(),
            "freeTime"@,
            options.free_time@,
        ),
        setup.options.orchestration@ == member_or(
            restored.deep_view(),
            "orchestration"@,
            options.orchestration@,
        ),
        setup.options.group_context@ == group_context_of(
            options.group_context@,
            setup.options.channel@,
        ),
        order::ascending(setup.options.reference_root_node_ids.deep_view()),
        order::same_items(
            setup.options.reference_root_node_ids.deep_view(),
            text::excluding(
                options.reference_root_node_ids.deep_view(),
                options.root_node_ids.deep_view(),
            ),
        ),
        setup.started_at@ == first_of(
            stored_text(restored.deep_view(), "startedAt"@),
            None,
            fresh.started_at@,
        ),
        setup.rust_lib_session_id@ == first_of(
            stored_text(restored.deep_view(), "rustLibSessionId"@),
            options.rust_lib_session_id.deep_view(),
            "kennedy:"@ + fresh.rust_lib_session_id@,
        ),
        setup.session_id@ == first_of(
            stored_text(restored.deep_view(), "sessionId"@),
            None,
            fresh.session_id@,
        ),
        setup.resumes == (stored_text(restored.deep_view(), "sessionId"@) is Some),
        setup.source_session_type.deep_view() == match options.source_session_type.deep_view() {
            Some(source) => Some(source),
            None => stored_text(restored.deep_view(), "sourceSessionType"@),
        },
        setup.commit_author@ == first_of(
            stored_text(restored.deep_view(), "commitAuthor"@),
            None,
            runtime.model@ + "-"@ + runtime.reasoning_effort@,
        ),
        setup.commit_receipt.deep_view() == stored_receipt(restored.deep_view()),
        setup.rounds_used == match restored {
            Some(state) => match state@.u64_at("roundsUsed"@) {
                Some(rounds) => rounds,
                None => 0,
            },
            None => 0,
        },
{
    let ghost given = options;
    let mut options = options;
    if let Some(state) = restored {
        restore_session_type(&mut options, state);
    }
    let SessionOptions {
        session_type,
        root_node_ids,
        reference_root_node_ids,
        channel,
        free_time,
        orchestration,
        provenance_id,
        mode,
        source_session_type,
        group_context,
        rust_lib_session_id,
    } = options;
    let channel = keep_or(restored, "channel", channel);
    let free_time = keep_or(restored, "freeTime", free_time);
    let orchestration = keep_or(restored, "orchestration", orchestration);
    let group_context = if group_context.is_null() {
        keep_or(Some(&channel), "groupContext", Json::Null)
    } else {
        group_context
    };
    let kept = text::exclude(&reference_root_node_ids, &root_node_ids);
    let reference_root_node_ids = order::sorted_distinct(&kept);
    let started_at = match text_in(restored, "startedAt") {
        Some(text) => text.to_owned(),
        None => fresh.started_at,
    };
    let library_session = match text_in(restored, "rustLibSessionId") {
        Some(text) => text.to_owned(),
        None => match &rust_lib_session_id {
            Some(id) => id.clone(),
            None => {
                let mut id = "kennedy:".to_owned();
                id.append(fresh.rust_lib_session_id.as_str());
                id
            },
        },
    };
    let (session_id, resumes) = match text_in(restored, "sessionId") {
        Some(text) => (text.to_owned(), true),
        None => (fresh.session_id, false),
    };
    let source = match &source_session_type {
        Some(source) => Some(source.clone()),
        None => match text_in(restored, "sourceSessionType") {
            Some(text) => Some(text.to_owned()),
            None => None,
        },
    };
    let commit_author = match text_in(restored, "commitAuthor") {
        Some(text) => text.to_owned(),
        None => runtime.attribution(),
    };
    let rounds_used: u64 = match restored {
        Some(state) => match state.u64_at("roundsUsed") {
            Some(rounds) => rounds,
            None => 0,
        },
        None => 0,
    };
    SessionSetup {
        options: SessionOptions {
            session_type,
            root_node_ids,
            reference_root_node_ids,
            channel,
            free_time,
            orchestration,
            provenance_id,
            mode,
            source_session_type,
            group_context,
            rust_lib_session_id,
        },
        started_at,
        session_id,
        resumes,
        rust_lib_session_id: library_session,
        source_session_type: source,
        commit_author,
        commit_receipt: restore_commit_receipt(restored),
        rounds_used,
    }
}

/// The system prompt of a session.
pub fn session_prompt(
    manuals: &Manuals,
    runtime: &RuntimeModel,
    setup: &SessionSetup,
    now: &UtcTime,
) -> (result: Result<String, Failure>)
    requires
        now.well_formed(),
    ensures
        ({
            let described = prompts::runtime_text(runtime.model@, runtime.reasoning_effort@, *now);
            let session_type = setup.options.session_type@;
            let source = first_of(setup.source_session_type.deep_view(), None, "conversation"@);
            let context = if session_type == "free-time"@ {
                schedule_text(deadline_of(setup.options.free_time@))
            } else {
                Seq::empty()
            };
            text::seen(result) == if setup.options.mode is Ingress {
                prompts::prompt(
                    manuals.sections@,
                    prompts::ingress_key(source),
                    true,
                    Seq::empty(),
                    source,
                    described,
                )
            } else {
                prompts::prompt(
                    manuals.sections@,
                    prompts::conversation_key(session_type).0,
                    prompts::conversation_key(session_type).1,
                    context,
                    session_type,
                    described,
                )
            }
        }),
{
    if setup.options.mode.is_ingress() {
        let source = match &setup.source_session_type {
            Some(source) => source.as_str(),
            None => "conversation",
        };
        return manuals.compose_ingress(runtime, source, now);
    }
    let session_type = setup.options.session_type.as_str();
    let context = if *session_type == *"free-time" {
        free_time_schedule(&setup.options.free_time)
    } else {
        String::new()
    };
    manuals.compose_conversation(runtime, session_type, context.as_str(), now)
}

/// Whether one of the boxes holds the system prompt.
pub open spec fn has_system_box(boxes: Seq<BoxState>) -> bool {
    exists|i: int| 0 <= i < boxes.len() && (#[trigger] boxes[i]).owner is System
}

/// The place of the first box that holds the system prompt.
pub fn system_box(boxes: &Vec<BoxState>) -> (place: Option<usize>)
    ensures
        match place {
            Some(i) => i < boxes.len() && boxes@[i as int].owner is System && forall|j: int|
                0 <= j < i ==> !((#[trigger] boxes@[j]).owner is System),
            None => !has_system_box(boxes@),
        },
{
    let mut i: usize = 0;
    while i < boxes.len()
        invariant
            i <= boxes.len(),
            forall|j: int| 0 <= j < i ==> !((#[trigger] boxes@[j]).owner is System),
        decreases boxes.len() - i,
    {
        if matches!(boxes[i].owner, BoxOwner::System) {
            return Some(i);
        }
        i = i + 1;
    }
    None
}

/// What is known of a session's journal when the session is opened.
#[derive(Debug)]
pub struct JournalFacts {
    pub sealed: bool,
    pub has_receipt: bool,
    pub completed: bool,
    pub has_system_box: bool,
    pub ingress_started: bool,
}

/// What opening a session takes.
#[derive(Debug, PartialEq, Eq)]
pub enum Opening {
    /// A conversation never has a sealed journal.
    Refuse,
    /// The session is complete; its commit may still be owed.
    Complete { commit_first: bool },
    /// The session goes on, or begins.
    Open {
        repair_tools: bool,
        create_boxes: bool,
        group_context_box: bool,
        prepare_ingress: bool,
    },
}

/// What opening a session takes.
pub open spec fn opening_of(
    mode: AgentMode,
    session_type: Seq<char>,
    group_context: JsonView,
    facts: JournalFacts,
) -> Opening {
    if facts.sealed {
        if mode is Conversation {
            Opening::Refuse
        } else {
            Opening::Complete { commit_first: !facts.has_receipt }
        }
    } else {
        Opening::Open {
            repair_tools: mode is Ingress,
            create_boxes: !facts.has_system_box,
            group_context_box: !facts.has_system_box && session_type == "telegram-group"@ && !(
            group_context is Null),
            prepare_ingress: mode is Ingress && !(facts.completed || facts.has_receipt)
                && !facts.ingress_started,
        }
    }
}

/// What opening a session takes.
pub fn opening(mode: &AgentMode, session_type: &str, group_context: &Json, facts: &JournalFacts) -> (
opening: Opening)
    ensures
        opening == opening_of(*mode, session_type@, group_context@, *facts),
{
    if facts.sealed {
        if mode.is_conversation() {
            return Opening::Refuse;
        }
        return Opening::Complete { commit_first: !facts.has_receipt };
    }
    Opening::Open {
        repair_tools: mode.is_ingress(),
        create_boxes: !facts.has_system_box,
        group_context_box: !facts.has_system_box && *session_type == *"telegram-group"
            && !group_context.is_null(),
        prepare_ingress: mode.is_ingress() && !(facts.completed || facts.has_receipt)
            && !facts.ingress_started,
    }
}

/// The refusal to open a conversation whose journal is sealed.
pub fn sealed_conversation() -> (failure: Failure)
    ensures
        failure@ == "a read-only conversation has an unexpectedly sealed session log"@,
{
    Failure::fixed("a read-only conversation has an unexpectedly sealed session log")
}

/// A session that takes in another is history ingress whatever its type; any other is of
/// the kind that its type names.
pub proof fn sessions_are_of_their_kind(session_type: Seq<char>, mode: AgentMode)
    ensures
        mode is Ingress ==> kind_of(session_type, mode) is HistoryIngress,
        !(mode is Ingress) ==> {
            &&& session_type == "conversation"@ <==> kind_of(session_type, mode) is Conversation
            &&& session_type == "telegram"@ <==> kind_of(session_type, mode) is Telegram
            &&& session_type == "telegram-group"@ <==> kind_of(session_type, mode) is TelegramGroup
            &&& session_type == "free-time"@ <==> kind_of(session_type, mode) is SelfTime
            &&& session_type == "audio"@ <==> kind_of(session_type, mode) is AudioIngress
            &&& session_type == "wakeup"@ ==> kind_of(session_type, mode) == KindView::Other(
                "wakeup"@,
            )
        },
{
    reveal_strlit("conversation");
    reveal_strlit("telegram");
    reveal_strlit("telegram-group");
    reveal_strlit("free-time");
    reveal_strlit("audio");
    reveal_strlit("wakeup");
    assert("conversation"@.len() == 12 && "telegram"@.len() == 8 && "telegram-group"@.len() == 14);
    assert("free-time"@.len() == 9 && "audio"@.len() == 5 && "wakeup"@.len() == 6);
}

/// Self-time opens with the focus that was asked for and the message of the slice before
/// it, each where it is not blank.
pub proof fn self_time_opens_with_focus_and_message(free_time: JsonView)
    ensures
        ({
            let focus = free_time.text_at("customPrompt"@);
            let message = free_time.text_at("handoffMessage"@);
            let focused = focus is Some && !text::blank(focus->0);
            let handed = message is Some && !text::blank(message->0);
            let first = free_time_first(free_time);
            &&& !focused && !handed ==> first == "Begin this self-time session."@
            &&& focused && !handed ==> first == "Begin this self-time session."@
                + "\n\nRequested focus:\n"@ + focus->0
            &&& handed ==> text::ends(first, message->0)
            &&& focused && handed ==> text::begins(
                first,
                "Begin this self-time session."@ + "\n\nRequested focus:\n"@ + focus->0,
            )
            &&& !focused && handed ==> first == "Begin this self-time session."@ + "\n\n"@ + (
            "Message from the previous self-time session:\n\n"@ + message->0)
        }),
{
    let first = free_time_first(free_time);
    let start = free_time_start(free_time);
    match free_time.text_at("handoffMessage"@) {
        Some(message) => {
            if !text::blank(message) {
                assert(first.subrange(first.len() - message.len(), first.len() as int) =~= message);
                assert(first.subrange(0, start.len() as int) =~= start);
            }
        },
        None => {},
    }
}

/// A request of a web conversation, of an ingress session and of a wakeup lasts an hour and
/// a half at most, one on Telegram as long as it takes; one in self-time six minutes past
/// the deadline, and one second and six minutes where that has passed.
pub proof fn requests_time_out(
    mode: AgentMode,
    session_type: Seq<char>,
    remaining: Option<int>,
)
    ensures
        ({
            let limit = request_timeout(mode, session_type, remaining);
            &&& mode is Ingress || mode is Wakeup ==> limit == Some(5_400u64)
            &&& mode is Conversation && session_type == "conversation"@ ==> limit == Some(5_400u64)
            &&& mode is Conversation && (session_type == "telegram"@ || session_type
                == "telegram-group"@) ==> limit is None
            &&& mode is FreeTime && remaining is None ==> limit is None
            &&& mode is FreeTime && remaining is Some && 1 <= remaining->0 <= u64::MAX - 360
                ==> limit == Some((remaining->0 + 360) as u64)
            &&& mode is FreeTime && remaining is Some && remaining->0 <= 1 ==> limit == Some(361u64)
        }),
{
    reveal_strlit("conversation");
    reveal_strlit("telegram");
    reveal_strlit("telegram-group");
    assert("conversation"@.len() == 12 && "telegram"@.len() == 8 && "telegram-group"@.len() == 14);
}

/// A restored session is of the type that was stored, but one that takes in another keeps
/// its own.
pub proof fn restored_sessions_keep_their_type(options: SessionOptions, state: JsonView)
    ensures
        options.mode is Ingress ==> restored_type(options, state) == options.session_type@,
        !(options.mode is Ingress) && state.text_at("sessionType"@) is Some ==> Some(
            restored_type(options, state),
        ) == state.text_at("sessionType"@),
        state.text_at("sessionType"@) is None ==> restored_type(options, state)
            == options.session_type@,
{
}

/// What was stored counts before what is given, and what is given before what is fresh.
pub proof fn stored_values_come_first(
    state: JsonView,
    key: Seq<char>,
    otherwise: JsonView,
    first: Option<Seq<char>>,
    second: Option<Seq<char>>,
    fresh: Seq<char>,
)
    ensures
        state.get(key) is Some ==> Some(member_or(Some(state), key, otherwise)) == state.get(key),
        state.get(key) is None ==> member_or(Some(state), key, otherwise) == otherwise,
        member_or(None, key, otherwise) == otherwise,
        first is Some ==> Some(first_of(first, second, fresh)) == first,
        first is None && second is Some ==> Some(first_of(first, second, fresh)) == second,
        first is None && second is None ==> first_of(first, second, fresh) == fresh,
        stored_receipt(Some(state)) is Some <==> state.get("commitReceipt"@) is Some && !(
        state.get("commitReceipt"@)->0 is Null),
        stored_receipt(Some(state)) is Some ==> stored_receipt(Some(state)) == state.get(
            "commitReceipt"@,
        ),
        stored_receipt(None) is None,
{
}

/// A sealed conversation is refused, and any other sealed session is completed, after its
/// commit where that has no receipt. Any other session is opened: with its boxes where it
/// has none yet, with the group's where it is one of a group, and prepared for ingress
/// where it is to be taken in and was not begun.
pub proof fn sessions_open_by_their_journal(
    mode: AgentMode,
    session_type: Seq<char>,
    group_context: JsonView,
    facts: JournalFacts,
)
    ensures
        ({
            let opening = opening_of(mode, session_type, group_context, facts);
            &&& facts.sealed && mode is Conversation ==> opening is Refuse
            &&& facts.sealed && !(mode is Conversation) ==> opening is Complete
                && opening->commit_first == !facts.has_receipt
            &&& !facts.sealed ==> opening is Open
            &&& !facts.sealed && mode is Ingress ==> opening->repair_tools
            &&& !facts.sealed && !(mode is Ingress) ==> !opening->repair_tools
                && !opening->prepare_ingress
            &&& !facts.sealed && facts.has_system_box ==> !opening->create_boxes
                && !opening->group_context_box
            &&& !facts.sealed && !facts.has_system_box ==> opening->create_boxes
            &&& !facts.sealed && !facts.has_system_box && session_type == "telegram-group"@ && !(
            group_context is Null) ==> opening->group_context_box
            &&& !facts.sealed && (session_type != "telegram-group"@ || group_context is Null)
                ==> !opening->group_context_box
            &&& !facts.sealed && mode is Ingress && !facts.completed && !facts.has_receipt
                && !facts.ingress_started ==> opening->prepare_ingress
            &&& !facts.sealed && (facts.completed || facts.has_receipt || facts.ingress_started)
                ==> !opening->prepare_ingress
        }),
{
}

/// A round is continued as its session's mode asks for, and self time with its deadline.
pub proof fn rounds_continue_in_their_mode(free_time: JsonView, other: JsonView, mode: AgentMode)
    ensures
        text::begins(continuation(AgentMode::Conversation, free_time), "Continue the turn."@),
        text::begins(continuation(AgentMode::FreeTime, free_time), "Continue self time."@),
        text::begins(
            continuation(AgentMode::Wakeup, free_time),
            "Continue this autonomous wakeup session."@,
        ),
        mode is Ingress ==> text::begins(
            continuation(mode, free_time),
            "You are in a solo history-ingress session;"@,
        ),
        !(mode is FreeTime) ==> continuation(mode, free_time) == continuation(mode, other),
        free_time.text_at("deadlineAt"@) is None ==> continuation(AgentMode::FreeTime, free_time)
            == "Continue self time. "@ + "The self-time deadline was not supplied."@,
        free_time.text_at("deadlineAt"@) is Some && clock::time_of(
            free_time.text_at("deadlineAt"@)->0,
        ) is Some ==> continuation(AgentMode::FreeTime, free_time) == "Continue self time. "@ + (
        "The self-time deadline is "@ + clock::human(
            clock::time_of(free_time.text_at("deadlineAt"@)->0)->0,
        ) + "."@),
{
    reveal_strlit("Continue the turn.");
    reveal_strlit("Continue the turn. Use tools if needed, then answer the user.");
    reveal_strlit("Continue self time.");
    reveal_strlit("Continue self time. ");
    reveal_strlit("Continue this autonomous wakeup session.");
    reveal_strlit(
        "Continue this autonomous wakeup session. Sending no message is a valid outcome; call EndSession when you have finished.",
    );
    reveal_strlit("You are in a solo history-ingress session;");
    reveal_strlit(
        "You are in a solo history-ingress session; there is no user to receive a conversational response. If you have completed all useful memory work, call EndSession now through the native call_ktool function with no arguments. A normal response does not end this session. If work remains, continue it with tools, then call EndSession when finished.",
    );
    assert(continuation(AgentMode::Conversation, free_time).subrange(
        0,
        "Continue the turn."@.len() as int,
    ) =~= "Continue the turn."@);
    assert(continuation(AgentMode::FreeTime, free_time).subrange(
        0,
        "Continue self time."@.len() as int,
    ) =~= "Continue self time."@);
    assert(continuation(AgentMode::Wakeup, free_time).subrange(
        0,
        "Continue this autonomous wakeup session."@.len() as int,
    ) =~= "Continue this autonomous wakeup session."@);
    if mode is Ingress {
        assert(continuation(mode, free_time).subrange(
            0,
            "You are in a solo history-ingress session;"@.len() as int,
        ) =~= "You are in a solo history-ingress session;"@);
    }
}

/// The time that is left reaches up to the deadline: whole seconds, rounded down.
pub proof fn time_is_left_until_the_deadline(free_time: JsonView, now: UtcTime)
    ensures
        ({
            let text = free_time.text_at("deadlineAt"@);
            let left = seconds_left(free_time, now);
            &&& text is None ==> left is None
            &&& text is Some && clock::time_of(text->0) is None ==> left is None
            &&& text is Some && clock::time_of(text->0) is Some && clock::time_of(text->0)->0.nanos
                < 1_000_000_000 && now.nanos < 1_000_000_000 ==> {
                let end = clock::time_of(text->0)->0;
                let distance = (end.seconds * 1_000_000_000 + end.nanos) - (now.seconds
                    * 1_000_000_000 + now.nanos);
                left is Some && left->0 * 1_000_000_000 <= distance < (left->0 + 1) * 1_000_000_000
            }
        }),
{
}

/// A group's context is what was given, or else what its channel holds.
pub proof fn given_contexts_come_first(given: JsonView, channel: JsonView)
    ensures
        !(given is Null) ==> group_context_of(given, channel) == given,
        given is Null && channel.get("groupContext"@) is Some ==> group_context_of(given, channel)
            == channel.get("groupContext"@)->0,
        given is Null && channel.get("groupContext"@) is None ==> group_context_of(given, channel)
            is Null,
{
}

} // verus!
