//! The turn of a session: how it opens, is stopped and closes.

use crate::agent_loop;
use crate::clock;
use crate::clock::UtcTime;
use crate::input;
use crate::input::NewBox;
use crate::json::{Json, JsonView};
use crate::render;
use crate::session;
use crate::session::AgentMode;
use crate::text;
use crate::text::Failure;
use crate::tools;
use crate::transcript::BoxContent;
use vstd::prelude::*;

verus! {

/// What a session says when the user stops its turn.
pub const STOP_NOTICE: &'static str = "The user stopped this agent turn.";

/// What a self-time session is told when its time is over.
pub const DEADLINE_NOTICE: &'static str =
    "The self-time deadline has arrived. Finish without starting more tool work.";

/// The part of a session that changes from turn to turn.
#[derive(Debug)]
pub struct TurnState {
    pub pending_turn: bool,
    pub pending_external_event_id: Option<String>,
    pub rounds_used: u64,
    pub completed: bool,
    pub free_time: Json,
    pub orchestration: Json,
}

/// The mathematical value of a turn.
#[verifier::ext_equal]
pub struct TurnView {
    pub pending: bool,
    pub event: Option<Seq<char>>,
    pub rounds_used: u64,
    pub completed: bool,
    pub free_time: JsonView,
    pub orchestration: JsonView,
}

impl View for TurnState {
    type V = TurnView;

    open spec fn view(&self) -> TurnView {
        TurnView {
            pending: self.pending_turn,
            event: self.pending_external_event_id.deep_view(),
            rounds_used: self.rounds_used,
            completed: self.completed,
            free_time: self.free_time@,
            orchestration: self.orchestration@,
        }
    }
}

/// A box to create and the transcript entry that tells of it.
#[derive(Debug)]
pub struct Told {
    pub content: BoxContent,
    pub transcript: Json,
}

impl TurnView {
    /// The turn once it is over.
    pub open spec fn closed(self) -> TurnView {
        TurnView { pending: false, event: None, ..self }
    }

    /// The turn once a message of the user has opened it.
    pub open spec fn opened(self, metadata: JsonView) -> TurnView {
        TurnView {
            pending: true,
            event: metadata.text_at("externalEventId"@),
            rounds_used: 0,
            ..self
        }
    }
}

/// The orchestration record of a session whose turn was stopped.
pub open spec fn stopped_orchestration() -> JsonView {
    JsonView::Object(Map::empty()).with("owner"@, JsonView::Text("backend"@)).with(
        "status"@,
        JsonView::Text("idle"@),
    ).with("lastOutcome"@, JsonView::Text("user-stopped"@))
}

impl TurnState {
    /// Opens a turn with a message of the user. A session has one turn at a time, and
    /// a message without any content opens none.
    pub fn begin_user_turn(&mut self, message: &str, metadata: &Json) -> (begun: bool)
        ensures
            begun == (!old(self)@.pending && input::holds_input(message@, metadata@)),
            final(self)@ == if begun {
                old(self)@.opened(metadata@)
            } else {
                old(self)@
            },
    {
        if self.pending_turn || !input::has_input(message, metadata) {
            return false;
        }
        self.rounds_used = 0;
        self.pending_turn = true;
        self.pending_external_event_id = match metadata.text_at("externalEventId") {
            Some(id) => Some(id.to_owned()),
            None => None,
        };
        true
    }

    /// Opens the turn of a self-time session: the message it starts with.
    pub fn stage_free_time_opening(&mut self) -> (opening: Option<String>)
        ensures
            opening.deep_view() == if old(self)@.pending {
                None
            } else {
                Some(session::free_time_first(old(self)@.free_time))
            },
            final(self)@ == (TurnView { pending: true, ..old(self)@ }),
    {
        if self.pending_turn {
            return None;
        }
        let message = session::free_time_first_message(&self.free_time);
        self.pending_turn = true;
        Some(message)
    }

    /// Opens the turn of a wakeup session: the time it was woken for.
    pub fn stage_wakeup_opening(&mut self, channel: &Json) -> (result: Result<
        Option<UtcTime>,
        Failure,
    >)
        ensures
            match wakeup_marker(channel@) {
                _ if old(self)@.pending => {
                    &&& result is Ok && result->Ok_0 is None
                    &&& final(self)@ == old(self)@
                },
                Err(message) => {
                    &&& result is Err && result->Err_0@ == message
                    &&& final(self)@ == old(self)@
                },
                Ok(marker) => {
                    &&& result is Ok && result->Ok_0 == Some(marker)
                    &&& marker.well_formed()
                    &&& final(self)@ == (TurnView { pending: true, ..old(self)@ })
                },
            },
    {
        if self.pending_turn {
            return Ok(None);
        }
        match read_wakeup_marker(channel) {
            Err(failure) => Err(failure),
            Ok(marker) => {
                self.pending_turn = true;
                Ok(Some(marker))
            },
        }
    }

    /// Stops the turn: the box that says so and its transcript entry, both tied to the
    /// event that the turn was about.
    pub fn interrupt_current_turn(&mut self) -> (told: Told)
        ensures
            final(self)@ == (TurnView {
                orchestration: stopped_orchestration(),
                ..old(self)@.closed()
            }),
            told.content.text@ == STOP_NOTICE@,
            told.content.objects@.len() == 0,
            told.content.metadata@ == tools::with_event(
                JsonView::Object(Map::empty()).with("transcriptRole"@, JsonView::Text("system"@)).with(
                    "userStopped"@,
                    JsonView::Bool(true),
                ),
                old(self)@.event,
            ),
            told.transcript@ == tools::with_event(
                JsonView::Object(Map::empty()).with("role"@, JsonView::Text("system"@)).with(
                    "content"@,
                    JsonView::Text(STOP_NOTICE@),
                ).with("userStopped"@, JsonView::Bool(true)),
                old(self)@.event,
            ),
    {
        let event: Option<&str> = match &self.pending_external_event_id {
            Some(id) => Some(id.as_str()),
            None => None,
        };
        let metadata = tools::note_event(
            Json::object().with("transcriptRole", Json::text("system")).with(
                "userStopped",
                Json::Bool(true),
            ),
            event,
        );
        let transcript = tools::note_event(
            Json::object().with("role", Json::text("system")).with(
                "content",
                Json::text(STOP_NOTICE),
            ).with("userStopped", Json::Bool(true)),
            event,
        );
        self.pending_turn = false;
        self.pending_external_event_id = None;
        self.orchestration = Json::object().with("owner", Json::text("backend")).with(
            "status",
            Json::text("idle"),
        ).with("lastOutcome", Json::text("user-stopped"));
        Told {
            content: BoxContent { text: STOP_NOTICE.to_owned(), objects: Vec::new(), metadata },
            transcript,
        }
    }

    /// Closes the turn. A session that commits at the end of its turn is then complete.
    pub fn close(&mut self, end: &agent_loop::TurnEnd)
        ensures
            final(self)@ == match end@ {
                agent_loop::TurnEndView::Done { .. } => old(self)@.closed(),
                agent_loop::TurnEndView::Commit => (TurnView {
                    completed: true,
                    ..old(self)@.closed()
                }),
                agent_loop::TurnEndView::Silent => old(self)@,
            },
    {
        match end {
            agent_loop::TurnEnd::Done { .. } => {
                self.pending_turn = false;
                self.pending_external_event_id = None;
            },
            agent_loop::TurnEnd::Commit => {
                self.pending_turn = false;
                self.pending_external_event_id = None;
                self.completed = true;
            },
            agent_loop::TurnEnd::Silent => {},
        }
    }

    /// Ends a slice of self-time, for one of the reasons there are.
    pub fn finalize_free_time(&mut self, reason: &str, ended_at: &str) -> (outcome: Result<
        (),
        Failure,
    >)
        requires
            ending_reason(reason@) ==> takes_members(old(self)@.free_time),
        ensures
            crate::arguments::checked(outcome) == if ending_reason(reason@) {
                Ok::<(), Seq<char>>(())
            } else {
                Err::<(), Seq<char>>("invalid self-time completion reason"@)
            },
            final(self)@ == if ending_reason(reason@) {
                TurnView {
                    free_time: old(self)@.free_time.with(
                        "sliceEndedReason"@,
                        JsonView::Text(reason@),
                    ).with("sliceEndedAt"@, JsonView::Text(ended_at@)),
                    ..old(self)@.closed()
                }
            } else {
                old(self)@
            },
    {
        if !ends_slice(reason) {
            return Err(Failure::fixed("invalid self-time completion reason"));
        }
        self.free_time = self.free_time.clone().with("sliceEndedReason", Json::text(reason)).with(
            "sliceEndedAt",
            Json::text(ended_at),
        );
        self.pending_turn = false;
        self.pending_external_event_id = None;
        Ok(())
    }

    /// Notes the message that this self-time session leaves for the next one.
    pub fn leave_message(&mut self, message: &Option<String>)
        requires
            message is Some ==> takes_members(old(self)@.free_time),
        ensures
            final(self)@ == match message.deep_view() {
                Some(message) => (TurnView {
                    free_time: old(self)@.free_time.with(
                        "nextSessionMessage"@,
                        JsonView::Text(message),
                    ),
                    ..old(self)@
                }),
                None => old(self)@,
            },
    {
        if let Some(message) = message {
            self.free_time = self.free_time.clone().with(
                "nextSessionMessage",
                Json::text(message.as_str()),
            );
        }
    }
}

/// Whether a document can be given members: it is an object, or nothing yet.
pub open spec fn takes_members(value: JsonView) -> bool {
    value is Object || value is Null
}

/// Whether a slice of self-time may end for this reason.
pub open spec fn ending_reason(reason: Seq<char>) -> bool {
    seq!["tool"@, "deadline"@, "hard-stop"@, "user-stop"@].contains(reason)
}

/// Whether a slice of self-time may end for this reason.
pub fn ends_slice(reason: &str) -> (yes: bool)
    ensures
        yes == ending_reason(reason@),
{
    proof {
        assert(text::views((&["tool", "deadline", "hard-stop", "user-stop"])@) =~= seq![
            "tool"@,
            "deadline"@,
            "hard-stop"@,
            "user-stop"@,
        ]);
    }
    text::listed(&["tool", "deadline", "hard-stop", "user-stop"], reason)
}

/// A stopped turn is over: no message of its event is answered by it any more, and the
/// next message of the user opens a new turn.
pub proof fn stopped_turns_make_room(before: TurnView, message: Seq<char>, metadata: JsonView)
    requires
        input::holds_input(message, metadata),
    ensures
        !before.closed().pending,
        before.closed().event is None,
        before.closed().opened(metadata).pending,
        before.closed().opened(metadata).event == metadata.text_at("externalEventId"@),
        before.closed().opened(metadata).rounds_used == 0,
{
}

/// The time for which a wakeup session was woken.
pub open spec fn wakeup_marker(channel: JsonView) -> Result<UtcTime, Seq<char>> {
    match channel.text_at("wakeupMarker"@) {
        None => Err("wakeup session is missing its acquired time marker"@),
        Some(marker) => match clock::time_of(marker) {
            None => Err("wakeup session has an invalid acquired time marker"@),
            Some(time) => Ok(time),
        },
    }
}

fn read_wakeup_marker(channel: &Json) -> (result: Result<UtcTime, Failure>)
    ensures
        match result {
            Ok(time) => wakeup_marker(channel@) == Ok::<UtcTime, Seq<char>>(time)
                && time.well_formed(),
            Err(failure) => wakeup_marker(channel@) == Err::<UtcTime, Seq<char>>(failure@),
        },
{
    match channel.text_at("wakeupMarker") {
        None => Err(Failure::fixed("wakeup session is missing its acquired time marker")),
        Some(marker) => match clock::parse_time(marker) {
            None => Err(Failure::fixed("wakeup session has an invalid acquired time marker")),
            Some(time) => Ok(time),
        },
    }
}

/// A message of a session that is taken over from elsewhere: its box and its
/// transcript entry.
pub fn stage_source_message(kennedy: bool, message: &str, metadata: &Json) -> (result: (
    NewBox,
    Json,
))
    ensures
        result.0.name@ == if kennedy {
            "Kennedy message"@
        } else {
            "User message"@
        },
        result.0.content.text@ == message@,
        result.0.content.objects@.len() == 0,
        result.0.content.metadata@ == metadata@,
        result.1@ == tools::with_event(
            JsonView::Object(Map::empty()).with(
                "role"@,
                JsonView::Text(
                    if kennedy {
                        "kennedy"@
                    } else {
                        "user"@
                    },
                ),
            ).with("content"@, JsonView::Text(message@)).with("metadata"@, metadata@),
            metadata@.text_at("externalEventId"@),
        ),
{
    let name = if kennedy {
        "Kennedy message"
    } else {
        "User message"
    };
    let role = if kennedy {
        "kennedy"
    } else {
        "user"
    };
    let transcript = tools::note_event(
        Json::object().with("role", Json::text(role)).with("content", Json::text(message)).with(
            "metadata",
            metadata.clone(),
        ),
        metadata.text_at("externalEventId"),
    );
    let content = BoxContent {
        text: message.to_owned(),
        objects: Vec::new(),
        metadata: metadata.clone(),
    };
    (NewBox { name: name.to_owned(), content }, transcript)
}

/// Whether a conversation has to be taken into the history before it goes on.
pub fn requires_history_ingress(mode: &AgentMode, source_terminated: bool) -> (yes: bool)
    ensures
        yes == (*mode is Conversation && source_terminated),
{
    mode.is_conversation() && source_terminated
}

/// Whether a self-time session is out of time before its next round.
pub open spec fn time_is_over(mode: AgentMode, deadline: Option<UtcTime>, now: UtcTime) -> bool {
    mode is FreeTime && deadline is Some && now.at_or_after(deadline->0)
}

/// Whether a self-time session is out of time before its next round.
pub fn prepare_free_time_round(mode: &AgentMode, free_time: &Json, now: &UtcTime) -> (over: bool)
    ensures
        over == time_is_over(*mode, session::deadline_of(free_time@), *now),
{
    if !matches!(mode, AgentMode::FreeTime) {
        return false;
    }
    match session::deadline(free_time) {
        None => false,
        Some(deadline) => now.reached(&deadline),
    }
}

/// Checks that a session may commit its edits.
pub fn commit_current_write_session(mode: &AgentMode) -> (outcome: Result<(), Failure>)
    ensures
        crate::arguments::checked(outcome) == if *mode is Conversation {
            Err::<(), Seq<char>>(
                "a read-only conversation cannot be committed as a Kweb write session"@,
            )
        } else {
            Ok::<(), Seq<char>>(())
        },
{
    if mode.is_conversation() {
        Err(Failure::fixed("a read-only conversation cannot be committed as a Kweb write session"))
    } else {
        Ok(())
    }
}

/// What a session needs before it takes in the history of another.
#[derive(Debug)]
pub struct IngressPreparation {
    /// Whether the end of the source is still to be recorded.
    pub terminate_source: bool,
    /// Whether the journal is to be configured anew.
    pub reconfigure: bool,
    /// What the source has cost so far.
    pub cost: String,
}

/// What a session needs before it takes in the history of another.
pub fn prepare_history_ingress(
    source_terminated: bool,
    journal_tokens: u64,
    runtime_tokens: u64,
    same_kind: bool,
    cost_usd_nanos: u64,
    unpriced_calls: u64,
) -> (preparation: IngressPreparation)
    ensures
        preparation.terminate_source == !source_terminated,
        preparation.reconfigure == (journal_tokens != runtime_tokens || !same_kind),
        preparation.cost@ == render::cost_text(
            "session cost before history ingress"@,
            cost_usd_nanos,
            unpriced_calls,
        ),
{
    IngressPreparation {
        terminate_source: !source_terminated,
        reconfigure: journal_tokens != runtime_tokens || !same_kind,
        cost: render::cost_summary(
            "session cost before history ingress",
            cost_usd_nanos,
            unpriced_calls,
        ),
    }
}

/// The note of an ingress that is committed at once, because even its smallest context
/// is too large.
pub fn over_capacity_note(estimated_tokens: u64, target_tokens: u64) -> (note: Json)
    ensures
        note@ == JsonView::Object(Map::empty()).with(
            "reason"@,
            JsonView::Text("fully_dehydrated_context_above_initial_target"@),
        ).with("estimatedTokens"@, JsonView::Integer(estimated_tokens as int)).with(
            "initialTargetTokens"@,
            JsonView::Integer(target_tokens as int),
        ),
{
    Json::object().with(
        "reason",
        Json::text("fully_dehydrated_context_above_initial_target"),
    ).with("estimatedTokens", Json::unsigned(estimated_tokens)).with(
        "initialTargetTokens",
        Json::unsigned(target_tokens),
    )
}

/// Opening and closing a turn change nothing else of a session.
pub proof fn turns_leave_the_rest_alone(before: TurnView, metadata: JsonView)
    ensures
        before.closed().rounds_used == before.rounds_used,
        before.closed().completed == before.completed,
        before.closed().free_time == before.free_time,
        before.closed().orchestration == before.orchestration,
        before.opened(metadata).completed == before.completed,
        before.opened(metadata).free_time == before.free_time,
        before.opened(metadata).orchestration == before.orchestration,
{
}

/// A slice of self-time ends for one of four reasons.
pub proof fn slices_end_for_known_reasons(reason: Seq<char>)
    ensures
        ending_reason(reason) <==> reason == "tool"@ || reason == "deadline"@ || reason
            == "hard-stop"@ || reason == "user-stop"@,
{
    let reasons = seq!["tool"@, "deadline"@, "hard-stop"@, "user-stop"@];
    assert(reasons[0] == "tool"@ && reasons[1] == "deadline"@ && reasons[2] == "hard-stop"@
        && reasons[3] == "user-stop"@);
    if reasons.contains(reason) {
        let k = reasons.index_of(reason);
        assert(reasons[k] == reason);
    }
}

/// Self-time is over from its deadline on; no other session has one, and self-time without
/// a deadline goes on.
pub proof fn self_time_ends_at_its_deadline(
    mode: AgentMode,
    deadline: Option<UtcTime>,
    now: UtcTime,
)
    ensures
        !(mode is FreeTime) ==> !time_is_over(mode, deadline, now),
        deadline is None ==> !time_is_over(mode, deadline, now),
        mode is FreeTime && deadline is Some && now.seconds > deadline->0.seconds ==> time_is_over(
            mode,
            deadline,
            now,
        ),
        deadline is Some && now.seconds < deadline->0.seconds ==> !time_is_over(
            mode,
            deadline,
            now,
        ),
        mode is FreeTime && deadline is Some && now.seconds == deadline->0.seconds ==> (
        time_is_over(mode, deadline, now) <==> now.nanos >= deadline->0.nanos),
{
}

/// A wakeup is for the time that its channel marks, and is refused without one that reads.
pub proof fn wakeups_are_for_their_marker(channel: JsonView)
    ensures
        wakeup_marker(channel) is Ok <==> channel.text_at("wakeupMarker"@) is Some
            && clock::time_of(channel.text_at("wakeupMarker"@)->0) is Some,
        wakeup_marker(channel) is Ok ==> Some(wakeup_marker(channel)->Ok_0) == clock::time_of(
            channel.text_at("wakeupMarker"@)->0,
        ),
{
}

/// The notice of a stop closes the event that was pending, and without one the event that
/// was asked last.
pub proof fn stop_notices_close_their_turn(
    entries: Seq<JsonView>,
    notice: JsonView,
    event: Option<Seq<char>>,
)
    requires
        notice == tools::with_event(
            JsonView::Object(Map::empty()).with("role"@, JsonView::Text("system"@)).with(
                "content"@,
                JsonView::Text(STOP_NOTICE@),
            ).with("userStopped"@, JsonView::Bool(true)),
            event,
        ),
    ensures
        ({
            let before = crate::transcript::answers(entries);
            let after = crate::transcript::answers(entries.push(notice));
            &&& event is Some ==> !after.open.contains(event->0) && after.answered.contains(
                event->0,
            )
            &&& event is None && before.open.len() > 0 ==> after.open == before.open.drop_last()
                && after.answered.contains(before.open.last())
        }),
{
    reveal_strlit("role");
    reveal_strlit("content");
    reveal_strlit("userStopped");
    reveal_strlit("externalEventId");
    reveal_strlit("contextOverflowWarning");
    assert("role"@.len() == 4 && "content"@.len() == 7 && "userStopped"@.len() == 11);
    assert("externalEventId"@.len() == 15 && "contextOverflowWarning"@.len() == 22);
    match event {
        Some(id) => {
            crate::transcript::answered_events_are_closed(entries, notice, id);
            crate::transcript::open_events_are_unanswered(entries.push(notice));
        },
        None => {
            crate::transcript::unnamed_entries_close_only_by_a_stop(entries, notice);
        },
    }
}

/// A turn that its user stopped is idle, and says so.
pub proof fn stopped_turns_are_idle()
    ensures
        stopped_orchestration().text_at("owner"@) == Some("backend"@),
        stopped_orchestration().text_at("status"@) == Some("idle"@),
        stopped_orchestration().text_at("lastOutcome"@) == Some("user-stopped"@),
{
    reveal_strlit("owner");
    reveal_strlit("status");
    reveal_strlit("lastOutcome");
    assert("owner"@.len() == 5 && "status"@.len() == 6 && "lastOutcome"@.len() == 11);
}

} // verus!
