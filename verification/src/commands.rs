//! The commands that the browser queues for its conversations: what each one does,
//! step by step.
//!
//! The worker carries out the steps and reports what came of them; which step comes
//! next, and what is written down at each, is decided here.

use crate::errors;
use crate::errors::ErrorReport;
use crate::json::{Json, JsonView};
use crate::text;
use crate::text::Failure;
use crate::turns;
use vstd::prelude::*;

verus! {

/// A document with one text member.
pub open spec fn status(name: Seq<char>) -> JsonView {
    JsonView::Object(Map::empty()).with("status"@, JsonView::Text(name))
}

/// The orchestration record of a session.
pub open spec fn owned(name: Seq<char>) -> JsonView {
    JsonView::Object(Map::empty()).with("owner"@, JsonView::Text("backend"@)).with(
        "status"@,
        JsonView::Text(name),
    )
}

fn status_of(name: &str) -> (value: Json)
    ensures
        value@ == status(name@),
{
    Json::object().with("status", Json::text(name))
}

/// The orchestration record of a session that the worker runs.
pub fn orchestration(name: &str) -> (value: Json)
    ensures
        value@ == owned(name@),
{
    Json::object().with("owner", Json::text("backend")).with("status", Json::text(name))
}

/// How a command starts.
#[derive(Debug)]
pub enum CommandOpening {
    /// The conversation is closed; the command is completed with this outcome.
    Closed { outcome: Json },
    /// The conversation ends: its managed sources are released, it is queued for the
    /// history with this state, and the command is completed with this outcome.
    End { release: Option<String>, state: Json, outcome: Json },
    /// The session is loaded.
    Load,
}

/// The state with which a conversation ends.
pub open spec fn ending_state(state: JsonView) -> JsonView {
    state.with(
        "orchestration"@,
        owned("ending"@).with(
            "abandonedPendingTurn"@,
            JsonView::Bool(state.bool_at("pendingTurn"@) == Some(true)),
        ),
    )
}

/// How a command starts, by its kind and by the conversation that it is for.
pub fn open_command(kind: &str, phase: &str, is_browser: bool, state: &Json) -> (opening:
    CommandOpening)
    requires
        phase@ == "active"@ && is_browser && kind@ == "end"@ ==> turns::takes_members(state@),
    ensures
        if phase@ != "active"@ || !is_browser {
            opening matches CommandOpening::Closed { outcome } && outcome@ == status(
                "conversation_closed"@,
            )
        } else if kind@ == "end"@ {
            opening matches CommandOpening::End { release, state: ended, outcome }
                && release.deep_view() == state@.text_at("rustLibSessionId"@) && ended@
                == ending_state(state@) && outcome@ == status("closed"@)
        } else {
            opening is Load
        },
{
    if *phase != *"active" || !is_browser {
        return CommandOpening::Closed { outcome: status_of("conversation_closed") };
    }
    if *kind != *"end" {
        return CommandOpening::Load;
    }
    let abandoned = match state.bool_at("pendingTurn") {
        Some(flag) => flag,
        None => false,
    };
    let ended = state.clone().with(
        "orchestration",
        orchestration("ending").with("abandonedPendingTurn", Json::Bool(abandoned)),
    );
    proof {
        reveal_strlit("orchestration");
        reveal_strlit("rustLibSessionId");
        assert("orchestration"@.len() == 13);
        assert("rustLibSessionId"@.len() == 16);
    }
    let release = match ended.text_at("rustLibSessionId") {
        Some(id) => Some(id.to_owned()),
        None => None,
    };
    CommandOpening::End { release, state: ended, outcome: status_of("closed") }
}

/// What the session has to do with a command.
#[derive(Debug)]
pub struct CommandScene<'a> {
    pub kind: &'a str,
    pub payload: &'a Json,
    /// The event under which the command stands in the conversation.
    pub event: &'a str,
    pub pending_turn: bool,
    /// Whether the conversation holds a response to the command.
    pub answered: bool,
    /// Whether the conversation holds the command at all.
    pub mentioned: bool,
}

/// The event under which a command stands in the conversation.
pub fn command_event(command_id: &str) -> (event: String)
    ensures
        event@ == "web:"@ + command_id@,
{
    let mut event = "web:".to_owned();
    event.append(command_id);
    event
}

/// What is done for a command, once its session is loaded.
#[derive(Debug)]
pub enum CommandStep {
    /// Nothing runs: the command goes on to its completion.
    Settle,
    /// A message opens the turn, which then runs.
    Begin { message: String, metadata: Json },
    /// The open turn runs on.
    Resume,
    /// A turn that failed runs again.
    Retry,
    /// A last message, where there is one, is noted, and the conversation closes.
    Close { last: Option<(String, Json)> },
}

/// The mathematical value of a step.
pub enum StepView {
    Settle,
    Begin { message: Seq<char>, metadata: JsonView },
    Resume,
    Retry,
    Close { last: Option<(Seq<char>, JsonView)> },
}

impl DeepView for CommandStep {
    type V = StepView;

    open spec fn deep_view(&self) -> StepView {
        match *self {
            CommandStep::Settle => StepView::Settle,
            CommandStep::Begin { message, metadata } => StepView::Begin {
                message: message@,
                metadata: metadata@,
            },
            CommandStep::Resume => StepView::Resume,
            CommandStep::Retry => StepView::Retry,
            CommandStep::Close { last } => StepView::Close {
                last: match last {
                    Some((message, metadata)) => Some((message@, metadata@)),
                    None => None,
                },
            },
        }
    }
}

/// The message of a command.
pub open spec fn message_of(payload: JsonView) -> Seq<char> {
    match payload.text_at("text"@) {
        Some(message) => message,
        None => ""@,
    }
}

/// What a command says of its message, with the event under which it stands.
pub open spec fn metadata_of(payload: JsonView, event: Seq<char>) -> JsonView {
    (match payload.get("metadata"@) {
        Some(metadata) => metadata,
        None => JsonView::Object(Map::empty()),
    }).with("externalEventId"@, JsonView::Text(event))
}

/// Whether a command says of its message what can be added to.
pub open spec fn readable(payload: JsonView) -> bool {
    match payload.get("metadata"@) {
        Some(metadata) => turns::takes_members(metadata),
        None => true,
    }
}

fn read_message(payload: &Json) -> (message: String)
    ensures
        message@ == message_of(payload@),
{
    match payload.text_at("text") {
        Some(message) => message.to_owned(),
        None => "".to_owned(),
    }
}

fn read_metadata(payload: &Json, event: &str) -> (metadata: Json)
    ensures
        metadata@ == metadata_of(payload@, event@),
{
    let metadata = match payload.get("metadata") {
        Some(metadata) => metadata.clone(),
        None => Json::object(),
    };
    metadata.with("externalEventId", Json::text(event))
}

/// What is done for a command, once its session is loaded.
pub open spec fn step_of(
    kind: Seq<char>,
    payload: JsonView,
    event: Seq<char>,
    pending_turn: bool,
    answered: bool,
    mentioned: bool,
) -> Result<StepView, Seq<char>> {
    if kind == "message"@ {
        if answered {
            Ok(StepView::Settle)
        } else if pending_turn {
            Ok(StepView::Resume)
        } else if crate::input::holds_input(message_of(payload), metadata_of(payload, event)) {
            Ok(
                StepView::Begin {
                    message: message_of(payload),
                    metadata: metadata_of(payload, event),
                },
            )
        } else {
            Err("The queued message contained no usable input"@)
        }
    } else if kind == "retry"@ {
        if pending_turn {
            Ok(StepView::Retry)
        } else {
            Ok(StepView::Settle)
        }
    } else if kind == "send-and-end"@ {
        if pending_turn {
            Err("The saved query must finish before this conversation can end"@)
        } else if mentioned {
            Ok(StepView::Close { last: None })
        } else if crate::input::holds_input(message_of(payload), metadata_of(payload, event)) {
            Ok(StepView::Close { last: Some((message_of(payload), metadata_of(payload, event))) })
        } else {
            Err("The final conversation command contained no usable input"@)
        }
    } else {
        Err("Unsupported browser conversation command "@ + kind)
    }
}

/// What is done for a command, once its session is loaded. A command is never carried
/// out twice: a message that is answered is not run again, and a last message that the
/// conversation holds is not noted again.
pub fn command_step(scene: &CommandScene) -> (result: Result<CommandStep, Failure>)
    requires
        scene.kind@ == "message"@ && !scene.answered && !scene.pending_turn || scene.kind@
            == "send-and-end"@ && !scene.pending_turn && !scene.mentioned ==> readable(
            scene.payload@,
        ),
    ensures
        text::seen(result) == step_of(
            scene.kind@,
            scene.payload@,
            scene.event@,
            scene.pending_turn,
            scene.answered,
            scene.mentioned,
        ),
{
    if *scene.kind == *"message" {
        if scene.answered {
            return Ok(CommandStep::Settle);
        }
        if scene.pending_turn {
            return Ok(CommandStep::Resume);
        }
        let message = read_message(scene.payload);
        let metadata = read_metadata(scene.payload, scene.event);
        if !crate::input::has_input(message.as_str(), &metadata) {
            return Err(Failure::fixed("The queued message contained no usable input"));
        }
        return Ok(CommandStep::Begin { message, metadata });
    }
    if *scene.kind == *"retry" {
        if scene.pending_turn {
            return Ok(CommandStep::Retry);
        }
        return Ok(CommandStep::Settle);
    }
    if *scene.kind == *"send-and-end" {
        if scene.pending_turn {
            return Err(
                Failure::fixed("The saved query must finish before this conversation can end"),
            );
        }
        if scene.mentioned {
            return Ok(CommandStep::Close { last: None });
        }
        let message = read_message(scene.payload);
        let metadata = read_metadata(scene.payload, scene.event);
        if !crate::input::has_input(message.as_str(), &metadata) {
            return Err(
                Failure::fixed("The final conversation command contained no usable input"),
            );
        }
        return Ok(CommandStep::Close { last: Some((message, metadata)) });
    }
    let mut message = "Unsupported browser conversation command ".to_owned();
    message.append(scene.kind);
    Err(Failure::new(message))
}

/// A message that the conversation has answered is not run again, whatever else the
/// command holds.
pub proof fn answered_messages_are_not_rerun(
    payload: JsonView,
    event: Seq<char>,
    pending_turn: bool,
    mentioned: bool,
)
    ensures
        step_of("message"@, payload, event, pending_turn, true, mentioned) == Ok::<
            StepView,
            Seq<char>,
        >(StepView::Settle),
{
}

/// A message that opens a turn opens it under the event of its command.
pub proof fn begun_turns_carry_their_event(
    payload: JsonView,
    event: Seq<char>,
    pending_turn: bool,
    answered: bool,
    mentioned: bool,
)
    ensures
        match step_of("message"@, payload, event, pending_turn, answered, mentioned) {
            Ok(StepView::Begin { metadata, .. }) => metadata.text_at("externalEventId"@) == Some(
                event,
            ),
            _ => true,
        },
{
}

/// What came of a turn.
#[derive(Debug)]
pub enum TurnOutcome {
    Finished,
    Stopped,
    Failed(ErrorReport),
}

/// What follows from a turn.
#[derive(Debug)]
pub enum AfterTurn {
    /// The turn is interrupted and its state written; then the command and the stop are
    /// completed with these outcomes.
    Interrupt { outcome: Json, stop: Json },
    /// The state is written with this orchestration record; then the command is
    /// completed with this outcome, or the failure is passed on. Where `must_persist`,
    /// a failure to write is passed on instead.
    Fail { orchestration: Json, must_persist: bool, completion: Option<Json> },
    /// The state is written with this orchestration record, the conversation is queued
    /// for the history, and the command is completed with this outcome.
    Close { orchestration: Json, outcome: Json },
    /// The command goes on to its completion.
    Settle,
}

/// The outcome of a command that the user stopped.
pub open spec fn user_stopped() -> JsonView {
    status("stopped"@).with("reason"@, JsonView::Text("user_stopped"@))
}

/// The outcome of a stop.
pub open spec fn stop_outcome(name: Seq<char>) -> JsonView {
    status(name).with("scope"@, JsonView::Text("turn"@))
}

/// The outcome of a stop of a turn.
pub fn turn_stop(name: &str) -> (outcome: Json)
    ensures
        outcome@ == stop_outcome(name@),
{
    status_of(name).with("scope", Json::text("turn"))
}

/// The outcome of a command that the user stopped.
pub fn stopped_by_user() -> (outcome: Json)
    ensures
        outcome@ == user_stopped(),
{
    status_of("stopped").with("reason", Json::text("user_stopped"))
}

/// Whether a failure is that of a cancelled operation.
pub open spec fn cancelled(error: ErrorReport) -> bool {
    error.origin matches errors::Origin::Service { code } && code@ == errors::CANCELLED@
}

/// The orchestration record of a session whose turn failed.
pub open spec fn failed_orchestration(error: ErrorReport) -> JsonView {
    let line = errors::cut(
        text::joined(error.causes.deep_view(), ": "@),
        errors::ERROR_LIMIT as nat,
    );
    if cancelled(error) {
        owned("stopped"@)
    } else if error.origin is RoundLimit {
        owned("stopped"@).with("lastError"@, JsonView::Text(line))
    } else {
        owned("retrying"@).with("lastError"@, JsonView::Text(line))
    }
}

/// What a command whose turn failed is completed with; nothing where it is tried
/// again.
pub open spec fn failed_outcome(error: ErrorReport) -> Option<JsonView> {
    if error.origin is RoundLimit {
        Some(status("stopped"@).with("reason"@, JsonView::Text("tool_loop_round_limit"@)))
    } else if cancelled(error) {
        Some(status("stopped"@))
    } else {
        None
    }
}

/// What follows from the turn of a command.
pub fn after_turn(outcome: &TurnOutcome, requires_ingress: bool) -> (next: AfterTurn)
    ensures
        match *outcome {
            TurnOutcome::Stopped => next matches AfterTurn::Interrupt { outcome, stop } && outcome@
                == user_stopped() && stop@ == stop_outcome("stopped"@),
            TurnOutcome::Failed(error) => next matches AfterTurn::Fail {
                orchestration,
                must_persist,
                completion,
            } && orchestration@ == failed_orchestration(error) && must_persist == (
            error.origin is RoundLimit) && completion.deep_view() == failed_outcome(error),
            TurnOutcome::Finished => if requires_ingress {
                next matches AfterTurn::Close { orchestration, outcome } && orchestration@ == owned(
                    "ending"@,
                ).with("reason"@, JsonView::Text("context-limit"@)) && outcome@ == status(
                    "closed"@,
                ).with("reason"@, JsonView::Text("context_limit"@))
            } else {
                next is Settle
            },
        },
{
    match outcome {
        TurnOutcome::Stopped => AfterTurn::Interrupt {
            outcome: stopped_by_user(),
            stop: turn_stop("stopped"),
        },
        TurnOutcome::Failed(error) => {
            let round_limit = errors::is_agent_loop_round_limit(error);
            let was_cancelled = errors::is_cancelled(error);
            let record = if was_cancelled {
                orchestration("stopped")
            } else if round_limit {
                orchestration("stopped").with(
                    "lastError",
                    Json::text(errors::bounded_error(error).as_str()),
                )
            } else {
                orchestration("retrying").with(
                    "lastError",
                    Json::text(errors::bounded_error(error).as_str()),
                )
            };
            let completion = if round_limit {
                Some(status_of("stopped").with("reason", Json::text("tool_loop_round_limit")))
            } else if was_cancelled {
                Some(status_of("stopped"))
            } else {
                None
            };
            AfterTurn::Fail { orchestration: record, must_persist: round_limit, completion }
        },
        TurnOutcome::Finished => {
            if requires_ingress {
                AfterTurn::Close {
                    orchestration: orchestration("ending").with(
                        "reason",
                        Json::text("context-limit"),
                    ),
                    outcome: status_of("closed").with("reason", Json::text("context_limit")),
                }
            } else {
                AfterTurn::Settle
            }
        },
    }
}

/// A failure is either final for the command, which is then completed, or the command
/// is tried again and says what it failed at.
pub proof fn failures_are_final_or_retried(error: ErrorReport)
    ensures
        failed_outcome(error) is None <==> failed_orchestration(error).text_at("status"@) == Some(
            "retrying"@,
        ),
{
    reveal_strlit("status");
    reveal_strlit("lastError");
    reveal_strlit("stopped");
    reveal_strlit("retrying");
    assert("status"@.len() == 6 && "lastError"@.len() == 9);
    assert("stopped"@.len() == 7 && "retrying"@.len() == 8);
}

/// What completes a command after its turn.
pub open spec fn settlement(kind: Seq<char>, answered: bool) -> Result<JsonView, Seq<char>> {
    if kind == "message"@ {
        if answered {
            Ok(status("answered"@))
        } else {
            Err("Kennedy completed the web turn without a recoverable response"@)
        }
    } else if kind == "retry"@ {
        Ok(status("retried"@))
    } else {
        Ok(status("closed"@))
    }
}

/// What completes a command after its turn. A message is complete only with a response
/// to it.
pub fn settle_command(kind: &str, answered: bool) -> (result: Result<Json, Failure>)
    ensures
        text::seen(result) == settlement(kind@, answered),
{
    if *kind == *"message" {
        if !answered {
            return Err(
                Failure::fixed("Kennedy completed the web turn without a recoverable response"),
            );
        }
        return Ok(status_of("answered"));
    }
    if *kind == *"retry" {
        return Ok(status_of("retried"));
    }
    Ok(status_of("closed"))
}

/// Whether a session is the worker's already; another is taken over before it goes on.
pub fn is_adopted(record: &Json) -> (yes: bool)
    ensures
        yes == (record@.text_at("owner"@) == Some("backend"@)),
{
    match record.text_at("owner") {
        Some(owner) => *owner == *"backend",
        None => false,
    }
}

/// A message that was answered is settled, one whose turn is pending is resumed, and any
/// other begins a turn with its text and its event, unless it holds nothing to answer.
pub proof fn messages_begin_a_turn_once(
    payload: JsonView,
    event: Seq<char>,
    pending_turn: bool,
    answered: bool,
    mentioned: bool,
)
    ensures
        ({
            let step = step_of("message"@, payload, event, pending_turn, answered, mentioned);
            let words = match payload.text_at("text"@) {
                Some(words) => words,
                None => ""@,
            };
            let metadata = payload.get("metadata"@);
            let attached = metadata is Some && metadata->0.array_at("attachments"@) is Some
                && metadata->0.array_at("attachments"@)->0.len() > 0;
            let media = metadata is Some && metadata->0.get("media"@) is Some;
            &&& answered ==> step == Ok::<StepView, Seq<char>>(StepView::Settle)
            &&& !answered && pending_turn ==> step == Ok::<StepView, Seq<char>>(StepView::Resume)
            &&& !answered && !pending_turn && (!text::blank(words) || attached || media) ==> {
                &&& step is Ok && step->Ok_0 is Begin
                &&& step->Ok_0->message == words
                &&& step->Ok_0->metadata.text_at("externalEventId"@) == Some(event)
            }
            &&& !answered && !pending_turn && text::blank(words) && !attached && !media ==> step
                is Err
        }),
{
    keys_differ();
}

/// The members of a message's metadata have different names.
proof fn keys_differ()
    ensures
        "externalEventId"@ != "attachments"@,
        "externalEventId"@ != "media"@,
{
    reveal_strlit("externalEventId");
    reveal_strlit("attachments");
    reveal_strlit("media");
    assert("externalEventId"@.len() == 15 && "attachments"@.len() == 11 && "media"@.len() == 5);
}

/// A retry takes up the pending turn, and has nothing to do without one. Sending and
/// ending waits for a pending turn, says its last words once, and refuses to say none.
/// No other command is known.
pub proof fn other_commands_retry_or_close(
    kind: Seq<char>,
    payload: JsonView,
    event: Seq<char>,
    pending_turn: bool,
    answered: bool,
    mentioned: bool,
)
    ensures
        ({
            let step = step_of(kind, payload, event, pending_turn, answered, mentioned);
            let words = match payload.text_at("text"@) {
                Some(words) => words,
                None => ""@,
            };
            let metadata = payload.get("metadata"@);
            let attached = metadata is Some && metadata->0.array_at("attachments"@) is Some
                && metadata->0.array_at("attachments"@)->0.len() > 0;
            let media = metadata is Some && metadata->0.get("media"@) is Some;
            &&& kind == "retry"@ && pending_turn ==> step == Ok::<StepView, Seq<char>>(
                StepView::Retry,
            )
            &&& kind == "retry"@ && !pending_turn ==> step == Ok::<StepView, Seq<char>>(
                StepView::Settle,
            )
            &&& kind == "send-and-end"@ && pending_turn ==> step is Err
            &&& kind == "send-and-end"@ && !pending_turn && mentioned ==> step == Ok::<
                StepView,
                Seq<char>,
            >(StepView::Close { last: None })
            &&& kind == "send-and-end"@ && !pending_turn && !mentioned && (!text::blank(words)
                || attached || media) ==> {
                &&& step is Ok && step->Ok_0 is Close && step->Ok_0->last is Some
                &&& match step->Ok_0->last->0 {
                    (message, data) => message == words && data.text_at("externalEventId"@)
                        == Some(event),
                }
            }
            &&& kind == "send-and-end"@ && !pending_turn && !mentioned && text::blank(words)
                && !attached && !media ==> step is Err
            &&& kind != "message"@ && kind != "retry"@ && kind != "send-and-end"@ ==> step is Err
        }),
{
    keys_differ();
    reveal_strlit("message");
    reveal_strlit("retry");
    reveal_strlit("send-and-end");
    assert("message"@.len() == 7 && "retry"@.len() == 5 && "send-and-end"@.len() == 12);
}

/// A message settles as answered only where it was, a retry as retried, and everything
/// else as closed.
pub proof fn commands_settle_by_their_kind(kind: Seq<char>, answered: bool)
    ensures
        kind == "message"@ && answered ==> settlement(kind, answered) is Ok && settlement(
            kind,
            answered,
        )->Ok_0.text_at("status"@) == Some("answered"@),
        kind == "message"@ && !answered ==> settlement(kind, answered) is Err,
        kind == "retry"@ ==> settlement(kind, answered) is Ok && settlement(
            kind,
            answered,
        )->Ok_0.text_at("status"@) == Some("retried"@),
        kind == "send-and-end"@ || kind == "end"@ ==> settlement(kind, answered) is Ok
            && settlement(kind, answered)->Ok_0.text_at("status"@) == Some("closed"@),
{
    reveal_strlit("message");
    reveal_strlit("retry");
    reveal_strlit("send-and-end");
    reveal_strlit("end");
    assert("message"@.len() == 7 && "retry"@.len() == 5 && "send-and-end"@.len() == 12);
    assert("end"@.len() == 3);
}

/// A turn that was cancelled, or that ran out of rounds, stops; any other failure is
/// retried. What failed is told in a line of at most a thousand characters, except of a
/// turn that was cancelled.
pub proof fn failed_turns_stop_or_retry(error: ErrorReport)
    ensures
        ({
            let shown = failed_orchestration(error);
            let stopped = error.origin is Service && error.origin->code@ == "operation_cancelled"@;
            &&& shown.text_at("owner"@) == Some("backend"@)
            &&& stopped || error.origin is RoundLimit ==> shown.text_at("status"@) == Some(
                "stopped"@,
            )
            &&& !stopped && !(error.origin is RoundLimit) ==> shown.text_at("status"@) == Some(
                "retrying"@,
            )
            &&& stopped ==> shown.get("lastError"@) is None
            &&& !stopped ==> shown.text_at("lastError"@) is Some
            &&& failed_outcome(error) is Some <==> stopped || error.origin is RoundLimit
            &&& error.origin is RoundLimit ==> failed_outcome(error)->0.text_at("reason"@) == Some(
                "tool_loop_round_limit"@,
            )
            &&& failed_outcome(error) is Some ==> failed_outcome(error)->0.text_at("status"@)
                == Some("stopped"@)
        }),
{
    reveal_strlit("owner");
    reveal_strlit("status");
    reveal_strlit("lastError");
    reveal_strlit("reason");
    assert("owner"@.len() == 5 && "status"@.len() == 6 && "lastError"@.len() == 9);
    assert("reason"@.len() == 6 && "reason"@[0] == 'r' && "status"@[0] == 's');
}

/// A conversation that ends keeps its state, and notes whether a turn of it was given up.
pub proof fn ending_states_note_given_up_turns(state: JsonView, key: Seq<char>)
    requires
        state is Object,
        key != "orchestration"@,
    ensures
        ({
            let ended = ending_state(state);
            let note = ended.get("orchestration"@);
            &&& ended.get(key) == state.get(key)
            &&& note is Some
            &&& note->0.text_at("status"@) == Some("ending"@)
            &&& note->0.text_at("owner"@) == Some("backend"@)
            &&& note->0.bool_at("abandonedPendingTurn"@) == Some(
                state.bool_at("pendingTurn"@) == Some(true),
            )
        }),
{
    reveal_strlit("owner");
    reveal_strlit("status");
    reveal_strlit("abandonedPendingTurn");
    assert("owner"@.len() == 5 && "status"@.len() == 6 && "abandonedPendingTurn"@.len() == 20);
}

/// A stopped turn says that it was its user who stopped it, and a stop what it stopped.
pub proof fn stops_say_what_they_stopped(name: Seq<char>)
    ensures
        user_stopped().text_at("status"@) == Some("stopped"@),
        user_stopped().text_at("reason"@) == Some("user_stopped"@),
        stop_outcome(name).text_at("status"@) == Some(name),
        stop_outcome(name).text_at("scope"@) == Some("turn"@),
        owned(name).text_at("owner"@) == Some("backend"@),
        owned(name).text_at("status"@) == Some(name),
        status(name).text_at("status"@) == Some(name),
{
    reveal_strlit("status");
    reveal_strlit("reason");
    reveal_strlit("scope");
    reveal_strlit("owner");
    assert("status"@.len() == 6 && "scope"@.len() == 5 && "owner"@.len() == 5);
    assert("status"@[0] == 's' && "reason"@[0] == 'r');
}

} // verus!
