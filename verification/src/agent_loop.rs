//! The rounds of one agent turn, as a machine that says what to do next.
//!
//! A turn runs in rounds. In each the model is asked once, may call tools while it
//! answers, and completes with an answer or without. The machine holds what decides
//! how a round goes on and how it ends; the caller talks to the provider, runs the
//! tools and writes the journal.

use crate::json::{Json, JsonView};
use crate::render;
use crate::render::Elapsed;
use crate::session::AgentMode;
use crate::text;
use crate::text::Failure;
use crate::transcript;
use vstd::prelude::*;

verus! {

/// The most rounds of one turn.
pub const AGENT_LOOP_ROUND_LIMIT: u64 = 100;

/// The notice that the context was too large.
pub const CONTEXT_OVERFLOW_WARNING: &'static str =
    "Context size was exceeded, some context has been dehydrated. The session is now at risk of destabilizing, please perform any cleanup tasks and end the session";

/// The label of the note that a session is to be committed as it is.
pub const INGRESS_FORCE_COMMIT_NOTE: &'static str = "ingress_force_commit";

/// What became of an attempt to fit the context into its limit.
#[derive(Clone, Copy, Debug, PartialEq, Eq, Structural)]
pub enum ContextRecovery {
    NotNeeded,
    Recovered,
    Irreducible,
}

/// What the journal says that can stop a turn.
#[derive(Clone, Copy, Debug, PartialEq, Eq, Structural)]
pub struct Halts {
    pub recovery: ContextRecovery,
    pub force_commit: bool,
    pub source_terminated: bool,
}

impl Halts {
    /// Whether a session of this mode stops here: its context cannot be reduced, an
    /// ingress session is to be committed, or another session has ended at its
    /// source.
    pub open spec fn stops(self, mode: AgentMode) -> bool {
        ||| self.recovery is Irreducible
        ||| mode is Ingress && self.force_commit
        ||| !(mode is Ingress) && self.source_terminated
    }

    /// Whether a session of this mode stops here.
    pub fn stop(&self, mode: &AgentMode) -> (yes: bool)
        ensures
            yes == self.stops(*mode),
    {
        matches!(self.recovery, ContextRecovery::Irreducible) || (mode.is_ingress()
            && self.force_commit) || (!mode.is_ingress() && self.source_terminated)
    }
}

/// The state of a turn.
#[derive(Debug)]
pub struct AgentLoop {
    pub rounds_used: u64,
    /// Whether the session ends after this round because its time is up.
    pub deadline_after_response: bool,
    /// Whether a tool has ended the session.
    pub end_session: bool,
    /// Whether a tool was called in this round.
    pub used_tool: bool,
    /// Whether an object was given to the user in this round.
    pub emitted_response: bool,
    /// The tool that waits for the contents of a file as the model's next output.
    pub pending_write: Option<String>,
}

/// How a round starts.
#[derive(Debug, PartialEq, Eq)]
pub enum RoundStart {
    /// Ask the model.
    Ask,
    /// The rounds are used up: an ingress session is committed as it is.
    ForceCommit,
    /// The rounds are used up.
    Exhausted,
}

/// What a finished tool call reports.
#[derive(Debug)]
pub struct ToolReport {
    /// Whether the call gave an object to the user.
    pub emitted: bool,
    pub ok: bool,
    pub end_session: bool,
    /// The tool that now waits for the contents of a file.
    pub awaits_write: Option<String>,
}

/// What the model's completion asks for.
#[derive(Debug, PartialEq, Eq)]
pub enum Completion {
    /// The output is the contents of the file that was waited for.
    Write { tool: String },
    /// The output is an answer to record.
    Answer { text: String },
    /// There is no output to record.
    Nothing,
}

/// How a round ends.
#[derive(Debug, PartialEq, Eq)]
pub enum RoundEnd {
    /// The turn is over, with this answer or with none.
    Finish { answer: Option<String> },
    /// The model did nothing.
    Idle,
    /// Another round follows.
    Continue,
}

/// The mathematical value of the end of a round.
pub enum EndView {
    Finish { answer: Option<Seq<char>> },
    Idle,
    Continue,
}

impl View for RoundEnd {
    type V = EndView;

    open spec fn view(&self) -> EndView {
        match *self {
            RoundEnd::Finish { answer } => EndView::Finish { answer: answer.deep_view() },
            RoundEnd::Idle => EndView::Idle,
            RoundEnd::Continue => EndView::Continue,
        }
    }
}

/// The mathematical value of a completion.
pub enum CompletionView {
    Write { tool: Seq<char> },
    Answer { text: Seq<char> },
    Nothing,
}

impl View for Completion {
    type V = CompletionView;

    open spec fn view(&self) -> CompletionView {
        match *self {
            Completion::Write { tool } => CompletionView::Write { tool: tool@ },
            Completion::Answer { text } => CompletionView::Answer { text: text@ },
            Completion::Nothing => CompletionView::Nothing,
        }
    }
}

/// How a round ends, after the model completed with `answer`, which may be empty.
pub open spec fn round_end(
    state: AgentLoop,
    mode: AgentMode,
    answer: Seq<char>,
    halts: Halts,
) -> EndView {
    let some_answer = if answer.len() > 0 {
        Some(answer)
    } else {
        None
    };
    if halts.stops(mode) {
        EndView::Finish { answer: None }
    } else if state.end_session || state.deadline_after_response {
        EndView::Finish { answer: some_answer }
    } else if mode is Conversation && answer.len() > 0 {
        EndView::Finish { answer: some_answer }
    } else if mode is Conversation && state.emitted_response {
        EndView::Finish { answer: None }
    } else if state.used_tool || mode is Ingress && answer.len() > 0 {
        EndView::Continue
    } else {
        EndView::Idle
    }
}

/// How the next round of a turn starts.
pub open spec fn round_start(rounds_used: u64, mode: AgentMode) -> RoundStart {
    if rounds_used < AGENT_LOOP_ROUND_LIMIT {
        RoundStart::Ask
    } else if mode is Ingress {
        RoundStart::ForceCommit
    } else {
        RoundStart::Exhausted
    }
}

/// Whether the model is asked in a round that was prepared.
pub open spec fn asks(mode: AgentMode, recovery: ContextRecovery, force_commit: bool) -> bool {
    !(recovery is Irreducible || mode is Ingress && force_commit)
}

/// Whether a session has ended once a tool finished.
pub open spec fn has_ended(ended: bool, report: ToolReport) -> bool {
    ended || report.ok && report.end_session
}

/// Whether something was given to the user once a tool finished.
pub open spec fn has_emitted(emitted: bool, report: ToolReport) -> bool {
    emitted || report.ok && report.emitted
}

/// What the model's output is: the contents of the file that were waited for, its answer,
/// or nothing.
pub open spec fn completion_of(pending_write: Option<Seq<char>>, output: Seq<char>) -> CompletionView {
    match pending_write {
        Some(tool) => CompletionView::Write { tool },
        None => if text::blank(output) {
            CompletionView::Nothing
        } else {
            CompletionView::Answer { text: text::trimmed(output) }
        },
    }
}

/// The refusal of a tool call while the contents of a file are waited for.
pub open spec fn write_pending(tool: Seq<char>) -> Seq<char> {
    tool
        + " is awaiting the complete file contents; no other Ktool can run before that output."@
}

impl AgentLoop {
    /// A turn that has used some rounds.
    pub fn resume(rounds_used: u64) -> (state: AgentLoop)
        ensures
            state.rounds_used == rounds_used,
            !state.deadline_after_response,
            !state.end_session,
            !state.used_tool,
            !state.emitted_response,
            state.pending_write is None,
    {
        AgentLoop {
            rounds_used,
            deadline_after_response: false,
            end_session: false,
            used_tool: false,
            emitted_response: false,
            pending_write: None,
        }
    }

    /// Starts the next round, if there is one left: no turn has more than a hundred.
    pub fn start_round(&mut self, mode: &AgentMode) -> (start: RoundStart)
        ensures
            start == round_start(old(self).rounds_used, *mode),
            old(self).rounds_used <= AGENT_LOOP_ROUND_LIMIT ==> final(self).rounds_used
                <= AGENT_LOOP_ROUND_LIMIT,
            match start {
                RoundStart::Ask => {
                    &&& old(self).rounds_used < AGENT_LOOP_ROUND_LIMIT
                    &&& final(self).rounds_used == old(self).rounds_used + 1
                    &&& !final(self).deadline_after_response
                    &&& !final(self).end_session
                    &&& !final(self).used_tool
                    &&& !final(self).emitted_response
                    &&& final(self).pending_write is None
                },
                RoundStart::ForceCommit => {
                    &&& old(self).rounds_used >= AGENT_LOOP_ROUND_LIMIT
                    &&& *mode is Ingress
                    &&& *final(self) == *old(self)
                },
                RoundStart::Exhausted => {
                    &&& old(self).rounds_used >= AGENT_LOOP_ROUND_LIMIT
                    &&& !(*mode is Ingress)
                    &&& *final(self) == *old(self)
                },
            },
    {
        if self.rounds_used >= AGENT_LOOP_ROUND_LIMIT {
            if mode.is_ingress() {
                return RoundStart::ForceCommit;
            }
            return RoundStart::Exhausted;
        }
        self.rounds_used = self.rounds_used + 1;
        self.deadline_after_response = false;
        self.end_session = false;
        self.used_tool = false;
        self.emitted_response = false;
        self.pending_write = None;
        RoundStart::Ask
    }

    /// Whether the model is asked, now that the context was made to fit. A turn stops
    /// before it asks where the context cannot be reduced, or an ingress session is to
    /// be committed.
    pub fn prepared(
        &mut self,
        mode: &AgentMode,
        deadline_reached: bool,
        recovery: ContextRecovery,
        force_commit: bool,
    ) -> (ask: bool)
        ensures
            ask == asks(*mode, recovery, force_commit),
            ask == !(recovery is Irreducible || *mode is Ingress && force_commit),
            final(self).deadline_after_response == (*mode is FreeTime && deadline_reached),
            final(self).rounds_used == old(self).rounds_used,
            final(self).end_session == old(self).end_session,
            final(self).used_tool == old(self).used_tool,
            final(self).emitted_response == old(self).emitted_response,
            final(self).pending_write == old(self).pending_write,
    {
        self.deadline_after_response = matches!(mode, AgentMode::FreeTime) && deadline_reached;
        !(matches!(recovery, ContextRecovery::Irreducible) || (mode.is_ingress() && force_commit))
    }

    /// Takes note of a tool call. While the contents of a file are waited for, no tool
    /// runs, and the refusal is the answer.
    pub fn tool_called(&mut self) -> (refusal: Option<Failure>)
        ensures
            final(self).used_tool,
            final(self).rounds_used == old(self).rounds_used,
            final(self).deadline_after_response == old(self).deadline_after_response,
            final(self).end_session == old(self).end_session,
            final(self).emitted_response == old(self).emitted_response,
            final(self).pending_write == old(self).pending_write,
            match old(self).pending_write {
                Some(tool) => refusal is Some && refusal->0@ == write_pending(tool@),
                None => refusal is None,
            },
    {
        self.used_tool = true;
        match &self.pending_write {
            Some(tool) => {
                let mut message = tool.clone();
                message.append(
                    " is awaiting the complete file contents; no other Ktool can run before that output.",
                );
                Some(Failure::new(message))
            },
            None => None,
        }
    }

    /// Takes note of a tool call that ran, and says whether the turn stops here.
    pub fn tool_finished(&mut self, mode: &AgentMode, report: ToolReport, halts: &Halts) -> (stop:
        bool)
        ensures
            stop == halts.stops(*mode),
            final(self).rounds_used == old(self).rounds_used,
            final(self).deadline_after_response == old(self).deadline_after_response,
            final(self).used_tool == old(self).used_tool,
            final(self).end_session == has_ended(old(self).end_session, report),
            final(self).emitted_response == has_emitted(old(self).emitted_response, report),
            final(self).end_session == (old(self).end_session || report.ok && report.end_session),
            final(self).emitted_response == (old(self).emitted_response || report.ok
                && report.emitted),
            final(self).pending_write == match report.awaits_write {
                Some(tool) => Some(tool),
                None => old(self).pending_write,
            },
    {
        self.end_session = self.end_session || (report.ok && report.end_session);
        self.emitted_response = self.emitted_response || (report.ok && report.emitted);
        if let Some(tool) = report.awaits_write {
            self.pending_write = Some(tool);
        }
        halts.stop(mode)
    }

    /// What the model's completion asks for.
    pub fn completed(&mut self, output: &str) -> (completion: Completion)
        ensures
            completion@ == completion_of(old(self).pending_write.deep_view(), output@),
            match old(self).pending_write {
                Some(tool) => completion is Write && completion->tool@ == tool@,
                None => if text::blank(output@) {
                    completion is Nothing
                } else {
                    completion is Answer && completion->text@ == text::trimmed(output@)
                },
            },
            final(self).pending_write is None,
            final(self).rounds_used == old(self).rounds_used,
            final(self).deadline_after_response == old(self).deadline_after_response,
            final(self).end_session == old(self).end_session,
            final(self).used_tool == old(self).used_tool,
            final(self).emitted_response == old(self).emitted_response,
    {
        match self.pending_write.take() {
            Some(tool) => Completion::Write { tool },
            None => {
                let inner = text::trim(output);
                if inner.is_empty() {
                    Completion::Nothing
                } else {
                    Completion::Answer { text: inner.to_owned() }
                }
            },
        }
    }

    /// How the round ends, after the answer, which may be empty, was recorded.
    pub fn end_round(&self, mode: &AgentMode, answer: &str, halts: &Halts) -> (end: RoundEnd)
        ensures
            end@ == round_end(*self, *mode, answer@, *halts),
    {
        if halts.stop(mode) {
            return RoundEnd::Finish { answer: None };
        }
        if self.end_session || self.deadline_after_response {
            if answer.is_empty() {
                return RoundEnd::Finish { answer: None };
            }
            return RoundEnd::Finish { answer: Some(answer.to_owned()) };
        }
        if mode.is_conversation() && !answer.is_empty() {
            return RoundEnd::Finish { answer: Some(answer.to_owned()) };
        }
        if mode.is_conversation() && self.emitted_response {
            return RoundEnd::Finish { answer: None };
        }
        if self.used_tool || (mode.is_ingress() && !answer.is_empty()) {
            RoundEnd::Continue
        } else {
            RoundEnd::Idle
        }
    }
}

/// What two recoveries come to: the answer's, unless none was needed there.
pub open spec fn recovery_of_both(write: ContextRecovery, answer: ContextRecovery) -> ContextRecovery {
    if answer is NotNeeded {
        write
    } else {
        answer
    }
}

/// The recovery that counts after a completion: that of the answer, unless none was
/// needed there.
pub fn completion_recovery(write: ContextRecovery, answer: ContextRecovery) -> (recovery:
    ContextRecovery)
    ensures
        recovery == recovery_of_both(write, answer),
        recovery == if answer is NotNeeded {
            write
        } else {
            answer
        },
{
    match answer {
        ContextRecovery::NotNeeded => write,
        other => other,
    }
}

/// The failure of a round in which the model did nothing.
pub fn idle_round() -> (failure: Failure)
    ensures
        failure@ == "provider completed without a response or tool call"@,
{
    Failure::fixed("provider completed without a response or tool call")
}

/// An answer never ends an ingress session by itself: a round with an answer that
/// nothing stops is followed by another.
pub proof fn ingress_answers_do_not_end_the_session(
    state: AgentLoop,
    mode: AgentMode,
    answer: Seq<char>,
    halts: Halts,
)
    requires
        mode is Ingress,
        answer.len() > 0,
        !halts.stops(mode),
        !state.end_session,
        !state.deadline_after_response,
    ensures
        round_end(state, mode, answer, halts) is Continue,
{
}

/// A round in which a tool was called is never idle, whatever the session, and a
/// round is idle only where nothing stopped or ended it and nothing was answered.
pub proof fn idle_rounds_call_no_tool(
    state: AgentLoop,
    mode: AgentMode,
    answer: Seq<char>,
    halts: Halts,
)
    ensures
        state.used_tool ==> !(round_end(state, mode, answer, halts) is Idle),
        round_end(state, mode, answer, halts) is Idle ==> {
            &&& !state.used_tool && !state.end_session && !state.deadline_after_response
            &&& !(halts.recovery is Irreducible)
            &&& mode is Conversation ==> answer.len() == 0 && !state.emitted_response
            &&& mode is Ingress ==> answer.len() == 0 && !halts.force_commit
            &&& !(mode is Ingress) ==> !halts.source_terminated
        },
{
}

/// A round with a tool call that nothing halts, that did not end the session and did
/// not meet its deadline is followed by another one, except in a conversation that
/// was answered or was given an object.
pub proof fn tool_rounds_are_followed_up(
    state: AgentLoop,
    mode: AgentMode,
    answer: Seq<char>,
    halts: Halts,
)
    requires
        state.used_tool,
        !state.end_session,
        !state.deadline_after_response,
        !(halts.recovery is Irreducible),
        mode is Ingress ==> !halts.force_commit,
        !(mode is Ingress) ==> !halts.source_terminated,
    ensures
        !(mode is Conversation) ==> round_end(state, mode, answer, halts) is Continue,
        answer.len() == 0 && !state.emitted_response ==> round_end(state, mode, answer, halts)
            is Continue,
        mode is Conversation && (answer.len() > 0 || state.emitted_response) ==> round_end(
            state,
            mode,
            answer,
            halts,
        ) is Finish,
{
}

/// A round ends its turn exactly where its context cannot be reduced, an ingress
/// session is to be committed, the source of another session has ended, a tool ended
/// the session, the time was up, or a conversation was answered or given an object.
/// It carries the model's answer wherever there is one and nothing halted the turn.
pub proof fn turns_finish_for_a_reason(
    state: AgentLoop,
    mode: AgentMode,
    answer: Seq<char>,
    halts: Halts,
)
    ensures
        ({
            let halted = halts.recovery is Irreducible || (if mode is Ingress {
                halts.force_commit
            } else {
                halts.source_terminated
            });
            let over = state.end_session || state.deadline_after_response;
            let served = mode is Conversation && (answer.len() > 0 || state.emitted_response);
            let end = round_end(state, mode, answer, halts);
            &&& end is Finish <==> halted || over || served
            &&& halted ==> end == EndView::Finish { answer: None }
            &&& end is Finish && !halted && answer.len() > 0 ==> end == EndView::Finish {
                answer: Some(answer),
            }
            &&& end is Finish && answer.len() == 0 ==> end == EndView::Finish { answer: None }
        }),
{
}

/// A turn ends with an answer only if the model gave that answer in this round, and
/// nothing stopped the turn.
pub proof fn answers_are_the_models_own(
    state: AgentLoop,
    mode: AgentMode,
    answer: Seq<char>,
    halts: Halts,
)
    ensures
        match round_end(state, mode, answer, halts) {
            EndView::Finish { answer: Some(given) } => given == answer && answer.len() > 0
                && !halts.stops(mode),
            _ => true,
        },
{
}

/// In a conversation the model's answer always ends the turn, and is its outcome
/// unless something stopped the turn.
pub proof fn conversation_answers_end_the_turn(
    state: AgentLoop,
    answer: Seq<char>,
    halts: Halts,
)
    requires
        answer.len() > 0,
    ensures
        round_end(state, AgentMode::Conversation, answer, halts) is Finish,
        !halts.stops(AgentMode::Conversation) ==> round_end(
            state,
            AgentMode::Conversation,
            answer,
            halts,
        )->answer == Some(answer),
{
}

/// The outcome of one tool call.
#[derive(Debug)]
pub struct ToolOutcome {
    pub text: String,
    pub store_result: bool,
    pub ok: bool,
    pub end_session: bool,
}

/// The outcome of a call that could not be understood.
pub fn invalid_call(failure: &Failure) -> (outcome: ToolOutcome)
    ensures
        outcome.text@ == "Invalid Ktool call: "@ + failure@,
        outcome.store_result,
        !outcome.ok,
        !outcome.end_session,
{
    let mut text = "Invalid Ktool call: ".to_owned();
    text.append(failure.message.as_str());
    ToolOutcome { text, store_result: true, ok: false, end_session: false }
}

/// The outcome of a call that was not run because the context cannot be reduced.
pub fn overflowed_call() -> (outcome: ToolOutcome)
    ensures
        outcome.text@ == CONTEXT_OVERFLOW_WARNING@,
        !outcome.store_result,
        !outcome.ok,
        !outcome.end_session,
{
    ToolOutcome {
        text: CONTEXT_OVERFLOW_WARNING.to_owned(),
        store_result: false,
        ok: false,
        end_session: false,
    }
}

/// The outcome of a call that failed. The result of loading nodes is never stored:
/// their boxes speak for themselves.
pub fn failed_call(name: &str, failure: &Failure) -> (outcome: ToolOutcome)
    ensures
        outcome.text@ == name@ + " failed: "@ + failure@,
        outcome.store_result == (name@ != "LoadNodes"@),
        !outcome.ok,
        !outcome.end_session,
{
    let mut text = name.to_owned();
    text.append(" failed: ");
    text.append(failure.message.as_str());
    ToolOutcome { text, store_result: *name != *"LoadNodes", ok: false, end_session: false }
}

/// An outcome as it is stored and shown: with its duration where the tool was slow,
/// and not stored where a source snapshot took its place.
pub fn settle_outcome(outcome: ToolOutcome, has_snapshot: bool, elapsed: Elapsed) -> (settled:
    ToolOutcome)
    requires
        elapsed.well_formed(),
    ensures
        settled.text@ == render::timed(outcome.text@, elapsed),
        settled.store_result == (outcome.store_result && !has_snapshot),
        settled.ok == outcome.ok,
        settled.end_session == outcome.end_session,
{
    let ToolOutcome { text, store_result, ok, end_session } = outcome;
    let mut text = text;
    render::append_slow_tool_duration(&mut text, elapsed);
    ToolOutcome { text, store_result: store_result && !has_snapshot, ok, end_session }
}

/// A tool result with the context warning behind it, where a warning came up during
/// the call and the result does not hold it yet.
pub open spec fn warned(result: Seq<char>, warning_added: bool) -> Seq<char> {
    if !warning_added || text::found(result, CONTEXT_OVERFLOW_WARNING@) is Some {
        result
    } else if result.len() == 0 {
        CONTEXT_OVERFLOW_WARNING@
    } else {
        result + "\n\n"@ + CONTEXT_OVERFLOW_WARNING@
    }
}

/// A tool result with the context warning behind it, where a warning came up during
/// the call and the result does not hold it yet.
pub fn with_context_warning(result: &str, warning_added: bool) -> (text: String)
    ensures
        text@ == warned(result@, warning_added),
{
    if !warning_added || text::contains(result, CONTEXT_OVERFLOW_WARNING) {
        return result.to_owned();
    }
    if result.is_empty() {
        return CONTEXT_OVERFLOW_WARNING.to_owned();
    }
    let mut text = result.to_owned();
    text.append("\n\n");
    text.append(CONTEXT_OVERFLOW_WARNING);
    text
}

/// How a turn ends for its session.
#[derive(Debug, PartialEq, Eq)]
pub enum TurnEnd {
    /// The turn is over, with this answer or with none; the session goes on.
    Done { answer: Option<String> },
    /// The session commits its edits and is complete.
    Commit,
    /// A conversational turn ended without any response.
    Silent,
}

/// The mathematical value of the end of a turn.
pub enum TurnEndView {
    Done { answer: Option<Seq<char>> },
    Commit,
    Silent,
}

impl View for TurnEnd {
    type V = TurnEndView;

    open spec fn view(&self) -> TurnEndView {
        match *self {
            TurnEnd::Done { answer } => TurnEndView::Done { answer: answer.deep_view() },
            TurnEnd::Commit => TurnEndView::Commit,
            TurnEnd::Silent => TurnEndView::Silent,
        }
    }
}

/// How a turn ends for its session. `responded` says whether the conversation holds
/// a response to the external event of the turn.
pub open spec fn turn_end(
    mode: AgentMode,
    source_terminated: bool,
    answer: Option<Seq<char>>,
    responded: bool,
) -> TurnEndView {
    if !(mode is Conversation) {
        TurnEndView::Commit
    } else if source_terminated {
        TurnEndView::Done { answer: None }
    } else if answer is Some || responded {
        TurnEndView::Done { answer }
    } else {
        TurnEndView::Silent
    }
}

/// How a turn ends for its session.
pub fn end_turn(
    mode: &AgentMode,
    source_terminated: bool,
    answer: Option<String>,
    responded: bool,
) -> (end: TurnEnd)
    ensures
        end@ == turn_end(*mode, source_terminated, answer.deep_view(), responded),
{
    if !mode.is_conversation() {
        return TurnEnd::Commit;
    }
    if source_terminated {
        return TurnEnd::Done { answer: None };
    }
    if answer.is_some() || responded {
        return TurnEnd::Done { answer };
    }
    TurnEnd::Silent
}

/// The failure of a conversational turn without any response.
pub fn silent_turn() -> (failure: Failure)
    ensures
        failure@ == "Kennedy ended a conversational turn without an assistant response"@,
{
    Failure::fixed("Kennedy ended a conversational turn without an assistant response")
}

/// The transcript entry of an answer.
pub open spec fn answer_entry(answer: Seq<char>, external_event_id: Option<Seq<char>>) -> JsonView {
    let entry = JsonView::Object(Map::empty()).with("role"@, JsonView::Text("kennedy"@)).with(
        "content"@,
        JsonView::Text(answer),
    );
    match external_event_id {
        Some(id) => entry.with("externalEventId"@, JsonView::Text(id)),
        None => entry,
    }
}

/// The transcript entry of an answer.
pub fn answer_transcript(answer: &str, external_event_id: Option<&str>) -> (entry: Json)
    ensures
        entry@ == answer_entry(answer@, external_event_id.deep_view()),
{
    let entry = Json::object().with("role", Json::text("kennedy")).with(
        "content",
        Json::text(answer),
    );
    match external_event_id {
        Some(id) => entry.with("externalEventId", Json::text(id)),
        None => entry,
    }
}

/// The rounds that a retried turn has used.
pub open spec fn rounds_for_retry(mode: AgentMode, rounds_used: u64) -> u64 {
    if mode is Conversation && rounds_used >= AGENT_LOOP_ROUND_LIMIT {
        0
    } else {
        rounds_used
    }
}

/// Whether the rounds of a conversational turn are used up when it is retried: then
/// they start over.
pub fn reset_exhausted_turn_rounds_for_retry(mode: &AgentMode, rounds_used: u64) -> (rounds: u64)
    ensures
        rounds == rounds_for_retry(*mode, rounds_used),
        rounds == if *mode is Conversation && rounds_used >= AGENT_LOOP_ROUND_LIMIT {
            0
        } else {
            rounds_used
        },
{
    if mode.is_conversation() && rounds_used >= AGENT_LOOP_ROUND_LIMIT {
        0
    } else {
        rounds_used
    }
}

/// What the context of a session is measured at.
#[derive(Debug)]
pub struct ContextMeasure {
    pub estimated_tokens: u64,
    pub limit_tokens: u64,
    /// The digest of the context as it would be submitted.
    pub projection_hash: String,
}

/// Whether the last recovery note says that this very context cannot be reduced.
pub open spec fn known_irreducible(note: Option<JsonView>, limit: u64, hash: Seq<char>) -> bool {
    match note {
        None => false,
        Some(value) => {
            &&& value.bool_at("irreducible"@) == Some(true)
            &&& value.u64_at("limitTokens"@) == Some(limit)
            &&& value.text_at("projectionHash"@) == Some(hash)
        },
    }
}

/// What is to be done about the size of a context.
#[derive(Debug, PartialEq, Eq)]
pub enum OverflowStep {
    /// It fits.
    Fits,
    /// It is known that it cannot be reduced.
    Irreducible,
    /// Warn, and dehydrate boxes.
    Recover,
}

/// What is done about the size of a context.
pub open spec fn overflow_step_of(
    estimated: u64,
    limit: u64,
    hash: Seq<char>,
    last_note: Option<JsonView>,
) -> OverflowStep {
    if estimated <= limit {
        OverflowStep::Fits
    } else if known_irreducible(last_note, limit, hash) {
        OverflowStep::Irreducible
    } else {
        OverflowStep::Recover
    }
}

/// What is to be done about the size of a context. `last_note` is the last note on a
/// recovery.
pub fn overflow_step(measure: &ContextMeasure, last_note: Option<&Json>) -> (step: OverflowStep)
    ensures
        step == overflow_step_of(
            measure.estimated_tokens,
            measure.limit_tokens,
            measure.projection_hash@,
            last_note.deep_view(),
        ),
        step == if measure.estimated_tokens <= measure.limit_tokens {
            OverflowStep::Fits
        } else if known_irreducible(
            last_note.deep_view(),
            measure.limit_tokens,
            measure.projection_hash@,
        ) {
            OverflowStep::Irreducible
        } else {
            OverflowStep::Recover
        },
{
    if measure.estimated_tokens <= measure.limit_tokens {
        return OverflowStep::Fits;
    }
    if let Some(note) = last_note {
        let irreducible = match note.bool_at("irreducible") {
            Some(flag) => flag,
            None => false,
        };
        let same_limit = match note.u64_at("limitTokens") {
            Some(limit) => limit == measure.limit_tokens,
            None => false,
        };
        let same_hash = match note.text_at("projectionHash") {
            Some(hash) => *hash == *measure.projection_hash.as_str(),
            None => false,
        };
        if irreducible && same_limit && same_hash {
            return OverflowStep::Irreducible;
        }
    }
    OverflowStep::Recover
}

/// The metadata of the box that warns of a context that was too large.
pub fn overflow_warning_metadata(measure: &ContextMeasure, external_event_id: Option<&str>) -> (
metadata: Json)
    ensures
        metadata@ == ({
            let plain = JsonView::Object(Map::empty()).with(
                "transcriptRole"@,
                JsonView::Text("system"@),
            ).with("contextOverflowWarning"@, JsonView::Bool(true)).with(
                "projectedTokens"@,
                JsonView::Integer(measure.estimated_tokens as int),
            ).with("limitTokens"@, JsonView::Integer(measure.limit_tokens as int));
            match external_event_id {
                Some(id) => plain.with("externalEventId"@, JsonView::Text(id@)),
                None => plain,
            }
        }),
{
    let metadata = Json::object().with("transcriptRole", Json::text("system")).with(
        "contextOverflowWarning",
        Json::Bool(true),
    ).with("projectedTokens", Json::unsigned(measure.estimated_tokens)).with(
        "limitTokens",
        Json::unsigned(measure.limit_tokens),
    );
    match external_event_id {
        Some(id) => metadata.with("externalEventId", Json::text(id)),
        None => metadata,
    }
}

/// The transcript entry that warns of a context that was too large.
pub open spec fn overflow_entry(external_event_id: Option<Seq<char>>) -> JsonView {
    let entry = JsonView::Object(Map::empty()).with("role"@, JsonView::Text("system"@)).with(
        "content"@,
        JsonView::Text(CONTEXT_OVERFLOW_WARNING@),
    ).with("contextOverflowWarning"@, JsonView::Bool(true));
    match external_event_id {
        Some(id) => entry.with("externalEventId"@, JsonView::Text(id)),
        None => entry,
    }
}

/// The transcript entry that warns of a context that was too large.
pub fn overflow_transcript(external_event_id: Option<&str>) -> (entry: Json)
    ensures
        entry@ == overflow_entry(external_event_id.deep_view()),
{
    let entry = Json::object().with("role", Json::text("system")).with(
        "content",
        Json::text(CONTEXT_OVERFLOW_WARNING),
    ).with("contextOverflowWarning", Json::Bool(true));
    match external_event_id {
        Some(id) => entry.with("externalEventId", Json::text(id)),
        None => entry,
    }
}

/// A context warning never ends the turn that it comes up in.
pub proof fn overflow_warnings_are_not_terminal(external_event_id: Option<Seq<char>>)
    ensures
        !crate::transcript::terminal(overflow_entry(external_event_id)),
{
    reveal_strlit("role");
    reveal_strlit("content");
    reveal_strlit("contextOverflowWarning");
    reveal_strlit("externalEventId");
    reveal_strlit("system");
    reveal_strlit("kennedy");
    assert("role"@.len() == 4);
    assert("content"@.len() == 7);
    assert("contextOverflowWarning"@.len() == 22);
    assert("externalEventId"@.len() == 15);
    assert("system"@.len() == 6);
    assert("kennedy"@.len() == 7);
}

/// The note on a recovery.
pub fn overflow_note(
    before_tokens: u64,
    estimated_tokens: u64,
    limit_tokens: u64,
    dehydrated_box_ids: Json,
    irreducible: bool,
    projection_hash: &str,
) -> (note: Json)
    ensures
        note@ == JsonView::Object(Map::empty()).with(
            "beforeTokens"@,
            JsonView::Integer(before_tokens as int),
        ).with("estimatedTokens"@, JsonView::Integer(estimated_tokens as int)).with(
            "limitTokens"@,
            JsonView::Integer(limit_tokens as int),
        ).with("dehydratedBoxIds"@, dehydrated_box_ids@).with(
            "irreducible"@,
            JsonView::Bool(irreducible),
        ).with("projectionHash"@, JsonView::Text(projection_hash@)),
        known_irreducible(Some(note@), limit_tokens, projection_hash@) == irreducible,
{
    let note = Json::object().with("beforeTokens", Json::unsigned(before_tokens)).with(
        "estimatedTokens",
        Json::unsigned(estimated_tokens),
    ).with("limitTokens", Json::unsigned(limit_tokens)).with(
        "dehydratedBoxIds",
        dehydrated_box_ids,
    ).with("irreducible", Json::Bool(irreducible)).with(
        "projectionHash",
        Json::text(projection_hash),
    );
    proof {
        reveal_strlit("beforeTokens");
        reveal_strlit("estimatedTokens");
        reveal_strlit("limitTokens");
        reveal_strlit("dehydratedBoxIds");
        reveal_strlit("irreducible");
        reveal_strlit("projectionHash");
        assert("limitTokens"@[0] == 'l');
        assert("irreducible"@[0] == 'i');
        assert("projectionHash"@[0] == 'p');
        assert("dehydratedBoxIds"@[0] == 'd');
    }
    note
}

/// What follows a recovery.
#[derive(Debug, PartialEq, Eq)]
pub enum OverflowEnd {
    /// The context fits again.
    Recovered,
    /// It does not, and the ingress session is to be committed as it is.
    ForceCommit,
    /// It does not, and the session ends at its source.
    Terminate,
    /// It does not, and the session has already ended at its source.
    Ended,
}

/// How the recovery of a context ends.
pub open spec fn overflow_end_of(
    mode: AgentMode,
    irreducible: bool,
    source_terminated: bool,
) -> OverflowEnd {
    if !irreducible {
        OverflowEnd::Recovered
    } else if mode is Ingress {
        OverflowEnd::ForceCommit
    } else if source_terminated {
        OverflowEnd::Ended
    } else {
        OverflowEnd::Terminate
    }
}

/// What follows a recovery.
pub fn overflow_end(mode: &AgentMode, irreducible: bool, source_terminated: bool) -> (end:
    OverflowEnd)
    ensures
        end == overflow_end_of(*mode, irreducible, source_terminated),
        end == if !irreducible {
            OverflowEnd::Recovered
        } else if *mode is Ingress {
            OverflowEnd::ForceCommit
        } else if source_terminated {
            OverflowEnd::Ended
        } else {
            OverflowEnd::Terminate
        },
{
    if !irreducible {
        OverflowEnd::Recovered
    } else if mode.is_ingress() {
        OverflowEnd::ForceCommit
    } else if source_terminated {
        OverflowEnd::Ended
    } else {
        OverflowEnd::Terminate
    }
}

/// The note that an ingress session is to be committed as it is, unless there is one
/// already.
pub fn force_commit_note(
    already_requested: bool,
    reason: &str,
    projected_tokens: u64,
    limit_tokens: u64,
) -> (note: Option<Json>)
    ensures
        note.deep_view() == if already_requested {
            None
        } else {
            Some(
                JsonView::Object(Map::empty()).with("reason"@, JsonView::Text(reason@)).with(
                    "projectedTokens"@,
                    JsonView::Integer(projected_tokens as int),
                ).with("limitTokens"@, JsonView::Integer(limit_tokens as int)),
            )
        },
{
    if already_requested {
        return None;
    }
    Some(
        Json::object().with("reason", Json::text(reason)).with(
            "projectedTokens",
            Json::unsigned(projected_tokens),
        ).with("limitTokens", Json::unsigned(limit_tokens)),
    )
}

/// The pinned boxes with the warning among them.
pub open spec fn pinned_with(pinned: Seq<u64>, warning: u64) -> Seq<u64> {
    if pinned.contains(warning) {
        pinned
    } else {
        pinned.push(warning)
    }
}

/// The boxes to keep while the context is reduced: those that were named, and the
/// warning.
pub fn pinned_boxes(pinned: &Vec<u64>, warning: u64) -> (pins: Vec<u64>)
    ensures
        pins@ == pinned_with(pinned@, warning),
        pins@ == if pinned@.contains(warning) {
            pinned@
        } else {
            pinned@.push(warning)
        },
{
    let mut pins: Vec<u64> = Vec::new();
    let mut found = false;
    let mut i: usize = 0;
    while i < pinned.len()
        invariant
            i <= pinned.len(),
            pins@ == pinned@.take(i as int),
            found == pinned@.take(i as int).contains(warning),
        decreases pinned.len() - i,
    {
        proof {
            let here = pinned@.take(i as int);
            let next = pinned@.take(i + 1);
            assert(next =~= here.push(pinned@[i as int]));
            if here.contains(warning) {
                let k = here.index_of(warning);
                assert(next[k] == warning);
            }
            if next.contains(warning) {
                let k = next.index_of(warning);
                if k < i {
                    assert(here[k] == warning);
                }
            }
            assert(next[i as int] == pinned@[i as int]);
        }
        if pinned[i] == warning {
            found = true;
        }
        pins.push(pinned[i]);
        i = i + 1;
    }
    assert(pinned@.take(pinned.len() as int) =~= pinned@);
    if !found {
        pins.push(warning);
    }
    pins
}

/// A turn has a hundred rounds: before that the model is asked, and after that an ingress
/// session is committed and any other turn is exhausted.
pub proof fn turns_have_a_hundred_rounds(rounds_used: u64, mode: AgentMode)
    ensures
        rounds_used < 100 <==> round_start(rounds_used, mode) is Ask,
        rounds_used >= 100 && mode is Ingress ==> round_start(rounds_used, mode) is ForceCommit,
        rounds_used >= 100 && !(mode is Ingress) ==> round_start(rounds_used, mode) is Exhausted,
{
}

/// A turn that is retried has its rounds back only where they were used up, and only in a
/// conversation; the model can then be asked again.
pub proof fn retried_conversations_have_rounds(rounds_used: u64, mode: AgentMode)
    ensures
        rounds_used < 100 ==> rounds_for_retry(mode, rounds_used) == rounds_used,
        !(mode is Conversation) ==> rounds_for_retry(mode, rounds_used) == rounds_used,
        mode is Conversation ==> round_start(rounds_for_retry(mode, rounds_used), mode) is Ask,
        mode is Conversation && rounds_used >= 100 ==> rounds_for_retry(mode, rounds_used) == 0,
{
}

/// The model is asked unless its context cannot be reduced or an ingress session is to be
/// committed.
pub proof fn the_model_is_asked_unless_halted(
    mode: AgentMode,
    recovery: ContextRecovery,
    force_commit: bool,
)
    ensures
        recovery is Irreducible ==> !asks(mode, recovery, force_commit),
        mode is Ingress && force_commit ==> !asks(mode, recovery, force_commit),
        !(recovery is Irreducible) && !(mode is Ingress) ==> asks(mode, recovery, force_commit),
        !(recovery is Irreducible) && !force_commit ==> asks(mode, recovery, force_commit),
{
}

/// A tool that failed neither ends a session nor gives anything to the user, one that
/// succeeded does what it reports, and nothing is taken back.
pub proof fn failed_tools_end_nothing(before: bool, report: ToolReport)
    ensures
        !report.ok ==> has_ended(before, report) == before && has_emitted(before, report) == before,
        before ==> has_ended(before, report) && has_emitted(before, report),
        report.ok && report.end_session ==> has_ended(before, report),
        report.ok && report.emitted ==> has_emitted(before, report),
        !before && !report.end_session ==> !has_ended(before, report),
        !before && !report.emitted ==> !has_emitted(before, report),
{
}

/// While a file is waited for, the output is its contents, whatever it says; otherwise it
/// is the answer, without the white space around it, or nothing where it is blank.
pub proof fn outputs_are_files_or_answers(
    pending_write: Option<Seq<char>>,
    lead: Seq<char>,
    inner: Seq<char>,
    tail: Seq<char>,
)
    requires
        forall|i: int| 0 <= i < lead.len() ==> text::is_space(#[trigger] lead[i]),
        forall|i: int| 0 <= i < tail.len() ==> text::is_space(#[trigger] tail[i]),
        inner.len() > 0 ==> !text::is_space(inner[0]) && !text::is_space(inner.last()),
    ensures
        ({
            let completion = completion_of(pending_write, lead + inner + tail);
            &&& pending_write is Some ==> completion == CompletionView::Write {
                tool: pending_write->0,
            }
            &&& pending_write is None && inner.len() > 0 ==> completion == CompletionView::Answer {
                text: inner,
            }
            &&& pending_write is None && inner.len() == 0 ==> completion is Nothing
        }),
{
    text::trimming_takes_outer_space(lead, inner, tail);
}

/// Of two recoveries the one that was needed counts, and the later one before the earlier.
pub proof fn needed_recoveries_count(write: ContextRecovery, answer: ContextRecovery)
    ensures
        answer is NotNeeded ==> recovery_of_both(write, answer) == write,
        answer is Recovered || answer is Irreducible ==> recovery_of_both(write, answer) == answer,
{
}

/// A result is given the context warning where one was added, behind what it says, and not
/// a second time.
pub proof fn warnings_are_added_once(result: Seq<char>, warning: Seq<char>)
    requires
        warning == CONTEXT_OVERFLOW_WARNING@,
    ensures
        warned(result, false) == result,
        text::found(result, warning) is Some ==> warned(result, true) == result,
        text::found(result, warning) is None && result.len() > 0 ==> warned(result, true) == result
            + "\n\n"@ + warning,
        text::found(result, warning) is None && result.len() == 0 ==> warned(result, true)
            == warning,
{
}

/// Only conversations end with an answer: the model's, unless their source has ended, and
/// none where something else was given to the user. One that gave nothing was silent, and
/// every other turn is committed.
pub proof fn turns_end_answered_or_committed(
    mode: AgentMode,
    source_terminated: bool,
    answer: Option<Seq<char>>,
    responded: bool,
)
    ensures
        ({
            let end = turn_end(mode, source_terminated, answer, responded);
            &&& !(mode is Conversation) <==> end is Commit
            &&& mode is Conversation && source_terminated ==> end == TurnEndView::Done {
                answer: None,
            }
            &&& mode is Conversation && !source_terminated && answer is Some ==> end
                == TurnEndView::Done { answer }
            &&& mode is Conversation && !source_terminated && answer is None && responded ==> end
                == TurnEndView::Done { answer: None }
            &&& mode is Conversation && !source_terminated && answer is None && !responded ==> end
                is Silent
        }),
{
}

/// An answer is recorded as Kennedy's, with its words, for its event: it is a response to
/// that event, and closes it.
pub proof fn recorded_answers_close_their_event(
    answer: Seq<char>,
    id: Seq<char>,
    entries: Seq<JsonView>,
)
    ensures
        answer_entry(answer, Some(id)).text_at("role"@) == Some("kennedy"@),
        answer_entry(answer, Some(id)).text_at("content"@) == Some(answer),
        answer_entry(answer, None).text_at("content"@) == Some(answer),
        answer_entry(answer, None).get("externalEventId"@) is None,
        transcript::responses(seq![answer_entry(answer, Some(id))], id) == seq![
            answer_entry(answer, Some(id)),
        ],
        transcript::answers(entries.push(answer_entry(answer, Some(id)))).answered.contains(id),
        !transcript::answers(entries.push(answer_entry(answer, Some(id)))).open.contains(id),
{
    reveal_strlit("role");
    reveal_strlit("content");
    reveal_strlit("externalEventId");
    assert("role"@.len() == 4 && "content"@.len() == 7 && "externalEventId"@.len() == 15);
    let entry = answer_entry(answer, Some(id));
    transcript::single_responses(entry, id);
    transcript::answered_events_are_closed(entries, entry, id);
    transcript::open_events_are_unanswered(entries.push(entry));
}

/// A context within its limit is left alone. One over it is reduced, unless the last note
/// says of this very limit and projection that it cannot be.
pub proof fn contexts_over_their_limit_are_reduced(
    estimated: u64,
    limit: u64,
    hash: Seq<char>,
    note: Option<JsonView>,
)
    ensures
        ({
            let step = overflow_step_of(estimated, limit, hash, note);
            &&& estimated <= limit <==> step is Fits
            &&& estimated > limit && note is None ==> step is Recover
            &&& estimated > limit && note is Some && note->0.bool_at("irreducible"@) == Some(true)
                && note->0.u64_at("limitTokens"@) == Some(limit) && note->0.text_at(
                "projectionHash"@,
            ) == Some(hash) ==> step is Irreducible
            &&& estimated > limit && note is Some && (note->0.bool_at("irreducible"@) != Some(true)
                || note->0.u64_at("limitTokens"@) != Some(limit) || note->0.text_at(
                "projectionHash"@,
            ) != Some(hash)) ==> step is Recover
        }),
{
}

/// A context that was reduced is recovered; one that could not be ends an ingress session
/// by its commit, and any other by ending its source, once.
pub proof fn irreducible_contexts_end_their_session(
    mode: AgentMode,
    irreducible: bool,
    source_terminated: bool,
)
    ensures
        ({
            let end = overflow_end_of(mode, irreducible, source_terminated);
            &&& !irreducible <==> end is Recovered
            &&& irreducible && mode is Ingress ==> end is ForceCommit
            &&& irreducible && !(mode is Ingress) && source_terminated ==> end is Ended
            &&& irreducible && !(mode is Ingress) && !source_terminated ==> end is Terminate
        }),
{
}

/// The warning is pinned once, behind what was pinned already.
pub proof fn warnings_are_pinned_once(pinned: Seq<u64>, warning: u64)
    ensures
        pinned_with(pinned, warning).contains(warning),
        pinned.contains(warning) ==> pinned_with(pinned, warning) == pinned,
        !pinned.contains(warning) ==> pinned_with(pinned, warning) == pinned.push(warning),
        pinned.no_duplicates() ==> pinned_with(pinned, warning).no_duplicates(),
{
    let all = pinned.push(warning);
    assert(all[pinned.len() as int] == warning);
    if pinned.no_duplicates() && !pinned.contains(warning) {
        assert forall|i: int, j: int|
            0 <= i < all.len() && 0 <= j < all.len() && i != j implies all[i] != all[j] by {
            if i < pinned.len() {
                assert(pinned.contains(pinned[i]));
            }
            if j < pinned.len() {
                assert(pinned.contains(pinned[j]));
            }
        }
    }
}

/// The warning of a context that grew too large is the system's, and is marked as such.
pub proof fn overflow_warnings_are_marked(id: Seq<char>)
    ensures
        overflow_entry(None).text_at("role"@) == Some("system"@),
        overflow_entry(None).text_at("content"@) == Some(CONTEXT_OVERFLOW_WARNING@),
        overflow_entry(None).bool_at("contextOverflowWarning"@) == Some(true),
        overflow_entry(None).get("externalEventId"@) is None,
        overflow_entry(Some(id)).text_at("role"@) == Some("system"@),
        overflow_entry(Some(id)).bool_at("contextOverflowWarning"@) == Some(true),
        overflow_entry(Some(id)).text_at("externalEventId"@) == Some(id),
{
    reveal_strlit("role");
    reveal_strlit("content");
    reveal_strlit("contextOverflowWarning");
    reveal_strlit("externalEventId");
    assert("role"@.len() == 4);
    assert("content"@.len() == 7);
    assert("contextOverflowWarning"@.len() == 22);
    assert("externalEventId"@.len() == 15);
}

} // verus!
