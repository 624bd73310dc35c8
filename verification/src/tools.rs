//! The tools a session offers: which may be called, and what each call asks for.

use crate::arguments;
use crate::arguments::ToolCall;
use crate::delivery;
use crate::delivery::{ColdMessage, RecipientView, ResolvedObject};
use crate::ids::{Readings, ReadingsView};
use crate::json::{Json, JsonView};
use crate::objects;
use crate::session::AgentMode;
use crate::text;
use crate::text::Failure;
use crate::transcript::BoxContent;
use vstd::prelude::*;

verus! {

/// The most nodes whose descriptions a subagent is given.
pub const SUBAGENT_CONTEXT_NODE_LIMIT: usize = 64;

/// The tools that other services define, by name.
#[derive(Debug)]
pub struct ToolCatalog {
    /// The tools of the speech classifier.
    pub speech: Vec<String>,
    /// The tools that manage source code.
    pub managed: Vec<String>,
    /// The one among the managed tools that runs a program on objects.
    pub run_binary: String,
    /// The one among the managed tools that attaches an object to a library.
    pub attach_object: String,
}

/// One of the edits of the staged graph.
#[derive(Clone, Copy, Debug, PartialEq, Eq)]
pub enum GraphEdit {
    Connect,
    Consolidate,
    SetFixed,
    Create,
    Update,
}

/// What a subagent is to do.
#[derive(Debug)]
pub struct SubagentRequest {
    pub model: String,
    pub reasoning_effort: String,
    pub task: String,
    pub context_node_ids: Vec<String>,
}

/// A question about one object.
#[derive(Debug)]
pub struct MediaQuestion {
    pub object_id: String,
    pub model: String,
    pub prompt: String,
}

/// What a tool call asks for, with its arguments read.
#[derive(Debug)]
pub enum ToolAction {
    DirectMessage(ColdMessage),
    GroupMessage(ColdMessage),
    Subagent(SubagentRequest),
    /// Ends the session; a self-time session may leave a message for the next one.
    EndSession { message: Option<String> },
    Dehydrate { boxes: Vec<u64> },
    Summarize { id: u64, summary: String },
    Hydrate { id: u64 },
    IntoObjects { boxes: Vec<u64> },
    LoadNodes { ids: Vec<String> },
    Emit { object_id: String },
    WebSearch { user: String, model: String, question: String },
    WebFetch { user: String, url: String },
    StageMedia { chat: i64, number: i64, reference: Json },
    Transcribe(MediaQuestion),
    Annotate(MediaQuestion),
    GenerateImage { model: String, prompt: String, references: Vec<String> },
    Extract { object_id: String },
    Speech,
    Edit(GraphEdit),
    Managed,
}

/// The mathematical value of an action.
pub enum ActionView {
    DirectMessage((RecipientView, Seq<char>, Seq<(Seq<char>, Option<Seq<char>>)>)),
    GroupMessage((RecipientView, Seq<char>, Seq<(Seq<char>, Option<Seq<char>>)>)),
    Subagent {
        model: Seq<char>,
        reasoning_effort: Seq<char>,
        task: Seq<char>,
        context_node_ids: Seq<Seq<char>>,
    },
    EndSession { message: Option<Seq<char>> },
    Dehydrate { boxes: Seq<u64> },
    Summarize { id: u64, summary: Seq<char> },
    Hydrate { id: u64 },
    IntoObjects { boxes: Seq<u64> },
    LoadNodes { ids: Seq<Seq<char>> },
    Emit { object_id: Seq<char> },
    WebSearch { user: Seq<char>, model: Seq<char>, question: Seq<char> },
    WebFetch { user: Seq<char>, url: Seq<char> },
    StageMedia { chat: i64, number: i64, reference: JsonView },
    Transcribe { object_id: Seq<char>, model: Seq<char>, prompt: Seq<char> },
    Annotate { object_id: Seq<char>, model: Seq<char>, prompt: Seq<char> },
    GenerateImage { model: Seq<char>, prompt: Seq<char>, references: Seq<Seq<char>> },
    Extract { object_id: Seq<char> },
    Speech,
    Edit(GraphEdit),
    Managed,
}

impl DeepView for ToolAction {
    type V = ActionView;

    open spec fn deep_view(&self) -> ActionView {
        match *self {
            ToolAction::DirectMessage(message) => ActionView::DirectMessage(message.deep_view()),
            ToolAction::GroupMessage(message) => ActionView::GroupMessage(message.deep_view()),
            ToolAction::Subagent(request) => ActionView::Subagent {
                model: request.model@,
                reasoning_effort: request.reasoning_effort@,
                task: request.task@,
                context_node_ids: request.context_node_ids.deep_view(),
            },
            ToolAction::EndSession { message } => ActionView::EndSession {
                message: message.deep_view(),
            },
            ToolAction::Dehydrate { boxes } => ActionView::Dehydrate { boxes: boxes@ },
            ToolAction::Summarize { id, summary } => ActionView::Summarize { id, summary: summary@ },
            ToolAction::Hydrate { id } => ActionView::Hydrate { id },
            ToolAction::IntoObjects { boxes } => ActionView::IntoObjects { boxes: boxes@ },
            ToolAction::LoadNodes { ids } => ActionView::LoadNodes { ids: ids.deep_view() },
            ToolAction::Emit { object_id } => ActionView::Emit { object_id: object_id@ },
            ToolAction::WebSearch { user, model, question } => ActionView::WebSearch {
                user: user@,
                model: model@,
                question: question@,
            },
            ToolAction::WebFetch { user, url } => ActionView::WebFetch { user: user@, url: url@ },
            ToolAction::StageMedia { chat, number, reference } => ActionView::StageMedia {
                chat,
                number,
                reference: reference@,
            },
            ToolAction::Transcribe(question) => ActionView::Transcribe {
                object_id: question.object_id@,
                model: question.model@,
                prompt: question.prompt@,
            },
            ToolAction::Annotate(question) => ActionView::Annotate {
                object_id: question.object_id@,
                model: question.model@,
                prompt: question.prompt@,
            },
            ToolAction::GenerateImage { model, prompt, references } => ActionView::GenerateImage {
                model: model@,
                prompt: prompt@,
                references: references.deep_view(),
            },
            ToolAction::Extract { object_id } => ActionView::Extract { object_id: object_id@ },
            ToolAction::Speech => ActionView::Speech,
            ToolAction::Edit(edit) => ActionView::Edit(edit),
            ToolAction::Managed => ActionView::Managed,
        }
    }
}

/// What the arguments of a call are read against.
#[derive(Debug)]
pub struct ToolScene<'a> {
    pub mode: &'a AgentMode,
    pub roots: &'a Vec<String>,
    pub reasoning_effort: &'a str,
    pub group_context: &'a Json,
    pub readings: &'a Readings,
}

/// The edit that a tool makes, where it makes one.
pub open spec fn edit_named(name: Seq<char>) -> Option<GraphEdit> {
    if name == "ConnectNodes"@ {
        Some(GraphEdit::Connect)
    } else if name == "ConsolidateFanout"@ {
        Some(GraphEdit::Consolidate)
    } else if name == "SetFixedConnection"@ {
        Some(GraphEdit::SetFixed)
    } else if name == "CreateNode"@ {
        Some(GraphEdit::Create)
    } else if name == "UpdateNode"@ {
        Some(GraphEdit::Update)
    } else {
        None
    }
}

/// The edit that a tool makes, where it makes one.
pub fn graph_edit(name: &str) -> (edit: Option<GraphEdit>)
    ensures
        edit == edit_named(name@),
{
    if *name == *"ConnectNodes" {
        Some(GraphEdit::Connect)
    } else if *name == *"ConsolidateFanout" {
        Some(GraphEdit::Consolidate)
    } else if *name == *"SetFixedConnection" {
        Some(GraphEdit::SetFixed)
    } else if *name == *"CreateNode" {
        Some(GraphEdit::Create)
    } else if *name == *"UpdateNode" {
        Some(GraphEdit::Update)
    } else {
        None
    }
}

/// Whether a tool may be called in this mode, or why not.
pub open spec fn allowed(mode: AgentMode, name: Seq<char>) -> Result<(), Seq<char>> {
    if mode is Conversation && edit_named(name) is Some {
        Err(
            name
                + " requires the global Kweb write lane and is unavailable in a read-only conversation"@,
        )
    } else if mode is Conversation && name == "EndSession"@ {
        Err("EndSession is unavailable in a conversation"@)
    } else {
        Ok(())
    }
}

/// Checks that a tool may be called in this mode.
pub fn assert_tool_allowed(mode: &AgentMode, name: &str) -> (outcome: Result<(), Failure>)
    ensures
        arguments::checked(outcome) == allowed(*mode, name@),
{
    if mode.is_conversation() && graph_edit(name).is_some() {
        let mut message = name.to_owned();
        message.append(
            " requires the global Kweb write lane and is unavailable in a read-only conversation",
        );
        return Err(Failure::new(message));
    }
    if mode.is_conversation() && *name == *"EndSession" {
        return Err(Failure::fixed("EndSession is unavailable in a conversation"));
    }
    Ok(())
}

/// The request for a subagent.
pub open spec fn subagent_of(
    arguments: JsonView,
    reasoning_effort: Seq<char>,
    readings: ReadingsView,
) -> Result<ActionView, Seq<char>> {
    match arguments::shape(
        arguments,
        seq!["model"@, "contextNodeIds"@, "task"@],
        seq!["reasoningEffort"@],
    ) {
        Err(message) => Err(message),
        Ok(_) => match arguments::nonempty(arguments, "model"@, 128) {
            Err(message) => Err(message),
            Ok(model) => match (if arguments.get("reasoningEffort"@) is Some {
                arguments::nonempty(arguments, "reasoningEffort"@, 32)
            } else {
                Ok(reasoning_effort)
            }) {
                Err(message) => Err(message),
                Ok(effort) => match arguments::bounded_nonempty(arguments, "task"@, 100_000) {
                    Err(message) => Err(message),
                    Ok(task) => match arguments::bounded_node_ids(
                        arguments,
                        "contextNodeIds"@,
                        SUBAGENT_CONTEXT_NODE_LIMIT as nat,
                        readings,
                    ) {
                        Err(message) => Err(message),
                        Ok(nodes) => Ok(
                            ActionView::Subagent {
                                model,
                                reasoning_effort: effort,
                                task,
                                context_node_ids: nodes,
                            },
                        ),
                    },
                },
            },
        },
    }
}

/// The request for a subagent. Where it names no reasoning effort, it has the
/// session's.
pub fn read_subagent(arguments: &Json, reasoning_effort: &str, readings: &Readings) -> (result:
    Result<ToolAction, Failure>)
    ensures
        text::seen(result) == subagent_of(arguments@, reasoning_effort@, readings@),
{
    proof {
        assert(text::views((&["model", "contextNodeIds", "task"])@) =~= seq![
            "model"@,
            "contextNodeIds"@,
            "task"@,
        ]);
        assert(text::views((&["reasoningEffort"])@) =~= seq!["reasoningEffort"@]);
    }
    if let Err(failure) = arguments::validate_arguments(
        arguments,
        &["model", "contextNodeIds", "task"],
        &["reasoningEffort"],
    ) {
        return Err(failure);
    }
    let model = match arguments::nonempty_string(arguments, "model", 128) {
        Err(failure) => return Err(failure),
        Ok(model) => model,
    };
    let effort = match arguments.get("reasoningEffort") {
        Some(_) => match arguments::nonempty_string(arguments, "reasoningEffort", 32) {
            Err(failure) => return Err(failure),
            Ok(effort) => effort,
        },
        None => reasoning_effort.to_owned(),
    };
    let task = match arguments::bounded_nonempty_string(arguments, "task", 100_000) {
        Err(failure) => return Err(failure),
        Ok(task) => task,
    };
    let nodes = match arguments::canonical_node_id_array(
        arguments,
        "contextNodeIds",
        SUBAGENT_CONTEXT_NODE_LIMIT,
        readings,
    ) {
        Err(failure) => return Err(failure),
        Ok(nodes) => nodes,
    };
    Ok(
        ToolAction::Subagent(
            SubagentRequest { model, reasoning_effort: effort, task, context_node_ids: nodes },
        ),
    )
}

/// The message that a self-time session leaves for the next one.
pub open spec fn parting_message(mode: AgentMode, arguments: JsonView) -> Option<Seq<char>> {
    if mode is FreeTime {
        match arguments.text_at("message"@) {
            Some(message) => if text::blank(message) {
                None
            } else {
                Some(message)
            },
            None => None,
        }
    } else {
        None
    }
}

/// The end of a session.
pub open spec fn ending_of(mode: AgentMode, arguments: JsonView) -> Result<ActionView, Seq<char>> {
    match arguments::shape(arguments, Seq::empty(), seq!["message"@]) {
        Err(message) => Err(message),
        Ok(_) => if mode is Conversation {
            Err("EndSession is only available during an autonomous or history-ingress session"@)
        } else {
            Ok(ActionView::EndSession { message: parting_message(mode, arguments) })
        },
    }
}

fn read_ending(mode: &AgentMode, arguments: &Json) -> (result: Result<ToolAction, Failure>)
    ensures
        text::seen(result) == ending_of(*mode, arguments@),
{
    proof {
        assert(text::views((&[])@) =~= Seq::empty());
        assert(text::views((&["message"])@) =~= seq!["message"@]);
    }
    if let Err(failure) = arguments::validate_arguments(arguments, &[], &["message"]) {
        return Err(failure);
    }
    if mode.is_conversation() {
        return Err(
            Failure::fixed(
                "EndSession is only available during an autonomous or history-ingress session",
            ),
        );
    }
    let mut message: Option<String> = None;
    if matches!(mode, AgentMode::FreeTime) {
        if let Some(text) = arguments.text_at("message") {
            if !text::is_blank(text) {
                message = Some(text.to_owned());
            }
        }
    }
    Ok(ToolAction::EndSession { message })
}

/// The boxes that a call names.
pub open spec fn boxes_of(arguments: JsonView) -> Result<Seq<u64>, Seq<char>> {
    match arguments::shape(arguments, seq!["boxIds"@], Seq::empty()) {
        Err(message) => Err(message),
        Ok(_) => arguments::box_ids(arguments, "boxIds"@),
    }
}

fn read_boxes(arguments: &Json) -> (result: Result<Vec<u64>, Failure>)
    ensures
        match result {
            Ok(ids) => boxes_of(arguments@) == Ok::<Seq<u64>, Seq<char>>(ids@),
            Err(failure) => boxes_of(arguments@) == Err::<Seq<u64>, Seq<char>>(failure@),
        },
{
    proof {
        assert(text::views((&["boxIds"])@) =~= seq!["boxIds"@]);
        assert(text::views((&[])@) =~= Seq::empty());
    }
    if let Err(failure) = arguments::validate_arguments(arguments, &["boxIds"], &[]) {
        return Err(failure);
    }
    let result = arguments::box_id_array(arguments, "boxIds");
    assert(result is Ok ==> result->Ok_0.deep_view() =~= result->Ok_0@);
    result
}

/// The summary of a box.
pub open spec fn summary_of(arguments: JsonView) -> Result<ActionView, Seq<char>> {
    match arguments::shape(arguments, seq!["boxId"@, "summary"@], Seq::empty()) {
        Err(message) => Err(message),
        Ok(_) => match arguments::positive(arguments, "boxId"@) {
            Err(message) => Err(message),
            Ok(id) => match arguments::nonempty(arguments, "summary"@, 1_000_000) {
                Err(message) => Err(message),
                Ok(summary) => Ok(ActionView::Summarize { id, summary }),
            },
        },
    }
}

fn read_summary(arguments: &Json) -> (result: Result<ToolAction, Failure>)
    ensures
        text::seen(result) == summary_of(arguments@),
{
    proof {
        assert(text::views((&["boxId", "summary"])@) =~= seq!["boxId"@, "summary"@]);
        assert(text::views((&[])@) =~= Seq::empty());
    }
    if let Err(failure) = arguments::validate_arguments(arguments, &["boxId", "summary"], &[]) {
        return Err(failure);
    }
    let id = match arguments::box_id(arguments, "boxId") {
        Err(failure) => return Err(failure),
        Ok(id) => id,
    };
    let summary = match arguments::nonempty_string(arguments, "summary", 1_000_000) {
        Err(failure) => return Err(failure),
        Ok(summary) => summary,
    };
    Ok(ToolAction::Summarize { id, summary })
}

/// The box to bring back whole.
pub open spec fn hydration_of(arguments: JsonView) -> Result<ActionView, Seq<char>> {
    match arguments::shape(arguments, seq!["boxId"@], Seq::empty()) {
        Err(message) => Err(message),
        Ok(_) => match arguments::positive(arguments, "boxId"@) {
            Err(message) => Err(message),
            Ok(id) => Ok(ActionView::Hydrate { id }),
        },
    }
}

fn read_hydration(arguments: &Json) -> (result: Result<ToolAction, Failure>)
    ensures
        text::seen(result) == hydration_of(arguments@),
{
    proof {
        assert(text::views((&["boxId"])@) =~= seq!["boxId"@]);
        assert(text::views((&[])@) =~= Seq::empty());
    }
    if let Err(failure) = arguments::validate_arguments(arguments, &["boxId"], &[]) {
        return Err(failure);
    }
    match arguments::box_id(arguments, "boxId") {
        Err(failure) => Err(failure),
        Ok(id) => Ok(ToolAction::Hydrate { id }),
    }
}

/// The nodes to load.
pub open spec fn loading_of(arguments: JsonView, readings: ReadingsView) -> Result<
    ActionView,
    Seq<char>,
> {
    match arguments::shape(arguments, seq!["identifiers"@], Seq::empty()) {
        Err(message) => Err(message),
        Ok(_) => match arguments::some_node_ids(arguments, "identifiers"@, readings) {
            Err(message) => Err(message),
            Ok(ids) => Ok(ActionView::LoadNodes { ids }),
        },
    }
}

fn read_loading(arguments: &Json, readings: &Readings) -> (result: Result<ToolAction, Failure>)
    ensures
        text::seen(result) == loading_of(arguments@, readings@),
{
    proof {
        assert(text::views((&["identifiers"])@) =~= seq!["identifiers"@]);
        assert(text::views((&[])@) =~= Seq::empty());
    }
    if let Err(failure) = arguments::validate_arguments(arguments, &["identifiers"], &[]) {
        return Err(failure);
    }
    match arguments::canonical_node_id_list(arguments, "identifiers", readings) {
        Err(failure) => Err(failure),
        Ok(ids) => Ok(ToolAction::LoadNodes { ids }),
    }
}

/// The object to hand to the user.
pub open spec fn emission_of(mode: AgentMode, arguments: JsonView) -> Result<
    ActionView,
    Seq<char>,
> {
    match arguments::shape(arguments, seq!["objectId"@], seq!["fileName"@]) {
        Err(message) => Err(message),
        Ok(_) => if !(mode is Conversation) {
            Err("EmitObject is only available in a conversation"@)
        } else {
            match arguments::nonempty(arguments, "objectId"@, 64) {
                Err(message) => Err(message),
                Ok(object_id) => Ok(ActionView::Emit { object_id }),
            }
        },
    }
}

fn read_emission(mode: &AgentMode, arguments: &Json) -> (result: Result<ToolAction, Failure>)
    ensures
        text::seen(result) == emission_of(*mode, arguments@),
{
    proof {
        assert(text::views((&["objectId"])@) =~= seq!["objectId"@]);
        assert(text::views((&["fileName"])@) =~= seq!["fileName"@]);
    }
    if let Err(failure) = arguments::validate_arguments(arguments, &["objectId"], &["fileName"]) {
        return Err(failure);
    }
    if !mode.is_conversation() {
        return Err(Failure::fixed("EmitObject is only available in a conversation"));
    }
    match arguments::nonempty_string(arguments, "objectId", 64) {
        Err(failure) => Err(failure),
        Ok(object_id) => Ok(ToolAction::Emit { object_id }),
    }
}

/// The user to whose account the work of a session goes: its first root.
pub open spec fn accountable(roots: Seq<Seq<char>>) -> Result<Seq<char>, Seq<char>> {
    if roots.len() == 0 {
        Err("session has no user root for intelligence accounting"@)
    } else {
        Ok(roots[0])
    }
}

/// The user to whose account the work of a session goes: its first root.
pub fn accountable_user(roots: &Vec<String>) -> (result: Result<String, Failure>)
    ensures
        text::seen(result) == accountable(roots.deep_view()),
{
    if roots.len() == 0 {
        Err(Failure::fixed("session has no user root for intelligence accounting"))
    } else {
        Ok(roots[0].clone())
    }
}

/// A search of the web.
pub open spec fn search_of(arguments: JsonView, roots: Seq<Seq<char>>) -> Result<
    ActionView,
    Seq<char>,
> {
    match arguments::shape(arguments, seq!["question"@, "model"@], Seq::empty()) {
        Err(message) => Err(message),
        Ok(_) => match arguments::nonempty(arguments, "model"@, 128) {
            Err(message) => Err(message),
            Ok(model) => match accountable(roots) {
                Err(message) => Err(message),
                Ok(user) => match arguments::nonempty(arguments, "question"@, 4_000) {
                    Err(message) => Err(message),
                    Ok(question) => Ok(ActionView::WebSearch { user, model, question }),
                },
            },
        },
    }
}

fn read_search(arguments: &Json, roots: &Vec<String>) -> (result: Result<ToolAction, Failure>)
    ensures
        text::seen(result) == search_of(arguments@, roots.deep_view()),
{
    proof {
        assert(text::views((&["question", "model"])@) =~= seq!["question"@, "model"@]);
        assert(text::views((&[])@) =~= Seq::empty());
    }
    if let Err(failure) = arguments::validate_arguments(arguments, &["question", "model"], &[]) {
        return Err(failure);
    }
    let model = match arguments::nonempty_string(arguments, "model", 128) {
        Err(failure) => return Err(failure),
        Ok(model) => model,
    };
    let user = match accountable_user(roots) {
        Err(failure) => return Err(failure),
        Ok(user) => user,
    };
    let question = match arguments::nonempty_string(arguments, "question", 4_000) {
        Err(failure) => return Err(failure),
        Ok(question) => question,
    };
    Ok(ToolAction::WebSearch { user, model, question })
}

/// A page to fetch from the web.
pub open spec fn fetch_of(arguments: JsonView, roots: Seq<Seq<char>>) -> Result<
    ActionView,
    Seq<char>,
> {
    match arguments::shape(arguments, seq!["url"@], Seq::empty()) {
        Err(message) => Err(message),
        Ok(_) => match accountable(roots) {
            Err(message) => Err(message),
            Ok(user) => match arguments::nonempty(arguments, "url"@, 4_096) {
                Err(message) => Err(message),
                Ok(url) => Ok(ActionView::WebFetch { user, url }),
            },
        },
    }
}

fn read_fetch(arguments: &Json, roots: &Vec<String>) -> (result: Result<ToolAction, Failure>)
    ensures
        text::seen(result) == fetch_of(arguments@, roots.deep_view()),
{
    proof {
        assert(text::views((&["url"])@) =~= seq!["url"@]);
        assert(text::views((&[])@) =~= Seq::empty());
    }
    if let Err(failure) = arguments::validate_arguments(arguments, &["url"], &[]) {
        return Err(failure);
    }
    let user = match accountable_user(roots) {
        Err(failure) => return Err(failure),
        Ok(user) => user,
    };
    match arguments::nonempty_string(arguments, "url", 4_096) {
        Err(failure) => Err(failure),
        Ok(url) => Ok(ToolAction::WebFetch { user, url }),
    }
}

/// The group media to stage.
pub open spec fn staging_of(arguments: JsonView, group_context: JsonView) -> Result<
    ActionView,
    Seq<char>,
> {
    match arguments::shape(arguments, seq!["messageId"@], Seq::empty()) {
        Err(message) => Err(message),
        Ok(_) => match arguments::positive(arguments, "messageId"@) {
            Err(message) => Err(message),
            Ok(number) => if number > i64::MAX {
                Err("messageId exceeds Telegram's supported integer range"@)
            } else {
                match objects::media_reference(group_context, number as i64) {
                    Err(message) => Err(message),
                    Ok(reference) => match reference.i64_at("chatId"@) {
                        None => Err("Telegram group media reference has no numeric chatId"@),
                        Some(chat) => Ok(
                            ActionView::StageMedia { chat, number: number as i64, reference },
                        ),
                    },
                }
            },
        },
    }
}

fn read_staging(arguments: &Json, group_context: &Json) -> (result: Result<ToolAction, Failure>)
    ensures
        text::seen(result) == staging_of(arguments@, group_context@),
{
    proof {
        assert(text::views((&["messageId"])@) =~= seq!["messageId"@]);
        assert(text::views((&[])@) =~= Seq::empty());
    }
    if let Err(failure) = arguments::validate_arguments(arguments, &["messageId"], &[]) {
        return Err(failure);
    }
    let number = match arguments::positive_integer(arguments, "messageId") {
        Err(failure) => return Err(failure),
        Ok(number) => number,
    };
    if number > i64::MAX as u64 {
        return Err(Failure::fixed("messageId exceeds Telegram's supported integer range"));
    }
    let number: i64 = number as i64;
    let reference = match objects::telegram_group_media_reference(group_context, number) {
        Err(failure) => return Err(failure),
        Ok(reference) => reference,
    };
    match reference.i64_at("chatId") {
        None => Err(Failure::fixed("Telegram group media reference has no numeric chatId")),
        Some(chat) => Ok(ToolAction::StageMedia { chat, number, reference }),
    }
}

/// A question about one object: its parts.
pub open spec fn question_of(arguments: JsonView) -> Result<
    (Seq<char>, Seq<char>, Seq<char>),
    Seq<char>,
> {
    match arguments::shape(arguments, seq!["objectId"@, "model"@, "prompt"@], Seq::empty()) {
        Err(message) => Err(message),
        Ok(_) => match arguments::nonempty(arguments, "model"@, 128) {
            Err(message) => Err(message),
            Ok(model) => match arguments::bounded_nonempty(arguments, "prompt"@, 4_000) {
                Err(message) => Err(message),
                Ok(prompt) => match arguments::nonempty(arguments, "objectId"@, 64) {
                    Err(message) => Err(message),
                    Ok(object_id) => Ok((object_id, model, prompt)),
                },
            },
        },
    }
}

fn read_question(arguments: &Json) -> (result: Result<MediaQuestion, Failure>)
    ensures
        match result {
            Ok(question) => question_of(arguments@) == Ok::<
                (Seq<char>, Seq<char>, Seq<char>),
                Seq<char>,
            >((question.object_id@, question.model@, question.prompt@)),
            Err(failure) => question_of(arguments@) == Err::<
                (Seq<char>, Seq<char>, Seq<char>),
                Seq<char>,
            >(failure@),
        },
{
    proof {
        assert(text::views((&["objectId", "model", "prompt"])@) =~= seq![
            "objectId"@,
            "model"@,
            "prompt"@,
        ]);
        assert(text::views((&[])@) =~= Seq::empty());
    }
    if let Err(failure) = arguments::validate_arguments(
        arguments,
        &["objectId", "model", "prompt"],
        &[],
    ) {
        return Err(failure);
    }
    let model = match arguments::nonempty_string(arguments, "model", 128) {
        Err(failure) => return Err(failure),
        Ok(model) => model,
    };
    let prompt = match arguments::bounded_nonempty_string(arguments, "prompt", 4_000) {
        Err(failure) => return Err(failure),
        Ok(prompt) => prompt,
    };
    match arguments::nonempty_string(arguments, "objectId", 64) {
        Err(failure) => Err(failure),
        Ok(object_id) => Ok(MediaQuestion { object_id, model, prompt }),
    }
}

/// An image to generate.
pub open spec fn image_of(arguments: JsonView) -> Result<ActionView, Seq<char>> {
    match arguments::shape(arguments, seq!["model"@, "prompt"@], seq!["referenceObjectIds"@]) {
        Err(message) => Err(message),
        Ok(_) => match arguments::nonempty(arguments, "model"@, 128) {
            Err(message) => Err(message),
            Ok(model) => match crate::media::image_model(model) {
                Err(message) => Err(message),
                Ok(_) => match arguments::bounded_nonempty(arguments, "prompt"@, 100_000) {
                    Err(message) => Err(message),
                    Ok(prompt) => match arguments::object_ids(
                        arguments,
                        "referenceObjectIds"@,
                        14,
                    ) {
                        Err(message) => Err(message),
                        Ok(references) => Ok(
                            ActionView::GenerateImage { model, prompt, references },
                        ),
                    },
                },
            },
        },
    }
}

fn read_image(arguments: &Json) -> (result: Result<ToolAction, Failure>)
    ensures
        text::seen(result) == image_of(arguments@),
{
    proof {
        assert(text::views((&["model", "prompt"])@) =~= seq!["model"@, "prompt"@]);
        assert(text::views((&["referenceObjectIds"])@) =~= seq!["referenceObjectIds"@]);
    }
    if let Err(failure) = arguments::validate_arguments(
        arguments,
        &["model", "prompt"],
        &["referenceObjectIds"],
    ) {
        return Err(failure);
    }
    let model = match arguments::nonempty_string(arguments, "model", 128) {
        Err(failure) => return Err(failure),
        Ok(model) => model,
    };
    if let Err(failure) = crate::media::validate_image_model(model.as_str()) {
        return Err(failure);
    }
    let prompt = match arguments::bounded_nonempty_string(arguments, "prompt", 100_000) {
        Err(failure) => return Err(failure),
        Ok(prompt) => prompt,
    };
    match arguments::optional_object_id_array(arguments, "referenceObjectIds", 14) {
        Err(failure) => Err(failure),
        Ok(references) => Ok(ToolAction::GenerateImage { model, prompt, references }),
    }
}

/// The document to read.
pub open spec fn extraction_of(arguments: JsonView) -> Result<ActionView, Seq<char>> {
    match arguments::shape(arguments, seq!["objectId"@], Seq::empty()) {
        Err(message) => Err(message),
        Ok(_) => match arguments::nonempty(arguments, "objectId"@, 64) {
            Err(message) => Err(message),
            Ok(object_id) => Ok(ActionView::Extract { object_id }),
        },
    }
}

fn read_extraction(arguments: &Json) -> (result: Result<ToolAction, Failure>)
    ensures
        text::seen(result) == extraction_of(arguments@),
{
    proof {
        assert(text::views((&["objectId"])@) =~= seq!["objectId"@]);
        assert(text::views((&[])@) =~= Seq::empty());
    }
    if let Err(failure) = arguments::validate_arguments(arguments, &["objectId"], &[]) {
        return Err(failure);
    }
    match arguments::nonempty_string(arguments, "objectId", 64) {
        Err(failure) => Err(failure),
        Ok(object_id) => Ok(ToolAction::Extract { object_id }),
    }
}

/// What a call asks for: its arguments read against the session, or the refusal.
pub open spec fn action_of(
    mode: AgentMode,
    roots: Seq<Seq<char>>,
    reasoning_effort: Seq<char>,
    group_context: JsonView,
    speech: Seq<Seq<char>>,
    managed: Seq<Seq<char>>,
    name: Seq<char>,
    arguments: JsonView,
    readings: ReadingsView,
) -> Result<ActionView, Seq<char>> {
    match allowed(mode, name) {
        Err(message) => Err(message),
        Ok(_) => if name == "SendTelegramDM"@ {
            match delivery::direct_message_of(arguments, readings) {
                Err(message) => Err(message),
                Ok(message) => Ok(ActionView::DirectMessage(message)),
            }
        } else if name == "SendTelegramGroupMessage"@ {
            match delivery::group_message_of(arguments, readings) {
                Err(message) => Err(message),
                Ok(message) => Ok(ActionView::GroupMessage(message)),
            }
        } else if name == "RunSubagent"@ {
            subagent_of(arguments, reasoning_effort, readings)
        } else if name == "EndSession"@ {
            ending_of(mode, arguments)
        } else if name == "DehydrateBoxes"@ {
            match boxes_of(arguments) {
                Err(message) => Err(message),
                Ok(boxes) => Ok(ActionView::Dehydrate { boxes }),
            }
        } else if name == "SummarizeBox"@ {
            summary_of(arguments)
        } else if name == "HydrateBox"@ {
            hydration_of(arguments)
        } else if name == "BoxesIntoObjects"@ {
            match boxes_of(arguments) {
                Err(message) => Err(message),
                Ok(boxes) => Ok(ActionView::IntoObjects { boxes }),
            }
        } else if name == "LoadNodes"@ {
            loading_of(arguments, readings)
        } else if name == "EmitObject"@ {
            emission_of(mode, arguments)
        } else if name == "WebSearch"@ {
            search_of(arguments, roots)
        } else if name == "WebFetch"@ {
            fetch_of(arguments, roots)
        } else if name == "StageTelegramGroupMedia"@ {
            staging_of(arguments, group_context)
        } else if name == "TranscribeAudio"@ {
            match question_of(arguments) {
                Err(message) => Err(message),
                Ok((object_id, model, prompt)) => Ok(
                    ActionView::Transcribe { object_id, model, prompt },
                ),
            }
        } else if name == "AnnotateMedia"@ {
            match question_of(arguments) {
                Err(message) => Err(message),
                Ok((object_id, model, prompt)) => Ok(
                    ActionView::Annotate { object_id, model, prompt },
                ),
            }
        } else if name == "GenerateImage"@ {
            image_of(arguments)
        } else if name == "ExtractDocumentText"@ {
            extraction_of(arguments)
        } else if speech.contains(name) {
            Ok(ActionView::Speech)
        } else if edit_named(name) is Some {
            Ok(ActionView::Edit(edit_named(name)->0))
        } else if managed.contains(name) {
            Ok(ActionView::Managed)
        } else {
            Err("Tool "@ + name + " is not available"@)
        },
    }
}

/// What a call asks for. Every tool has its own arguments, and a call that does not
/// have their exact shape is refused before anything is done.
pub fn tool_action(scene: &ToolScene, catalog: &ToolCatalog, call: &ToolCall) -> (result: Result<
    ToolAction,
    Failure,
>)
    ensures
        text::seen(result) == action_of(
            *scene.mode,
            scene.roots.deep_view(),
            scene.reasoning_effort@,
            scene.group_context@,
            catalog.speech.deep_view(),
            catalog.managed.deep_view(),
            call.name@,
            call.arguments@,
            scene.readings@,
        ),
{
    let name = call.name.as_str();
    let arguments = &call.arguments;
    if let Err(failure) = assert_tool_allowed(scene.mode, name) {
        return Err(failure);
    }
    if *name == *"SendTelegramDM" {
        match delivery::direct_message(arguments, scene.readings) {
            Err(failure) => Err(failure),
            Ok(message) => Ok(ToolAction::DirectMessage(message)),
        }
    } else if *name == *"SendTelegramGroupMessage" {
        match delivery::group_message(arguments, scene.readings) {
            Err(failure) => Err(failure),
            Ok(message) => Ok(ToolAction::GroupMessage(message)),
        }
    } else if *name == *"RunSubagent" {
        read_subagent(arguments, scene.reasoning_effort, scene.readings)
    } else if *name == *"EndSession" {
        read_ending(scene.mode, arguments)
    } else if *name == *"DehydrateBoxes" {
        match read_boxes(arguments) {
            Err(failure) => Err(failure),
            Ok(boxes) => Ok(ToolAction::Dehydrate { boxes }),
        }
    } else if *name == *"SummarizeBox" {
        read_summary(arguments)
    } else if *name == *"HydrateBox" {
        read_hydration(arguments)
    } else if *name == *"BoxesIntoObjects" {
        match read_boxes(arguments) {
            Err(failure) => Err(failure),
            Ok(boxes) => Ok(ToolAction::IntoObjects { boxes }),
        }
    } else if *name == *"LoadNodes" {
        read_loading(arguments, scene.readings)
    } else if *name == *"EmitObject" {
        read_emission(scene.mode, arguments)
    } else if *name == *"WebSearch" {
        read_search(arguments, scene.roots)
    } else if *name == *"WebFetch" {
        read_fetch(arguments, scene.roots)
    } else if *name == *"StageTelegramGroupMedia" {
        read_staging(arguments, scene.group_context)
    } else if *name == *"TranscribeAudio" {
        match read_question(arguments) {
            Err(failure) => Err(failure),
            Ok(question) => Ok(ToolAction::Transcribe(question)),
        }
    } else if *name == *"AnnotateMedia" {
        match read_question(arguments) {
            Err(failure) => Err(failure),
            Ok(question) => Ok(ToolAction::Annotate(question)),
        }
    } else if *name == *"GenerateImage" {
        read_image(arguments)
    } else if *name == *"ExtractDocumentText" {
        read_extraction(arguments)
    } else if text::among(&catalog.speech, name) {
        Ok(ToolAction::Speech)
    } else if let Some(edit) = graph_edit(name) {
        Ok(ToolAction::Edit(edit))
    } else if text::among(&catalog.managed, name) {
        Ok(ToolAction::Managed)
    } else {
        let mut message = "Tool ".to_owned();
        message.append(name);
        message.append(" is not available");
        Err(Failure::new(message))
    }
}

/// A conversation is never given an edit of the graph, nor its own end.
pub proof fn conversations_are_read_only(
    roots: Seq<Seq<char>>,
    reasoning_effort: Seq<char>,
    group_context: JsonView,
    speech: Seq<Seq<char>>,
    managed: Seq<Seq<char>>,
    name: Seq<char>,
    arguments: JsonView,
    readings: ReadingsView,
)
    ensures
        match action_of(
            AgentMode::Conversation,
            roots,
            reasoning_effort,
            group_context,
            speech,
            managed,
            name,
            arguments,
            readings,
        ) {
            Ok(action) => !(action is Edit) && !(action is EndSession),
            Err(_) => true,
        },
{
}

/// Only a conversation hands objects to its user.
pub proof fn only_conversations_emit(
    mode: AgentMode,
    roots: Seq<Seq<char>>,
    reasoning_effort: Seq<char>,
    group_context: JsonView,
    speech: Seq<Seq<char>>,
    managed: Seq<Seq<char>>,
    name: Seq<char>,
    arguments: JsonView,
    readings: ReadingsView,
)
    requires
        !(mode is Conversation),
    ensures
        match action_of(
            mode,
            roots,
            reasoning_effort,
            group_context,
            speech,
            managed,
            name,
            arguments,
            readings,
        ) {
            Ok(action) => !(action is Emit),
            Err(_) => true,
        },
{
}

/// The objects that a managed tool works on.
pub open spec fn managed_inputs(catalog: ToolCatalog, name: Seq<char>, arguments: JsonView) -> Result<
    Seq<Seq<char>>,
    Seq<char>,
> {
    if name == catalog.run_binary@ {
        arguments::binary_object_ids(arguments)
    } else if name == catalog.attach_object@ {
        match arguments::library_object_id(arguments) {
            Err(message) => Err(message),
            Ok(id) => Ok(seq![id]),
        }
    } else {
        Ok(Seq::empty())
    }
}

/// The objects that a managed tool works on.
pub fn managed_objects(catalog: &ToolCatalog, name: &str, arguments: &Json) -> (result: Result<
    Vec<String>,
    Failure,
>)
    ensures
        text::seen(result) == managed_inputs(*catalog, name@, arguments@),
{
    if *name == *catalog.run_binary.as_str() {
        return arguments::rust_binary_object_ids(arguments);
    }
    let mut ids: Vec<String> = Vec::new();
    if *name == *catalog.attach_object.as_str() {
        match arguments::web_library_object_id(arguments) {
            Err(failure) => return Err(failure),
            Ok(id) => {
                ids.push(id);
                assert(ids.deep_view() =~= seq![id@]);
            },
        }
    } else {
        assert(ids.deep_view() =~= Seq::empty());
    }
    Ok(ids)
}

/// The report of boxes that were taken out of the context.
pub open spec fn dehydrated_report(ids: Seq<u64>) -> Seq<char> {
    "Dehydrated boxes "@ + text::joined(
        ids.map_values(|id: u64| text::digits(id as nat)),
        ", "@,
    ) + "."@
}

/// The report of boxes that were taken out of the context.
pub fn report_dehydrated(ids: &Vec<u64>) -> (report: String)
    ensures
        report@ == dehydrated_report(ids@),
{
    let mut names: Vec<String> = Vec::new();
    let ghost texts = ids@.map_values(|id: u64| text::digits(id as nat));
    let mut i: usize = 0;
    while i < ids.len()
        invariant
            i <= ids.len(),
            texts == ids@.map_values(|id: u64| text::digits(id as nat)),
            names.deep_view() =~= texts.take(i as int),
        decreases ids.len() - i,
    {
        let ghost before = names.deep_view();
        names.push(text::decimal(ids[i] as u128));
        assert(names.deep_view() =~= before.push(text::digits(ids@[i as int] as nat)));
        i = i + 1;
    }
    assert(texts.take(ids.len() as int) =~= texts);
    let mut report = "Dehydrated boxes ".to_owned();
    report.append(text::join(&names, ", ").as_str());
    report.append(".");
    report
}

/// The report of a box that was summarized.
pub fn report_summarized(id: u64) -> (report: String)
    ensures
        report@ == "Summarized box "@ + text::digits(id as nat) + "."@,
{
    let mut report = "Summarized box ".to_owned();
    report.append(text::decimal(id as u128).as_str());
    report.append(".");
    report
}

/// The report of a box that was brought back whole, once the context was measured
/// again. Where it cannot be made to fit, the warning is the refusal.
pub fn report_hydrated(id: u64, recovery: &crate::agent_loop::ContextRecovery) -> (result: Result<
    String,
    Failure,
>)
    ensures
        text::seen(result) == match *recovery {
            crate::agent_loop::ContextRecovery::NotNeeded => Ok::<Seq<char>, Seq<char>>(
                "Hydrated box "@ + text::digits(id as nat) + "."@,
            ),
            crate::agent_loop::ContextRecovery::Recovered => Ok::<Seq<char>, Seq<char>>(
                "Hydrated box "@ + text::digits(id as nat) + ".\n\n"@
                    + crate::agent_loop::CONTEXT_OVERFLOW_WARNING@,
            ),
            crate::agent_loop::ContextRecovery::Irreducible => Err::<Seq<char>, Seq<char>>(
                crate::agent_loop::CONTEXT_OVERFLOW_WARNING@,
            ),
        },
{
    let mut report = "Hydrated box ".to_owned();
    report.append(text::decimal(id as u128).as_str());
    match recovery {
        crate::agent_loop::ContextRecovery::NotNeeded => {
            report.append(".");
            Ok(report)
        },
        crate::agent_loop::ContextRecovery::Recovered => {
            report.append(".\n\n");
            report.append(crate::agent_loop::CONTEXT_OVERFLOW_WARNING);
            Ok(report)
        },
        crate::agent_loop::ContextRecovery::Irreducible => Err(
            Failure::fixed(crate::agent_loop::CONTEXT_OVERFLOW_WARNING),
        ),
    }
}

/// Why an object may not be sent through a channel that limits sizes.
pub open spec fn channel_refusal(
    object_id: Seq<char>,
    size: nat,
    channel: JsonView,
) -> Option<Seq<char>> {
    match channel.u64_at("maxObjectBytes"@) {
        None => None,
        Some(maximum) => if size == 0 {
            Some("object "@ + object_id + " is empty and cannot be sent through this channel"@)
        } else if size > maximum {
            Some(
                "object "@ + object_id + " is "@ + text::digits(size)
                    + " bytes, over this channel's "@ + text::digits(maximum as nat)
                    + "-byte limit"@,
            )
        } else {
            None
        },
    }
}

/// What is said of an object that is handed to the user.
pub open spec fn emitted_descriptor(
    object_id: Seq<char>,
    file_name: Seq<char>,
    media_type: Seq<char>,
    size: nat,
) -> JsonView {
    JsonView::Object(Map::empty()).with("objectId"@, JsonView::Text(object_id)).with(
        "fileName"@,
        JsonView::Text(file_name),
    ).with("mediaType"@, JsonView::Text(media_type)).with(
        "byteLength"@,
        JsonView::Integer(size as int),
    )
}

/// A document with the event that it answers, where there is one.
pub open spec fn with_event(value: JsonView, event: Option<Seq<char>>) -> JsonView {
    match event {
        Some(id) => value.with("externalEventId"@, JsonView::Text(id)),
        None => value,
    }
}

/// A document with the event that it answers, where there is one.
pub fn note_event(value: Json, event: Option<&str>) -> (result: Json)
    ensures
        result@ == with_event(value@, event.deep_view()),
{
    match event {
        Some(id) => value.with("externalEventId", Json::text(id)),
        None => value,
    }
}

/// The box and the transcript entry for an object that is handed to the user.
#[derive(Debug)]
pub struct Emission {
    pub content: BoxContent,
    pub transcript: Json,
}

/// The name under which an object is handed to the user: the name asked for, or the
/// object's own.
pub open spec fn emitted_name(
    arguments: JsonView,
    own: Seq<char>,
    readings: ReadingsView,
) -> Result<Seq<char>, Seq<char>> {
    match delivery::delivery_name(arguments, "fileName"@, readings) {
        Err(message) => Err(message),
        Ok(Some(name)) => Ok(name),
        Ok(None) => Ok(own),
    }
}

/// Hands an object to the user: the box that carries it and its transcript entry, both
/// tied to the event that is being answered.
pub fn emit_object(
    object_id: &str,
    object: &ResolvedObject,
    arguments: &Json,
    channel: &Json,
    event: Option<&str>,
    readings: &Readings,
) -> (result: Result<Emission, Failure>)
    ensures
        match (
            emitted_name(arguments@, object.file_name@, readings@),
            channel_refusal(object_id@, object.bytes@.len(), channel@),
        ) {
            (Err(message), _) => result is Err && result->Err_0@ == message,
            (_, Some(message)) => result is Err && result->Err_0@ == message,
            (Ok(name), None) => {
                let descriptor = emitted_descriptor(
                    object_id@,
                    name,
                    object.media_type@,
                    object.bytes@.len(),
                );
                &&& result is Ok
                &&& result->Ok_0.content.text@ == Seq::<char>::empty()
                &&& result->Ok_0.content.objects.deep_view() == seq![object_id@]
                &&& result->Ok_0.content.metadata@ == with_event(
                    JsonView::Object(Map::empty()).with("outputKind"@, JsonView::Text("object"@)).with(
                        "attachments"@,
                        JsonView::Array(seq![descriptor]),
                    ),
                    event.deep_view(),
                )
                &&& result->Ok_0.transcript@ == with_event(
                    JsonView::Object(Map::empty()).with("role"@, JsonView::Text("kennedy"@)).with(
                        "content"@,
                        JsonView::Text(Seq::empty()),
                    ).with("objects"@, JsonView::Array(seq![JsonView::Text(object_id@)])).with(
                        "attachments"@,
                        JsonView::Array(seq![descriptor]),
                    ),
                    event.deep_view(),
                )
            },
        },
{
    let file_name = match delivery::optional_delivery_file_name(arguments, "fileName", readings) {
        Err(failure) => return Err(failure),
        Ok(Some(name)) => name,
        Ok(None) => object.file_name.clone(),
    };
    if let Some(maximum) = channel.u64_at("maxObjectBytes") {
        if object.bytes.len() == 0 {
            let mut message = "object ".to_owned();
            message.append(object_id);
            message.append(" is empty and cannot be sent through this channel");
            return Err(Failure::new(message));
        }
        if object.bytes.len() as u64 > maximum {
            let mut message = "object ".to_owned();
            message.append(object_id);
            message.append(" is ");
            message.append(text::decimal(object.bytes.len() as u128).as_str());
            message.append(" bytes, over this channel's ");
            message.append(text::decimal(maximum as u128).as_str());
            message.append("-byte limit");
            return Err(Failure::new(message));
        }
    }
    let descriptor = Json::object().with("objectId", Json::text(object_id)).with(
        "fileName",
        Json::text(file_name.as_str()),
    ).with("mediaType", Json::text(object.media_type.as_str())).with(
        "byteLength",
        Json::unsigned(object.bytes.len() as u64),
    );
    let metadata = Json::object().with("outputKind", Json::text("object")).with(
        "attachments",
        Json::single(descriptor.clone()),
    );
    proof {
        reveal_strlit("");
        assert(""@ =~= Seq::<char>::empty());
    }
    let transcript = Json::object().with("role", Json::text("kennedy")).with(
        "content",
        Json::text(""),
    ).with("objects", Json::single(Json::text(object_id))).with(
        "attachments",
        Json::single(descriptor),
    );
    let mut objects: Vec<String> = Vec::new();
    objects.push(object_id.to_owned());
    assert(objects.deep_view() =~= seq![object_id@]);
    let content = BoxContent {
        text: "".to_owned(),
        objects,
        metadata: note_event(metadata, event),
    };
    Ok(Emission { content, transcript: note_event(transcript, event) })
}

/// The answer of a subagent, with what it cost.
pub fn report_subagent(answer: &str, cost_before: u64, cost_after: u64, unpriced_before: u64, unpriced_after: u64) -> (report: String)
    ensures
        report@ == answer@ + "\n\n["@ + crate::render::cost_text(
            "subagent cost"@,
            if cost_after >= cost_before { (cost_after - cost_before) as u64 } else { 0 },
            if unpriced_after >= unpriced_before { (unpriced_after - unpriced_before) as u64 } else { 0 },
        ) + "]"@,
{
    let mut report = answer.to_owned();
    report.append("\n\n[");
    let summary = crate::render::cost_summary(
        "subagent cost",
        cost_after.saturating_sub(cost_before),
        unpriced_after.saturating_sub(unpriced_before),
    );
    report.append(summary.as_str());
    report.append("]");
    report
}

/// Why a subagent's failure is told apart from one that did nothing.
pub const SUBAGENT_EFFECTS: &'static str = "the subagent failed after making Ktool calls; some tool effects may already have occurred";

/// The notes of a session, by label, from the start of a subagent on: whether the
/// subagent may have changed anything.
pub fn subagent_may_have_effects(labels: &Vec<String>) -> (yes: bool)
    ensures
        yes == labels.deep_view().contains("subagent_tool_call"@),
{
    text::among(labels, "subagent_tool_call")
}

/// How much a model is to reason.
#[derive(Clone, Copy, Debug, PartialEq, Eq)]
pub enum ReasoningEffort {
    Off,
    Minimal,
    Low,
    Medium,
    High,
    XHigh,
    Max,
}

/// The reasoning effort of this name.
pub open spec fn effort_named(name: Seq<char>) -> Result<ReasoningEffort, Seq<char>> {
    if name == "none"@ {
        Ok(ReasoningEffort::Off)
    } else if name == "minimal"@ {
        Ok(ReasoningEffort::Minimal)
    } else if name == "low"@ {
        Ok(ReasoningEffort::Low)
    } else if name == "medium"@ {
        Ok(ReasoningEffort::Medium)
    } else if name == "high"@ {
        Ok(ReasoningEffort::High)
    } else if name == "xhigh"@ {
        Ok(ReasoningEffort::XHigh)
    } else if name == "max"@ {
        Ok(ReasoningEffort::Max)
    } else {
        Err("unsupported reasoning effort "@ + name)
    }
}

/// The reasoning effort of this name.
pub fn codex_reasoning_effort(name: &str) -> (result: Result<ReasoningEffort, Failure>)
    ensures
        match result {
            Ok(effort) => effort_named(name@) == Ok::<ReasoningEffort, Seq<char>>(effort),
            Err(failure) => effort_named(name@) == Err::<ReasoningEffort, Seq<char>>(failure@),
        },
{
    if *name == *"none" {
        Ok(ReasoningEffort::Off)
    } else if *name == *"minimal" {
        Ok(ReasoningEffort::Minimal)
    } else if *name == *"low" {
        Ok(ReasoningEffort::Low)
    } else if *name == *"medium" {
        Ok(ReasoningEffort::Medium)
    } else if *name == *"high" {
        Ok(ReasoningEffort::High)
    } else if *name == *"xhigh" {
        Ok(ReasoningEffort::XHigh)
    } else if *name == *"max" {
        Ok(ReasoningEffort::Max)
    } else {
        let mut message = "unsupported reasoning effort ".to_owned();
        message.append(name);
        Err(Failure::new(message))
    }
}

/// The instance under which a call of a tool is recorded: calls that load nodes share
/// one, every other call has its own.
pub fn tool_instance(name: &str, kweb_instance: &str, fresh_id: &str) -> (instance: String)
    ensures
        instance@ == if name@ == "LoadNodes"@ {
            kweb_instance@
        } else {
            name@ + ":"@ + fresh_id@
        },
{
    if *name == *"LoadNodes" {
        return kweb_instance.to_owned();
    }
    let mut instance = name.to_owned();
    instance.append(":");
    instance.append(fresh_id);
    instance
}

/// What the model is told of the one function through which it calls tools.
pub const CALL_KTOOL_DESCRIPTION: &'static str =
    "Call one Kennedy Ktool. The provider function remains registered even if its explaining system-prompt box is dehydrated. Kennedy may display an object with an optional recipient-visible filename using {\"name\":\"EmitObject\",\"arguments\":{\"objectId\":\"AAECAwQF\",\"fileName\":\"report.pdf\"}}. She may make an out-of-band cold delivery to an authorized user's private Telegram chat, optionally with Kweb object attachments and per-attachment delivery filenames, from any session with {\"name\":\"SendTelegramDM\",\"arguments\":{\"user\":{\"telegramUserId\":42},\"message\":\"Exact message text.\",\"attachments\":[\"pending:1\",{\"objectId\":\"AAECAwQF\",\"fileName\":\"report.pdf\"}]}}. Kennedy may likewise send text and attachments to any known Telegram group, addressed by its canonical Kweb root, with {\"name\":\"SendTelegramGroupMessage\",\"arguments\":{\"group\":{\"rootNodeId\":\"AAAAAAAE\"},\"message\":\"Exact message text.\",\"attachments\":[\"pending:1\"]}}.";

/// The document type of one argument.
pub open spec fn typed(name: Seq<char>) -> JsonView {
    JsonView::Object(Map::empty()).with("type"@, JsonView::Text(name))
}

/// The schema of the arguments of the one function through which the model calls
/// tools.
pub fn call_ktool_schema() -> (schema: Json)
    ensures
        schema@ == typed("object"@).with("additionalProperties"@, JsonView::Bool(false)).with(
            "required"@,
            crate::json::text_list(seq!["name"@, "arguments"@]),
        ).with(
            "properties"@,
            JsonView::Object(Map::empty()).with("name"@, typed("string"@)).with(
                "arguments"@,
                typed("object"@),
            ),
        ),
{
    let mut required: Vec<String> = Vec::new();
    required.push("name".to_owned());
    required.push("arguments".to_owned());
    assert(required.deep_view() =~= seq!["name"@, "arguments"@]);
    let properties = Json::object().with(
        "name",
        Json::object().with("type", Json::text("string")),
    ).with("arguments", Json::object().with("type", Json::text("object")));
    Json::object().with("type", Json::text("object")).with(
        "additionalProperties",
        Json::Bool(false),
    ).with("required", Json::texts(&required)).with("properties", properties)
}

/// The names of the tools differ.
proof fn tool_names_differ()
    ensures
        "SendTelegramDM"@.len() == 14 && "SendTelegramDM"@[0] == 'S',
        "SendTelegramGroupMessage"@.len() == 24,
        "RunSubagent"@.len() == 11,
        "EndSession"@.len() == 10 && "EndSession"@[0] == 'E' && "EndSession"@[1] == 'n',
        "DehydrateBoxes"@.len() == 14 && "DehydrateBoxes"@[0] == 'D',
        "SummarizeBox"@.len() == 12 && "SummarizeBox"@[0] == 'S',
        "HydrateBox"@.len() == 10 && "HydrateBox"@[0] == 'H',
        "BoxesIntoObjects"@.len() == 16,
        "LoadNodes"@.len() == 9 && "LoadNodes"@[0] == 'L',
        "EmitObject"@.len() == 10 && "EmitObject"@[0] == 'E' && "EmitObject"@[1] == 'm',
        "WebSearch"@.len() == 9 && "WebSearch"@[0] == 'W',
        "WebFetch"@.len() == 8,
        "StageTelegramGroupMedia"@.len() == 23,
        "TranscribeAudio"@.len() == 15,
        "AnnotateMedia"@.len() == 13 && "AnnotateMedia"@[0] == 'A',
        "GenerateImage"@.len() == 13 && "GenerateImage"@[0] == 'G',
        "ExtractDocumentText"@.len() == 19,
        "ConnectNodes"@.len() == 12 && "ConnectNodes"@[0] == 'C',
        "ConsolidateFanout"@.len() == 17,
        "SetFixedConnection"@.len() == 18,
        "CreateNode"@.len() == 10 && "CreateNode"@[0] == 'C',
        "UpdateNode"@.len() == 10 && "UpdateNode"@[0] == 'U',
{
    reveal_strlit("SendTelegramDM");
    reveal_strlit("SendTelegramGroupMessage");
    reveal_strlit("RunSubagent");
    reveal_strlit("EndSession");
    reveal_strlit("DehydrateBoxes");
    reveal_strlit("SummarizeBox");
    reveal_strlit("HydrateBox");
    reveal_strlit("BoxesIntoObjects");
    reveal_strlit("LoadNodes");
    reveal_strlit("EmitObject");
    reveal_strlit("WebSearch");
    reveal_strlit("WebFetch");
    reveal_strlit("StageTelegramGroupMedia");
    reveal_strlit("TranscribeAudio");
    reveal_strlit("AnnotateMedia");
    reveal_strlit("GenerateImage");
    reveal_strlit("ExtractDocumentText");
    reveal_strlit("ConnectNodes");
    reveal_strlit("ConsolidateFanout");
    reveal_strlit("SetFixedConnection");
    reveal_strlit("CreateNode");
    reveal_strlit("UpdateNode");
}

/// A tool of the graph is the edit of its name, and is open to every session but a
/// conversation.
pub proof fn edits_are_called_by_name(mode: AgentMode, name: Seq<char>)
    ensures
        name == "ConnectNodes"@ ==> edit_named(name) == Some(GraphEdit::Connect),
        name == "ConsolidateFanout"@ ==> edit_named(name) == Some(GraphEdit::Consolidate),
        name == "SetFixedConnection"@ ==> edit_named(name) == Some(GraphEdit::SetFixed),
        name == "CreateNode"@ ==> edit_named(name) == Some(GraphEdit::Create),
        name == "UpdateNode"@ ==> edit_named(name) == Some(GraphEdit::Update),
        ({
            let writes = name == "ConnectNodes"@ || name == "ConsolidateFanout"@ || name
                == "SetFixedConnection"@ || name == "CreateNode"@ || name == "UpdateNode"@;
            &&& edit_named(name) is Some <==> writes
            &&& allowed(mode, name) is Err <==> mode is Conversation && (writes || name
                == "EndSession"@)
        }),
{
    tool_names_differ();
}

/// The tools on boxes work on the boxes that their arguments name.
pub proof fn box_tools_take_their_boxes(
    mode: AgentMode,
    roots: Seq<Seq<char>>,
    reasoning_effort: Seq<char>,
    group_context: JsonView,
    speech: Seq<Seq<char>>,
    managed: Seq<Seq<char>>,
    name: Seq<char>,
    arguments: JsonView,
    readings: ReadingsView,
    i: int,
)
    ensures
        ({
            let action = action_of(
                mode,
                roots,
                reasoning_effort,
                group_context,
                speech,
                managed,
                name,
                arguments,
                readings,
            );
            let items = arguments.array_at("boxIds"@);
            &&& name == "DehydrateBoxes"@ && action is Ok ==> {
                &&& action->Ok_0 is Dehydrate
                &&& items is Some && items->0.len() == action->Ok_0->Dehydrate_boxes.len()
                &&& 0 <= i < items->0.len() ==> items->0[i] == JsonView::Integer(
                    action->Ok_0->Dehydrate_boxes[i] as int,
                )
            }
            &&& name == "BoxesIntoObjects"@ && action is Ok ==> {
                &&& action->Ok_0 is IntoObjects
                &&& items is Some && items->0.len() == action->Ok_0->IntoObjects_boxes.len()
                &&& 0 <= i < items->0.len() ==> items->0[i] == JsonView::Integer(
                    action->Ok_0->IntoObjects_boxes[i] as int,
                )
            }
            &&& name == "SummarizeBox"@ && action is Ok ==> {
                &&& action->Ok_0 is Summarize
                &&& arguments.u64_at("boxId"@) == Some(action->Ok_0->Summarize_id)
                &&& arguments.text_at("summary"@) is Some
                &&& action->Ok_0->summary == text::trimmed(arguments.text_at("summary"@)->0)
                &&& action->Ok_0->summary.len() > 0
            }
            &&& name == "HydrateBox"@ && action is Ok ==> {
                &&& action->Ok_0 is Hydrate
                &&& arguments.u64_at("boxId"@) == Some(action->Ok_0->Hydrate_id)
            }
        }),
{
    tool_names_differ();
    if arguments::box_ids(arguments, "boxIds"@) is Ok {
        arguments::boxes_are_taken_as_given(arguments, "boxIds"@);
    }
}

/// The tools that look things up ask for what their arguments name, at the cost of the
/// session's first root.
pub proof fn lookups_ask_for_their_arguments(
    mode: AgentMode,
    roots: Seq<Seq<char>>,
    reasoning_effort: Seq<char>,
    group_context: JsonView,
    speech: Seq<Seq<char>>,
    managed: Seq<Seq<char>>,
    name: Seq<char>,
    arguments: JsonView,
    readings: ReadingsView,
    i: int,
)
    ensures
        ({
            let action = action_of(
                mode,
                roots,
                reasoning_effort,
                group_context,
                speech,
                managed,
                name,
                arguments,
                readings,
            );
            let nodes = arguments.array_at("identifiers"@);
            &&& name == "LoadNodes"@ && action is Ok ==> {
                &&& action->Ok_0 is LoadNodes
                &&& nodes is Some && nodes->0.len() == action->Ok_0->LoadNodes_ids.len() > 0
                &&& 0 <= i < nodes->0.len() ==> nodes->0[i] == JsonView::Text(
                    action->Ok_0->LoadNodes_ids[i],
                )
            }
            &&& name == "WebSearch"@ && action is Ok ==> {
                &&& action->Ok_0 is WebSearch
                &&& roots.len() > 0 && action->Ok_0->WebSearch_user == roots[0]
                &&& arguments.text_at("model"@) is Some && action->Ok_0->WebSearch_model
                    == text::trimmed(arguments.text_at("model"@)->0)
                &&& arguments.text_at("question"@) is Some && action->Ok_0->question
                    == text::trimmed(arguments.text_at("question"@)->0)
            }
            &&& name == "WebFetch"@ && action is Ok ==> {
                &&& action->Ok_0 is WebFetch
                &&& roots.len() > 0 && action->Ok_0->WebFetch_user == roots[0]
                &&& arguments.text_at("url"@) is Some && action->Ok_0->url == text::trimmed(
                    arguments.text_at("url"@)->0,
                )
            }
            &&& (name == "WebSearch"@ || name == "WebFetch"@) && roots.len() == 0 ==> action is Err
            &&& name == "StageTelegramGroupMedia"@ && action is Ok ==> {
                &&& action->Ok_0 is StageMedia
                &&& arguments.i64_at("messageId"@) == Some(action->Ok_0->number)
                &&& action->Ok_0->number > 0
                &&& action->Ok_0->reference.i64_at("chatId"@) == Some(action->Ok_0->chat)
            }
        }),
{
    tool_names_differ();
    if arguments::node_ids(arguments, "identifiers"@, readings) is Ok {
        arguments::nodes_are_taken_as_given(arguments, "identifiers"@, readings);
    }
}

/// The tools on objects work on the object that their arguments name, with their model
/// and their prompt.
pub proof fn object_tools_take_their_object(
    mode: AgentMode,
    roots: Seq<Seq<char>>,
    reasoning_effort: Seq<char>,
    group_context: JsonView,
    speech: Seq<Seq<char>>,
    managed: Seq<Seq<char>>,
    name: Seq<char>,
    arguments: JsonView,
    readings: ReadingsView,
)
    ensures
        ({
            let action = action_of(
                mode,
                roots,
                reasoning_effort,
                group_context,
                speech,
                managed,
                name,
                arguments,
                readings,
            );
            let object = arguments.text_at("objectId"@);
            let model = arguments.text_at("model"@);
            let prompt = arguments.text_at("prompt"@);
            &&& name == "TranscribeAudio"@ && action is Ok ==> {
                &&& action->Ok_0 is Transcribe
                &&& object is Some && action->Ok_0->Transcribe_object_id == text::trimmed(
                    object->0,
                )
                &&& model is Some && action->Ok_0->Transcribe_model == text::trimmed(model->0)
                &&& prompt == Some(action->Ok_0->Transcribe_prompt)
            }
            &&& name == "AnnotateMedia"@ && action is Ok ==> {
                &&& action->Ok_0 is Annotate
                &&& object is Some && action->Ok_0->Annotate_object_id == text::trimmed(object->0)
                &&& model is Some && action->Ok_0->Annotate_model == text::trimmed(model->0)
                &&& prompt == Some(action->Ok_0->Annotate_prompt)
            }
            &&& name == "GenerateImage"@ && action is Ok ==> {
                &&& action->Ok_0 is GenerateImage
                &&& model is Some && action->Ok_0->GenerateImage_model == text::trimmed(model->0)
                &&& action->Ok_0->GenerateImage_model == "gpt-image-2"@
                    || action->Ok_0->GenerateImage_model == "gemini-3-pro-image"@
                &&& prompt == Some(action->Ok_0->GenerateImage_prompt)
            }
            &&& name == "ExtractDocumentText"@ && action is Ok ==> {
                &&& action->Ok_0 is Extract
                &&& object is Some && action->Ok_0->Extract_object_id == text::trimmed(object->0)
            }
            &&& name == "EmitObject"@ && action is Ok ==> {
                &&& mode is Conversation
                &&& action->Ok_0 is Emit
                &&& object is Some && action->Ok_0->Emit_object_id == text::trimmed(object->0)
            }
        }),
{
    tool_names_differ();
}

/// A subagent runs on the model, with the task and from the nodes that its arguments
/// name, and thinks as hard as they say, or else as its session. A session ends with a
/// message only in self-time. Messages go to where their arguments say.
pub proof fn sessions_act_as_asked(
    mode: AgentMode,
    roots: Seq<Seq<char>>,
    reasoning_effort: Seq<char>,
    group_context: JsonView,
    speech: Seq<Seq<char>>,
    managed: Seq<Seq<char>>,
    name: Seq<char>,
    arguments: JsonView,
    readings: ReadingsView,
    i: int,
)
    ensures
        ({
            let action = action_of(
                mode,
                roots,
                reasoning_effort,
                group_context,
                speech,
                managed,
                name,
                arguments,
                readings,
            );
            let effort = arguments.text_at("reasoningEffort"@);
            let nodes = arguments.array_at("contextNodeIds"@);
            let words = arguments.text_at("message"@);
            &&& name == "RunSubagent"@ && action is Ok ==> {
                &&& action->Ok_0 is Subagent
                &&& arguments.text_at("model"@) is Some && action->Ok_0->Subagent_model
                    == text::trimmed(arguments.text_at("model"@)->0)
                &&& arguments.text_at("task"@) == Some(action->Ok_0->task)
                &&& effort is Some ==> action->Ok_0->reasoning_effort == text::trimmed(effort->0)
                &&& arguments.get("reasoningEffort"@) is None ==> action->Ok_0->reasoning_effort
                    == reasoning_effort
                &&& nodes is Some && nodes->0.len() == action->Ok_0->context_node_ids.len() <= 64
                &&& 0 <= i < nodes->0.len() ==> nodes->0[i] == JsonView::Text(
                    action->Ok_0->context_node_ids[i],
                )
            }
            &&& name == "EndSession"@ && action is Ok ==> {
                &&& !(mode is Conversation)
                &&& action->Ok_0 is EndSession
                &&& mode is FreeTime && words is Some && !text::blank(words->0)
                    ==> action->Ok_0->message == words
                &&& !(mode is FreeTime) || words is None ==> action->Ok_0->message is None
            }
            &&& name == "SendTelegramDM"@ && action is Ok ==> action->Ok_0 is DirectMessage
                && delivery::direct_message_of(arguments, readings) == Ok::<
                (RecipientView, Seq<char>, Seq<(Seq<char>, Option<Seq<char>>)>),
                Seq<char>,
            >(action->Ok_0->DirectMessage_0)
            &&& name == "SendTelegramGroupMessage"@ && action is Ok ==> action->Ok_0
                is GroupMessage && delivery::group_message_of(arguments, readings) == Ok::<
                (RecipientView, Seq<char>, Seq<(Seq<char>, Option<Seq<char>>)>),
                Seq<char>,
            >(action->Ok_0->GroupMessage_0)
        }),
{
    tool_names_differ();
    if arguments::node_ids(arguments, "contextNodeIds"@, readings) is Ok {
        arguments::nodes_are_taken_as_given(arguments, "contextNodeIds"@, readings);
    }
}

/// An object goes through a channel that sets no limit, and through one that does where it
/// is neither empty nor larger.
pub proof fn channels_take_what_fits(object_id: Seq<char>, size: nat, channel: JsonView)
    ensures
        channel.u64_at("maxObjectBytes"@) is None ==> channel_refusal(object_id, size, channel)
            is None,
        channel.u64_at("maxObjectBytes"@) is Some ==> (channel_refusal(object_id, size, channel)
            is None <==> 0 < size <= channel.u64_at("maxObjectBytes"@)->0),
{
}

/// An emitted object goes by the name that its arguments give, or else by its own, and is
/// described by its identity, its name, its type and its size.
pub proof fn emitted_objects_are_described(
    arguments: JsonView,
    own: Seq<char>,
    readings: ReadingsView,
    object_id: Seq<char>,
    media_type: Seq<char>,
    size: u64,
)
    ensures
        arguments.get("fileName"@) is None ==> emitted_name(arguments, own, readings) == Ok::<
            Seq<char>,
            Seq<char>,
        >(own),
        arguments.text_at("fileName"@) is Some && emitted_name(arguments, own, readings) is Ok
            ==> arguments.text_at("fileName"@) == Some(
            emitted_name(arguments, own, readings)->Ok_0,
        ),
        ({
            let descriptor = emitted_descriptor(object_id, own, media_type, size as nat);
            &&& descriptor.text_at("objectId"@) == Some(object_id)
            &&& descriptor.text_at("fileName"@) == Some(own)
            &&& descriptor.text_at("mediaType"@) == Some(media_type)
            &&& descriptor.u64_at("byteLength"@) == Some(size)
        }),
{
    reveal_strlit("objectId");
    reveal_strlit("fileName");
    reveal_strlit("mediaType");
    reveal_strlit("byteLength");
    assert("objectId"@.len() == 8 && "fileName"@.len() == 8);
    assert("objectId"@[0] == 'o' && "fileName"@[0] == 'f');
    assert("mediaType"@.len() == 9 && "byteLength"@.len() == 10);
}

/// The words for how hard to think are seven, and each has its own meaning.
pub proof fn efforts_are_named(name: Seq<char>)
    ensures
        name == "none"@ <==> effort_named(name) == Ok::<ReasoningEffort, Seq<char>>(
            ReasoningEffort::Off,
        ),
        name == "minimal"@ <==> effort_named(name) == Ok::<ReasoningEffort, Seq<char>>(
            ReasoningEffort::Minimal,
        ),
        name == "low"@ <==> effort_named(name) == Ok::<ReasoningEffort, Seq<char>>(
            ReasoningEffort::Low,
        ),
        name == "medium"@ <==> effort_named(name) == Ok::<ReasoningEffort, Seq<char>>(
            ReasoningEffort::Medium,
        ),
        name == "high"@ <==> effort_named(name) == Ok::<ReasoningEffort, Seq<char>>(
            ReasoningEffort::High,
        ),
        name == "xhigh"@ <==> effort_named(name) == Ok::<ReasoningEffort, Seq<char>>(
            ReasoningEffort::XHigh,
        ),
        name == "max"@ <==> effort_named(name) == Ok::<ReasoningEffort, Seq<char>>(
            ReasoningEffort::Max,
        ),
{
    reveal_strlit("none");
    reveal_strlit("minimal");
    reveal_strlit("low");
    reveal_strlit("medium");
    reveal_strlit("high");
    reveal_strlit("xhigh");
    reveal_strlit("max");
    assert("none"@.len() == 4 && "minimal"@.len() == 7 && "low"@.len() == 3);
    assert("medium"@.len() == 6 && "high"@.len() == 4 && "xhigh"@.len() == 5);
    assert("max"@.len() == 3 && "none"@[0] == 'n' && "high"@[0] == 'h');
    assert("low"@[0] == 'l' && "max"@[0] == 'm');
}

/// Calls with well-formed arguments are taken: a box to hydrate or to summarize, an object
/// to extract or to emit, an address to fetch, a question to search for, and the end of a
/// session that is no conversation.
pub proof fn well_formed_calls_are_taken(
    mode: AgentMode,
    roots: Seq<Seq<char>>,
    reasoning_effort: Seq<char>,
    group_context: JsonView,
    speech: Seq<Seq<char>>,
    managed: Seq<Seq<char>>,
    readings: ReadingsView,
    number: u64,
    words: Seq<char>,
    more: Seq<char>,
)
    requires
        number > 0,
        0 < text::trimmed(words).len() <= 64,
        0 < text::trimmed(more).len() <= 128,
        roots.len() > 0,
    ensures
        ({
            let none = JsonView::Object(Map::empty());
            let object = none.with("objectId"@, JsonView::Text(words));
            let taken = |name: Seq<char>, arguments: JsonView|
                action_of(
                    mode,
                    roots,
                    reasoning_effort,
                    group_context,
                    speech,
                    managed,
                    name,
                    arguments,
                    readings,
                ) is Ok;
            &&& taken("HydrateBox"@, none.with("boxId"@, JsonView::Integer(number as int)))
            &&& taken(
                "SummarizeBox"@,
                none.with("boxId"@, JsonView::Integer(number as int)).with(
                    "summary"@,
                    JsonView::Text(words),
                ),
            )
            &&& taken("ExtractDocumentText"@, object)
            &&& mode is Conversation ==> taken("EmitObject"@, object)
            &&& taken("WebFetch"@, none.with("url"@, JsonView::Text(words)))
            &&& taken(
                "WebSearch"@,
                none.with("question"@, JsonView::Text(words)).with("model"@, JsonView::Text(more)),
            )
            &&& !(mode is Conversation) ==> taken("EndSession"@, none)
        }),
{
    tool_names_differ();
    reveal_strlit("boxId");
    reveal_strlit("summary");
    reveal_strlit("question");
    reveal_strlit("model");
    assert("boxId"@.len() == 5 && "summary"@.len() == 7);
    assert("question"@.len() == 8 && "model"@.len() == 5);
    let none = JsonView::Object(Map::empty());
    let number = JsonView::Integer(number as int);
    shaped_by_one("boxId"@, number, Seq::empty());
    shaped_by_one("objectId"@, JsonView::Text(words), Seq::empty());
    shaped_by_one("objectId"@, JsonView::Text(words), seq!["fileName"@]);
    shaped_by_one("url"@, JsonView::Text(words), Seq::empty());
    shaped_by_two("boxId"@, number, "summary"@, JsonView::Text(words));
    shaped_by_two("question"@, JsonView::Text(words), "model"@, JsonView::Text(more));
    assert(arguments::shape(none, Seq::empty(), seq!["message"@]) is Ok);
}

/// An object with its one required member has the right shape.
proof fn shaped_by_one(key: Seq<char>, value: JsonView, optional: Seq<Seq<char>>)
    ensures
        arguments::shape(JsonView::Object(Map::empty()).with(key, value), seq![key], optional)
            is Ok,
{
    assert(seq![key][0] == key);
    assert(seq![key].contains(key));
}

/// An object with its two required members has the right shape.
proof fn shaped_by_two(one: Seq<char>, first: JsonView, other: Seq<char>, second: JsonView)
    ensures
        arguments::shape(
            JsonView::Object(Map::empty()).with(one, first).with(other, second),
            seq![one, other],
            Seq::empty(),
        ) is Ok,
{
    let keys = seq![one, other];
    assert(keys[0] == one && keys[1] == other);
    assert(keys.contains(one) && keys.contains(other));
}

/// A graph edit is open to every session but a conversation, and what the speech service
/// and the managed tools name is theirs; a name that nobody has is refused.
pub proof fn named_tools_are_called(
    mode: AgentMode,
    roots: Seq<Seq<char>>,
    reasoning_effort: Seq<char>,
    group_context: JsonView,
    speech: Seq<Seq<char>>,
    managed: Seq<Seq<char>>,
    name: Seq<char>,
    arguments: JsonView,
    readings: ReadingsView,
)
    ensures
        ({
            let action = action_of(
                mode,
                roots,
                reasoning_effort,
                group_context,
                speech,
                managed,
                name,
                arguments,
                readings,
            );
            let edit = name == "ConnectNodes"@ || name == "ConsolidateFanout"@ || name
                == "SetFixedConnection"@ || name == "CreateNode"@ || name == "UpdateNode"@;
            let own = name == "SendTelegramDM"@ || name == "SendTelegramGroupMessage"@ || name
                == "RunSubagent"@ || name == "EndSession"@ || name == "DehydrateBoxes"@ || name
                == "SummarizeBox"@ || name == "HydrateBox"@ || name == "BoxesIntoObjects"@ || name
                == "LoadNodes"@ || name == "EmitObject"@ || name == "WebSearch"@ || name
                == "WebFetch"@ || name == "StageTelegramGroupMedia"@ || name
                == "TranscribeAudio"@ || name == "AnnotateMedia"@ || name == "GenerateImage"@
                || name == "ExtractDocumentText"@;
            &&& edit && !(mode is Conversation) && !speech.contains(name) ==> action is Ok
                && action->Ok_0 is Edit
            &&& !own && !edit && speech.contains(name) ==> action == Ok::<ActionView, Seq<char>>(
                ActionView::Speech,
            )
            &&& !own && !edit && !speech.contains(name) && managed.contains(name) ==> action
                == Ok::<ActionView, Seq<char>>(ActionView::Managed)
            &&& !own && !edit && !speech.contains(name) && !managed.contains(name) ==> action
                is Err
        }),
{
    tool_names_differ();
}

/// A managed tool takes objects only where it runs a binary or attaches an object: those
/// that its arguments name.
pub proof fn managed_tools_take_their_objects(
    catalog: ToolCatalog,
    name: Seq<char>,
    arguments: JsonView,
)
    ensures
        name != catalog.run_binary@ && name != catalog.attach_object@ ==> managed_inputs(
            catalog,
            name,
            arguments,
        ) == Ok::<Seq<Seq<char>>, Seq<char>>(Seq::empty()),
        name == catalog.run_binary@ && arguments.get("objectIds"@) is None ==> managed_inputs(
            catalog,
            name,
            arguments,
        ) == Ok::<Seq<Seq<char>>, Seq<char>>(Seq::empty()),
        name == catalog.run_binary@ && managed_inputs(catalog, name, arguments) is Ok
            && arguments.get("objectIds"@) is Some ==> {
            let items = arguments.array_at("objectIds"@);
            let taken = managed_inputs(catalog, name, arguments)->Ok_0;
            &&& items is Some && items->0.len() == taken.len()
            &&& forall|i: int|
                0 <= i < taken.len() ==> items->0[i].as_text() == Some(#[trigger] taken[i])
        },
        name == catalog.attach_object@ && name != catalog.run_binary@ && managed_inputs(
            catalog,
            name,
            arguments,
        ) is Ok ==> managed_inputs(catalog, name, arguments)->Ok_0.len() == 1,
{
    arguments::binaries_take_the_objects_listed(arguments);
}

/// The boxes that were dehydrated are reported one by one, in order.
pub proof fn dehydrated_boxes_are_reported(id: u64, other: u64)
    ensures
        dehydrated_report(seq![id]) == "Dehydrated boxes "@ + text::digits(id as nat) + "."@,
        dehydrated_report(seq![id, other]) == "Dehydrated boxes "@ + (text::digits(id as nat) + ", "@
            + text::digits(other as nat)) + "."@,
{
    let told = |id: u64| text::digits(id as nat);
    assert(seq![id].map_values(told) =~= seq![text::digits(id as nat)]);
    assert(seq![id, other].map_values(told) =~= seq![
        text::digits(id as nat),
        text::digits(other as nat),
    ]);
    reveal_with_fuel(text::joined, 3);
    let pair = seq![text::digits(id as nat), text::digits(other as nat)];
    assert(pair.drop_last() =~= seq![text::digits(id as nat)]);
    assert(pair.drop_first() =~= seq![text::digits(other as nat)]);
}

/// A picture is asked for with its model, its prompt and the objects it is to look like.
pub proof fn pictures_are_asked_for(arguments: JsonView, i: int)
    requires
        image_of(arguments) is Ok,
    ensures
        image_of(arguments)->Ok_0 matches ActionView::GenerateImage { model, prompt, references }
            && {
            &&& model == "gpt-image-2"@ || model == "gemini-3-pro-image"@
            &&& arguments.text_at("prompt"@) == Some(prompt)
            &&& !text::blank(prompt) && prompt.len() <= 100_000
            &&& references.len() <= 14
            &&& arguments.get("referenceObjectIds"@) is None ==> references.len() == 0
            &&& arguments.array_at("referenceObjectIds"@) is Some ==> arguments.array_at(
                "referenceObjectIds"@,
            )->0.len() == references.len()
            &&& arguments.array_at("referenceObjectIds"@) is Some && 0 <= i < references.len()
                ==> arguments.array_at("referenceObjectIds"@)->0[i].as_text() == Some(references[i])
        },
{
    arguments::objects_are_taken_as_given(arguments, "referenceObjectIds"@, 14, i);
}

/// What belongs to an event carries its id.
pub proof fn events_are_carried(value: JsonView, id: Seq<char>)
    ensures
        with_event(value, Some(id)).text_at("externalEventId"@) == Some(id),
        with_event(value, None) == value,
{
}

} // verus!
