//! Writes of whole files in free form: each is previewed, and run only where the preview
//! shows what becomes of the source.

use crate::agent_loop::ToolOutcome;
use crate::json::{Json, JsonView};
use crate::sources::{SourceKind, SourceSnapshot};
use crate::text;
use crate::text::Failure;
use vstd::prelude::*;

verus! {

/// What a managed source answered.
#[derive(Debug)]
pub enum Reply {
    Failed(Failure),
    Done { text: String, snapshot: Option<SourceSnapshot> },
}

/// The mathematical value of an answer.
pub enum ReplyView {
    Failed(Seq<char>),
    Done { text: Seq<char>, snapshot: Option<(SourceKind, Seq<char>, Seq<char>)> },
}

impl View for Reply {
    type V = ReplyView;

    open spec fn view(&self) -> ReplyView {
        match *self {
            Reply::Failed(failure) => ReplyView::Failed(failure@),
            Reply::Done { text, snapshot } => ReplyView::Done {
                text: text@,
                snapshot: snapshot.deep_view(),
            },
        }
    }
}

/// What follows from a preview.
#[derive(Debug)]
pub enum AfterPreview {
    /// The write is run.
    Run,
    /// The call has failed, and its result is stored.
    Fail(ToolOutcome),
}

/// The outcome of a write that failed.
pub open spec fn write_failed(tool: Seq<char>, error: Seq<char>, outcome: ToolOutcome) -> bool {
    &&& outcome.text@ == tool + " failed: "@ + error
    &&& outcome.store_result
    &&& !outcome.ok
    &&& !outcome.end_session
}

fn fail_write(tool: &str, failure: &Failure) -> (outcome: ToolOutcome)
    ensures
        write_failed(tool@, failure@, outcome),
{
    let mut words = tool.to_owned();
    words.append(" failed: ");
    words.append(failure.message.as_str());
    ToolOutcome { text: words, store_result: true, ok: false, end_session: false }
}

/// What follows from the preview of a write of the session's own.
pub fn after_preview(tool: &str, preview: &Reply) -> (result: Result<AfterPreview, Failure>)
    ensures
        match preview@ {
            ReplyView::Failed(error) => result matches Ok(AfterPreview::Fail(outcome))
                && write_failed(tool@, error, outcome),
            ReplyView::Done { text: _, snapshot } => if snapshot is Some {
                result matches Ok(AfterPreview::Run)
            } else {
                result is Err && result->Err_0@
                    == "freeform write preview omitted the resulting source snapshot"@
            },
        },
{
    match preview {
        Reply::Failed(failure) => Ok(AfterPreview::Fail(fail_write(tool, failure))),
        Reply::Done { text: _, snapshot } => {
            if snapshot.is_some() {
                Ok(AfterPreview::Run)
            } else {
                Err(
                    Failure::fixed(
                        "freeform write preview omitted the resulting source snapshot",
                    ),
                )
            }
        },
    }
}

/// How a write has ended: its outcome and, where it was done, what became of the source.
#[derive(Debug)]
pub struct Written {
    pub outcome: ToolOutcome,
    pub snapshot: Option<SourceSnapshot>,
}

/// The outcome of a write that was done: the source speaks for itself.
pub open spec fn write_done(
    text: Seq<char>,
    snapshot: (SourceKind, Seq<char>, Seq<char>),
    written: Written,
) -> bool {
    &&& written.outcome.text@ == text
    &&& !written.outcome.store_result
    &&& written.outcome.ok
    &&& !written.outcome.end_session
    &&& written.snapshot.deep_view() == Some(snapshot)
}

/// How a write of the session's own has ended.
pub fn after_write(tool: &str, reply: Reply) -> (result: Result<Written, Failure>)
    ensures
        match reply@ {
            ReplyView::Failed(error) => result is Ok && write_failed(
                tool@,
                error,
                result->Ok_0.outcome,
            ) && result->Ok_0.snapshot is None,
            ReplyView::Done { text, snapshot } => match snapshot {
                Some(snapshot) => result is Ok && write_done(text, snapshot, result->Ok_0),
                None => result is Err && result->Err_0@
                    == "freeform write omitted the resulting source snapshot"@,
            },
        },
{
    match reply {
        Reply::Failed(failure) => Ok(
            Written { outcome: fail_write(tool, &failure), snapshot: None },
        ),
        Reply::Done { text, snapshot } => match snapshot {
            Some(snapshot) => Ok(
                Written {
                    outcome: ToolOutcome { text, store_result: false, ok: true, end_session: false },
                    snapshot: Some(snapshot),
                },
            ),
            None => Err(Failure::fixed("freeform write omitted the resulting source snapshot")),
        },
    }
}

/// The source that the preview of a subagent's write shows, or why the write is not run.
pub fn subagent_preview(preview: Reply) -> (result: Result<SourceSnapshot, Failure>)
    ensures
        text::seen(result) == match preview@ {
            ReplyView::Failed(error) => Err::<(SourceKind, Seq<char>, Seq<char>), Seq<char>>(
                error,
            ),
            ReplyView::Done { text: _, snapshot } => match snapshot {
                Some(snapshot) => Ok::<(SourceKind, Seq<char>, Seq<char>), Seq<char>>(snapshot),
                None => Err::<(SourceKind, Seq<char>, Seq<char>), Seq<char>>(
                    "subagent freeform write preview omitted its source snapshot"@,
                ),
            },
        },
{
    match preview {
        Reply::Failed(failure) => Err(failure),
        Reply::Done { text: _, snapshot } => match snapshot {
            Some(snapshot) => Ok(snapshot),
            None => Err(
                Failure::fixed("subagent freeform write preview omitted its source snapshot"),
            ),
        },
    }
}

/// Checks that what becomes of the source still fits into the subagent's context.
pub fn check_subagent_write(tool: &str, fits: bool) -> (outcome: Result<(), Failure>)
    ensures
        crate::arguments::checked(outcome) == if fits {
            Ok::<(), Seq<char>>(())
        } else {
            Err::<(), Seq<char>>(
                tool@
                    + " was not run because its resulting source state would exceed the subagent context limit"@,
            )
        },
{
    if fits {
        return Ok(());
    }
    let mut message = tool.to_owned();
    message.append(
        " was not run because its resulting source state would exceed the subagent context limit",
    );
    Err(Failure::new(message))
}

/// How a subagent's write has ended.
pub fn after_subagent_write(reply: Reply) -> (result: Result<Written, Failure>)
    ensures
        match reply@ {
            ReplyView::Failed(error) => result is Err && result->Err_0@ == error,
            ReplyView::Done { text, snapshot } => match snapshot {
                Some(snapshot) => result is Ok && write_done(text, snapshot, result->Ok_0),
                None => result is Err && result->Err_0@
                    == "subagent freeform write omitted its resulting source snapshot"@,
            },
        },
{
    match reply {
        Reply::Failed(failure) => Err(failure),
        Reply::Done { text, snapshot } => match snapshot {
            Some(snapshot) => Ok(
                Written {
                    outcome: ToolOutcome { text, store_result: false, ok: true, end_session: false },
                    snapshot: Some(snapshot),
                },
            ),
            None => Err(
                Failure::fixed("subagent freeform write omitted its resulting source snapshot"),
            ),
        },
    }
}

/// The write that a subagent's contents are for: the one under the token that it was given
/// before. A token is good for one write.
pub open spec fn token_named(token: JsonView, known: Seq<Seq<char>>) -> Result<
    Seq<char>,
    Seq<char>,
> {
    match token.as_text() {
        None => Err("subagent freeform capture token is invalid"@),
        Some(id) => if known.contains(id) {
            Ok(id)
        } else {
            Err("subagent freeform capture token is unknown"@)
        },
    }
}

/// Takes the token that a subagent's contents come with from those that it was given.
pub fn take_token(token: &Json, known: &mut Vec<String>) -> (result: Result<String, Failure>)
    ensures
        text::seen(result) == token_named(token@, old(known).deep_view()),
        final(known).deep_view() == match token_named(token@, old(known).deep_view()) {
            Ok(id) => text::excluding(old(known).deep_view(), seq![id]),
            Err(_) => old(known).deep_view(),
        },
{
    let id = match token.as_text() {
        None => return Err(Failure::fixed("subagent freeform capture token is invalid")),
        Some(id) => id,
    };
    if !text::among(known, id) {
        return Err(Failure::fixed("subagent freeform capture token is unknown"));
    }
    let rest = text::exclude_one(known, id);
    *known = rest;
    Ok(id.to_owned())
}

/// A token that was taken is not known any more.
pub proof fn tokens_are_good_once(token: JsonView, known: Seq<Seq<char>>)
    requires
        token_named(token, known) is Ok,
    ensures
        token_named(token, text::excluding(known, seq![token_named(token, known)->Ok_0])) is Err,
{
    let id = token_named(token, known)->Ok_0;
    text::excluding_keeps(known, seq![id]);
    assert(seq![id].contains(id)) by {
        assert(seq![id][0] == id);
    }
}

/// A write that failed is told with its tool and its error and kept in the journal; one
/// that was done is not kept, and neither ends a session.
pub proof fn writes_tell_how_they_went(
    tool: Seq<char>,
    error: Seq<char>,
    outcome: ToolOutcome,
    text: Seq<char>,
    snapshot: (SourceKind, Seq<char>, Seq<char>),
    written: Written,
)
    ensures
        write_failed(tool, error, outcome) ==> outcome.text@ == tool + " failed: "@ + error
            && !outcome.ok && outcome.store_result && !outcome.end_session,
        write_done(text, snapshot, written) ==> written.outcome.text@ == text && written.outcome.ok
            && !written.outcome.store_result && !written.outcome.end_session
            && written.snapshot.deep_view() == Some(snapshot),
        write_failed(tool, error, outcome) ==> !write_done(
            text,
            snapshot,
            (Written { outcome, snapshot: written.snapshot }),
        ),
{
}

} // verus!
