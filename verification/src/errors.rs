//! Failures with their causes, as they are reported and acted upon.

use crate::text;
use vstd::prelude::*;

verus! {

/// The most characters of a failure that are kept.
pub const ERROR_LIMIT: usize = 1_000;

/// The code of a service's answer to an operation that was cancelled.
pub const CANCELLED: &'static str = "operation_cancelled";

/// Where a failure comes from, as far as that decides what is done about it.
#[derive(Debug, PartialEq, Eq)]
pub enum Origin {
    /// Anywhere else.
    Other,
    /// A service, which answered with this code.
    Service { code: String },
    /// A turn that has used up its rounds.
    RoundLimit,
}

/// A failure, with what it failed at from the outermost to the innermost.
#[derive(Debug, PartialEq, Eq)]
pub struct ErrorReport {
    pub causes: Vec<String>,
    pub origin: Origin,
}

impl ErrorReport {
    /// A failure with one cause.
    pub fn new(message: &str, origin: Origin) -> (report: ErrorReport)
        ensures
            report.causes.deep_view() == seq![message@],
            report.origin == origin,
    {
        let mut causes: Vec<String> = Vec::new();
        causes.push(message.to_owned());
        assert(causes.deep_view() =~= seq![message@]);
        ErrorReport { causes, origin }
    }

    /// The failure of what `message` says, because of this failure.
    pub fn context(self, message: &str) -> (report: ErrorReport)
        ensures
            report.causes.deep_view() == seq![message@] + self.causes.deep_view(),
            report.origin == self.origin,
    {
        let mut causes = self.causes;
        let ghost before = causes.deep_view();
        causes.insert(0, message.to_owned());
        assert(causes.deep_view() =~= seq![message@] + before);
        ErrorReport { causes, origin: self.origin }
    }

    /// What was failed at: the outermost of the causes.
    pub fn message(&self) -> (message: String)
        ensures
            message@ == if self.causes@.len() == 0 {
                Seq::empty()
            } else {
                self.causes@[0]@
            },
    {
        if self.causes.len() == 0 {
            String::new()
        } else {
            self.causes[0].clone()
        }
    }
}

/// The first `limit` characters of a text.
pub open spec fn cut(words: Seq<char>, limit: nat) -> Seq<char> {
    if words.len() <= limit {
        words
    } else {
        words.subrange(0, limit as int)
    }
}

/// The causes of a failure in one line, cut to the length that is kept.
pub fn bounded_error(error: &ErrorReport) -> (line: String)
    ensures
        line@ == cut(text::joined(error.causes.deep_view(), ": "@), ERROR_LIMIT as nat),
{
    let line = text::join(&error.causes, ": ");
    if line.as_str().unicode_len() <= ERROR_LIMIT {
        line
    } else {
        line.as_str().substring_char(0, ERROR_LIMIT).to_owned()
    }
}

/// Whether a failure is the answer to an operation that was cancelled.
pub fn is_cancelled(error: &ErrorReport) -> (yes: bool)
    ensures
        yes == (error.origin matches Origin::Service { code } && code@ == CANCELLED@),
{
    match &error.origin {
        Origin::Service { code } => *code.as_str() == *CANCELLED,
        _ => false,
    }
}

/// Whether a failure is that of a turn that has used up its rounds.
pub fn is_agent_loop_round_limit(error: &ErrorReport) -> (yes: bool)
    ensures
        yes == (error.origin is RoundLimit),
{
    matches!(error.origin, Origin::RoundLimit)
}

/// Whether a service answered that something does not exist.
pub fn is_not_found(error: &ErrorReport) -> (yes: bool)
    ensures
        yes == (error.origin matches Origin::Service { code } && code@ == "not_found"@),
{
    match &error.origin {
        Origin::Service { code } => *code.as_str() == *"not_found",
        _ => false,
    }
}

/// Whether the history refused a write because it holds another version.
pub fn is_state_conflict(error: &ErrorReport) -> (yes: bool)
    ensures
        yes == (error.origin matches Origin::Service { code } && code@ == "state_conflict"@),
{
    match &error.origin {
        Origin::Service { code } => *code.as_str() == *"state_conflict",
        _ => false,
    }
}

/// A kept failure is never longer than the limit.
pub proof fn kept_errors_are_bounded(causes: Seq<Seq<char>>)
    ensures
        cut(text::joined(causes, ": "@), ERROR_LIMIT as nat).len() <= ERROR_LIMIT,
{
}

/// A text within the limit is kept whole, and of a longer one as much of its beginning as
/// the limit allows.
pub proof fn texts_are_cut_at_their_end(words: Seq<char>, rest: Seq<char>, limit: nat)
    ensures
        words.len() <= limit ==> cut(words, limit) == words,
        words.len() == limit ==> cut(words + rest, limit) == words,
{
    if words.len() == limit {
        assert((words + rest).subrange(0, limit as int) =~= words);
        if rest.len() == 0 {
            assert(words + rest =~= words);
        }
    }
}

/// A line of errors begins with the outermost cause, as far as it is kept.
pub proof fn errors_begin_with_the_outermost(cause: Seq<char>, inner: Seq<Seq<char>>)
    requires
        cause.len() <= 1000,
    ensures
        text::begins(cut(text::joined(seq![cause] + inner, ": "@), 1000), cause),
{
    text::joins_keep_their_parts(seq![cause], inner, ": "@);
    let line = text::joined(seq![cause] + inner, ": "@);
    if inner.len() == 0 {
        assert(seq![cause] + inner =~= seq![cause]);
    }
    assert(cut(line, 1000).subrange(0, cause.len() as int) =~= cause);
}

} // verus!
