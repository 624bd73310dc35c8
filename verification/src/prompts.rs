//! System prompts, put together from named manual sections.

use crate::clock;
use crate::clock::UtcTime;
use crate::text;
use crate::text::Failure;
use vstd::prelude::*;

verus! {

/// The manual sections by key; a later one replaces an earlier one.
#[derive(Debug)]
pub struct Manuals {
    pub sections: Vec<(String, String)>,
}

/// The model that a session runs on.
#[derive(Debug, PartialEq, Eq)]
pub struct RuntimeModel {
    pub model: String,
    pub reasoning_effort: String,
    pub context_window_tokens: u64,
}

/// The section called `key`.
pub open spec fn manual(sections: Seq<(String, String)>, key: Seq<char>) -> Option<Seq<char>>
    decreases sections.len(),
{
    if sections.len() == 0 {
        None
    } else if sections.last().0@ == key {
        Some(sections.last().1@)
    } else {
        manual(sections.drop_last(), key)
    }
}

/// The section called `key`, or the refusal that it is missing.
pub open spec fn needed(sections: Seq<(String, String)>, key: Seq<char>) -> Result<
    Seq<char>,
    Seq<char>,
> {
    match manual(sections, key) {
        Some(content) => Ok(content),
        None => Err("missing system prompt section "@ + key),
    }
}

/// A section under its title.
pub open spec fn titled(title: Seq<char>, content: Seq<char>) -> Seq<char> {
    title + "\n\n"@ + content
}

/// A section under its title.
pub fn section(title: &str, content: &str) -> (result: String)
    ensures
        result@ == titled(title@, content@),
{
    let mut result = title.to_owned();
    result.append("\n\n");
    result.append(content);
    result
}

/// What a session is told about the model that it runs on.
pub open spec fn runtime_text(
    model: Seq<char>,
    reasoning_effort: Seq<char>,
    now: UtcTime,
) -> Seq<char> {
    "You are currently running on "@ + model + " with "@ + reasoning_effort
        + " thinking mode. The current date and time is "@ + clock::human(now) + "."@
}

/// What a session is told about the model that it runs on.
pub fn runtime_description(runtime: &RuntimeModel, now: &UtcTime) -> (result: String)
    requires
        now.well_formed(),
    ensures
        result@ == runtime_text(runtime.model@, runtime.reasoning_effort@, *now),
{
    let mut result = "You are currently running on ".to_owned();
    result.append(runtime.model.as_str());
    result.append(" with ");
    result.append(runtime.reasoning_effort.as_str());
    result.append(" thinking mode. The current date and time is ");
    result.append(clock::human_utc_datetime(now).as_str());
    result.append(".");
    result
}

impl RuntimeModel {
    /// How commits name the model as their author.
    pub fn attribution(&self) -> (result: String)
        ensures
            result@ == self.model@ + "-"@ + self.reasoning_effort@,
    {
        let mut result = self.model.clone();
        result.append("-");
        result.append(self.reasoning_effort.as_str());
        result
    }

    /// A model for trials.
    pub fn testing() -> (runtime: RuntimeModel)
        ensures
            runtime.model@ == "gpt-5.6-sol"@,
            runtime.reasoning_effort@ == "xhigh"@,
            runtime.context_window_tokens == 1_000_000,
    {
        RuntimeModel {
            model: "gpt-5.6-sol".to_owned(),
            reasoning_effort: "xhigh".to_owned(),
            context_window_tokens: 1_000_000,
        }
    }
}

/// A prompt in the making: its sections so far, or the first refusal.
pub open spec fn and_then_section(
    so_far: Result<Seq<Seq<char>>, Seq<char>>,
    title: Seq<char>,
    content: Result<Seq<char>, Seq<char>>,
) -> Result<Seq<Seq<char>>, Seq<char>> {
    match so_far {
        Err(message) => Err(message),
        Ok(sections) => match content {
            Err(message) => Err(message),
            Ok(content) => Ok(sections.push(titled(title, content))),
        },
    }
}

/// The sections of a prompt, in order.
pub open spec fn prompt_sections(
    sections: Seq<(String, String)>,
    session_key: Seq<char>,
    writes: bool,
    session_context: Seq<char>,
    channel: Seq<char>,
    runtime: Seq<char>,
) -> Result<Seq<Seq<char>>, Seq<char>> {
    let identity = and_then_section(
        Ok(Seq::empty()),
        "Kennedy's identity"@,
        needed(sections, "identity"@),
    );
    let kind = and_then_section(identity, "Session type"@, needed(sections, session_key));
    let telegram = if channel == "telegram"@ || channel == "telegram-group"@ {
        and_then_section(kind, "Telegram session"@, needed(sections, "telegramSession"@))
    } else {
        kind
    };
    let group = if channel == "telegram-group"@ {
        and_then_section(
            telegram,
            "Telegram group session"@,
            needed(sections, "telegramGroupSession"@),
        )
    } else {
        telegram
    };
    let basics = and_then_section(group, "Kmap basics"@, needed(sections, "kmapBasics"@));
    let reading = and_then_section(
        basics,
        "Critical Kmap and context tools"@,
        needed(sections, "readTools"@),
    );
    let writing = if writes {
        and_then_section(reading, "Write tools"@, needed(sections, "writeTools"@))
    } else {
        reading
    };
    let harness = and_then_section(writing, "Codex harness"@, needed(sections, "codexHarness"@));
    let schedule = if text::blank(session_context) {
        harness
    } else {
        and_then_section(harness, "Self-time schedule"@, Ok(text::trimmed(session_context)))
    };
    and_then_section(schedule, "Current runtime"@, Ok(runtime))
}

/// A prompt: its sections with a blank line between them.
pub open spec fn prompt(
    sections: Seq<(String, String)>,
    session_key: Seq<char>,
    writes: bool,
    session_context: Seq<char>,
    channel: Seq<char>,
    runtime: Seq<char>,
) -> Result<Seq<char>, Seq<char>> {
    match prompt_sections(sections, session_key, writes, session_context, channel, runtime) {
        Err(message) => Err(message),
        Ok(parts) => Ok(text::joined(parts, "\n\n"@)),
    }
}

/// The section on the type of a conversation, and whether it may write.
pub open spec fn conversation_key(session_type: Seq<char>) -> (Seq<char>, bool) {
    if session_type == "free-time"@ {
        ("freeTimeSession"@, true)
    } else if session_type == "wakeup"@ {
        ("wakeupSession"@, true)
    } else {
        ("conversationSession"@, false)
    }
}

/// The section on the type of an ingress session.
pub open spec fn ingress_key(source_session_type: Seq<char>) -> Seq<char> {
    if source_session_type == "audio"@ {
        "audioIngressSession"@
    } else {
        "historyIngressSession"@
    }
}

/// A manual section as it was read from the file `path`: without surrounding white
/// space, and not empty.
pub fn manual_text(raw: &str, path: &str) -> (result: Result<String, Failure>)
    ensures
        text::seen(result) == if text::blank(raw@) {
            Err::<Seq<char>, Seq<char>>("system prompt "@ + path@ + " is empty"@)
        } else {
            Ok::<Seq<char>, Seq<char>>(text::trimmed(raw@))
        },
{
    let inner = text::trim(raw);
    if inner.is_empty() {
        let mut message = "system prompt ".to_owned();
        message.append(path);
        message.append(" is empty");
        return Err(Failure::new(message));
    }
    Ok(inner.to_owned())
}

impl Manuals {
    /// The section called `key`.
    pub fn required<'a>(&'a self, key: &str) -> (result: Result<&'a str, Failure>)
        ensures
            match result {
                Ok(content) => needed(self.sections@, key@) == Ok::<Seq<char>, Seq<char>>(content@),
                Err(failure) => needed(self.sections@, key@) == Err::<Seq<char>, Seq<char>>(
                    failure@,
                ),
            },
    {
        let mut i: usize = self.sections.len();
        assert(self.sections@.take(i as int) =~= self.sections@);
        while i > 0
            invariant
                i <= self.sections.len(),
                manual(self.sections@, key@) == manual(self.sections@.take(i as int), key@),
            decreases i,
        {
            assert(self.sections@.take(i as int).drop_last() =~= self.sections@.take(i - 1));
            if *self.sections[i - 1].0.as_str() == *key {
                return Ok(self.sections[i - 1].1.as_str());
            }
            i = i - 1;
        }
        let mut message = "missing system prompt section ".to_owned();
        message.append(key);
        Err(Failure::new(message))
    }

    /// Adds the section called `key` under `title`.
    fn add(&self, parts: &mut Vec<String>, title: &str, key: &str) -> (result: Result<(), Failure>)
        ensures
            match result {
                Ok(_) => and_then_section(
                    Ok(old(parts).deep_view()),
                    title@,
                    needed(self.sections@, key@),
                ) == Ok::<Seq<Seq<char>>, Seq<char>>(final(parts).deep_view()),
                Err(failure) => and_then_section(
                    Ok(old(parts).deep_view()),
                    title@,
                    needed(self.sections@, key@),
                ) == Err::<Seq<Seq<char>>, Seq<char>>(failure@),
            },
    {
        match self.required(key) {
            Err(failure) => Err(failure),
            Ok(content) => {
                let ghost before = parts.deep_view();
                parts.push(section(title, content));
                assert(parts.deep_view() =~= before.push(titled(title@, content@)));
                Ok(())
            },
        }
    }

    /// Puts a prompt together.
    fn compose(
        &self,
        session_key: &str,
        writes: bool,
        session_context: &str,
        channel: &str,
        runtime: &str,
    ) -> (result: Result<String, Failure>)
        ensures
            text::seen(result) == prompt(
                self.sections@,
                session_key@,
                writes,
                session_context@,
                channel@,
                runtime@,
            ),
    {
        let mut parts: Vec<String> = Vec::new();
        assert(parts.deep_view() =~= Seq::<Seq<char>>::empty());
        if let Err(failure) = self.add(&mut parts, "Kennedy's identity", "identity") {
            return Err(failure);
        }
        if let Err(failure) = self.add(&mut parts, "Session type", session_key) {
            return Err(failure);
        }
        if *channel == *"telegram" || *channel == *"telegram-group" {
            if let Err(failure) = self.add(&mut parts, "Telegram session", "telegramSession") {
                return Err(failure);
            }
        }
        if *channel == *"telegram-group" {
            if let Err(failure) = self.add(
                &mut parts,
                "Telegram group session",
                "telegramGroupSession",
            ) {
                return Err(failure);
            }
        }
        if let Err(failure) = self.add(&mut parts, "Kmap basics", "kmapBasics") {
            return Err(failure);
        }
        if let Err(failure) = self.add(&mut parts, "Critical Kmap and context tools", "readTools") {
            return Err(failure);
        }
        if writes {
            if let Err(failure) = self.add(&mut parts, "Write tools", "writeTools") {
                return Err(failure);
            }
        }
        if let Err(failure) = self.add(&mut parts, "Codex harness", "codexHarness") {
            return Err(failure);
        }
        if !text::is_blank(session_context) {
            let ghost before = parts.deep_view();
            parts.push(section("Self-time schedule", text::trim(session_context)));
            assert(parts.deep_view() =~= before.push(
                titled("Self-time schedule"@, text::trimmed(session_context@)),
            ));
        }
        let ghost before = parts.deep_view();
        parts.push(section("Current runtime", runtime));
        assert(parts.deep_view() =~= before.push(titled("Current runtime"@, runtime@)));
        Ok(text::join(&parts, "\n\n"))
    }

    /// The prompt of a conversation, a self-time session or a wakeup session.
    pub fn compose_conversation(
        &self,
        runtime: &RuntimeModel,
        session_type: &str,
        session_context: &str,
        now: &UtcTime,
    ) -> (result: Result<String, Failure>)
        requires
            now.well_formed(),
        ensures
            text::seen(result) == prompt(
                self.sections@,
                conversation_key(session_type@).0,
                conversation_key(session_type@).1,
                session_context@,
                session_type@,
                runtime_text(runtime.model@, runtime.reasoning_effort@, *now),
            ),
    {
        let description = runtime_description(runtime, now);
        let (session_key, writes) = if *session_type == *"free-time" {
            ("freeTimeSession", true)
        } else if *session_type == *"wakeup" {
            ("wakeupSession", true)
        } else {
            ("conversationSession", false)
        };
        self.compose(session_key, writes, session_context, session_type, description.as_str())
    }

    /// The prompt of an ingress session.
    pub fn compose_ingress(
        &self,
        runtime: &RuntimeModel,
        source_session_type: &str,
        now: &UtcTime,
    ) -> (result: Result<String, Failure>)
        requires
            now.well_formed(),
        ensures
            text::seen(result) == prompt(
                self.sections@,
                ingress_key(source_session_type@),
                true,
                Seq::empty(),
                source_session_type@,
                runtime_text(runtime.model@, runtime.reasoning_effort@, *now),
            ),
    {
        let description = runtime_description(runtime, now);
        let session_key = if *source_session_type == *"audio" {
            "audioIngressSession"
        } else {
            "historyIngressSession"
        };
        proof {
            reveal_strlit("");
            assert(""@ =~= Seq::<char>::empty());
        }
        self.compose(session_key, true, "", source_session_type, description.as_str())
    }
}

/// The Telegram sections are in a prompt exactly for the Telegram channels, the
/// group section exactly for groups, and the write tools exactly where the session
/// may write, whenever the prompt is whole.
pub proof fn prompt_layers_follow_the_channel(
    sections: Seq<(String, String)>,
    session_key: Seq<char>,
    writes: bool,
    session_context: Seq<char>,
    channel: Seq<char>,
    runtime: Seq<char>,
)
    requires
        prompt_sections(sections, session_key, writes, session_context, channel, runtime) is Ok,
    ensures
        ({
            let parts = prompt_sections(
                sections,
                session_key,
                writes,
                session_context,
                channel,
                runtime,
            )->Ok_0;
            let telegram = channel == "telegram"@ || channel == "telegram-group"@;
            let group = channel == "telegram-group"@;
            let shown = if telegram {
                1int
            } else {
                0
            } + if group {
                1int
            } else {
                0
            };
            &&& parts.len() == 6 + shown + (if writes {
                1int
            } else {
                0
            }) + (if text::blank(session_context) {
                0int
            } else {
                1
            })
            &&& parts[0] == titled("Kennedy's identity"@, manual(sections, "identity"@)->0)
            &&& parts[1] == titled("Session type"@, manual(sections, session_key)->0)
            &&& telegram ==> parts[2] == titled(
                "Telegram session"@,
                manual(sections, "telegramSession"@)->0,
            )
            &&& group ==> parts[3] == titled(
                "Telegram group session"@,
                manual(sections, "telegramGroupSession"@)->0,
            )
            &&& parts[2 + shown] == titled("Kmap basics"@, manual(sections, "kmapBasics"@)->0)
            &&& writes ==> parts[4 + shown] == titled(
                "Write tools"@,
                manual(sections, "writeTools"@)->0,
            )
            &&& !writes ==> parts[4 + shown] == titled(
                "Codex harness"@,
                manual(sections, "codexHarness"@)->0,
            )
            &&& parts.last() == titled("Current runtime"@, runtime)
        }),
{
}

/// `current` with the description of the runtime behind its last runtime heading
/// replaced by `description`; nothing where it has no such heading.
pub open spec fn refreshed(current: Seq<char>, description: Seq<char>) -> Option<Seq<char>> {
    match text::found_last(current, "\n\nCurrent runtime\n\n"@) {
        None => None,
        Some(at) => Some(current.take(at) + "\n\nCurrent runtime\n\n"@ + description),
    }
}

/// The system prompt with a current description of the runtime, where it has one to
/// replace and the replacement changes it.
pub fn refresh_runtime_prompt(current: &str, runtime: &RuntimeModel, now: &UtcTime) -> (result:
    Option<String>)
    requires
        now.well_formed(),
    ensures
        ({
            let wanted = refreshed(
                current@,
                runtime_text(runtime.model@, runtime.reasoning_effort@, *now),
            );
            result.deep_view() == if wanted is Some && wanted->0 != current@ {
                wanted
            } else {
                None
            }
        }),
{
    let marker = "\n\nCurrent runtime\n\n";
    match text::rfind(current, marker) {
        None => None,
        Some(at) => {
            let prefix = current.substring_char(0, at);
            let mut result = prefix.to_owned();
            result.append(marker);
            result.append(runtime_description(runtime, now).as_str());
            if *result.as_str() != *current {
                Some(result)
            } else {
                None
            }
        },
    }
}

/// A section of the manual is what was set under its key last.
pub proof fn manuals_hold_what_was_set_last(
    sections: Seq<(String, String)>,
    key: Seq<char>,
    at: int,
)
    requires
        0 <= at < sections.len(),
        sections[at].0@ == key,
        forall|i: int| at < i < sections.len() ==> (#[trigger] sections[i]).0@ != key,
    ensures
        manual(sections, key) == Some(sections[at].1@),
    decreases sections.len(),
{
    if at < sections.len() - 1 {
        assert(sections[sections.len() - 1].0@ != key);
        manuals_hold_what_was_set_last(sections.drop_last(), key, at);
    }
}

/// A conversation gets the manual for conversations and no writing tools; self-time and
/// wakeups get their own manual and the tools. Sounds are taken in by their own manual.
pub proof fn sessions_get_their_manual(session_type: Seq<char>)
    ensures
        session_type == "free-time"@ ==> conversation_key(session_type) == (
            "freeTimeSession"@,
            true,
        ),
        session_type == "wakeup"@ ==> conversation_key(session_type) == ("wakeupSession"@, true),
        session_type == "conversation"@ || session_type == "telegram"@ || session_type
            == "telegram-group"@ ==> conversation_key(session_type) == (
            "conversationSession"@,
            false,
        ),
        session_type == "audio"@ ==> ingress_key(session_type) == "audioIngressSession"@,
        session_type != "audio"@ ==> ingress_key(session_type) == "historyIngressSession"@,
{
    reveal_strlit("free-time");
    reveal_strlit("wakeup");
    reveal_strlit("conversation");
    reveal_strlit("telegram");
    reveal_strlit("telegram-group");
    assert("free-time"@.len() == 9 && "wakeup"@.len() == 6 && "conversation"@.len() == 12);
    assert("telegram"@.len() == 8 && "telegram-group"@.len() == 14);
}

/// A prompt ends with the runtime, tells the schedule of self-time before it, and holds
/// the writing tools only for a session that writes; it is refused where one of its
/// sections is missing.
pub proof fn prompts_end_with_the_runtime(
    sections: Seq<(String, String)>,
    session_key: Seq<char>,
    writes: bool,
    session_context: Seq<char>,
    channel: Seq<char>,
    runtime: Seq<char>,
)
    ensures
        ({
            let parts = prompt_sections(
                sections,
                session_key,
                writes,
                session_context,
                channel,
                runtime,
            );
            let all = manual(sections, "identity"@) is Some && manual(sections, session_key) is Some
                && manual(sections, "kmapBasics"@) is Some && manual(sections, "readTools"@) is Some
                && manual(sections, "codexHarness"@) is Some && (writes ==> manual(
                sections,
                "writeTools"@,
            ) is Some) && (channel == "telegram"@ || channel == "telegram-group"@ ==> manual(
                sections,
                "telegramSession"@,
            ) is Some) && (channel == "telegram-group"@ ==> manual(
                sections,
                "telegramGroupSession"@,
            ) is Some);
            &&& parts is Ok <==> all
            &&& parts is Ok ==> parts->Ok_0.last() == "Current runtime"@ + "\n\n"@ + runtime
            &&& parts is Ok && !text::blank(session_context) ==> parts->Ok_0[parts->Ok_0.len() - 2]
                == "Self-time schedule"@ + "\n\n"@ + text::trimmed(session_context)
            &&& parts is Ok && text::blank(session_context) ==> parts->Ok_0[parts->Ok_0.len() - 2]
                == "Codex harness"@ + "\n\n"@ + manual(sections, "codexHarness"@)->0
            &&& parts is Ok && text::blank(session_context) && writes
                ==> parts->Ok_0[parts->Ok_0.len() - 3] == "Write tools"@ + "\n\n"@ + manual(
                sections,
                "writeTools"@,
            )->0
            &&& parts is Ok && text::blank(session_context) && !writes
                ==> parts->Ok_0[parts->Ok_0.len() - 3] == "Critical Kmap and context tools"@
                + "\n\n"@ + manual(sections, "readTools"@)->0
            &&& parts is Ok ==> prompt(
                sections,
                session_key,
                writes,
                session_context,
                channel,
                runtime,
            ) == Ok::<Seq<char>, Seq<char>>(text::joined(parts->Ok_0, "\n\n"@))
        }),
{
}

/// A prompt keeps all that stands before its last description of the runtime, and gets
/// the new one.
pub proof fn prompts_get_the_new_runtime(
    before: Seq<char>,
    stale: Seq<char>,
    description: Seq<char>,
)
    requires
        forall|i: int|
            before.len() < i ==> !#[trigger] text::occurs_at(
                before + "\n\nCurrent runtime\n\n"@ + stale,
                "\n\nCurrent runtime\n\n"@,
                i,
            ),
    ensures
        refreshed(before + "\n\nCurrent runtime\n\n"@ + stale, description) == Some(
            before + "\n\nCurrent runtime\n\n"@ + description,
        ),
{
    let mark = "\n\nCurrent runtime\n\n"@;
    let current = before + mark + stale;
    let at = before.len() as int;
    assert(current.subrange(at, at + mark.len()) =~= mark);
    assert(text::occurs_at(current, mark, at));
    text::searches_find_the_outermost(current, mark, at);
    text::find_back_occurs(current, mark, current.len() - mark.len());
    assert(text::found_last(current, mark) == Some(at));
    assert(current.take(at) =~= before);
}

/// Without a description of the runtime there is nothing to renew.
pub proof fn only_runtimes_are_renewed(current: Seq<char>, description: Seq<char>)
    requires
        forall|i: int| !#[trigger] text::occurs_at(current, "\n\nCurrent runtime\n\n"@, i),
    ensures
        refreshed(current, description) is None,
{
    let mark = "\n\nCurrent runtime\n\n"@;
    text::find_back_occurs(current, mark, current.len() - mark.len());
}

/// The runtime tells the model, how hard it thinks and the time.
pub proof fn runtimes_tell_model_effort_and_time(
    model: Seq<char>,
    reasoning_effort: Seq<char>,
    now: UtcTime,
)
    ensures
        text::begins(
            runtime_text(model, reasoning_effort, now),
            "You are currently running on "@ + model + " with "@ + reasoning_effort
                + " thinking mode."@,
        ),
        text::ends(runtime_text(model, reasoning_effort, now), clock::human(now) + "."@),
{
    let whole = runtime_text(model, reasoning_effort, now);
    let start = "You are currently running on "@ + model + " with "@ + reasoning_effort
        + " thinking mode."@;
    reveal_strlit(" thinking mode.");
    reveal_strlit(" thinking mode. The current date and time is ");
    assert(whole.subrange(0, start.len() as int) =~= start);
    let end = clock::human(now) + "."@;
    assert(whole.subrange(whole.len() - end.len(), whole.len() as int) =~= end);
}

} // verus!
