//! A turn that a remote service answered in one piece: what it is asked, and the events
//! that its answer stands for.

use crate::json;
use crate::json::{Json, JsonView};
use crate::text;
use vstd::prelude::*;

verus! {

/// The thread of a turn whose answer names none.
pub const NO_THREAD: &'static str = "00000000-0000-0000-0000-000000000000";

/// What a remote service is asked for a turn.
pub fn generate_body(model: &str, input: &str, previous: Option<&str>, timeout_seconds: u64) -> (
    body: Json)
    ensures
        body@ == JsonView::Object(Map::empty()).with("provider"@, JsonView::Text("primary"@)).with(
            "model"@,
            JsonView::Text(model@),
        ).with("chatend"@, JsonView::Text(input@)).with(
            "previous_response_id"@,
            match previous {
                Some(previous) => JsonView::Text(previous@),
                None => JsonView::Null,
            },
        ).with("timeout_seconds"@, JsonView::Integer(timeout_seconds as int)),
{
    Json::object().with("provider", Json::text("primary")).with("model", Json::text(model)).with(
        "chatend",
        Json::text(input),
    ).with("previous_response_id", Json::optional_text(previous)).with(
        "timeout_seconds",
        Json::unsigned(timeout_seconds),
    )
}

/// A call of a tool.
#[derive(Debug)]
pub struct ScriptedCall {
    pub name: String,
    pub arguments: Json,
}

impl DeepView for ScriptedCall {
    type V = (Seq<char>, JsonView);

    open spec fn deep_view(&self) -> (Seq<char>, JsonView) {
        (self.name@, self.arguments@)
    }
}

/// A call in an answer: one that names a tool; its arguments may be left out.
pub open spec fn call_of(value: JsonView) -> Option<(Seq<char>, JsonView)> {
    match value.text_at("name"@) {
        Some(name) => Some(
            (
                name,
                match value.get("arguments"@) {
                    Some(arguments) => arguments,
                    None => JsonView::Object(Map::empty()),
                },
            ),
        ),
        None => None,
    }
}

/// The calls among the items of an answer, in order.
pub open spec fn calls_of(items: Seq<JsonView>) -> Seq<(Seq<char>, JsonView)>
    decreases items.len(),
{
    if items.len() == 0 {
        Seq::empty()
    } else {
        let before = calls_of(items.drop_last());
        match call_of(items.last()) {
            Some(call) => before.push(call),
            None => before,
        }
    }
}

/// The calls of an answer, in order.
pub open spec fn answered_calls(response: JsonView) -> Seq<(Seq<char>, JsonView)> {
    match response.array_at("tool_calls"@) {
        Some(items) => calls_of(items),
        None => Seq::empty(),
    }
}

fn read_calls(response: &Json) -> (calls: Vec<ScriptedCall>)
    ensures
        calls.deep_view() == answered_calls(response@),
{
    let mut calls: Vec<ScriptedCall> = Vec::new();
    assert(calls.deep_view() =~= Seq::empty());
    let items = match response.array_at("tool_calls") {
        Some(items) => items,
        None => return calls,
    };
    let ghost views = json::values_of(items@);
    proof {
        json::values_at(items@);
    }
    let mut i: usize = 0;
    while i < items.len()
        invariant
            i <= items.len(),
            views == json::values_of(items@),
            views.len() == items.len(),
            forall|j: int| 0 <= j < items.len() ==> views[j] == json::value_of(items@[j]),
            calls.deep_view() == calls_of(views.take(i as int)),
        decreases items.len() - i,
    {
        assert(views.take(i + 1).drop_last() =~= views.take(i as int));
        if let Some(name) = items[i].text_at("name") {
            let arguments = match items[i].get("arguments") {
                Some(arguments) => arguments.clone(),
                None => Json::object(),
            };
            let ghost before = calls.deep_view();
            let call = ScriptedCall { name: name.to_owned(), arguments };
            calls.push(call);
            assert(calls.deep_view() =~= before.push(call.deep_view()));
        }
        i = i + 1;
    }
    assert(views.take(views.len() as int) =~= views);
    calls
}

/// The tokens that a turn used.
#[derive(Clone, Copy, Debug, PartialEq, Eq)]
pub struct TurnUsage {
    pub input_tokens: u64,
    pub output_tokens: u64,
    pub cached_input_tokens: u64,
    pub reasoning_output_tokens: u64,
    pub last_input_tokens: Option<u64>,
    pub last_output_tokens: Option<u64>,
}

/// A count in a member; none where there is no such number.
pub open spec fn count_or_none(value: JsonView, key: Seq<char>) -> u64 {
    match value.u64_at(key) {
        Some(count) => count,
        None => 0,
    }
}

/// The tokens that an answer says were used.
pub open spec fn usage_of(response: JsonView) -> Option<TurnUsage> {
    match response.get("usage"@) {
        Some(usage) => Some(
            TurnUsage {
                input_tokens: count_or_none(usage, "input_tokens"@),
                output_tokens: count_or_none(usage, "output_tokens"@),
                cached_input_tokens: count_or_none(usage, "cached_tokens"@),
                reasoning_output_tokens: count_or_none(usage, "reasoning_tokens"@),
                last_input_tokens: usage.u64_at("last_input_tokens"@),
                last_output_tokens: usage.u64_at("last_output_tokens"@),
            },
        ),
        None => None,
    }
}

fn read_count(value: &Json, key: &str) -> (count: u64)
    ensures
        count == count_or_none(value@, key@),
{
    match value.u64_at(key) {
        Some(count) => count,
        None => 0,
    }
}

fn read_usage(response: &Json) -> (usage: Option<TurnUsage>)
    ensures
        usage == usage_of(response@),
{
    match response.get("usage") {
        Some(usage) => Some(
            TurnUsage {
                input_tokens: read_count(usage, "input_tokens"),
                output_tokens: read_count(usage, "output_tokens"),
                cached_input_tokens: read_count(usage, "cached_tokens"),
                reasoning_output_tokens: read_count(usage, "reasoning_tokens"),
                last_input_tokens: usage.u64_at("last_input_tokens"),
                last_output_tokens: usage.u64_at("last_output_tokens"),
            },
        ),
        None => None,
    }
}

/// What happens in a turn.
#[derive(Debug)]
pub enum AgentEvent {
    /// What the service was sent.
    ProviderInput(String),
    /// A call of the tool that calls the others.
    ToolCall { call_id: String, name: String, arguments: Json },
    UsageUpdated(TurnUsage),
    Completed { thread_id: String, answer: String, usage: Option<TurnUsage> },
}

/// The mathematical value of an event.
pub enum AgentEventView {
    ProviderInput(Seq<char>),
    ToolCall { call_id: Seq<char>, name: Seq<char>, arguments: JsonView },
    UsageUpdated(TurnUsage),
    Completed { thread_id: Seq<char>, answer: Seq<char>, usage: Option<TurnUsage> },
}

impl DeepView for AgentEvent {
    type V = AgentEventView;

    open spec fn deep_view(&self) -> AgentEventView {
        match *self {
            AgentEvent::ProviderInput(exact) => AgentEventView::ProviderInput(exact@),
            AgentEvent::ToolCall { call_id, name, arguments } => AgentEventView::ToolCall {
                call_id: call_id@,
                name: name@,
                arguments: arguments@,
            },
            AgentEvent::UsageUpdated(usage) => AgentEventView::UsageUpdated(usage),
            AgentEvent::Completed { thread_id, answer, usage } => AgentEventView::Completed {
                thread_id: thread_id@,
                answer: answer@,
                usage,
            },
        }
    }
}

/// The events of an answer's calls: they are numbered in order.
pub open spec fn call_events(calls: Seq<(Seq<char>, JsonView)>) -> Seq<AgentEventView> {
    Seq::new(
        calls.len(),
        |i: int|
            AgentEventView::ToolCall {
                call_id: "test-call-"@ + text::digits(i as nat),
                name: calls[i].0,
                arguments: calls[i].1,
            },
    )
}

/// The words of an answer.
pub open spec fn answered_words(response: JsonView) -> Seq<char> {
    match response.get("message"@) {
        Some(message) => match message.text_at("content"@) {
            Some(content) => content,
            None => Seq::empty(),
        },
        None => Seq::empty(),
    }
}

/// The events that an answer stands for: what was sent, the calls, the usage where it is
/// told, and the end. An answer that calls tools says nothing of its own.
pub open spec fn events_of(exact: Seq<char>, response: JsonView) -> Seq<AgentEventView> {
    let calls = answered_calls(response);
    let usage = usage_of(response);
    let begun = seq![AgentEventView::ProviderInput(exact)] + call_events(calls);
    let counted = match usage {
        Some(usage) => begun.push(AgentEventView::UsageUpdated(usage)),
        None => begun,
    };
    counted.push(
        AgentEventView::Completed {
            thread_id: match response.text_at("response_id"@) {
                Some(id) => id,
                None => NO_THREAD@,
            },
            answer: if calls.len() == 0 {
                answered_words(response)
            } else {
                Seq::empty()
            },
            usage,
        },
    )
}

/// The events that an answer stands for.
pub fn turn_events(exact: &str, response: &Json) -> (events: Vec<AgentEvent>)
    ensures
        events.deep_view() == events_of(exact@, response@),
{
    let calls = read_calls(response);
    let usage = read_usage(response);
    let ghost views = calls.deep_view();
    let mut events: Vec<AgentEvent> = Vec::new();
    events.push(AgentEvent::ProviderInput(exact.to_owned()));
    let ghost all = call_events(views);
    assert(events.deep_view() =~= seq![AgentEventView::ProviderInput(exact@)] + all.take(0));
    let mut i: usize = 0;
    while i < calls.len()
        invariant
            i <= calls.len(),
            views == calls.deep_view(),
            all == call_events(views),
            events.deep_view() == seq![AgentEventView::ProviderInput(exact@)] + all.take(i as int),
        decreases calls.len() - i,
    {
        let mut call_id = "test-call-".to_owned();
        call_id.append(text::decimal(i as u128).as_str());
        let ghost before = events.deep_view();
        assert(views[i as int] == calls@[i as int].deep_view());
        let event = AgentEvent::ToolCall {
            call_id,
            name: calls[i].name.as_str().to_owned(),
            arguments: calls[i].arguments.clone(),
        };
        assert(event.deep_view() == all[i as int]);
        events.push(event);
        assert(events.deep_view() =~= before.push(event.deep_view()));
        assert(all.take(i + 1) =~= all.take(i as int).push(all[i as int]));
        assert(events.deep_view() =~= seq![AgentEventView::ProviderInput(exact@)] + all.take(
            i + 1,
        ));
        i = i + 1;
    }
    assert(all.take(all.len() as int) =~= all);
    if let Some(used) = usage {
        let ghost before = events.deep_view();
        events.push(AgentEvent::UsageUpdated(used));
        assert(events.deep_view() =~= before.push(AgentEventView::UsageUpdated(used)));
    }
    let thread_id = match response.text_at("response_id") {
        Some(id) => id.to_owned(),
        None => NO_THREAD.to_owned(),
    };
    let answer = if calls.len() == 0 {
        match response.get("message") {
            Some(message) => match message.text_at("content") {
                Some(content) => content.to_owned(),
                None => String::new(),
            },
            None => String::new(),
        }
    } else {
        String::new()
    };
    let ghost before = events.deep_view();
    let last = AgentEvent::Completed { thread_id, answer, usage };
    events.push(last);
    assert(events.deep_view() =~= before.push(last.deep_view()));
    events
}

/// A turn begins with what was sent, ends once, and ends last.
pub proof fn turns_end_once(exact: Seq<char>, response: JsonView)
    ensures
        events_of(exact, response).first() == AgentEventView::ProviderInput(exact),
        events_of(exact, response).last() is Completed,
        forall|i: int|
            0 <= i < events_of(exact, response).len() - 1 ==> !((#[trigger] events_of(
                exact,
                response,
            )[i]) is Completed),
{
}

/// The calls of a response are those that have a name, in order, each with the arguments
/// that it was given, or else with none.
pub proof fn named_calls_are_taken_in_order(items: Seq<JsonView>)
    ensures
        calls_of(items) == items.filter_map(
            |item: JsonView|
                match item.text_at("name"@) {
                    Some(name) => Some(
                        (
                            name,
                            match item.get("arguments"@) {
                                Some(arguments) => arguments,
                                None => JsonView::Object(Map::empty()),
                            },
                        ),
                    ),
                    None => None,
                },
        ),
    decreases items.len(),
{
    if items.len() > 0 {
        named_calls_are_taken_in_order(items.drop_last());
    }
}

/// A turn begins with what the provider was sent, goes through the calls of the response
/// in order, and ends with its words, which count only where nothing was called.
pub proof fn turns_tell_their_response(
    exact: Seq<char>,
    response: JsonView,
    items: Seq<JsonView>,
    i: int,
)
    requires
        response.array_at("tool_calls"@) == Some(items) || response.array_at("tool_calls"@) is None
            && items.len() == 0,
        forall|k: int| 0 <= k < items.len() ==> (#[trigger] items[k]).text_at("name"@) is Some,
    ensures
        ({
            let events = events_of(exact, response);
            let message = response.get("message"@);
            let last = events.last();
            &&& events[0] == AgentEventView::ProviderInput(exact)
            &&& events.len() == items.len() + 2 + (if response.get("usage"@) is Some {
                1int
            } else {
                0
            })
            &&& 0 <= i < items.len() ==> events[1 + i] is ToolCall && Some(events[1 + i]->name)
                == items[i].text_at("name"@)
            &&& 0 <= i < items.len() && items[i].get("arguments"@) is Some ==> Some(
                events[1 + i]->arguments,
            ) == items[i].get("arguments"@)
            &&& last is Completed
            &&& items.len() > 0 ==> last->answer.len() == 0
            &&& items.len() == 0 && message is Some && message->0.text_at("content"@) is Some
                ==> Some(last->answer) == message->0.text_at("content"@)
            &&& response.text_at("response_id"@) is Some ==> Some(last->thread_id)
                == response.text_at("response_id"@)
            &&& last->usage is Some <==> response.get("usage"@) is Some
        }),
{
    all_named(items);
    if response.array_at("tool_calls"@) is None {
        assert(answered_calls(response) =~= Seq::empty());
    }
}

/// Where every item has a name, each is a call.
proof fn all_named(items: Seq<JsonView>)
    requires
        forall|k: int| 0 <= k < items.len() ==> (#[trigger] items[k]).text_at("name"@) is Some,
    ensures
        calls_of(items).len() == items.len(),
        forall|k: int|
            0 <= k < items.len() ==> Some(#[trigger] calls_of(items)[k]) == call_of(items[k]),
    decreases items.len(),
{
    if items.len() > 0 {
        let rest = items.drop_last();
        assert forall|k: int| 0 <= k < rest.len() implies (#[trigger] rest[k]).text_at("name"@)
            is Some by {
            assert(items[k].text_at("name"@) is Some);
        }
        all_named(rest);
        assert(items[items.len() - 1].text_at("name"@) is Some);
        assert forall|k: int| 0 <= k < items.len() implies Some(#[trigger] calls_of(items)[k])
            == call_of(items[k]) by {
            if k < rest.len() {
                assert(calls_of(rest)[k] == calls_of(items)[k]);
                assert(rest[k] == items[k]);
            }
        }
    }
}

/// The tokens of a response are those that it counts.
pub proof fn tokens_are_counted_as_given(response: JsonView, usage: JsonView)
    requires
        response.get("usage"@) == Some(usage),
    ensures
        ({
            let counted = usage_of(response)->0;
            &&& usage_of(response) is Some
            &&& usage.u64_at("input_tokens"@) is Some ==> Some(counted.input_tokens)
                == usage.u64_at("input_tokens"@)
            &&& usage.u64_at("output_tokens"@) is Some ==> Some(counted.output_tokens)
                == usage.u64_at("output_tokens"@)
            &&& usage.u64_at("cached_tokens"@) is Some ==> Some(counted.cached_input_tokens)
                == usage.u64_at("cached_tokens"@)
            &&& usage.u64_at("reasoning_tokens"@) is Some ==> Some(counted.reasoning_output_tokens)
                == usage.u64_at("reasoning_tokens"@)
            &&& usage.u64_at("input_tokens"@) is None ==> counted.input_tokens == 0
            &&& counted.last_input_tokens == usage.u64_at("last_input_tokens"@)
            &&& counted.last_output_tokens == usage.u64_at("last_output_tokens"@)
        }),
{
}

} // verus!
