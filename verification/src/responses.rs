//! What the model providers answer, and the turn of a subagent that it makes.

use crate::json;
use crate::json::{Json, JsonView};
use crate::text;
use crate::text::Failure;
use vstd::prelude::*;

verus! {

/// A text of a provider that holds a document, and the document; none where the text
/// holds no document.
#[derive(Debug)]
pub struct DecodedText {
    pub text: String,
    pub value: Option<Json>,
}

/// The document that a text holds.
pub open spec fn decoded(table: Seq<DecodedText>, words: Seq<char>, i: int) -> Option<JsonView>
    decreases table.len() - i,
{
    if i < 0 || i >= table.len() {
        None
    } else if table[i].text@ == words {
        table[i].value.deep_view()
    } else {
        decoded(table, words, i + 1)
    }
}

fn find_decoded(table: &Vec<DecodedText>, words: &str) -> (value: Option<Json>)
    ensures
        value.deep_view() == decoded(table@, words@, 0),
{
    let mut i: usize = 0;
    while i < table.len()
        invariant
            i <= table.len(),
            decoded(table@, words@, 0) == decoded(table@, words@, i as int),
        decreases table.len() - i,
    {
        if *table[i].text.as_str() == *words {
            return match &table[i].value {
                Some(value) => Some(value.clone()),
                None => None,
            };
        }
        i = i + 1;
    }
    None
}

/// A tool call in a provider's answer. Where the provider gave it no name of its own,
/// it gets one when it is handed on.
#[derive(Debug)]
pub struct ProviderCall {
    pub call_id: Option<String>,
    pub tool: String,
    pub arguments: Json,
}

/// The mathematical value of a call.
pub struct CallView {
    pub call_id: Option<Seq<char>>,
    pub tool: Seq<char>,
    pub arguments: JsonView,
}

impl DeepView for ProviderCall {
    type V = CallView;

    open spec fn deep_view(&self) -> CallView {
        CallView {
            call_id: self.call_id.deep_view(),
            tool: self.tool@,
            arguments: self.arguments@,
        }
    }
}

/// A call in a provider's answer: its arguments are an object, or a text that holds a
/// document.
pub open spec fn function_call(value: JsonView, table: Seq<DecodedText>) -> Result<
    CallView,
    Seq<char>,
> {
    let arguments = match value.get("arguments"@) {
        Some(JsonView::Text(words)) => match decoded(table, words, 0) {
            Some(document) => Ok(document),
            None => Err("provider returned invalid function arguments"@),
        },
        Some(JsonView::Object(members)) => Ok(JsonView::Object(members)),
        _ => Err("provider function call omitted arguments"@),
    };
    match arguments {
        Err(message) => Err(message),
        Ok(arguments) => match value.text_at("name"@) {
            None => Err("provider function call omitted its name"@),
            Some(tool) => Ok(
                CallView {
                    call_id: match value.get("call_id"@) {
                        Some(id) => id.as_text(),
                        None => value.text_at("id"@),
                    },
                    tool,
                    arguments,
                },
            ),
        },
    }
}

/// A call in a provider's answer.
pub fn parse_function_call(value: &Json, table: &Vec<DecodedText>) -> (result: Result<
    ProviderCall,
    Failure,
>)
    ensures
        text::seen(result) == function_call(value@, table@),
{
    let arguments = match value.get("arguments") {
        Some(inner) => {
            if let Some(words) = inner.as_text() {
                match find_decoded(table, words) {
                    Some(document) => document,
                    None => return Err(
                        Failure::fixed("provider returned invalid function arguments"),
                    ),
                }
            } else if inner.is_object() {
                inner.clone()
            } else {
                return Err(Failure::fixed("provider function call omitted arguments"));
            }
        },
        None => return Err(Failure::fixed("provider function call omitted arguments")),
    };
    let tool = match value.text_at("name") {
        None => return Err(Failure::fixed("provider function call omitted its name")),
        Some(tool) => tool.to_owned(),
    };
    let named = match value.get("call_id") {
        Some(id) => id.as_text(),
        None => value.text_at("id"),
    };
    let call_id = match named {
        Some(id) => Some(id.to_owned()),
        None => None,
    };
    Ok(ProviderCall { call_id, tool, arguments })
}

/// What has been read of an answer so far.
#[verifier::ext_equal]
pub struct ReadView {
    pub answer: Seq<Seq<char>>,
    pub calls: Seq<CallView>,
}

/// Whether an item is a text of the answer.
pub open spec fn is_text_item(item: JsonView) -> bool {
    item.text_at("type"@) == Some("output_text"@) || item.text_at("type"@) == Some("text"@)
}

/// The texts among the items of a message.
pub open spec fn item_texts(items: Seq<JsonView>) -> Seq<Seq<char>>
    decreases items.len(),
{
    if items.len() == 0 {
        Seq::empty()
    } else {
        let before = item_texts(items.drop_last());
        match items.last().text_at("text"@) {
            Some(words) => if is_text_item(items.last()) {
                before.push(words)
            } else {
                before
            },
            None => before,
        }
    }
}

/// The items of an array member; none where there is no such member.
pub open spec fn list_at(value: JsonView, key: Seq<char>) -> Seq<JsonView> {
    match value.array_at(key) {
        Some(items) => items,
        None => Seq::empty(),
    }
}

/// What one item of OpenAI's answer adds.
pub open spec fn openai_item(read: ReadView, item: JsonView, table: Seq<DecodedText>) -> Result<
    ReadView,
    Seq<char>,
> {
    if item.text_at("type"@) == Some("function_call"@) {
        match function_call(item, table) {
            Err(message) => Err(message),
            Ok(call) => Ok(ReadView { calls: read.calls.push(call), ..read }),
        }
    } else if item.text_at("type"@) == Some("message"@) {
        Ok(ReadView { answer: read.answer + item_texts(list_at(item, "content"@)), ..read })
    } else if is_text_item(item) && item.text_at("text"@) is Some {
        Ok(ReadView { answer: read.answer.push(item.text_at("text"@)->0), ..read })
    } else {
        Ok(read)
    }
}

/// What some items of OpenAI's answer say, or the first refusal.
pub open spec fn openai_items(items: Seq<JsonView>, table: Seq<DecodedText>) -> Result<
    ReadView,
    Seq<char>,
>
    decreases items.len(),
{
    if items.len() == 0 {
        Ok(ReadView { answer: Seq::empty(), calls: Seq::empty() })
    } else {
        match openai_items(items.drop_last(), table) {
            Err(message) => Err(message),
            Ok(read) => openai_item(read, items.last(), table),
        }
    }
}

proof fn openai_items_refuse(items: Seq<JsonView>, table: Seq<DecodedText>, n: int)
    requires
        0 <= n <= items.len(),
        openai_items(items.take(n), table) is Err,
    ensures
        openai_items(items, table) == openai_items(items.take(n), table),
    decreases items.len(),
{
    if n < items.len() {
        assert(items.drop_last().take(n) =~= items.take(n));
        openai_items_refuse(items.drop_last(), table, n);
    } else {
        assert(items.take(n) =~= items);
    }
}

/// How many tokens an answer took.
#[derive(Clone, Copy, Debug, PartialEq, Eq)]
pub struct TokenUsage {
    pub input_tokens: u64,
    pub output_tokens: u64,
    pub cached_input_tokens: u64,
    pub reasoning_output_tokens: u64,
}

/// A number in a member; zero where there is none.
pub open spec fn count_at(value: JsonView, key: Seq<char>) -> u64 {
    match value.u64_at(key) {
        Some(number) => number,
        None => 0,
    }
}

/// A number in a member of a member; zero where there is none.
pub open spec fn inner_count(value: JsonView, outer: Seq<char>, key: Seq<char>) -> u64 {
    match value.get(outer) {
        Some(inner) => count_at(inner, key),
        None => 0,
    }
}

fn read_count(value: &Json, key: &str) -> (number: u64)
    ensures
        number == count_at(value@, key@),
{
    match value.u64_at(key) {
        Some(number) => number,
        None => 0,
    }
}

fn read_inner_count(value: &Json, outer: &str, key: &str) -> (number: u64)
    ensures
        number == inner_count(value@, outer@, key@),
{
    match value.get(outer) {
        Some(inner) => read_count(inner, key),
        None => 0,
    }
}

/// How many tokens OpenAI says an answer took.
pub open spec fn openai_usage(value: JsonView) -> Option<TokenUsage> {
    match value.get("usage"@) {
        None => None,
        Some(usage) => Some(
            TokenUsage {
                input_tokens: count_at(usage, "input_tokens"@),
                output_tokens: count_at(usage, "output_tokens"@),
                cached_input_tokens: inner_count(
                    usage,
                    "input_tokens_details"@,
                    "cached_tokens"@,
                ),
                reasoning_output_tokens: inner_count(
                    usage,
                    "output_tokens_details"@,
                    "reasoning_tokens"@,
                ),
            },
        ),
    }
}

/// How many tokens Gemini says an answer took.
pub open spec fn gemini_usage(value: JsonView) -> Option<TokenUsage> {
    match value.get("usage"@) {
        None => None,
        Some(usage) => Some(
            TokenUsage {
                input_tokens: count_at(usage, "total_input_tokens"@),
                output_tokens: count_at(usage, "total_output_tokens"@),
                cached_input_tokens: count_at(usage, "total_cached_tokens"@),
                reasoning_output_tokens: count_at(usage, "total_thought_tokens"@),
            },
        ),
    }
}

/// What a provider answered.
#[derive(Debug)]
pub struct ParsedResponse {
    pub actual_model: String,
    pub provider_request_id: Option<String>,
    pub answer: String,
    pub tool_call: Option<ProviderCall>,
    pub usage: Option<TokenUsage>,
}

/// The mathematical value of an answer.
pub struct ResponseView {
    pub actual_model: Seq<char>,
    pub provider_request_id: Option<Seq<char>>,
    pub answer: Seq<char>,
    pub tool_call: Option<CallView>,
    pub usage: Option<TokenUsage>,
}

impl DeepView for ParsedResponse {
    type V = ResponseView;

    open spec fn deep_view(&self) -> ResponseView {
        ResponseView {
            actual_model: self.actual_model@,
            provider_request_id: self.provider_request_id.deep_view(),
            answer: self.answer@,
            tool_call: self.tool_call.deep_view(),
            usage: self.usage,
        }
    }
}

/// The model that answered.
pub open spec fn model_in(value: JsonView, requested: Seq<char>) -> Seq<char> {
    match value.text_at("model"@) {
        Some(model) => model,
        None => requested,
    }
}

/// The one call among those of an answer.
pub open spec fn only_call(calls: Seq<CallView>) -> Option<CallView> {
    if calls.len() == 0 {
        None
    } else {
        Some(calls.last())
    }
}

/// What OpenAI answered.
pub open spec fn openai_response(
    value: JsonView,
    requested: Seq<char>,
    table: Seq<DecodedText>,
) -> Result<ResponseView, Seq<char>> {
    match openai_items(list_at(value, "output"@), table) {
        Err(message) => Err(message),
        Ok(read) => if read.calls.len() > 1 {
            Err(
                "OpenAI returned multiple Ktool calls despite parallel tool calls being disabled"@,
            )
        } else {
            let answer = match value.text_at("output_text"@) {
                Some(words) => read.answer.push(words),
                None => read.answer,
            };
            Ok(
                ResponseView {
                    actual_model: model_in(value, requested),
                    provider_request_id: value.text_at("id"@),
                    answer: text::joined(answer, "\n\n"@),
                    tool_call: only_call(read.calls),
                    usage: openai_usage(value),
                },
            )
        },
    }
}

fn collect_text(value: Option<&Vec<Json>>, output: &mut Vec<String>)
    ensures
        final(output).deep_view() == old(output).deep_view() + item_texts(
            match value {
                Some(items) => json::values_of(items@),
                None => Seq::empty(),
            },
        ),
{
    let ghost start = output.deep_view();
    if let Some(items) = value {
        let ghost views = json::values_of(items@);
        proof {
            json::values_at(items@);
        }
        assert(output.deep_view() =~= start + item_texts(views.take(0)));
        let mut i: usize = 0;
        while i < items.len()
            invariant
                i <= items.len(),
                views == json::values_of(items@),
                views.len() == items.len(),
                forall|j: int| 0 <= j < items.len() ==> views[j] == json::value_of(items@[j]),
                output.deep_view() =~= start + item_texts(views.take(i as int)),
            decreases items.len() - i,
        {
            assert(views.take(i + 1).drop_last() =~= views.take(i as int));
            let item = &items[i];
            let is_text = match item.text_at("type") {
                Some(kind) => *kind == *"output_text" || *kind == *"text",
                None => false,
            };
            if is_text {
                if let Some(words) = item.text_at("text") {
                    let ghost before = output.deep_view();
                    output.push(words.to_owned());
                    assert(output.deep_view() =~= before.push(words@));
                }
            }
            i = i + 1;
        }
        assert(views.take(views.len() as int) =~= views);
    } else {
        assert(output.deep_view() =~= start + item_texts(Seq::empty()));
    }
}

/// What has been read of an answer so far.
struct Reading {
    answer: Vec<String>,
    calls: Vec<ProviderCall>,
}

impl Reading {
    spec fn seen(self) -> ReadView {
        ReadView { answer: self.answer.deep_view(), calls: self.calls.deep_view() }
    }

    fn new() -> (reading: Reading)
        ensures
            reading.seen() == (ReadView { answer: Seq::empty(), calls: Seq::empty() }),
    {
        let reading = Reading { answer: Vec::new(), calls: Vec::new() };
        assert(reading.seen().answer =~= Seq::empty());
        assert(reading.seen().calls =~= Seq::empty());
        reading
    }

    fn push_call(&mut self, call: ProviderCall)
        ensures
            final(self).seen() == (ReadView {
                calls: old(self).seen().calls.push(call.deep_view()),
                ..old(self).seen()
            }),
    {
        let ghost before = self.calls.deep_view();
        self.calls.push(call);
        assert(self.calls.deep_view() =~= before.push(call.deep_view()));
    }

    fn push_text(&mut self, words: &str)
        ensures
            final(self).seen() == (ReadView {
                answer: old(self).seen().answer.push(words@),
                ..old(self).seen()
            }),
    {
        let ghost before = self.answer.deep_view();
        self.answer.push(words.to_owned());
        assert(self.answer.deep_view() =~= before.push(words@));
    }

    fn read_openai_item(&mut self, item: &Json, table: &Vec<DecodedText>) -> (outcome: Result<
        (),
        Failure,
    >)
        ensures
            match openai_item(old(self).seen(), item@, table@) {
                Ok(read) => outcome is Ok && final(self).seen() == read,
                Err(message) => outcome is Err && outcome->Err_0@ == message,
            },
    {
        let kind = match item.text_at("type") {
            Some(kind) => kind,
            None => return Ok(()),
        };
        proof {
            reveal_strlit("function_call");
            reveal_strlit("message");
            reveal_strlit("output_text");
            reveal_strlit("text");
            assert("function_call"@.len() == 13 && "message"@.len() == 7);
            assert("output_text"@.len() == 11 && "text"@.len() == 4);
        }
        if *kind == *"function_call" {
            match parse_function_call(item, table) {
                Err(failure) => return Err(failure),
                Ok(call) => self.push_call(call),
            }
        } else if *kind == *"message" {
            collect_text(item.array_at("content"), &mut self.answer);
        } else if *kind == *"output_text" || *kind == *"text" {
            if let Some(words) = item.text_at("text") {
                self.push_text(words);
            }
        }
        Ok(())
    }

    fn read_gemini_item(&mut self, item: &Json, table: &Vec<DecodedText>) -> (outcome: Result<
        (),
        Failure,
    >)
        ensures
            match gemini_item(old(self).seen(), item@, table@) {
                Ok(read) => outcome is Ok && final(self).seen() == read,
                Err(message) => outcome is Err && outcome->Err_0@ == message,
            },
    {
        let kind = match item.text_at("type") {
            Some(kind) => kind,
            None => return Ok(()),
        };
        if *kind == *"function_call" {
            match parse_function_call(item, table) {
                Err(failure) => return Err(failure),
                Ok(call) => self.push_call(call),
            }
        } else if *kind == *"text" {
            if let Some(words) = item.text_at("text") {
                self.push_text(words);
            }
        }
        Ok(())
    }

    fn read_gemini_content(&mut self, items: &Vec<Json>, table: &Vec<DecodedText>) -> (outcome:
        Result<(), Failure>)
        ensures
            match gemini_content(old(self).seen(), json::values_of(items@), table@) {
                Ok(read) => outcome is Ok && final(self).seen() == read,
                Err(message) => outcome is Err && outcome->Err_0@ == message,
            },
    {
        let ghost start = self.seen();
        let ghost views = json::values_of(items@);
        proof {
            json::values_at(items@);
        }
        assert(views.take(0) =~= Seq::empty());
        let mut i: usize = 0;
        while i < items.len()
            invariant
                i <= items.len(),
                views == json::values_of(items@),
                views.len() == items.len(),
                forall|j: int| 0 <= j < items.len() ==> views[j] == json::value_of(items@[j]),
                start == old(self).seen(),
                gemini_content(start, views.take(i as int), table@) == Ok::<ReadView, Seq<char>>(
                    self.seen(),
                ),
            decreases items.len() - i,
        {
            assert(views.take(i + 1).drop_last() =~= views.take(i as int));
            if let Err(failure) = self.read_gemini_item(&items[i], table) {
                proof {
                    gemini_content_refuses(start, views, table@, i + 1);
                }
                return Err(failure);
            }
            i = i + 1;
        }
        assert(views.take(views.len() as int) =~= views);
        Ok(())
    }

    fn read_gemini_step(&mut self, step: &Json, table: &Vec<DecodedText>) -> (outcome: Result<
        (),
        Failure,
    >)
        ensures
            match gemini_step(old(self).seen(), step@, table@) {
                Ok(read) => outcome is Ok && final(self).seen() == read,
                Err(message) => outcome is Err && outcome->Err_0@ == message,
            },
    {
        let kind = match step.text_at("type") {
            Some(kind) => kind,
            None => return Ok(()),
        };
        proof {
            reveal_strlit("function_call");
            reveal_strlit("model_output");
            assert("function_call"@.len() == 13 && "model_output"@.len() == 12);
        }
        if *kind == *"function_call" {
            match parse_function_call(step, table) {
                Err(failure) => return Err(failure),
                Ok(call) => self.push_call(call),
            }
        } else if *kind == *"model_output" {
            if let Some(items) = step.array_at("content") {
                return self.read_gemini_content(items, table);
            }
        }
        Ok(())
    }
}

fn read_openai_items(items: &Vec<Json>, table: &Vec<DecodedText>) -> (result: Result<
    Reading,
    Failure,
>)
    ensures
        match openai_items(json::values_of(items@), table@) {
            Ok(read) => result is Ok && result->Ok_0.seen() == read,
            Err(message) => result is Err && result->Err_0@ == message,
        },
{
    let ghost views = json::values_of(items@);
    proof {
        json::values_at(items@);
    }
    let mut reading = Reading::new();
    assert(views.take(0) =~= Seq::empty());
    let mut i: usize = 0;
    while i < items.len()
        invariant
            i <= items.len(),
            views == json::values_of(items@),
            views.len() == items.len(),
            forall|j: int| 0 <= j < items.len() ==> views[j] == json::value_of(items@[j]),
            openai_items(views.take(i as int), table@) == Ok::<ReadView, Seq<char>>(reading.seen()),
        decreases items.len() - i,
    {
        assert(views.take(i + 1).drop_last() =~= views.take(i as int));
        if let Err(failure) = reading.read_openai_item(&items[i], table) {
            proof {
                openai_items_refuse(views, table@, i + 1);
            }
            return Err(failure);
        }
        i = i + 1;
    }
    assert(views.take(views.len() as int) =~= views);
    Ok(reading)
}

fn take_call(calls: Vec<ProviderCall>) -> (call: Option<ProviderCall>)
    ensures
        call.deep_view() == only_call(calls.deep_view()),
{
    let mut calls = calls;
    let ghost views = calls.deep_view();
    if calls.len() == 0 {
        return None;
    }
    assert(views.last() == calls@.last().deep_view());
    calls.pop()
}

fn find_model(value: &Json, requested: &str) -> (model: String)
    ensures
        model@ == model_in(value@, requested@),
{
    match value.text_at("model") {
        Some(model) => model.to_owned(),
        None => requested.to_owned(),
    }
}

fn owned(value: Option<&str>) -> (result: Option<String>)
    ensures
        result.deep_view() == value.deep_view(),
{
    match value {
        Some(found) => Some(found.to_owned()),
        None => None,
    }
}

/// What OpenAI answered: the texts in order, and at most one call.
pub fn parse_openai_response(value: &Json, requested: &str, table: &Vec<DecodedText>) -> (result:
    Result<ParsedResponse, Failure>)
    ensures
        text::seen(result) == openai_response(value@, requested@, table@),
{
    let none: Vec<Json> = Vec::new();
    proof {
        json::values_at(none@);
        assert(json::values_of(none@) =~= Seq::empty());
    }
    let items = match value.array_at("output") {
        Some(items) => items,
        None => &none,
    };
    let mut reading = match read_openai_items(items, table) {
        Err(failure) => return Err(failure),
        Ok(reading) => reading,
    };
    let ghost read = reading.seen();
    assert(read.calls.len() == reading.calls.len());
    if let Some(words) = value.text_at("output_text") {
        reading.push_text(words);
    }
    if reading.calls.len() > 1 {
        return Err(
            Failure::fixed(
                "OpenAI returned multiple Ktool calls despite parallel tool calls being disabled",
            ),
        );
    }
    let usage = match value.get("usage") {
        None => None,
        Some(usage) => Some(
            TokenUsage {
                input_tokens: read_count(usage, "input_tokens"),
                output_tokens: read_count(usage, "output_tokens"),
                cached_input_tokens: read_inner_count(
                    usage,
                    "input_tokens_details",
                    "cached_tokens",
                ),
                reasoning_output_tokens: read_inner_count(
                    usage,
                    "output_tokens_details",
                    "reasoning_tokens",
                ),
            },
        ),
    };
    Ok(
        ParsedResponse {
            actual_model: find_model(value, requested),
            provider_request_id: owned(value.text_at("id")),
            answer: text::join(&reading.answer, "\n\n"),
            tool_call: take_call(reading.calls),
            usage,
        },
    )
}

/// What one item of Gemini's output adds.
pub open spec fn gemini_item(read: ReadView, item: JsonView, table: Seq<DecodedText>) -> Result<
    ReadView,
    Seq<char>,
> {
    if item.text_at("type"@) == Some("function_call"@) {
        match function_call(item, table) {
            Err(message) => Err(message),
            Ok(call) => Ok(ReadView { calls: read.calls.push(call), ..read }),
        }
    } else if item.text_at("type"@) == Some("text"@) && item.text_at("text"@) is Some {
        Ok(ReadView { answer: read.answer.push(item.text_at("text"@)->0), ..read })
    } else {
        Ok(read)
    }
}

/// What some items of Gemini's output add.
pub open spec fn gemini_content(start: ReadView, items: Seq<JsonView>, table: Seq<DecodedText>) -> Result<
    ReadView,
    Seq<char>,
>
    decreases items.len(),
{
    if items.len() == 0 {
        Ok(start)
    } else {
        match gemini_content(start, items.drop_last(), table) {
            Err(message) => Err(message),
            Ok(read) => gemini_item(read, items.last(), table),
        }
    }
}

proof fn gemini_content_refuses(
    start: ReadView,
    items: Seq<JsonView>,
    table: Seq<DecodedText>,
    n: int,
)
    requires
        0 <= n <= items.len(),
        gemini_content(start, items.take(n), table) is Err,
    ensures
        gemini_content(start, items, table) == gemini_content(start, items.take(n), table),
    decreases items.len(),
{
    if n < items.len() {
        assert(items.drop_last().take(n) =~= items.take(n));
        gemini_content_refuses(start, items.drop_last(), table, n);
    } else {
        assert(items.take(n) =~= items);
    }
}

/// What one step of Gemini's answer adds.
pub open spec fn gemini_step(read: ReadView, step: JsonView, table: Seq<DecodedText>) -> Result<
    ReadView,
    Seq<char>,
> {
    if step.text_at("type"@) == Some("function_call"@) {
        match function_call(step, table) {
            Err(message) => Err(message),
            Ok(call) => Ok(ReadView { calls: read.calls.push(call), ..read }),
        }
    } else if step.text_at("type"@) == Some("model_output"@) {
        gemini_content(read, list_at(step, "content"@), table)
    } else {
        Ok(read)
    }
}

/// What some steps of Gemini's answer say, or the first refusal.
pub open spec fn gemini_steps(steps: Seq<JsonView>, table: Seq<DecodedText>) -> Result<
    ReadView,
    Seq<char>,
>
    decreases steps.len(),
{
    if steps.len() == 0 {
        Ok(ReadView { answer: Seq::empty(), calls: Seq::empty() })
    } else {
        match gemini_steps(steps.drop_last(), table) {
            Err(message) => Err(message),
            Ok(read) => gemini_step(read, steps.last(), table),
        }
    }
}

proof fn gemini_steps_refuse(steps: Seq<JsonView>, table: Seq<DecodedText>, n: int)
    requires
        0 <= n <= steps.len(),
        gemini_steps(steps.take(n), table) is Err,
    ensures
        gemini_steps(steps, table) == gemini_steps(steps.take(n), table),
    decreases steps.len(),
{
    if n < steps.len() {
        assert(steps.drop_last().take(n) =~= steps.take(n));
        gemini_steps_refuse(steps.drop_last(), table, n);
    } else {
        assert(steps.take(n) =~= steps);
    }
}

/// What Gemini answered.
pub open spec fn gemini_response(
    value: JsonView,
    requested: Seq<char>,
    table: Seq<DecodedText>,
) -> Result<ResponseView, Seq<char>> {
    match gemini_steps(list_at(value, "steps"@), table) {
        Err(message) => Err(message),
        Ok(read) => if read.calls.len() > 1 {
            Err("Gemini returned multiple Ktool calls; subagent Ktools must run serially"@)
        } else {
            Ok(
                ResponseView {
                    actual_model: model_in(value, requested),
                    provider_request_id: match value.get("id"@) {
                        Some(id) => id.as_text(),
                        None => value.text_at("interaction_id"@),
                    },
                    answer: text::joined(read.answer, "\n\n"@),
                    tool_call: only_call(read.calls),
                    usage: gemini_usage(value),
                },
            )
        },
    }
}

fn read_gemini_steps(steps: &Vec<Json>, table: &Vec<DecodedText>) -> (result: Result<
    Reading,
    Failure,
>)
    ensures
        match gemini_steps(json::values_of(steps@), table@) {
            Ok(read) => result is Ok && result->Ok_0.seen() == read,
            Err(message) => result is Err && result->Err_0@ == message,
        },
{
    let ghost views = json::values_of(steps@);
    proof {
        json::values_at(steps@);
    }
    let mut reading = Reading::new();
    assert(views.take(0) =~= Seq::empty());
    let mut i: usize = 0;
    while i < steps.len()
        invariant
            i <= steps.len(),
            views == json::values_of(steps@),
            views.len() == steps.len(),
            forall|j: int| 0 <= j < steps.len() ==> views[j] == json::value_of(steps@[j]),
            gemini_steps(views.take(i as int), table@) == Ok::<ReadView, Seq<char>>(reading.seen()),
        decreases steps.len() - i,
    {
        assert(views.take(i + 1).drop_last() =~= views.take(i as int));
        if let Err(failure) = reading.read_gemini_step(&steps[i], table) {
            proof {
                gemini_steps_refuse(views, table@, i + 1);
            }
            return Err(failure);
        }
        i = i + 1;
    }
    assert(views.take(views.len() as int) =~= views);
    Ok(reading)
}

/// What Gemini answered: the texts in order, and at most one call.
pub fn parse_gemini_response(value: &Json, requested: &str, table: &Vec<DecodedText>) -> (result:
    Result<ParsedResponse, Failure>)
    ensures
        text::seen(result) == gemini_response(value@, requested@, table@),
{
    let none: Vec<Json> = Vec::new();
    proof {
        json::values_at(none@);
        assert(json::values_of(none@) =~= Seq::empty());
    }
    let steps = match value.array_at("steps") {
        Some(steps) => steps,
        None => &none,
    };
    let reading = match read_gemini_steps(steps, table) {
        Err(failure) => return Err(failure),
        Ok(reading) => reading,
    };
    assert(reading.seen().calls.len() == reading.calls.len());
    if reading.calls.len() > 1 {
        return Err(
            Failure::fixed(
                "Gemini returned multiple Ktool calls; subagent Ktools must run serially",
            ),
        );
    }
    let usage = match value.get("usage") {
        None => None,
        Some(usage) => Some(
            TokenUsage {
                input_tokens: read_count(usage, "total_input_tokens"),
                output_tokens: read_count(usage, "total_output_tokens"),
                cached_input_tokens: read_count(usage, "total_cached_tokens"),
                reasoning_output_tokens: read_count(usage, "total_thought_tokens"),
            },
        ),
    };
    let id = match value.get("id") {
        Some(id) => id.as_text(),
        None => value.text_at("interaction_id"),
    };
    Ok(
        ParsedResponse {
            actual_model: find_model(value, requested),
            provider_request_id: owned(id),
            answer: text::join(&reading.answer, "\n\n"),
            tool_call: take_call(reading.calls),
            usage,
        },
    )
}

/// What is metered of an answer: the parts of its tokens, none counted twice.
#[derive(Clone, Copy, Debug, PartialEq, Eq)]
pub struct MeteredTokens {
    pub input_tokens: u64,
    pub cached_input_tokens: u64,
    pub thinking_tokens: u64,
    pub output_tokens: u64,
}

/// The difference, or nothing.
pub open spec fn rest_of(whole: u64, part: u64) -> u64 {
    if whole >= part {
        (whole - part) as u64
    } else {
        0
    }
}

/// What is metered of an answer.
pub open spec fn metering(usage: TokenUsage) -> MeteredTokens {
    MeteredTokens {
        input_tokens: rest_of(usage.input_tokens, usage.cached_input_tokens),
        cached_input_tokens: usage.cached_input_tokens,
        thinking_tokens: usage.reasoning_output_tokens,
        output_tokens: rest_of(usage.output_tokens, usage.reasoning_output_tokens),
    }
}

/// Where a provider counts the cached part of its input and the reasoning part of its
/// output within them, the metered parts add up to what it counted.
pub proof fn metered_parts_add_up(usage: TokenUsage)
    requires
        usage.cached_input_tokens <= usage.input_tokens,
        usage.reasoning_output_tokens <= usage.output_tokens,
    ensures
        metering(usage).input_tokens + metering(usage).cached_input_tokens == usage.input_tokens,
        metering(usage).output_tokens + metering(usage).thinking_tokens == usage.output_tokens,
{
}

/// What is metered of an answer.
pub fn metered(usage: &TokenUsage) -> (tokens: MeteredTokens)
    ensures
        tokens == metering(*usage),
{
    MeteredTokens {
        input_tokens: usage.input_tokens.saturating_sub(usage.cached_input_tokens),
        cached_input_tokens: usage.cached_input_tokens,
        thinking_tokens: usage.reasoning_output_tokens,
        output_tokens: usage.output_tokens.saturating_sub(usage.reasoning_output_tokens),
    }
}

/// What happens in the turn of a subagent.
#[derive(Debug)]
pub enum TurnEvent {
    /// What the provider was sent.
    ProviderInput(String),
    /// The provider calls a tool.
    ToolCall { call_id: String },
    /// The turn is complete, with this answer.
    Completed { answer: String },
}

/// The mathematical value of an event.
pub enum EventView {
    ProviderInput(Seq<char>),
    ToolCall { call_id: Seq<char> },
    Completed { answer: Seq<char> },
}

impl DeepView for TurnEvent {
    type V = EventView;

    open spec fn deep_view(&self) -> EventView {
        match *self {
            TurnEvent::ProviderInput(exact) => EventView::ProviderInput(exact@),
            TurnEvent::ToolCall { call_id } => EventView::ToolCall { call_id: call_id@ },
            TurnEvent::Completed { answer } => EventView::Completed { answer: answer@ },
        }
    }
}

/// The turn of a subagent: the events that are still to come, the call that waits for
/// its result, and the answer that is still to be given.
#[derive(Debug)]
pub struct Turn {
    pub events: Vec<TurnEvent>,
    pub pending_call_id: Option<String>,
    pub unanswered: Option<String>,
}

/// The mathematical value of a turn.
#[verifier::ext_equal]
pub struct TurnView {
    pub events: Seq<EventView>,
    pub pending_call_id: Option<Seq<char>>,
    pub unanswered: bool,
}

impl View for Turn {
    type V = TurnView;

    open spec fn view(&self) -> TurnView {
        TurnView {
            events: self.events.deep_view(),
            pending_call_id: self.pending_call_id.deep_view(),
            unanswered: self.unanswered is Some,
        }
    }
}

/// The number of events that complete the turn.
pub open spec fn completions(events: Seq<EventView>) -> nat
    decreases events.len(),
{
    if events.len() == 0 {
        0
    } else {
        completions(events.drop_last()) + if events.last() is Completed {
            1nat
        } else {
            0nat
        }
    }
}

impl TurnView {
    /// A call waits only while the answer is still to be given.
    pub open spec fn well_formed(self) -> bool {
        self.pending_call_id is Some ==> self.unanswered
    }
}

impl Turn {
    /// The turn that an answer makes. A call comes before the answer, which is then
    /// given with the call's result.
    pub fn start(exact: &str, call_id: Option<&str>, answer: &str) -> (turn: Turn)
        ensures
            turn@.well_formed(),
            turn@.pending_call_id == call_id.deep_view(),
            turn@.unanswered,
            turn@.events == seq![EventView::ProviderInput(exact@)].push(
                match call_id {
                    Some(id) => EventView::ToolCall { call_id: id@ },
                    None => EventView::Completed { answer: answer@ },
                },
            ),
    {
        let mut events: Vec<TurnEvent> = Vec::new();
        events.push(TurnEvent::ProviderInput(exact.to_owned()));
        let (last, pending) = match call_id {
            Some(id) => (TurnEvent::ToolCall { call_id: id.to_owned() }, Some(id.to_owned())),
            None => (TurnEvent::Completed { answer: answer.to_owned() }, None),
        };
        events.push(last);
        assert(events.deep_view() =~= seq![EventView::ProviderInput(exact@)].push(
            last.deep_view(),
        ));
        Turn { events, pending_call_id: pending, unanswered: Some(answer.to_owned()) }
    }

    /// The next event, or the refusal of a turn that was cancelled.
    pub fn next_event(&mut self, cancelled: bool) -> (event: Option<Result<TurnEvent, Failure>>)
        ensures
            cancelled ==> {
                &&& event is Some && event->0 is Err
                &&& event->0->Err_0@ == "subagent provider call was cancelled"@
                &&& final(self)@ == old(self)@
            },
            !cancelled ==> if old(self)@.events.len() == 0 {
                event is None && final(self)@ == old(self)@
            } else {
                &&& event is Some && event->0 is Ok
                &&& event->0->Ok_0.deep_view() == old(self)@.events[0]
                &&& final(self)@ == (TurnView {
                    events: old(self)@.events.drop_first(),
                    ..old(self)@
                })
            },
    {
        if cancelled {
            return Some(Err(Failure::fixed("subagent provider call was cancelled")));
        }
        if self.events.len() == 0 {
            return None;
        }
        let ghost before = self.events.deep_view();
        let first = self.events.remove(0);
        assert(first.deep_view() == before[0]);
        assert(self.events.deep_view() =~= before.drop_first());
        Some(Ok(first))
    }

    /// Takes the result of the call that waits. The turn is then complete, without an
    /// answer of its own.
    pub fn respond(&mut self, call_id: &str) -> (outcome: Result<(), Failure>)
        ensures
            if old(self)@.pending_call_id == Some(call_id@) {
                &&& outcome is Ok
                &&& final(self)@ == (TurnView {
                    events: if old(self)@.unanswered {
                        old(self)@.events.push(EventView::Completed { answer: Seq::empty() })
                    } else {
                        old(self)@.events
                    },
                    pending_call_id: None,
                    unanswered: false,
                })
            } else {
                &&& outcome is Err
                &&& outcome->Err_0@
                    == "subagent tool result does not match the pending provider call"@
                &&& final(self)@ == old(self)@
            },
            old(self)@.well_formed() ==> final(self)@.well_formed(),
    {
        let matched = match &self.pending_call_id {
            Some(id) => *id.as_str() == *call_id,
            None => false,
        };
        if !matched {
            return Err(
                Failure::fixed("subagent tool result does not match the pending provider call"),
            );
        }
        self.pending_call_id = None;
        if self.unanswered.is_some() {
            self.unanswered = None;
            let ghost before = self.events.deep_view();
            let last = TurnEvent::Completed { answer: String::new() };
            self.events.push(last);
            assert(last.deep_view() == EventView::Completed { answer: Seq::empty() });
            assert(self.events.deep_view() =~= before.push(last.deep_view()));
        }
        Ok(())
    }
}

/// A turn that calls a tool is completed once, by the result of that call: after it, no
/// result is taken any more.
pub proof fn results_are_taken_once(before: TurnView, call_id: Seq<char>)
    requires
        before.well_formed(),
        before.pending_call_id == Some(call_id),
    ensures
        ({
            let after = TurnView {
                events: before.events.push(EventView::Completed { answer: Seq::empty() }),
                pending_call_id: None,
                unanswered: false,
            };
            &&& completions(after.events) == completions(before.events) + 1
            &&& after.pending_call_id != Some(call_id)
            &&& after.well_formed()
        }),
{
    let after = before.events.push(EventView::Completed { answer: Seq::empty() });
    assert(after.drop_last() =~= before.events);
}

/// Taking out the values of two lists in turn takes out those of both.
proof fn values_of_both(first: Seq<Option<Seq<char>>>, second: Seq<Option<Seq<char>>>)
    ensures
        (first + second).filter_map(|word: Option<Seq<char>>| word) == first.filter_map(
            |word: Option<Seq<char>>| word,
        ) + second.filter_map(|word: Option<Seq<char>>| word),
    decreases second.len(),
{
    let value = |word: Option<Seq<char>>| word;
    let all = first + second;
    if second.len() > 0 {
        values_of_both(first, second.drop_last());
        assert(all.drop_last() =~= first + second.drop_last());
        assert(all.last() == second.last());
        assert(all.filter_map(value) =~= first.filter_map(value) + second.filter_map(value));
    } else {
        assert(all =~= first);
        assert(all.filter_map(value) =~= first.filter_map(value) + second.filter_map(value));
    }
}

/// Whether `word` is the text that an item of Gemini's output holds: that of an item of
/// type "text"; none for an item of another type that is no call.
pub open spec fn gemini_word(item: JsonView, word: Option<Seq<char>>) -> bool {
    ||| item.text_at("type"@) == Some("text"@) && item.text_at("text"@) == word
    ||| item.text_at("type"@) != Some("text"@) && item.text_at("type"@) != Some(
        "function_call"@,
    ) && word is None
}

/// Whether `words` are what a step of Gemini's answer holds, item by item: nothing, for
/// a step other than an output of the model that is no call.
pub open spec fn gemini_words(step: JsonView, words: Seq<Option<Seq<char>>>) -> bool {
    ||| {
        &&& step.text_at("type"@) == Some("model_output"@)
        &&& step.array_at("content"@) is Some
        &&& step.array_at("content"@)->0.len() == words.len()
        &&& forall|j: int|
            0 <= j < words.len() ==> gemini_word(
                step.array_at("content"@)->0[j],
                #[trigger] words[j],
            )
    }
    ||| {
        &&& step.text_at("type"@) != Some("model_output"@)
        &&& step.text_at("type"@) != Some("function_call"@)
        &&& words.len() == 0
    }
}

proof fn gemini_content_words(
    start: ReadView,
    items: Seq<JsonView>,
    words: Seq<Option<Seq<char>>>,
    table: Seq<DecodedText>,
)
    requires
        items.len() == words.len(),
        forall|j: int| 0 <= j < words.len() ==> gemini_word(items[j], #[trigger] words[j]),
    ensures
        gemini_content(start, items, table) == Ok::<ReadView, Seq<char>>(
            ReadView {
                answer: start.answer + words.filter_map(|word: Option<Seq<char>>| word),
                ..start
            },
        ),
    decreases items.len(),
{
    reveal_strlit("text");
    reveal_strlit("function_call");
    assert("text"@.len() == 4 && "function_call"@.len() == 13);
    let value = |word: Option<Seq<char>>| word;
    if items.len() == 0 {
        assert(start.answer + words.filter_map(value) =~= start.answer);
    } else {
        let rest = words.drop_last();
        assert forall|j: int| 0 <= j < rest.len() implies gemini_word(
            items.drop_last()[j],
            #[trigger] rest[j],
        ) by {
            assert(gemini_word(items[j], words[j]));
        }
        gemini_content_words(start, items.drop_last(), rest, table);
        let item = items.last();
        let word = words.last();
        assert(gemini_word(items[items.len() - 1], words[words.len() - 1]));
        assert(gemini_content(start, items, table)->Ok_0.answer =~= start.answer
            + words.filter_map(value));
    }
}

proof fn gemini_steps_words(
    steps: Seq<JsonView>,
    words: Seq<Seq<Option<Seq<char>>>>,
    table: Seq<DecodedText>,
)
    requires
        steps.len() == words.len(),
        forall|k: int| 0 <= k < words.len() ==> gemini_words(steps[k], #[trigger] words[k]),
    ensures
        gemini_steps(steps, table) == Ok::<ReadView, Seq<char>>(
            ReadView {
                answer: words.flatten_alt().filter_map(|word: Option<Seq<char>>| word),
                calls: Seq::empty(),
            },
        ),
    decreases steps.len(),
{
    reveal_strlit("model_output");
    reveal_strlit("function_call");
    assert("model_output"@.len() == 12 && "function_call"@.len() == 13);
    let value = |word: Option<Seq<char>>| word;
    if steps.len() == 0 {
        assert(words.flatten_alt() =~= Seq::empty());
        assert(words.flatten_alt().filter_map(value) =~= Seq::empty());
    } else {
        let rest = words.drop_last();
        assert forall|k: int| 0 <= k < rest.len() implies gemini_words(
            steps.drop_last()[k],
            #[trigger] rest[k],
        ) by {
            assert(gemini_words(steps[k], words[k]));
        }
        gemini_steps_words(steps.drop_last(), rest, table);
        let step = steps.last();
        let last = words.last();
        assert(gemini_words(steps[steps.len() - 1], words[words.len() - 1]));
        let read = gemini_steps(steps.drop_last(), table)->Ok_0;
        assert(words.flatten_alt() == rest.flatten_alt() + last);
        values_of_both(rest.flatten_alt(), last);
        if step.text_at("type"@) == Some("model_output"@) {
            gemini_content_words(read, list_at(step, "content"@), last, table);
        } else {
            assert(last.filter_map(value) =~= Seq::empty());
            assert(rest.flatten_alt().filter_map(value) + last.filter_map(value)
                =~= rest.flatten_alt().filter_map(value));
        }
    }
}

/// The answer that is read from Gemini holds the text of each item of type "text" within
/// an output of the model, in order, with a blank line between two of them, and nothing
/// else; without a call in the answer there is none to hand on.
pub proof fn gemini_texts_are_the_answer(
    value: JsonView,
    requested: Seq<char>,
    table: Seq<DecodedText>,
    steps: Seq<JsonView>,
    words: Seq<Seq<Option<Seq<char>>>>,
)
    requires
        value.array_at("steps"@) == Some(steps),
        steps.len() == words.len(),
        forall|k: int| 0 <= k < words.len() ==> gemini_words(steps[k], #[trigger] words[k]),
    ensures
        gemini_response(value, requested, table) is Ok,
        gemini_response(value, requested, table)->Ok_0.answer == text::joined(
            words.flatten().filter_map(|word: Option<Seq<char>>| word),
            "\n\n"@,
        ),
        gemini_response(value, requested, table)->Ok_0.tool_call is None,
{
    gemini_steps_words(steps, words, table);
    words.lemma_flatten_and_flatten_alt_are_equivalent();
}

/// One output of the model with one text is read as that text.
pub proof fn gemini_reads_a_single_text(
    value: JsonView,
    requested: Seq<char>,
    table: Seq<DecodedText>,
    step: JsonView,
    item: JsonView,
    words: Seq<char>,
)
    requires
        value.array_at("steps"@) == Some(seq![step]),
        step.text_at("type"@) == Some("model_output"@),
        step.array_at("content"@) == Some(seq![item]),
        item.text_at("type"@) == Some("text"@),
        item.text_at("text"@) == Some(words),
    ensures
        gemini_response(value, requested, table) is Ok,
        gemini_response(value, requested, table)->Ok_0.answer == words,
        gemini_response(value, requested, table)->Ok_0.tool_call is None,
{
    let inner = seq![Some(words)];
    let all = seq![inner];
    assert(gemini_word(item, inner[0]));
    assert(gemini_words(step, all[0]));
    gemini_texts_are_the_answer(value, requested, table, seq![step], all);
    all.lemma_flatten_and_flatten_alt_are_equivalent();
    assert(all.drop_last() =~= Seq::empty());
    assert(all.drop_last().flatten_alt() =~= Seq::empty());
    assert(all.flatten_alt() =~= inner);
    let value = |word: Option<Seq<char>>| word;
    assert(inner.drop_last() =~= Seq::empty());
    assert(inner.drop_last().filter_map(value) =~= Seq::empty());
    assert(inner.filter_map(value) =~= seq![words]);
}

/// A call at the end of what Gemini answered leaves the answer as it was, and is handed
/// on with its name and its arguments; a second call is refused.
pub proof fn gemini_calls_are_handed_on(
    shorter: JsonView,
    value: JsonView,
    requested: Seq<char>,
    table: Seq<DecodedText>,
    steps: Seq<JsonView>,
    step: JsonView,
    tool: Seq<char>,
    arguments: Map<Seq<char>, JsonView>,
)
    requires
        shorter.array_at("steps"@) == Some(steps),
        value.array_at("steps"@) == Some(steps.push(step)),
        step.text_at("type"@) == Some("function_call"@),
        step.text_at("name"@) == Some(tool),
        step.get("arguments"@) == Some(JsonView::Object(arguments)),
        gemini_response(shorter, requested, table) is Ok,
    ensures
        ({
            let before = gemini_response(shorter, requested, table)->Ok_0;
            let after = gemini_response(value, requested, table);
            &&& before.tool_call is Some ==> after is Err
            &&& before.tool_call is None ==> {
                &&& after is Ok
                &&& after->Ok_0.answer == before.answer
                &&& after->Ok_0.tool_call is Some
                &&& after->Ok_0.tool_call->0.tool == tool
                &&& after->Ok_0.tool_call->0.arguments == JsonView::Object(arguments)
                &&& step.text_at("call_id"@) is Some ==> after->Ok_0.tool_call->0.call_id
                    == step.text_at("call_id"@)
                &&& step.get("call_id"@) is None ==> after->Ok_0.tool_call->0.call_id
                    == step.text_at("id"@)
            }
        }),
{
    assert(steps.push(step).drop_last() =~= steps);
    assert(steps.push(step).last() == step);
}

/// Whether `word` is the text that an item of a message holds: that of an item of type
/// "output_text" or "text"; none for an item of another type.
pub open spec fn openai_word(item: JsonView, word: Option<Seq<char>>) -> bool {
    if item.text_at("type"@) == Some("output_text"@) || item.text_at("type"@) == Some("text"@) {
        item.text_at("text"@) == word
    } else {
        word is None
    }
}

/// Whether `words` are what an item of OpenAI's output holds: the texts of a message,
/// its own text, or nothing, for an item that is no call.
pub open spec fn openai_words(item: JsonView, words: Seq<Option<Seq<char>>>) -> bool {
    ||| {
        &&& item.text_at("type"@) == Some("message"@)
        &&& item.array_at("content"@) is Some
        &&& item.array_at("content"@)->0.len() == words.len()
        &&& forall|j: int|
            0 <= j < words.len() ==> openai_word(
                item.array_at("content"@)->0[j],
                #[trigger] words[j],
            )
    }
    ||| {
        &&& item.text_at("type"@) != Some("message"@)
        &&& item.text_at("type"@) != Some("function_call"@)
        &&& words.len() == 1
        &&& openai_word(item, words[0])
    }
}

proof fn openai_message_words(items: Seq<JsonView>, words: Seq<Option<Seq<char>>>)
    requires
        items.len() == words.len(),
        forall|j: int| 0 <= j < words.len() ==> openai_word(items[j], #[trigger] words[j]),
    ensures
        item_texts(items) == words.filter_map(|word: Option<Seq<char>>| word),
    decreases items.len(),
{
    let value = |word: Option<Seq<char>>| word;
    if items.len() > 0 {
        let rest = words.drop_last();
        assert forall|j: int| 0 <= j < rest.len() implies openai_word(
            items.drop_last()[j],
            #[trigger] rest[j],
        ) by {
            assert(openai_word(items[j], words[j]));
        }
        openai_message_words(items.drop_last(), rest);
        assert(openai_word(items[items.len() - 1], words[words.len() - 1]));
        assert(item_texts(items) =~= words.filter_map(value));
    }
}

proof fn openai_items_words(
    items: Seq<JsonView>,
    words: Seq<Seq<Option<Seq<char>>>>,
    table: Seq<DecodedText>,
)
    requires
        items.len() == words.len(),
        forall|k: int| 0 <= k < words.len() ==> openai_words(items[k], #[trigger] words[k]),
    ensures
        openai_items(items, table) == Ok::<ReadView, Seq<char>>(
            ReadView {
                answer: words.flatten_alt().filter_map(|word: Option<Seq<char>>| word),
                calls: Seq::empty(),
            },
        ),
    decreases items.len(),
{
    reveal_strlit("message");
    reveal_strlit("function_call");
    assert("message"@.len() == 7 && "function_call"@.len() == 13);
    let value = |word: Option<Seq<char>>| word;
    if items.len() == 0 {
        assert(words.flatten_alt() =~= Seq::empty());
        assert(words.flatten_alt().filter_map(value) =~= Seq::empty());
    } else {
        let rest = words.drop_last();
        assert forall|k: int| 0 <= k < rest.len() implies openai_words(
            items.drop_last()[k],
            #[trigger] rest[k],
        ) by {
            assert(openai_words(items[k], words[k]));
        }
        openai_items_words(items.drop_last(), rest, table);
        let item = items.last();
        let last = words.last();
        assert(openai_words(items[items.len() - 1], words[words.len() - 1]));
        let read = openai_items(items.drop_last(), table)->Ok_0;
        assert(words.flatten_alt() == rest.flatten_alt() + last);
        values_of_both(rest.flatten_alt(), last);
        if item.text_at("type"@) == Some("message"@) {
            openai_message_words(list_at(item, "content"@), last);
        } else {
            assert(last.drop_last() =~= Seq::empty());
            assert(last.drop_last().filter_map(value) =~= Seq::empty());
            match last[0] {
                Some(word) => {
                    assert(last.filter_map(value) =~= seq![word]);
                    assert(read.answer + seq![word] =~= read.answer.push(word));
                },
                None => {
                    assert(last.filter_map(value) =~= Seq::empty());
                    assert(read.answer + Seq::<Seq<char>>::empty() =~= read.answer);
                },
            }
        }
        assert(openai_items(items, table)->Ok_0.answer =~= words.flatten_alt().filter_map(value));
    }
}

/// The answer that is read from OpenAI holds the texts of its messages and its texts
/// outside of one, in order, then the text given for all of its output, with a blank line
/// between two of them, and nothing else; without a call there is none to hand on.
pub proof fn openai_texts_are_the_answer(
    value: JsonView,
    requested: Seq<char>,
    table: Seq<DecodedText>,
    items: Seq<JsonView>,
    words: Seq<Seq<Option<Seq<char>>>>,
)
    requires
        value.array_at("output"@) == Some(items),
        items.len() == words.len(),
        forall|k: int| 0 <= k < words.len() ==> openai_words(items[k], #[trigger] words[k]),
    ensures
        ({
            let parsed = openai_response(value, requested, table);
            let parts = words.flatten().filter_map(|word: Option<Seq<char>>| word);
            &&& parsed is Ok
            &&& value.text_at("output_text"@) is None ==> parsed->Ok_0.answer == text::joined(
                parts,
                "\n\n"@,
            )
            &&& value.text_at("output_text"@) is Some ==> parsed->Ok_0.answer == text::joined(
                parts.push(value.text_at("output_text"@)->0),
                "\n\n"@,
            )
            &&& parsed->Ok_0.tool_call is None
        }),
{
    openai_items_words(items, words, table);
    words.lemma_flatten_and_flatten_alt_are_equivalent();
}

/// A call at the end of what OpenAI answered leaves the answer as it was, and is handed on
/// with its name and its arguments; a second call is refused.
pub proof fn openai_calls_are_handed_on(
    shorter: JsonView,
    value: JsonView,
    requested: Seq<char>,
    table: Seq<DecodedText>,
    items: Seq<JsonView>,
    item: JsonView,
    tool: Seq<char>,
    arguments: Map<Seq<char>, JsonView>,
)
    requires
        shorter.array_at("output"@) == Some(items),
        value.array_at("output"@) == Some(items.push(item)),
        shorter.text_at("output_text"@) == value.text_at("output_text"@),
        item.text_at("type"@) == Some("function_call"@),
        item.text_at("name"@) == Some(tool),
        item.get("arguments"@) == Some(JsonView::Object(arguments)),
        openai_response(shorter, requested, table) is Ok,
    ensures
        ({
            let before = openai_response(shorter, requested, table)->Ok_0;
            let after = openai_response(value, requested, table);
            &&& before.tool_call is Some ==> after is Err
            &&& before.tool_call is None ==> {
                &&& after is Ok
                &&& after->Ok_0.answer == before.answer
                &&& after->Ok_0.tool_call is Some
                &&& after->Ok_0.tool_call->0.tool == tool
                &&& after->Ok_0.tool_call->0.arguments == JsonView::Object(arguments)
                &&& item.text_at("call_id"@) is Some ==> after->Ok_0.tool_call->0.call_id
                    == item.text_at("call_id"@)
                &&& item.get("call_id"@) is None ==> after->Ok_0.tool_call->0.call_id
                    == item.text_at("id"@)
            }
        }),
{
    assert(items.push(item).drop_last() =~= items);
    assert(items.push(item).last() == item);
}

/// The arguments of a call that are given as a text are the document that this text
/// holds, and the call is refused where it holds none.
pub proof fn written_arguments_are_decoded(
    value: JsonView,
    table: Seq<DecodedText>,
    tool: Seq<char>,
    words: Seq<char>,
    at: int,
)
    requires
        value.text_at("name"@) == Some(tool),
        value.get("arguments"@) == Some(JsonView::Text(words)),
        0 <= at < table.len(),
        table[at].text@ == words,
        forall|i: int| 0 <= i < at ==> (#[trigger] table[i]).text@ != words,
    ensures
        table[at].value is None ==> function_call(value, table) is Err,
        table[at].value is Some ==> function_call(value, table) is Ok && function_call(
            value,
            table,
        )->Ok_0.arguments == table[at].value->0@ && function_call(value, table)->Ok_0.tool == tool,
{
    decoded_first(table, words, 0, at);
}

/// The first entry of a text says what it holds.
proof fn decoded_first(table: Seq<DecodedText>, words: Seq<char>, i: int, at: int)
    requires
        0 <= i <= at < table.len(),
        table[at].text@ == words,
        forall|j: int| i <= j < at ==> (#[trigger] table[j]).text@ != words,
    ensures
        decoded(table, words, i) == table[at].value.deep_view(),
    decreases at - i,
{
    if i < at {
        assert(table[i].text@ != words);
        decoded_first(table, words, i + 1, at);
    }
}

/// A call without a name, or without arguments, is refused.
pub proof fn calls_are_named_and_have_arguments(value: JsonView, table: Seq<DecodedText>)
    ensures
        value.text_at("name"@) is None ==> function_call(value, table) is Err,
        value.get("arguments"@) is None ==> function_call(value, table) is Err,
{
}

/// What is read of an answer names the model that gave it, or else the one asked for, and
/// its own identity, and counts the tokens that the provider counted.
pub proof fn answers_are_accounted_for(
    value: JsonView,
    requested: Seq<char>,
    table: Seq<DecodedText>,
    usage: JsonView,
)
    ensures
        ({
            let openai = openai_response(value, requested, table);
            let gemini = gemini_response(value, requested, table);
            &&& value.text_at("model"@) is Some ==> (openai is Ok ==> Some(
                openai->Ok_0.actual_model,
            ) == value.text_at("model"@)) && (gemini is Ok ==> Some(gemini->Ok_0.actual_model)
                == value.text_at("model"@))
            &&& value.text_at("model"@) is None ==> (openai is Ok ==> openai->Ok_0.actual_model
                == requested) && (gemini is Ok ==> gemini->Ok_0.actual_model == requested)
            &&& openai is Ok ==> openai->Ok_0.provider_request_id == value.text_at("id"@)
            &&& gemini is Ok && value.text_at("id"@) is Some
                ==> gemini->Ok_0.provider_request_id == value.text_at("id"@)
            &&& gemini is Ok && value.get("id"@) is None ==> gemini->Ok_0.provider_request_id
                == value.text_at("interaction_id"@)
            &&& value.get("usage"@) is None ==> (openai is Ok ==> openai->Ok_0.usage is None) && (
            gemini is Ok ==> gemini->Ok_0.usage is None)
            &&& value.get("usage"@) == Some(usage) && openai is Ok ==> openai->Ok_0.usage is Some
                && (usage.u64_at("input_tokens"@) is Some
                ==> openai->Ok_0.usage->0.input_tokens == usage.u64_at("input_tokens"@)->0) && (
            usage.u64_at("output_tokens"@) is Some ==> openai->Ok_0.usage->0.output_tokens
                == usage.u64_at("output_tokens"@)->0)
            &&& value.get("usage"@) == Some(usage) && gemini is Ok ==> gemini->Ok_0.usage is Some
                && (usage.u64_at("total_input_tokens"@) is Some
                ==> gemini->Ok_0.usage->0.input_tokens == usage.u64_at(
                "total_input_tokens"@,
            )->0) && (usage.u64_at("total_output_tokens"@) is Some
                ==> gemini->Ok_0.usage->0.output_tokens == usage.u64_at(
                "total_output_tokens"@,
            )->0) && (usage.u64_at("total_cached_tokens"@) is Some
                ==> gemini->Ok_0.usage->0.cached_input_tokens == usage.u64_at(
                "total_cached_tokens"@,
            )->0) && (usage.u64_at("total_thought_tokens"@) is Some
                ==> gemini->Ok_0.usage->0.reasoning_output_tokens == usage.u64_at(
                "total_thought_tokens"@,
            )->0)
        }),
{
}

/// The cached part of the input and the reasoning part of the output are metered as they
/// were counted, and the rest without them.
pub proof fn metered_parts_are_apart(usage: TokenUsage)
    ensures
        metering(usage).cached_input_tokens == usage.cached_input_tokens,
        metering(usage).thinking_tokens == usage.reasoning_output_tokens,
        usage.input_tokens < usage.cached_input_tokens ==> metering(usage).input_tokens == 0,
        usage.output_tokens < usage.reasoning_output_tokens ==> metering(usage).output_tokens == 0,
{
}

/// An item of type "text" at the end of an output of the model adds its text to what is
/// read from Gemini, and an item of a type other than that and a call adds nothing.
pub proof fn gemini_items_add_their_text(
    shorter: JsonView,
    value: JsonView,
    requested: Seq<char>,
    table: Seq<DecodedText>,
    steps: Seq<JsonView>,
    before: JsonView,
    after: JsonView,
    items: Seq<JsonView>,
    item: JsonView,
)
    requires
        shorter.array_at("steps"@) == Some(steps.push(before)),
        value.array_at("steps"@) == Some(steps.push(after)),
        before.text_at("type"@) == Some("model_output"@),
        after.text_at("type"@) == Some("model_output"@),
        before.array_at("content"@) == Some(items),
        after.array_at("content"@) == Some(items.push(item)),
        gemini_response(shorter, requested, table) is Ok,
    ensures
        ({
            let first = gemini_response(shorter, requested, table)->Ok_0;
            let second = gemini_response(value, requested, table);
            &&& item.text_at("type"@) == Some("text"@) && item.text_at("text"@) is Some ==> {
                &&& second is Ok
                &&& second->Ok_0.tool_call == first.tool_call
                &&& second->Ok_0.answer == first.answer + "\n\n"@ + item.text_at("text"@)->0
                    || first.answer.len() == 0 && second->Ok_0.answer == item.text_at("text"@)->0
            }
            &&& item.text_at("type"@) != Some("text"@) && item.text_at("type"@) != Some(
                "function_call"@,
            ) ==> {
                &&& second is Ok
                &&& second->Ok_0.tool_call == first.tool_call
                &&& second->Ok_0.answer == first.answer
            }
        }),
{
    reveal_strlit("text");
    reveal_strlit("function_call");
    reveal_strlit("model_output");
    assert("text"@.len() == 4 && "function_call"@.len() == 13 && "model_output"@.len() == 12);
    assert(steps.push(before).drop_last() =~= steps);
    assert(steps.push(after).drop_last() =~= steps);
    assert(items.push(item).drop_last() =~= items);
    let read = gemini_steps(steps.push(before), table)->Ok_0;
    assert(gemini_steps(steps.push(after), table) == gemini_item(read, item, table));
    match item.text_at("text"@) {
        Some(words) => {
            assert(read.answer.push(words).drop_last() =~= read.answer);
            assert(read.answer.push(words).last() == words);
        },
        None => {},
    }
}

/// The tokens that were read again and those that were thought are counted where the
/// answer tells them, and are none where it does not.
pub proof fn details_are_accounted_for(value: JsonView, usage: JsonView, details: JsonView)
    requires
        value.get("usage"@) == Some(usage),
    ensures
        ({
            let told = openai_usage(value);
            &&& told is Some
            &&& usage.get("input_tokens_details"@) == Some(details) && details.u64_at(
                "cached_tokens"@,
            ) is Some ==> told->0.cached_input_tokens == details.u64_at("cached_tokens"@)->0
            &&& usage.get("output_tokens_details"@) == Some(details) && details.u64_at(
                "reasoning_tokens"@,
            ) is Some ==> told->0.reasoning_output_tokens == details.u64_at("reasoning_tokens"@)->0
            &&& usage.get("input_tokens_details"@) is None ==> told->0.cached_input_tokens == 0
            &&& usage.get("output_tokens_details"@) is None ==> told->0.reasoning_output_tokens == 0
            &&& usage.u64_at("input_tokens"@) is None ==> told->0.input_tokens == 0
            &&& usage.u64_at("output_tokens"@) is None ==> told->0.output_tokens == 0
        }),
{
}

} // verus!
