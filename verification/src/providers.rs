//! The model providers of subagents: which one a model belongs to, what is sent to it,
//! and what its answer says.

use crate::arguments;
use crate::json;
use crate::json::{Json, JsonView};
use crate::prompts::RuntimeModel;
use crate::text;
use crate::text::Failure;
use crate::tools::ReasoningEffort;
use vstd::prelude::*;

verus! {

/// The context window of the API models that are known.
pub const API_CONTEXT_WINDOW_TOKENS: u64 = 1_000_000;

/// The most tokens that are sent to them.
pub const API_MAX_INPUT_TOKENS: u64 = 700_000;

/// The context window that an unknown API model is taken to have.
pub const UNKNOWN_API_CONTEXT_WINDOW_TOKENS: u64 = 128_000;

/// The most tokens that are sent to it.
pub const UNKNOWN_API_MAX_INPUT_TOKENS: u64 = 89_600;

/// The most bytes of a provider's answer.
pub const MAX_PROVIDER_RESPONSE_BYTES: u64 = 16_777_216;

/// Through what a model is reached.
#[derive(Clone, Copy, Debug, PartialEq, Eq)]
pub enum Backend {
    Codex,
    OpenAi,
    Gemini,
}

/// A model, as it was resolved.
#[derive(Debug, PartialEq, Eq)]
pub struct Model {
    pub requested: String,
    pub provider_model: String,
    pub backend: Backend,
    pub context_window_tokens: u64,
    pub max_input_tokens: u64,
}

impl Model {
    /// Whether no more can be sent to the model than it can take.
    pub open spec fn well_formed(self) -> bool {
        self.max_input_tokens <= self.context_window_tokens
    }

    /// A model that is reached through Codex.
    pub fn codex(
        requested: String,
        provider_model: String,
        context_window_tokens: u64,
        max_input_tokens: u64,
    ) -> (model: Model)
        ensures
            model.requested == requested,
            model.provider_model == provider_model,
            model.backend is Codex,
            model.context_window_tokens == context_window_tokens,
            model.max_input_tokens == max_input_tokens,
    {
        Model {
            requested,
            provider_model,
            backend: Backend::Codex,
            context_window_tokens,
            max_input_tokens,
        }
    }
}

/// Seven tenths of a number of tokens, where the product is capped.
pub open spec fn seven_tenths(tokens: u64) -> u64 {
    if tokens * 70 > u64::MAX {
        u64::MAX / 100
    } else {
        ((tokens * 70) / 100) as u64
    }
}

fn most_input(tokens: u64) -> (most: u64)
    ensures
        most == seven_tenths(tokens),
{
    match tokens.checked_mul(70) {
        Some(product) => product / 100,
        None => u64::MAX / 100,
    }
}

/// Seven tenths of some tokens are never more than all of them.
proof fn seven_tenths_fit(tokens: u64)
    ensures
        seven_tenths(tokens) <= tokens,
        tokens >= 2 ==> seven_tenths(tokens) > 0,
{
}

impl RuntimeModel {
    /// The model of this name, where it is to be reached through Codex: a name that
    /// says so, and then the name that Codex knows it by.
    pub fn codex_subagent_model(&self, requested: &str) -> (result: Result<Option<Model>, Failure>)
        ensures
            match public_name(requested@) {
                Err(message) => result is Err && result->Err_0@ == message,
                Ok(_) => match result {
                    Err(_) => false,
                    Ok(None) => !text::begins(requested@, "codex/"@),
                    Ok(Some(model)) => {
                        &&& text::begins(requested@, "codex/"@)
                        &&& model.requested@ == requested@
                        &&& requested@ == "codex/"@ + model.provider_model@
                        &&& model.backend is Codex
                        &&& model.context_window_tokens == self.context_window_tokens
                        &&& model.max_input_tokens == seven_tenths(self.context_window_tokens)
                        &&& model.well_formed()
                    },
                },
            },
    {
        if let Err(failure) = validate_public_model_name(requested) {
            return Err(failure);
        }
        if !text::starts_with(requested, "codex/") {
            return Ok(None);
        }
        proof {
            reveal_strlit("codex/");
        }
        let length: usize = requested.unicode_len();
        let name = requested.substring_char(6, length);
        assert(requested@ =~= "codex/"@ + name@);
        proof {
            seven_tenths_fit(self.context_window_tokens);
        }
        Ok(
            Some(
                Model::codex(
                    requested.to_owned(),
                    name.to_owned(),
                    self.context_window_tokens,
                    most_input(self.context_window_tokens),
                ),
            ),
        )
    }
}

/// Whether a character may stand in the name of a model.
pub open spec fn names_model(c: char) -> bool {
    ||| 'a' <= c <= 'z'
    ||| 'A' <= c <= 'Z'
    ||| '0' <= c <= '9'
    ||| c == '.'
    ||| c == '-'
    ||| c == '_'
    ||| c == '/'
    ||| c == ':'
}

fn in_model_name(c: char) -> (yes: bool)
    ensures
        yes == names_model(c),
{
    ('a' <= c && c <= 'z') || ('A' <= c && c <= 'Z') || ('0' <= c && c <= '9') || c == '.' || c
        == '-' || c == '_' || c == '/' || c == ':'
}

/// Whether a name can be that of a model, or why not.
pub open spec fn public_name(model: Seq<char>) -> Result<(), Seq<char>> {
    if 0 < model.len() <= 128 && (forall|i: int|
        0 <= i < model.len() ==> names_model(#[trigger] model[i])) && !text::begins(
        model,
        "codex:"@,
    ) {
        Ok(())
    } else {
        Err("model must be an exact safe provider model identifier"@)
    }
}

/// Checks that a name can be that of a model.
pub fn validate_public_model_name(model: &str) -> (outcome: Result<(), Failure>)
    ensures
        arguments::checked(outcome) == public_name(model@),
{
    let refusal = "model must be an exact safe provider model identifier";
    let chars = text::chars_of(model);
    if chars.len() == 0 || chars.len() > 128 || text::starts_with(model, "codex:") {
        return Err(Failure::fixed(refusal));
    }
    let mut i: usize = 0;
    while i < chars.len()
        invariant
            i <= chars.len(),
            chars@ == model@,
            refusal@ == "model must be an exact safe provider model identifier"@,
            forall|j: int| 0 <= j < i ==> names_model(#[trigger] model@[j]),
        decreases chars.len() - i,
    {
        if !in_model_name(chars[i]) {
            assert(!names_model(model@[i as int]));
            return Err(Failure::fixed(refusal));
        }
        i = i + 1;
    }
    Ok(())
}

/// Whether a value of a header may hold a character.
pub open spec fn header_char(c: char) -> bool {
    (c >= ' ' && c != '\u{7f}') || c == '\t'
}

/// Whether a text can be the value of a header.
pub open spec fn header_value(text: Seq<char>) -> bool {
    forall|i: int| 0 <= i < text.len() ==> header_char(#[trigger] text[i])
}

/// `reqwest::header::HeaderValue::from_str`: whether the text can be the value of a
/// header. The bytes that it takes are all from 32 on but 127, and the tab; every byte
/// of a character beyond ASCII is among them.
#[verifier::external_body]
pub(crate) fn is_header_value(value: &str) -> (yes: bool)
    ensures
        yes == header_value(value@),
{
    reqwest::header::HeaderValue::from_str(value).is_ok()
}

/// A key as it is used, or why it cannot be.
pub open spec fn usable_key(value: Seq<char>, provider: Seq<char>) -> Result<Seq<char>, Seq<char>> {
    let key = text::trimmed(value);
    if key.len() == 0 {
        Err(provider + " API key is empty"@)
    } else if !header_value(key) {
        Err(provider + " API key is not a valid header value"@)
    } else {
        Ok(key)
    }
}

/// A key as it is used: without the space round it, and fit for a header.
pub fn validated_key(value: &str, provider: &str) -> (result: Result<String, Failure>)
    ensures
        text::seen(result) == usable_key(value@, provider@),
{
    let key = text::trim(value);
    if key.is_empty() {
        let mut message = provider.to_owned();
        message.append(" API key is empty");
        return Err(Failure::new(message));
    }
    if !is_header_value(key) {
        let mut message = provider.to_owned();
        message.append(" API key is not a valid header value");
        return Err(Failure::new(message));
    }
    Ok(key.to_owned())
}

/// The backend of an API model, or why there is none.
pub open spec fn backend_of(requested: Seq<char>, has_openai: bool, has_gemini: bool) -> Result<
    Backend,
    Seq<char>,
> {
    if text::begins(requested, "gemini-"@) {
        if has_gemini {
            Ok(Backend::Gemini)
        } else {
            Err(
                "Gemini is not configured; model "@ + text::debug_quoted(requested)
                    + " is unavailable"@,
            )
        }
    } else if has_openai {
        Ok(Backend::OpenAi)
    } else {
        Err("OpenAI is not configured; model "@ + text::debug_quoted(requested) + " is unavailable"@)
    }
}

/// The backend of an API model.
pub fn choose_backend(requested: &str, has_openai: bool, has_gemini: bool) -> (result: Result<
    Backend,
    Failure,
>)
    ensures
        match result {
            Ok(backend) => backend_of(requested@, has_openai, has_gemini) == Ok::<
                Backend,
                Seq<char>,
            >(backend),
            Err(failure) => backend_of(requested@, has_openai, has_gemini) == Err::<
                Backend,
                Seq<char>,
            >(failure@),
        },
{
    if text::starts_with(requested, "gemini-") {
        if has_gemini {
            return Ok(Backend::Gemini);
        }
        let mut message = "Gemini is not configured; model ".to_owned();
        message.append(text::quoted(requested).as_str());
        message.append(" is unavailable");
        return Err(Failure::new(message));
    }
    if has_openai {
        return Ok(Backend::OpenAi);
    }
    let mut message = "OpenAI is not configured; model ".to_owned();
    message.append(text::quoted(requested).as_str());
    message.append(" is unavailable");
    Err(Failure::new(message))
}

/// The context window and the most input of an API model that is known.
pub open spec fn known_limits(model: Seq<char>, backend: Backend) -> Option<(u64, u64)> {
    if (backend is OpenAi && model == "gpt-5.6"@) || (backend is Gemini && (model
        == "gemini-2.5-flash"@ || model == "gemini-3.1-flash-lite"@ || model
        == "gemini-3.1-pro-preview"@)) {
        Some((API_CONTEXT_WINDOW_TOKENS, API_MAX_INPUT_TOKENS))
    } else {
        None
    }
}

/// The context window and the most input of an API model that is known.
pub fn known_api_model_limits(model: &str, backend: Backend) -> (limits: Option<(u64, u64)>)
    ensures
        limits == known_limits(model@, backend),
{
    let known = match backend {
        Backend::OpenAi => *model == *"gpt-5.6",
        Backend::Gemini => *model == *"gemini-2.5-flash" || *model == *"gemini-3.1-flash-lite"
            || *model == *"gemini-3.1-pro-preview",
        Backend::Codex => false,
    };
    if known {
        Some((API_CONTEXT_WINDOW_TOKENS, API_MAX_INPUT_TOKENS))
    } else {
        None
    }
}

/// The first of some members that holds a number.
pub open spec fn number_in(value: JsonView, fields: Seq<Seq<char>>) -> Option<u64>
    decreases fields.len(),
{
    if fields.len() == 0 {
        None
    } else {
        match value.u64_at(fields[0]) {
            Some(number) => Some(number),
            None => number_in(value, fields.drop_first()),
        }
    }
}

/// The first of some members that holds a number.
pub fn u64_field(value: &Json, fields: &[&str]) -> (number: Option<u64>)
    ensures
        number == number_in(value@, text::views(fields@)),
{
    let ghost names = text::views(fields@);
    let mut i: usize = 0;
    assert(names.skip(0) =~= names);
    while i < fields.len()
        invariant
            i <= fields.len(),
            names == text::views(fields@),
            number_in(value@, names) == number_in(value@, names.skip(i as int)),
        decreases fields.len() - i,
    {
        assert(names.skip(i as int).drop_first() =~= names.skip(i + 1));
        if let Some(number) = value.u64_at(fields[i]) {
            return Some(number);
        }
        i = i + 1;
    }
    None
}

/// The members under which a provider says how much input a model takes.
pub open spec fn input_fields() -> Seq<Seq<char>> {
    seq!["max_input_tokens"@, "maxInputTokens"@, "input_token_limit"@, "inputTokenLimit"@]
}

/// The members under which a provider says how large a model's context is.
pub open spec fn context_fields() -> Seq<Seq<char>> {
    seq![
        "context_window_tokens"@,
        "contextWindowTokens"@,
        "context_window"@,
        "contextWindow"@,
    ]
}

/// The context window and the most input that a provider says a model has.
pub open spec fn advertised(metadata: JsonView, model: Seq<char>) -> Result<
    Option<(u64, u64)>,
    Seq<char>,
> {
    let context = number_in(metadata, context_fields());
    let most = match number_in(metadata, input_fields()) {
        Some(most) => Some(most),
        None => match context {
            Some(context) => Some(seven_tenths(context)),
            None => None,
        },
    };
    match most {
        None => Ok(None),
        Some(most) => {
            let window = match context {
                Some(context) => context,
                None => most,
            };
            if most > 0 && window >= most {
                Ok(Some((window, most)))
            } else {
                Err(
                    "provider metadata for model "@ + text::debug_quoted(model)
                        + " has invalid limits"@,
                )
            }
        },
    }
}

/// The context window and the most input that a provider says a model has.
pub fn advertised_limits(metadata: &Json, model: &str) -> (result: Result<
    Option<(u64, u64)>,
    Failure,
>)
    ensures
        match result {
            Ok(limits) => advertised(metadata@, model@) == Ok::<Option<(u64, u64)>, Seq<char>>(
                limits,
            ),
            Err(failure) => advertised(metadata@, model@) == Err::<
                Option<(u64, u64)>,
                Seq<char>,
            >(failure@),
        },
{
    proof {
        assert(text::views(
            (&["max_input_tokens", "maxInputTokens", "input_token_limit", "inputTokenLimit"])@,
        ) =~= input_fields());
        assert(text::views(
            (&["context_window_tokens", "contextWindowTokens", "context_window", "contextWindow"])@,
        ) =~= context_fields());
    }
    let most = u64_field(
        metadata,
        &["max_input_tokens", "maxInputTokens", "input_token_limit", "inputTokenLimit"],
    );
    let context = u64_field(
        metadata,
        &["context_window_tokens", "contextWindowTokens", "context_window", "contextWindow"],
    );
    let most: u64 = match (most, context) {
        (Some(most), _) => most,
        (None, Some(context)) => most_input(context),
        (None, None) => return Ok(None),
    };
    let window: u64 = match context {
        Some(context) => context,
        None => most,
    };
    if most > 0 && window >= most {
        return Ok(Some((window, most)));
    }
    let mut message = "provider metadata for model ".to_owned();
    message.append(text::quoted(model).as_str());
    message.append(" has invalid limits");
    Err(Failure::new(message))
}

/// The limits of an API model: those that the provider says, or else those that are
/// known, or else those of an unknown model.
pub open spec fn limits_of(
    requested: Seq<char>,
    backend: Backend,
    said: Option<(u64, u64)>,
) -> (u64, u64) {
    match said {
        Some(limits) => limits,
        None => match known_limits(requested, backend) {
            Some(limits) => limits,
            None => (UNKNOWN_API_CONTEXT_WINDOW_TOKENS, UNKNOWN_API_MAX_INPUT_TOKENS),
        },
    }
}

/// An API model, once its provider has said what it takes.
pub fn resolved_model(requested: &str, backend: Backend, said: Option<(u64, u64)>) -> (model: Model)
    ensures
        model.requested@ == requested@,
        model.provider_model@ == requested@,
        model.backend == backend,
        (model.context_window_tokens, model.max_input_tokens) == limits_of(
            requested@,
            backend,
            said,
        ),
{
    let (window, most) = match said {
        Some(limits) => limits,
        None => match known_api_model_limits(requested, backend) {
            Some(limits) => limits,
            None => (UNKNOWN_API_CONTEXT_WINDOW_TOKENS, UNKNOWN_API_MAX_INPUT_TOKENS),
        },
    };
    Model {
        requested: requested.to_owned(),
        provider_model: requested.to_owned(),
        backend,
        context_window_tokens: window,
        max_input_tokens: most,
    }
}

/// However a model's limits came about, something can be sent to it, and no more than
/// its context holds.
pub proof fn models_take_what_fits(requested: Seq<char>, backend: Backend, metadata: JsonView)
    requires
        advertised(metadata, requested) is Ok,
    ensures
        ({
            let limits = limits_of(requested, backend, advertised(metadata, requested)->Ok_0);
            0 < limits.1 <= limits.0
        }),
{
}

/// How an API model is resolved, before its provider is asked.
#[derive(Debug)]
pub enum Resolution {
    /// It has been resolved before: the place in the cache.
    Cached(usize),
    /// Its provider is asked.
    Ask(Backend),
}

/// The first model, from place `i` on, that was asked for under this name.
pub open spec fn cached_at(cache: Seq<Model>, requested: Seq<char>, i: int) -> Option<int>
    decreases cache.len() - i,
{
    if i < 0 || i >= cache.len() {
        None
    } else if cache[i].requested@ == requested {
        Some(i)
    } else {
        cached_at(cache, requested, i + 1)
    }
}

fn find_cached(cache: &Vec<Model>, requested: &str) -> (place: Option<usize>)
    ensures
        match place {
            Some(i) => cached_at(cache@, requested@, 0) == Some(i as int) && i < cache.len(),
            None => cached_at(cache@, requested@, 0) is None,
        },
{
    let mut i: usize = 0;
    while i < cache.len()
        invariant
            i <= cache.len(),
            cached_at(cache@, requested@, 0) == cached_at(cache@, requested@, i as int),
        decreases cache.len() - i,
    {
        if *cache[i].requested.as_str() == *requested {
            return Some(i);
        }
        i = i + 1;
    }
    None
}

/// How an API model is resolved. The names of Codex are not for this.
pub fn resolve(requested: &str, cache: &Vec<Model>, has_openai: bool, has_gemini: bool) -> (result:
    Result<Resolution, Failure>)
    ensures
        match public_name(requested@) {
            Err(message) => result is Err && result->Err_0@ == message,
            Ok(_) => if text::begins(requested@, "codex/"@) {
                result is Err && result->Err_0@
                    == "Codex model names are resolved through the Codex catalog"@
            } else {
                match cached_at(cache@, requested@, 0) {
                    Some(i) => result matches Ok(Resolution::Cached(place)) && place == i && i
                        < cache.len(),
                    None => match backend_of(requested@, has_openai, has_gemini) {
                        Err(message) => result is Err && result->Err_0@ == message,
                        Ok(backend) => result matches Ok(Resolution::Ask(chosen)) && chosen
                            == backend,
                    },
                }
            },
        },
{
    if let Err(failure) = validate_public_model_name(requested) {
        return Err(failure);
    }
    if text::starts_with(requested, "codex/") {
        return Err(
            Failure::fixed("Codex model names are resolved through the Codex catalog"),
        );
    }
    if let Some(i) = find_cached(cache, requested) {
        return Ok(Resolution::Cached(i));
    }
    match choose_backend(requested, has_openai, has_gemini) {
        Err(failure) => Err(failure),
        Ok(backend) => Ok(Resolution::Ask(backend)),
    }
}

/// A URL with one more segment at the end of its path, where a segment that is empty
/// gives way to it: the URL, or whether it was no URL at all.
pub uninterp spec fn segment_url(base: Seq<char>, segment: Seq<char>) -> Result<Seq<char>, bool>;

/// `reqwest::Url`: `Url::parse`, and then `path_segments_mut` with `pop_if_empty` and
/// `push`. The result is a function of the two texts.
#[verifier::external_body]
pub(crate) fn push_segment(base: &str, segment: &str) -> (url: Result<String, bool>)
    ensures
        match url {
            Ok(url) => segment_url(base@, segment@) == Ok::<Seq<char>, bool>(url@),
            Err(unreadable) => segment_url(base@, segment@) == Err::<Seq<char>, bool>(unreadable),
        },
{
    let mut url = reqwest::Url::parse(base).map_err(|_| true)?;
    url.path_segments_mut().map_err(|_| false)?.pop_if_empty().push(segment);
    Ok(url.to_string())
}

/// The URL under which a provider tells of a model, or why there is none.
pub fn accept_url(url: Result<String, bool>) -> (result: Result<String, Failure>)
    ensures
        text::seen(result) == match url {
            Ok(url) => Ok::<Seq<char>, Seq<char>>(url@),
            Err(unreadable) => Err::<Seq<char>, Seq<char>>(
                if unreadable {
                    "provider model metadata URL is invalid"@
                } else {
                    "provider model metadata URL cannot accept a model name"@
                },
            ),
        },
{
    match url {
        Ok(url) => Ok(url),
        Err(unreadable) => {
            if unreadable {
                Err(Failure::fixed("provider model metadata URL is invalid"))
            } else {
                Err(Failure::fixed("provider model metadata URL cannot accept a model name"))
            }
        },
    }
}

/// The URL under which a provider tells of a model.
pub fn model_metadata_url(base: &str, model: &str) -> (result: Result<String, Failure>)
    ensures
        text::seen(result) == match segment_url(base@, model@) {
            Ok(url) => Ok::<Seq<char>, Seq<char>>(url),
            Err(unreadable) => Err::<Seq<char>, Seq<char>>(
                if unreadable {
                    "provider model metadata URL is invalid"@
                } else {
                    "provider model metadata URL cannot accept a model name"@
                },
            ),
        },
{
    accept_url(push_segment(base, model))
}

/// Whether the length that an answer announces is within the limit.
pub fn ensure_response_size(announced: Option<u64>) -> (outcome: Result<(), Failure>)
    ensures
        arguments::checked(outcome) == if announced is Some && announced->0
            > MAX_PROVIDER_RESPONSE_BYTES {
            Err::<(), Seq<char>>("subagent provider response exceeded 16 MiB"@)
        } else {
            Ok::<(), Seq<char>>(())
        },
{
    match announced {
        Some(length) => {
            if length > MAX_PROVIDER_RESPONSE_BYTES {
                Err(Failure::fixed("subagent provider response exceeded 16 MiB"))
            } else {
                Ok(())
            }
        },
        None => Ok(()),
    }
}

/// Whether one more piece of an answer is within the limit.
pub fn chunk_fits(read: usize, chunk: usize) -> (yes: bool)
    ensures
        yes == (read + chunk <= MAX_PROVIDER_RESPONSE_BYTES),
{
    read.saturating_add(chunk) as u64 <= MAX_PROVIDER_RESPONSE_BYTES
}

/// What a provider says went wrong.
pub open spec fn provider_error(value: JsonView) -> Seq<char> {
    let inner = match value.get("error"@) {
        Some(error) => error.get("message"@),
        None => None,
    };
    let found = match inner {
        Some(message) => Some(message),
        None => value.get("message"@),
    };
    match found {
        Some(JsonView::Text(message)) => message,
        _ => "provider returned an unspecified error"@,
    }
}

/// What a provider says went wrong.
pub fn provider_error_message(value: &Json) -> (message: String)
    ensures
        message@ == provider_error(value@),
{
    let inner = match value.get("error") {
        Some(error) => error.get("message"),
        None => None,
    };
    let found = match inner {
        Some(message) => Some(message),
        None => value.get("message"),
    };
    match found {
        Some(value) => match value.as_text() {
            Some(message) => message.to_owned(),
            None => "provider returned an unspecified error".to_owned(),
        },
        None => "provider returned an unspecified error".to_owned(),
    }
}

/// A tool that a model may call.
#[derive(Debug)]
pub struct DynamicTool {
    pub name: String,
    pub description: String,
    pub input_schema: Json,
}

/// What a model is asked.
#[derive(Debug)]
pub struct AgentRequest {
    pub model: String,
    pub input: String,
    pub reasoning_effort: ReasoningEffort,
    pub tools: Vec<DynamicTool>,
}

/// Whether an OpenAI model can be told how much to reason.
pub open spec fn reasons(model: Seq<char>) -> bool {
    text::begins(model, "gpt-5"@) || text::begins(model, "o"@)
}

/// Whether an OpenAI model can be told how much to reason.
pub fn openai_supports_reasoning(model: &str) -> (yes: bool)
    ensures
        yes == reasons(model@),
{
    text::starts_with(model, "gpt-5") || text::starts_with(model, "o")
}

/// The name of a reasoning effort.
pub open spec fn effort_name(effort: ReasoningEffort) -> Seq<char> {
    match effort {
        ReasoningEffort::Off => "none"@,
        ReasoningEffort::Minimal => "minimal"@,
        ReasoningEffort::Low => "low"@,
        ReasoningEffort::Medium => "medium"@,
        ReasoningEffort::High => "high"@,
        ReasoningEffort::XHigh => "xhigh"@,
        ReasoningEffort::Max => "max"@,
    }
}

fn name_effort(effort: ReasoningEffort) -> (name: &'static str)
    ensures
        name@ == effort_name(effort),
{
    match effort {
        ReasoningEffort::Off => "none",
        ReasoningEffort::Minimal => "minimal",
        ReasoningEffort::Low => "low",
        ReasoningEffort::Medium => "medium",
        ReasoningEffort::High => "high",
        ReasoningEffort::XHigh => "xhigh",
        ReasoningEffort::Max => "max",
    }
}

/// How much Gemini is to think for a reasoning effort.
pub open spec fn thinking_level(effort: ReasoningEffort) -> Seq<char> {
    match effort {
        ReasoningEffort::Off => "minimal"@,
        ReasoningEffort::Minimal => "minimal"@,
        ReasoningEffort::Low => "low"@,
        ReasoningEffort::Medium => "medium"@,
        ReasoningEffort::High => "high"@,
        ReasoningEffort::XHigh => "high"@,
        ReasoningEffort::Max => "high"@,
    }
}

/// How much Gemini is to think for a reasoning effort.
pub fn gemini_thinking_level(effort: ReasoningEffort) -> (level: &'static str)
    ensures
        level@ == thinking_level(effort),
{
    match effort {
        ReasoningEffort::Off => "minimal",
        ReasoningEffort::Minimal => "minimal",
        ReasoningEffort::Low => "low",
        ReasoningEffort::Medium => "medium",
        ReasoningEffort::High => "high",
        ReasoningEffort::XHigh => "high",
        ReasoningEffort::Max => "high",
    }
}

/// A tool as a provider is told of it.
pub open spec fn tool_value(tool: DynamicTool) -> JsonView {
    JsonView::Object(Map::empty()).with("type"@, JsonView::Text("function"@)).with(
        "name"@,
        JsonView::Text(tool.name@),
    ).with("description"@, JsonView::Text(tool.description@)).with(
        "parameters"@,
        tool.input_schema@,
    )
}

/// The tools as OpenAI is told of them.
pub open spec fn openai_tools(tools: Seq<DynamicTool>) -> JsonView {
    JsonView::Array(
        tools.map_values(
            |tool: DynamicTool| tool_value(tool).with("strict"@, JsonView::Bool(false)),
        ),
    )
}

/// The tools as Gemini is told of them.
pub open spec fn gemini_tools(tools: Seq<DynamicTool>) -> JsonView {
    JsonView::Array(tools.map_values(|tool: DynamicTool| tool_value(tool)))
}

fn describe_tools(tools: &Vec<DynamicTool>, openai: bool) -> (value: Json)
    ensures
        value@ == if openai {
            openai_tools(tools@)
        } else {
            gemini_tools(tools@)
        },
{
    let mut items: Vec<Json> = Vec::new();
    let mut i: usize = 0;
    while i < tools.len()
        invariant
            i <= tools.len(),
            items.len() == i,
            forall|j: int|
                0 <= j < i ==> json::value_of(#[trigger] items@[j]) == if openai {
                    tool_value(tools@[j]).with("strict"@, JsonView::Bool(false))
                } else {
                    tool_value(tools@[j])
                },
        decreases tools.len() - i,
    {
        let tool = &tools[i];
        let plain = Json::object().with("type", Json::text("function")).with(
            "name",
            Json::text(tool.name.as_str()),
        ).with("description", Json::text(tool.description.as_str())).with(
            "parameters",
            tool.input_schema.clone(),
        );
        if openai {
            items.push(plain.with("strict", Json::Bool(false)));
        } else {
            items.push(plain);
        }
        i = i + 1;
    }
    proof {
        json::values_at(items@);
        if openai {
            assert(JsonView::Array(json::values_of(items@)) == openai_tools(tools@)) by {
                assert(json::values_of(items@) =~= tools@.map_values(
                    |tool: DynamicTool| tool_value(tool).with("strict"@, JsonView::Bool(false)),
                ));
            }
        } else {
            assert(json::values_of(items@) =~= tools@.map_values(
                |tool: DynamicTool| tool_value(tool),
            ));
        }
    }
    Json::array(items)
}

/// What OpenAI is sent.
pub open spec fn openai_body(request: AgentRequest) -> JsonView {
    let plain = JsonView::Object(Map::empty()).with("model"@, JsonView::Text(request.model@)).with(
        "input"@,
        JsonView::Text(request.input@),
    ).with("store"@, JsonView::Bool(false));
    let reasoned = if reasons(request.model@) {
        plain.with(
            "reasoning"@,
            JsonView::Object(Map::empty()).with(
                "effort"@,
                JsonView::Text(effort_name(request.reasoning_effort)),
            ),
        )
    } else {
        plain
    };
    if request.tools@.len() == 0 {
        reasoned
    } else {
        reasoned.with("tools"@, openai_tools(request.tools@)).with(
            "tool_choice"@,
            JsonView::Text("auto"@),
        ).with("parallel_tool_calls"@, JsonView::Bool(false))
    }
}

/// What OpenAI is sent. Its tools are called one at a time.
pub fn openai_request(request: &AgentRequest) -> (body: Json)
    ensures
        body@ == openai_body(*request),
{
    let mut body = Json::object().with("model", Json::text(request.model.as_str())).with(
        "input",
        Json::text(request.input.as_str()),
    ).with("store", Json::Bool(false));
    if openai_supports_reasoning(request.model.as_str()) {
        body = body.with(
            "reasoning",
            Json::object().with("effort", Json::text(name_effort(request.reasoning_effort))),
        );
    }
    if request.tools.len() > 0 {
        body = body.with("tools", describe_tools(&request.tools, true)).with(
            "tool_choice",
            Json::text("auto"),
        ).with("parallel_tool_calls", Json::Bool(false));
    }
    body
}

/// What Gemini is sent.
pub open spec fn gemini_body(request: AgentRequest) -> JsonView {
    let plain = JsonView::Object(Map::empty()).with("model"@, JsonView::Text(request.model@)).with(
        "input"@,
        JsonView::Text(request.input@),
    ).with(
        "generation_config"@,
        JsonView::Object(Map::empty()).with(
            "thinking_level"@,
            JsonView::Text(thinking_level(request.reasoning_effort)),
        ),
    ).with("service_tier"@, JsonView::Text("standard"@)).with("store"@, JsonView::Bool(false));
    if request.tools@.len() == 0 {
        plain
    } else {
        plain.with("tools"@, gemini_tools(request.tools@))
    }
}

/// What Gemini is sent.
pub fn gemini_request(request: &AgentRequest) -> (body: Json)
    ensures
        body@ == gemini_body(*request),
{
    let config = Json::object().with(
        "thinking_level",
        Json::text(gemini_thinking_level(request.reasoning_effort)),
    );
    let body = Json::object().with("model", Json::text(request.model.as_str())).with(
        "input",
        Json::text(request.input.as_str()),
    ).with("generation_config", config).with("service_tier", Json::text("standard")).with(
        "store",
        Json::Bool(false),
    );
    if request.tools.len() == 0 {
        body
    } else {
        body.with("tools", describe_tools(&request.tools, false))
    }
}

/// Seven tenths of a number are rounded down.
pub proof fn seven_tenths_round_down(tokens: u64)
    requires
        tokens * 70 <= u64::MAX,
    ensures
        seven_tenths(tokens) * 10 <= tokens * 7,
        tokens * 7 < seven_tenths(tokens) * 10 + 10,
{
}

/// Models named after Gemini are asked of Gemini, and all others of OpenAI, each only
/// where it is configured.
pub proof fn models_are_asked_of_their_provider(
    requested: Seq<char>,
    has_openai: bool,
    has_gemini: bool,
)
    ensures
        ({
            let backend = backend_of(requested, has_openai, has_gemini);
            let gemini = text::begins(requested, "gemini-"@);
            &&& gemini && has_gemini ==> backend == Ok::<Backend, Seq<char>>(Backend::Gemini)
            &&& gemini && !has_gemini ==> backend is Err
            &&& !gemini && has_openai ==> backend == Ok::<Backend, Seq<char>>(Backend::OpenAi)
            &&& !gemini && !has_openai ==> backend is Err
        }),
{
}

/// The first of some members that holds a number is read.
pub proof fn numbers_are_read_from_the_first(
    value: JsonView,
    before: Seq<Seq<char>>,
    field: Seq<char>,
    after: Seq<Seq<char>>,
)
    requires
        forall|i: int| 0 <= i < before.len() ==> value.u64_at(#[trigger] before[i]) is None,
    ensures
        value.u64_at(field) is Some ==> number_in(value, before.push(field) + after)
            == value.u64_at(field),
        number_in(value, before) is None,
    decreases before.len(),
{
    let all = before.push(field) + after;
    if before.len() > 0 {
        assert(value.u64_at(before[0]) is None);
        assert(all[0] == before[0]);
        assert(all.drop_first() =~= before.drop_first().push(field) + after);
        assert forall|i: int| 0 <= i < before.drop_first().len() implies value.u64_at(
            #[trigger] before.drop_first()[i],
        ) is None by {
            assert(value.u64_at(before[i + 1]) is None);
        }
        numbers_are_read_from_the_first(value, before.drop_first(), field, after);
    } else {
        assert(all[0] == field);
    }
}

/// A provider that says how much a model takes is believed: a window and a limit where it
/// gives both, a window of the limit where it gives only that, and seven tenths of the
/// window where it gives only the window; nothing that does not fit is.
pub proof fn advertised_limits_are_believed(metadata: JsonView, model: Seq<char>)
    ensures
        ({
            let limit = metadata.u64_at("max_input_tokens"@);
            let window = metadata.u64_at("context_window_tokens"@);
            let no_limit = limit is None && metadata.u64_at("maxInputTokens"@) is None
                && metadata.u64_at("input_token_limit"@) is None && metadata.u64_at(
                "inputTokenLimit"@,
            ) is None;
            let no_window = window is None && metadata.u64_at("contextWindowTokens"@) is None
                && metadata.u64_at("context_window"@) is None && metadata.u64_at("contextWindow"@)
                is None;
            let said = advertised(metadata, model);
            &&& limit is Some && window is Some && 0 < limit->0 <= window->0 ==> said == Ok::<
                Option<(u64, u64)>,
                Seq<char>,
            >(Some((window->0, limit->0)))
            &&& limit is Some && window is Some && (limit->0 == 0 || limit->0 > window->0) ==> said
                is Err
            &&& limit is Some && no_window && limit->0 > 0 ==> said == Ok::<
                Option<(u64, u64)>,
                Seq<char>,
            >(Some((limit->0, limit->0)))
            &&& no_limit && no_window ==> said == Ok::<Option<(u64, u64)>, Seq<char>>(None)
            &&& no_limit && window is Some && 2 <= window->0 && window->0 * 70 <= u64::MAX ==> said
                == Ok::<Option<(u64, u64)>, Seq<char>>(
                Some((window->0, ((window->0 * 70) / 100) as u64)),
            )
        }),
{
    let inputs = input_fields();
    let contexts = context_fields();
    reveal_with_fuel(number_in, 5);
    assert(inputs.drop_first()[0] == "maxInputTokens"@);
    assert(inputs.drop_first().drop_first()[0] == "input_token_limit"@);
    assert(inputs.drop_first().drop_first().drop_first()[0] == "inputTokenLimit"@);
    assert(contexts.drop_first()[0] == "contextWindowTokens"@);
    assert(contexts.drop_first().drop_first()[0] == "context_window"@);
    assert(contexts.drop_first().drop_first().drop_first()[0] == "contextWindow"@);
}

/// What a provider says counts before what is known, and what is known before the limits
/// of an unknown model.
pub proof fn limits_are_said_known_or_assumed(
    requested: Seq<char>,
    backend: Backend,
    said: Option<(u64, u64)>,
)
    ensures
        said is Some ==> Some(limits_of(requested, backend, said)) == said,
        said is None && backend is OpenAi && requested == "gpt-5.6"@ ==> limits_of(
            requested,
            backend,
            said,
        ) == (1_000_000u64, 700_000u64),
        said is None && backend is Gemini && requested == "gemini-2.5-flash"@ ==> limits_of(
            requested,
            backend,
            said,
        ) == (1_000_000u64, 700_000u64),
        said is None && backend is Codex ==> limits_of(requested, backend, said) == (
            128_000u64,
            89_600u64,
        ),
        said is None && backend is Gemini && requested == "gpt-5.6"@ ==> limits_of(
            requested,
            backend,
            said,
        ) == (128_000u64, 89_600u64),
{
    reveal_strlit("gpt-5.6");
    reveal_strlit("gemini-2.5-flash");
    reveal_strlit("gemini-3.1-flash-lite");
    reveal_strlit("gemini-3.1-pro-preview");
    assert("gpt-5.6"@.len() == 7 && "gemini-2.5-flash"@.len() == 16);
    assert("gemini-3.1-flash-lite"@.len() == 21 && "gemini-3.1-pro-preview"@.len() == 22);
}

/// The name of a model is public where it has from one to 128 letters, digits and the marks
/// that names have, and is none of the catalog's own.
pub proof fn model_names_are_plain(model: Seq<char>, i: int)
    ensures
        public_name(model) is Ok ==> 0 < model.len() <= 128 && !text::begins(model, "codex:"@),
        public_name(model) is Ok && 0 <= i < model.len() ==> model[i] != ' ' && model[i] != '\n'
            && model[i] != '"' && model[i] != '?' && model[i] != '#' && (model[i] as u32) < 128,
        0 < model.len() <= 128 && !text::begins(model, "codex:"@) && (forall|k: int|
            0 <= k < model.len() ==> 'a' <= #[trigger] model[k] <= 'z' || '0' <= model[k] <= '9'
                || model[k] == '-' || model[k] == '.') ==> public_name(model) is Ok,
{
}

/// A key is used without the white space around it, where something is left that a header
/// can hold.
pub proof fn keys_are_trimmed(lead: Seq<char>, key: Seq<char>, tail: Seq<char>, provider: Seq<char>)
    requires
        forall|i: int| 0 <= i < lead.len() ==> text::is_space(#[trigger] lead[i]),
        forall|i: int| 0 <= i < tail.len() ==> text::is_space(#[trigger] tail[i]),
        key.len() > 0 ==> !text::is_space(key[0]) && !text::is_space(key.last()),
    ensures
        usable_key(lead + key + tail, provider) is Ok <==> key.len() > 0 && forall|i: int|
            0 <= i < key.len() ==> header_char(#[trigger] key[i]),
        usable_key(lead + key + tail, provider) is Ok ==> usable_key(lead + key + tail, provider)
            == Ok::<Seq<char>, Seq<char>>(key),
{
    text::trimming_takes_outer_space(lead, key, tail);
}

/// The message of a provider's error is the one inside the error, or else the one beside
/// it, and a plain sentence where there is none.
pub proof fn errors_tell_their_message(value: JsonView, error: JsonView)
    ensures
        value.get("error"@) == Some(error) && error.text_at("message"@) is Some ==> Some(
            provider_error(value),
        ) == error.text_at("message"@),
        value.get("error"@) is None && value.text_at("message"@) is Some ==> Some(
            provider_error(value),
        ) == value.text_at("message"@),
        value.get("error"@) is None && value.get("message"@) is None ==> provider_error(value)
            == "provider returned an unspecified error"@,
{
}

/// A request carries its model, its input and its tools, is not stored, and says how hard to
/// think: OpenAI's where the model can, Gemini's always.
pub proof fn requests_carry_what_is_asked(request: AgentRequest, i: int)
    ensures
        ({
            let openai = openai_body(request);
            let gemini = gemini_body(request);
            let tools = request.tools@;
            &&& openai.text_at("model"@) == Some(request.model@)
            &&& openai.text_at("input"@) == Some(request.input@)
            &&& openai.bool_at("store"@) == Some(false)
            &&& gemini.text_at("model"@) == Some(request.model@)
            &&& gemini.text_at("input"@) == Some(request.input@)
            &&& gemini.bool_at("store"@) == Some(false)
            &&& tools.len() == 0 ==> openai.get("tools"@) is None && gemini.get("tools"@) is None
            &&& tools.len() > 0 ==> openai.array_at("tools"@) is Some && openai.array_at(
                "tools"@,
            )->0.len() == tools.len() && openai.bool_at("parallel_tool_calls"@) == Some(false)
            &&& tools.len() > 0 ==> gemini.array_at("tools"@) is Some && gemini.array_at(
                "tools"@,
            )->0.len() == tools.len()
            &&& 0 <= i < tools.len() ==> openai.array_at("tools"@)->0[i].text_at("name"@) == Some(
                tools[i].name@,
            ) && gemini.array_at("tools"@)->0[i].text_at("name"@) == Some(tools[i].name@)
            &&& 0 <= i < tools.len() ==> gemini.array_at("tools"@)->0[i].get("parameters"@) == Some(
                tools[i].input_schema@,
            ) && openai.array_at("tools"@)->0[i].get("parameters"@) == Some(tools[i].input_schema@)
            &&& gemini.get("generation_config"@) is Some
            &&& request.reasoning_effort is High ==> gemini.get("generation_config"@)->0.text_at(
                "thinking_level"@,
            ) == Some("high"@)
            &&& text::begins(request.model@, "gpt-5"@) ==> openai.get("reasoning"@) is Some
            &&& text::begins(request.model@, "gpt-5"@) && request.reasoning_effort is High
                ==> openai.get("reasoning"@)->0.text_at("effort"@) == Some("high"@)
            &&& !text::begins(request.model@, "gpt-5"@) && !text::begins(request.model@, "o"@)
                ==> openai.get("reasoning"@) is None
        }),
{
    reveal_strlit("model");
    reveal_strlit("input");
    reveal_strlit("store");
    reveal_strlit("tools");
    reveal_strlit("reasoning");
    reveal_strlit("tool_choice");
    reveal_strlit("parallel_tool_calls");
    reveal_strlit("generation_config");
    reveal_strlit("service_tier");
    reveal_strlit("type");
    reveal_strlit("name");
    reveal_strlit("description");
    reveal_strlit("parameters");
    reveal_strlit("strict");
    assert("model"@.len() == 5 && "model"@[0] == 'm');
    assert("input"@.len() == 5 && "input"@[0] == 'i');
    assert("store"@.len() == 5 && "store"@[0] == 's');
    assert("tools"@.len() == 5 && "tools"@[0] == 't');
    assert("reasoning"@.len() == 9 && "tool_choice"@.len() == 11);
    assert("parallel_tool_calls"@.len() == 19 && "generation_config"@.len() == 17);
    assert("service_tier"@.len() == 12);
    assert("type"@.len() == 4 && "type"@[0] == 't' && "name"@.len() == 4 && "name"@[0] == 'n');
    assert("description"@.len() == 11 && "parameters"@.len() == 10 && "strict"@.len() == 6);
}

/// Gemini thinks at three levels, and what is harder than high is high.
pub proof fn gemini_thinks_at_its_levels(effort: ReasoningEffort)
    ensures
        effort is Off || effort is Minimal ==> thinking_level(effort) == "minimal"@,
        effort is Low ==> thinking_level(effort) == "low"@,
        effort is Medium ==> thinking_level(effort) == "medium"@,
        effort is High || effort is XHigh || effort is Max ==> thinking_level(effort) == "high"@,
{
}

/// An effort is named by the word that stands for it.
pub proof fn efforts_are_named_back(effort: ReasoningEffort)
    ensures
        crate::tools::effort_named(effort_name(effort)) == Ok::<ReasoningEffort, Seq<char>>(effort),
{
    crate::tools::efforts_are_named(effort_name(effort));
}

/// A model that was resolved is found again, the first of its name.
pub proof fn resolved_models_are_found(
    cache: Seq<Model>,
    requested: Seq<char>,
    i: int,
    at: int,
)
    requires
        0 <= i <= at < cache.len(),
        cache[at].requested@ == requested,
    ensures
        cached_at(cache, requested, i) is Some,
        i <= cached_at(cache, requested, i)->0 <= at,
        cache[cached_at(cache, requested, i)->0].requested@ == requested,
    decreases at - i,
{
    if cache[i].requested@ != requested {
        resolved_models_are_found(cache, requested, i + 1, at);
    }
}

/// These models have a million tokens of context, seven tenths of them for the input, and
/// only with their own provider.
pub proof fn known_models_have_their_limits(model: Seq<char>)
    ensures
        known_limits("gpt-5.6"@, Backend::OpenAi) == Some((1_000_000u64, 700_000u64)),
        known_limits("gemini-2.5-flash"@, Backend::Gemini) == Some((1_000_000u64, 700_000u64)),
        known_limits("gemini-3.1-flash-lite"@, Backend::Gemini) == Some(
            (1_000_000u64, 700_000u64),
        ),
        known_limits("gemini-3.1-pro-preview"@, Backend::Gemini) == Some(
            (1_000_000u64, 700_000u64),
        ),
        model != "gpt-5.6"@ ==> known_limits(model, Backend::OpenAi) is None,
        model != "gemini-2.5-flash"@ && model != "gemini-3.1-flash-lite"@ && model
            != "gemini-3.1-pro-preview"@ ==> known_limits(model, Backend::Gemini) is None,
{
}

/// Each effort has its name.
pub proof fn efforts_have_their_names()
    ensures
        effort_name(ReasoningEffort::Off) == "none"@,
        effort_name(ReasoningEffort::Minimal) == "minimal"@,
        effort_name(ReasoningEffort::Low) == "low"@,
        effort_name(ReasoningEffort::Medium) == "medium"@,
        effort_name(ReasoningEffort::High) == "high"@,
        effort_name(ReasoningEffort::XHigh) == "xhigh"@,
        effort_name(ReasoningEffort::Max) == "max"@,
{
}

/// A tool is offered as a function with its description, and is called only where the
/// model chooses to.
pub proof fn tools_are_offered_as_functions(request: AgentRequest, i: int)
    requires
        0 <= i < request.tools@.len(),
    ensures
        ({
            let openai = openai_body(request);
            let gemini = gemini_body(request);
            let tool = request.tools@[i];
            &&& openai.text_at("tool_choice"@) == Some("auto"@)
            &&& gemini.text_at("service_tier"@) == Some("standard"@)
            &&& openai.array_at("tools"@)->0[i].text_at("type"@) == Some("function"@)
            &&& gemini.array_at("tools"@)->0[i].text_at("type"@) == Some("function"@)
            &&& openai.array_at("tools"@)->0[i].text_at("description"@) == Some(tool.description@)
            &&& gemini.array_at("tools"@)->0[i].text_at("description"@) == Some(tool.description@)
            &&& openai.array_at("tools"@)->0[i].bool_at("strict"@) == Some(false)
        }),
{
    reveal_strlit("model");
    reveal_strlit("input");
    reveal_strlit("store");
    reveal_strlit("tools");
    reveal_strlit("reasoning");
    reveal_strlit("tool_choice");
    reveal_strlit("parallel_tool_calls");
    reveal_strlit("generation_config");
    reveal_strlit("service_tier");
    reveal_strlit("type");
    reveal_strlit("name");
    reveal_strlit("description");
    reveal_strlit("parameters");
    reveal_strlit("strict");
    assert("model"@.len() == 5 && "model"@[0] == 'm');
    assert("input"@.len() == 5 && "input"@[0] == 'i');
    assert("store"@.len() == 5 && "store"@[0] == 's');
    assert("tools"@.len() == 5 && "tools"@[0] == 't');
    assert("reasoning"@.len() == 9);
    assert("tool_choice"@.len() == 11 && "tool_choice"@[0] == 't');
    assert("parallel_tool_calls"@.len() == 19);
    assert("generation_config"@.len() == 17);
    assert("service_tier"@.len() == 12);
    assert("type"@.len() == 4 && "type"@[0] == 't');
    assert("name"@.len() == 4 && "name"@[0] == 'n');
    assert("description"@.len() == 11 && "description"@[0] == 'd');
    assert("parameters"@.len() == 10);
    assert("strict"@.len() == 6);
}

} // verus!
