//! The turn of a subagent at a provider: what is sent, what comes back, what is recorded.

use crate::json::{Json, JsonView};
use crate::providers;
use crate::providers::{AgentRequest, Backend, Model};
use crate::responses;
use crate::responses::{DecodedText, MeteredTokens, ParsedResponse, ResponseView};
use crate::text;
use crate::text::Failure;
use vstd::prelude::*;

verus! {

/// What a provider is sent for a turn, or why the turn does not begin: it is for a model
/// of an API, and for the model that was resolved.
pub open spec fn turn_request(model: Model, request: AgentRequest) -> Result<
    JsonView,
    Seq<char>,
> {
    if model.backend is Codex {
        Err("API provider turn received a non-API backend"@)
    } else if request.model@ != model.provider_model@ {
        Err("subagent request model does not match its resolved provider model"@)
    } else if model.backend is OpenAi {
        Ok(providers::openai_body(request))
    } else {
        Ok(providers::gemini_body(request))
    }
}

/// What a provider is sent for a turn.
pub fn prepare_turn(model: &Model, request: &AgentRequest) -> (result: Result<Json, Failure>)
    ensures
        match result {
            Ok(body) => turn_request(*model, *request) == Ok::<JsonView, Seq<char>>(body@),
            Err(failure) => turn_request(*model, *request) == Err::<JsonView, Seq<char>>(failure@),
        },
{
    match model.backend {
        Backend::Codex => {
            return Err(Failure::fixed("API provider turn received a non-API backend"));
        },
        _ => {},
    }
    if *request.model.as_str() != *model.provider_model.as_str() {
        return Err(
            Failure::fixed(
                "subagent request model does not match its resolved provider model",
            ),
        );
    }
    match model.backend {
        Backend::OpenAi => Ok(providers::openai_request(request)),
        _ => Ok(providers::gemini_request(request)),
    }
}

/// The header that a provider is shown a key in, and its value.
pub open spec fn credential_of(
    backend: Backend,
    openai_key: Option<Seq<char>>,
    gemini_key: Option<Seq<char>>,
) -> Result<(Seq<char>, Seq<char>), Seq<char>> {
    match backend {
        Backend::Codex => Err("Codex does not use the API subagent client"@),
        Backend::OpenAi => match openai_key {
            None => Err("OpenAI is not configured"@),
            Some(key) => if providers::header_value("Bearer "@ + key) {
                Ok(("authorization"@, "Bearer "@ + key))
            } else {
                Err("OpenAI API key is not a valid header value"@)
            },
        },
        Backend::Gemini => match gemini_key {
            None => Err("Gemini is not configured"@),
            Some(key) => if providers::header_value(key) {
                Ok(("x-goog-api-key"@, key))
            } else {
                Err("Gemini API key is not a valid header value"@)
            },
        },
    }
}

/// The header that a provider is shown a key in, and its value.
pub fn credential(backend: Backend, openai_key: Option<&str>, gemini_key: Option<&str>) -> (result:
    Result<(&'static str, String), Failure>)
    ensures
        match result {
            Ok(header) => credential_of(
                backend,
                openai_key.deep_view(),
                gemini_key.deep_view(),
            ) == Ok::<(Seq<char>, Seq<char>), Seq<char>>((header.0@, header.1@)),
            Err(failure) => credential_of(
                backend,
                openai_key.deep_view(),
                gemini_key.deep_view(),
            ) == Err::<(Seq<char>, Seq<char>), Seq<char>>(failure@),
        },
{
    match backend {
        Backend::Codex => Err(Failure::fixed("Codex does not use the API subagent client")),
        Backend::OpenAi => match openai_key {
            None => Err(Failure::fixed("OpenAI is not configured")),
            Some(key) => {
                let mut value = "Bearer ".to_owned();
                value.append(key);
                if providers::is_header_value(value.as_str()) {
                    Ok(("authorization", value))
                } else {
                    Err(Failure::fixed("OpenAI API key is not a valid header value"))
                }
            },
        },
        Backend::Gemini => match gemini_key {
            None => Err(Failure::fixed("Gemini is not configured")),
            Some(key) => {
                if providers::is_header_value(key) {
                    Ok(("x-goog-api-key", key.to_owned()))
                } else {
                    Err(Failure::fixed("Gemini API key is not a valid header value"))
                }
            },
        },
    }
}

/// A key that was accepted can be shown to its provider.
pub proof fn accepted_keys_can_be_shown(value: Seq<char>, provider: Seq<char>)
    requires
        providers::usable_key(value, provider) is Ok,
    ensures
        ({
            let key = providers::usable_key(value, provider)->Ok_0;
            credential_of(Backend::OpenAi, Some(key), None) is Ok && credential_of(
                Backend::Gemini,
                None,
                Some(key),
            ) is Ok
        }),
{
    let key = providers::usable_key(value, provider)->Ok_0;
    reveal_strlit("Bearer ");
    let shown = "Bearer "@ + key;
    assert forall|i: int| 0 <= i < shown.len() implies providers::header_char(
        #[trigger] shown[i],
    ) by {
        if i >= 7 {
            assert(shown[i] == key[i - 7]);
        }
    }
}

/// What is made of a provider's answer: a document whose status says success.
pub fn accept_answer(status: u16, status_text: &str, value: Json) -> (result: Result<
    Json,
    Failure,
>)
    ensures
        match result {
            Ok(answer) => 200 <= status < 300 && answer@ == value@,
            Err(failure) => !(200 <= status < 300) && failure@
                == "subagent provider returned HTTP "@ + status_text@ + ": "@
                + providers::provider_error(value@),
        },
{
    if 200 <= status && status < 300 {
        return Ok(value);
    }
    let mut message = "subagent provider returned HTTP ".to_owned();
    message.append(status_text);
    message.append(": ");
    message.append(providers::provider_error_message(&value).as_str());
    Err(Failure::new(message))
}

/// What a provider's answer says, by the provider.
pub open spec fn turn_response(
    backend: Backend,
    value: JsonView,
    model: Seq<char>,
    table: Seq<DecodedText>,
) -> Result<ResponseView, Seq<char>> {
    if backend is OpenAi {
        responses::openai_response(value, model, table)
    } else {
        responses::gemini_response(value, model, table)
    }
}

/// What a provider's answer says.
pub fn parse_response(model: &Model, value: &Json, table: &Vec<DecodedText>) -> (result: Result<
    ParsedResponse,
    Failure,
>)
    requires
        !(model.backend is Codex),
    ensures
        text::seen(result) == turn_response(
            model.backend,
            value@,
            model.provider_model@,
            table@,
        ),
{
    match model.backend {
        Backend::OpenAi => responses::parse_openai_response(
            value,
            model.provider_model.as_str(),
            table,
        ),
        _ => responses::parse_gemini_response(value, model.provider_model.as_str(), table),
    }
}

/// What is recorded of a call of a provider.
#[derive(Debug)]
pub struct Receipt {
    pub version: u32,
    pub user_id: String,
    pub operation: &'static str,
    pub requested_model: String,
    pub actual_model: String,
    pub provider_request_id: Option<String>,
    /// Where the provider counted.
    pub metering: Option<MeteredTokens>,
}

/// What is recorded of a call of a provider: of one that failed, only which model was
/// asked.
pub fn record_receipt(user_id: &str, model: &Model, parsed: Option<&ParsedResponse>) -> (receipt:
    Receipt)
    ensures
        receipt.version == 1,
        receipt.user_id@ == user_id@,
        receipt.operation@ == "subagent_turn"@,
        receipt.requested_model@ == model.requested@,
        receipt.actual_model@ == match parsed {
            Some(parsed) => parsed.actual_model@,
            None => model.provider_model@,
        },
        receipt.provider_request_id.deep_view() == match parsed {
            Some(parsed) => parsed.provider_request_id.deep_view(),
            None => None,
        },
        match parsed {
            Some(parsed) => match parsed.usage {
                Some(usage) => receipt.metering == Some(responses::metering(usage)),
                None => receipt.metering is None,
            },
            None => receipt.metering is None,
        },
{
    let (actual, request_id, metering) = match parsed {
        Some(parsed) => {
            let request_id = match &parsed.provider_request_id {
                Some(id) => Some(id.as_str().to_owned()),
                None => None,
            };
            let metering = match &parsed.usage {
                Some(usage) => Some(responses::metered(usage)),
                None => None,
            };
            (parsed.actual_model.as_str().to_owned(), request_id, metering)
        },
        None => (model.provider_model.as_str().to_owned(), None, None),
    };
    Receipt {
        version: 1,
        user_id: user_id.to_owned(),
        operation: "subagent_turn",
        requested_model: model.requested.as_str().to_owned(),
        actual_model: actual,
        provider_request_id: request_id,
        metering,
    }
}

/// A turn is asked of the provider of its model in that provider's own form, and refused
/// where it is for another model or for the catalog's.
pub proof fn turns_are_asked_in_their_form(model: Model, request: AgentRequest)
    ensures
        model.backend is Codex ==> turn_request(model, request) is Err,
        request.model@ != model.provider_model@ ==> turn_request(model, request) is Err,
        request.model@ == model.provider_model@ && model.backend is OpenAi ==> turn_request(
            model,
            request,
        ) == Ok::<JsonView, Seq<char>>(providers::openai_body(request)),
        request.model@ == model.provider_model@ && model.backend is Gemini ==> turn_request(
            model,
            request,
        ) == Ok::<JsonView, Seq<char>>(providers::gemini_body(request)),
{
}

/// Each provider is shown its own key, in its own header, and nobody the other's.
pub proof fn providers_are_shown_their_key(
    openai_key: Option<Seq<char>>,
    gemini_key: Option<Seq<char>>,
    key: Seq<char>,
)
    ensures
        credential_of(Backend::Codex, openai_key, gemini_key) is Err,
        openai_key is None ==> credential_of(Backend::OpenAi, openai_key, gemini_key) is Err,
        gemini_key is None ==> credential_of(Backend::Gemini, openai_key, gemini_key) is Err,
        openai_key == Some(key) && providers::header_value("Bearer "@ + key) ==> credential_of(
            Backend::OpenAi,
            openai_key,
            gemini_key,
        ) == Ok::<(Seq<char>, Seq<char>), Seq<char>>(("authorization"@, "Bearer "@ + key)),
        gemini_key == Some(key) && providers::header_value(key) ==> credential_of(
            Backend::Gemini,
            openai_key,
            gemini_key,
        ) == Ok::<(Seq<char>, Seq<char>), Seq<char>>(("x-goog-api-key"@, key)),
{
}

/// What a provider answered is read in that provider's own form.
pub proof fn answers_are_read_in_their_form(
    value: JsonView,
    model: Seq<char>,
    table: Seq<DecodedText>,
)
    ensures
        turn_response(Backend::OpenAi, value, model, table) == responses::openai_response(
            value,
            model,
            table,
        ),
        turn_response(Backend::Gemini, value, model, table) == responses::gemini_response(
            value,
            model,
            table,
        ),
{
}

} // verus!
