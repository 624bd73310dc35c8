use kennedy_orchestration::context::{
    check_requested, fixed_to_load, node_from_kweb, planned_node, Connection, Owner, StoredNode,
};
use kennedy_orchestration::freeform::{
    after_preview, after_subagent_write, after_write, check_subagent_write, subagent_preview,
    take_token, AfterPreview, Reply,
};
use kennedy_orchestration::generated::{generate_body, turn_events, AgentEvent};
use kennedy_orchestration::json::Json;
use kennedy_orchestration::libraries::{
    check_passed, documented, library_snapshot, map_library_error, published, registry_token,
    written, SourceFile,
};
use kennedy_orchestration::prompts::RuntimeModel;
use kennedy_orchestration::provider_turns::{
    accept_answer, credential, parse_response, prepare_turn, record_receipt,
};
use kennedy_orchestration::providers::{
    advertised_limits, chunk_fits, ensure_response_size, gemini_request, known_api_model_limits,
    model_metadata_url, openai_request, provider_error_message, resolve, resolved_model,
    validate_public_model_name, validated_key, AgentRequest, Backend, DynamicTool, Resolution,
    MAX_PROVIDER_RESPONSE_BYTES, UNKNOWN_API_CONTEXT_WINDOW_TOKENS,
};
use kennedy_orchestration::registry::{
    rust_lib_tool, validate_library_name, validate_session_id, HandleKey, Registry, RustLibTool,
    CHECK_RUST_LIB_TOOL, CREATE_RUST_LIB_TOOL, DOCS_RUST_LIB_TOOL, OPEN_RUST_LIB_TOOL,
    PUBLISH_RUST_LIB_TOOL, SESSION_LEASE, WRITE_RUST_LIB_TOOL,
};
use kennedy_orchestration::responses::{
    metered, parse_gemini_response, parse_openai_response, DecodedText, TokenUsage, Turn,
    TurnEvent,
};
use kennedy_orchestration::sources::{
    check_remote_call, execute_path, managed_source_kind, managed_source_result, remote_body,
    SourceCatalog, SourceKind, SourceSnapshot,
};
use kennedy_orchestration::text::Failure;
use kennedy_orchestration::tools::ReasoningEffort;

fn convert(value: serde_json::Value) -> Json {
    match value {
        serde_json::Value::Null => Json::Null,
        serde_json::Value::Bool(flag) => Json::Bool(flag),
        serde_json::Value::Number(number) => match (number.as_i64(), number.as_u64()) {
            (Some(n), _) => Json::Integer(n as i128),
            (_, Some(n)) => Json::Integer(n as i128),
            _ => Json::Real(number.to_string()),
        },
        serde_json::Value::String(text) => Json::Text(text),
        serde_json::Value::Array(items) => Json::Array(items.into_iter().map(convert).collect()),
        serde_json::Value::Object(members) => {
            Json::Object(members.into_iter().map(|(key, value)| (key, convert(value))).collect())
        }
    }
}

fn json(text: &str) -> Json {
    convert(serde_json::from_str(text).unwrap())
}

fn value(text: &str) -> serde_json::Value {
    serde_json::from_str(text).unwrap()
}

fn plain(json: &Json) -> serde_json::Value {
    match json {
        Json::Null => serde_json::Value::Null,
        Json::Bool(flag) => serde_json::Value::Bool(*flag),
        Json::Integer(number) => match (i64::try_from(*number), u64::try_from(*number)) {
            (Ok(n), _) => serde_json::Value::from(n),
            (_, Ok(n)) => serde_json::Value::from(n),
            _ => unreachable!(),
        },
        Json::Real(text) => serde_json::from_str(text).unwrap(),
        Json::Text(text) => serde_json::Value::String(text.clone()),
        Json::Array(items) => serde_json::Value::Array(items.iter().map(plain).collect()),
        Json::Object(members) => serde_json::Value::Object(
            members.iter().map(|(key, value)| (key.clone(), plain(value))).collect(),
        ),
    }
}

#[test]
fn provider_names_keep_api_models_plain_and_codex_explicit() {
    assert!(validate_public_model_name("gpt-5.6").is_ok());
    assert!(validate_public_model_name("ft:gpt-4.1:kennedy:focused:123").is_ok());
    assert!(validate_public_model_name("gemini-3.1-pro-preview").is_ok());
    assert!(validate_public_model_name("codex/gpt-5.6-sol").is_ok());
    assert!(validate_public_model_name("codex:gpt-5.6-sol").is_err());
    let codex = RuntimeModel::testing()
        .codex_subagent_model("codex/gpt-5.6-sol")
        .unwrap()
        .unwrap();
    assert_eq!(codex.backend, Backend::Codex);
    assert_eq!(codex.provider_model, "gpt-5.6-sol");
}

fn ktool() -> DynamicTool {
    DynamicTool {
        name: "call_ktool".into(),
        description: "Call one Ktool.".into(),
        input_schema: json(
            r#"{
                "type":"object",
                "additionalProperties":false,
                "required":["name","arguments"],
                "properties":{
                    "name":{"type":"string"},
                    "arguments":{"type":"object"}
                }
            }"#,
        ),
    }
}

fn request(model: &str) -> AgentRequest {
    AgentRequest {
        model: model.into(),
        input: "clean context".into(),
        reasoning_effort: ReasoningEffort::XHigh,
        tools: vec![ktool()],
    }
}

#[test]
fn provider_requests_preserve_model_names_and_use_compatible_tool_schemas() {
    let openai = openai_request(&request("gpt-4.1"));
    assert_eq!(openai.text_at("model"), Some("gpt-4.1"));
    assert!(openai.get("reasoning").is_none());
    assert_eq!(openai.bool_at("parallel_tool_calls"), Some(false));
    assert_eq!(openai.array_at("tools").unwrap()[0].bool_at("strict"), Some(false));

    assert_eq!(
        openai_request(&request("gpt-5.6")).get("reasoning").unwrap().text_at("effort"),
        Some("xhigh")
    );

    let gemini = gemini_request(&request("gemini-3.6-flash"));
    assert_eq!(gemini.text_at("model"), Some("gemini-3.6-flash"));
    assert_eq!(gemini.array_at("tools").unwrap()[0].text_at("type"), Some("function"));
    assert_eq!(gemini.bool_at("store"), Some(false));
}

#[test]
fn openai_and_gemini_responses_normalize_final_text_and_tool_calls() {
    let openai = parse_openai_response(
        &json(
            r#"{
                "id":"resp-1",
                "model":"gpt-5.6",
                "output":[{"type":"message","content":[{"type":"output_text","text":"done"}]}],
                "usage":{"input_tokens":10,"output_tokens":2}
            }"#,
        ),
        "gpt-5.6",
        &vec![],
    )
    .unwrap();
    assert_eq!(openai.answer, "done");
    let gemini = parse_gemini_response(
        &json(
            r#"{
                "id":"interaction-1",
                "model":"gemini-3.1-pro-preview",
                "steps":[{
                    "type":"function_call",
                    "call_id":"call-1",
                    "name":"call_ktool",
                    "arguments":{"name":"WebFetch","arguments":{"url":"https://example.com"}}
                }],
                "usage":{"total_input_tokens":12,"total_output_tokens":3}
            }"#,
        ),
        "gemini-3.1-pro-preview",
        &vec![],
    )
    .unwrap();
    assert_eq!(gemini.tool_call.unwrap().call_id.as_deref(), Some("call-1"));
}

#[test]
fn encoded_arguments_are_read_where_they_hold_a_document() {
    let response = json(
        r#"{
            "output":[{
                "type":"function_call",
                "call_id":"c",
                "name":"call_ktool",
                "arguments":"{\"name\":\"LoadNodes\"}"
            }]
        }"#,
    );
    let table = vec![DecodedText {
        text: "{\"name\":\"LoadNodes\"}".into(),
        value: Some(json(r#"{"name":"LoadNodes"}"#)),
    }];
    let parsed = parse_openai_response(&response, "gpt-5.6", &table).unwrap();
    assert_eq!(parsed.tool_call.unwrap().arguments.text_at("name"), Some("LoadNodes"));
    assert_eq!(parsed.actual_model, "gpt-5.6");
    assert!(parse_openai_response(&response, "gpt-5.6", &vec![]).is_err());
}

#[test]
fn api_turns_run_from_request_to_result() {
    let none = vec![];
    assert!(matches!(
        resolve("gpt-5.6", &none, true, true).unwrap(),
        Resolution::Ask(Backend::OpenAi)
    ));
    assert!(matches!(
        resolve("gemini-3.1-pro-preview", &none, true, true).unwrap(),
        Resolution::Ask(Backend::Gemini)
    ));
    assert!(resolve("gpt-5.6", &none, false, true).is_err());
    assert!(resolve("codex/gpt-5.6", &none, true, true).is_err());
    let said = advertised_limits(&json(r#"{"id":"available-openai-model"}"#), "gpt-4.1").unwrap();
    assert_eq!(said, None);
    let unknown = resolved_model("gpt-4.1", Backend::OpenAi, said);
    assert_eq!(unknown.context_window_tokens, UNKNOWN_API_CONTEXT_WINDOW_TOKENS);
    assert_eq!(
        advertised_limits(&json(r#"{"inputTokenLimit":1000000}"#), "gemini").unwrap(),
        Some((1_000_000, 1_000_000))
    );
    assert_eq!(
        advertised_limits(&json(r#"{"contextWindow":1000}"#), "m").unwrap(),
        Some((1_000, 700))
    );
    assert!(advertised_limits(&json(r#"{"contextWindow":1,"maxInputTokens":2}"#), "m").is_err());
    assert!(known_api_model_limits("gpt-4.1", Backend::OpenAi).is_none());

    let model = resolved_model("gemini-3.1-pro-preview", Backend::Gemini, None);
    let cached = vec![resolved_model("gpt-5.6", Backend::OpenAi, None)];
    assert!(matches!(
        resolve("gpt-5.6", &cached, false, false).unwrap(),
        Resolution::Cached(0)
    ));
    assert!(prepare_turn(&model, &request("gemini-3.1-pro-preview")).is_ok());
    assert_eq!(
        prepare_turn(&model, &request("other")).unwrap_err().message,
        "subagent request model does not match its resolved provider model"
    );
    let parsed = parse_response(
        &model,
        &json(
            r#"{
                "id":"interaction-1",
                "model":"gemini-3.1-pro-preview",
                "steps":[{
                    "type":"function_call",
                    "call_id":"gemini-call",
                    "name":"call_ktool",
                    "arguments":{"name":"WebFetch","arguments":{"url":"https://example.com"}}
                }],
                "usage":{"total_input_tokens":30,"total_output_tokens":5}
            }"#,
        ),
        &vec![],
    )
    .unwrap();
    let receipt = record_receipt("user", &model, Some(&parsed));
    assert_eq!(receipt.operation, "subagent_turn");
    assert_eq!(receipt.provider_request_id.as_deref(), Some("interaction-1"));
    assert_eq!(receipt.metering.unwrap().input_tokens, 30);
    assert!(record_receipt("user", &model, None).metering.is_none());

    let call = parsed.tool_call.unwrap();
    let mut turn = Turn::start("exact", call.call_id.as_deref(), &parsed.answer);
    assert!(matches!(turn.next_event(false), Some(Ok(TurnEvent::ProviderInput(_)))));
    assert!(matches!(turn.next_event(false), Some(Ok(TurnEvent::ToolCall { call_id: _ }))));
    assert!(turn.respond("other-call").is_err());
    turn.respond("gemini-call").unwrap();
    let Some(Ok(TurnEvent::Completed { answer })) = turn.next_event(false) else {
        panic!("the turn completes after its result");
    };
    assert!(answer.is_empty());
    assert!(turn.respond("gemini-call").is_err());
    assert!(matches!(turn.next_event(true), Some(Err(_))));
}

#[test]
fn keys_are_shown_in_the_headers_of_their_provider() {
    assert_eq!(
        credential(Backend::OpenAi, Some("key"), None).unwrap(),
        ("authorization", "Bearer key".to_owned())
    );
    assert_eq!(
        credential(Backend::Gemini, None, Some("key")).unwrap(),
        ("x-goog-api-key", "key".to_owned())
    );
    assert_eq!(
        credential(Backend::OpenAi, None, Some("key")).unwrap_err().message,
        "OpenAI is not configured"
    );
    assert_eq!(
        credential(Backend::Codex, None, None).unwrap_err().message,
        "Codex does not use the API subagent client"
    );
    assert_eq!(
        credential(Backend::Gemini, None, Some("a\nb")).unwrap_err().message,
        "Gemini API key is not a valid header value"
    );
    assert_eq!(validated_key("  key\n", "OpenAI").unwrap(), "key");
    assert!(validated_key("  ", "OpenAI").is_err());
    assert!(validated_key("a\u{7f}b", "OpenAI").is_err());
}

#[test]
fn provider_answers_are_bounded_and_explained() {
    assert!(ensure_response_size(Some(MAX_PROVIDER_RESPONSE_BYTES)).is_ok());
    assert!(ensure_response_size(Some(MAX_PROVIDER_RESPONSE_BYTES + 1)).is_err());
    assert!(ensure_response_size(None).is_ok());
    assert!(chunk_fits(16_777_215, 1));
    assert!(!chunk_fits(16_777_216, 1));
    assert_eq!(
        provider_error_message(&json(r#"{"error":{"message":"quota"}}"#)),
        "quota"
    );
    assert_eq!(
        accept_answer(429, "429 Too Many Requests", json(r#"{"message":"slow down"}"#))
            .unwrap_err()
            .message,
        "subagent provider returned HTTP 429 Too Many Requests: slow down"
    );
    assert!(accept_answer(200, "200 OK", Json::Null).is_ok());
    assert_eq!(
        model_metadata_url("https://api.openai.com/v1/models", "ft:a b").unwrap(),
        "https://api.openai.com/v1/models/ft:a%20b"
    );
    assert_eq!(
        model_metadata_url("nothing", "m").unwrap_err().message,
        "provider model metadata URL is invalid"
    );
    assert_eq!(
        model_metadata_url("mailto:a", "m").unwrap_err().message,
        "provider model metadata URL cannot accept a model name"
    );
    let usage = TokenUsage {
        input_tokens: 10,
        output_tokens: 5,
        cached_input_tokens: 4,
        reasoning_output_tokens: 2,
    };
    let tokens = metered(&usage);
    assert_eq!((tokens.input_tokens, tokens.output_tokens), (6, 3));
}

#[test]
fn remote_answers_stand_for_events() {
    let response = json(
        r#"{
            "message":{"content":"ignored beside calls"},
            "tool_calls":[{"name":"LoadNodes","arguments":{"identifiers":[]}},{"noname":1},{"name":"X"}],
            "usage":{"input_tokens":7},
            "response_id":"thread"
        }"#,
    );
    let events = turn_events("exact", &response);
    assert_eq!(events.len(), 5);
    assert!(matches!(&events[0], AgentEvent::ProviderInput(exact) if exact == "exact"));
    assert!(matches!(
        &events[2],
        AgentEvent::ToolCall { call_id, name, .. } if call_id == "test-call-1" && name == "X"
    ));
    assert!(matches!(&events[3], AgentEvent::UsageUpdated(usage) if usage.input_tokens == 7));
    assert!(matches!(
        &events[4],
        AgentEvent::Completed { thread_id, answer, .. } if thread_id == "thread" && answer.is_empty()
    ));
    let plain_answer = turn_events("x", &json(r#"{"message":{"content":"hello"}}"#));
    assert!(matches!(
        &plain_answer[1],
        AgentEvent::Completed { thread_id, answer, usage: None }
            if answer == "hello" && thread_id.starts_with("00000000")
    ));
    assert_eq!(
        plain(&generate_body("m", "in", None, 30)),
        value(
            r#"{"provider":"primary","model":"m","chatend":"in","previous_response_id":null,"timeout_seconds":30}"#
        )
    );
}

fn catalog() -> SourceCatalog {
    let own = |names: &[&str]| names.iter().map(|name| (*name).to_owned()).collect::<Vec<_>>();
    SourceCatalog {
        rust_libraries: own(&["kcode-rust-libs-v2/open", "kcode-rust-libs-v2/write"]),
        preview_rust_library: "kcode-rust-libs-v2/internal-preview-write-file".into(),
        web_libraries: own(&["kcode-web-libs/open"]),
        preview_web_library: "kcode-web-libs/internal-preview-write-file".into(),
        rust_binaries: own(&["kcode-rust-bins/call"]),
        preview_rust_binary: "kcode-rust-bins/internal-preview-write-file".into(),
        openings: own(&["kcode-rust-libs-v2/open", "kcode-web-libs/open"]),
    }
}

#[test]
fn managed_sources_show_what_became_of_them() {
    let catalog = catalog();
    assert_eq!(
        managed_source_kind("kcode-web-libs/open", &catalog),
        Some(SourceKind::WebLibrary)
    );
    assert_eq!(managed_source_kind("other", &catalog), None);
    assert_eq!(execute_path(SourceKind::RustBinary), "/api/v1/rust-bins/execute");
    assert_eq!(
        check_remote_call("other", 0, &catalog).unwrap_err().message,
        "Unknown managed-source tool other."
    );
    assert_eq!(
        check_remote_call("kcode-rust-bins/call", 1, &catalog).unwrap_err().code,
        "local_service_unavailable"
    );
    let arguments = json(r#"{"name":"demo"}"#);
    let run = |name: &str, payload: &str, proposed: Option<SourceSnapshot>| {
        managed_source_result(
            SourceKind::RustLibrary,
            name,
            &arguments,
            &json(payload),
            proposed,
            &catalog,
        )
    };
    let told = run("kcode-rust-libs-v2/write", r#"{"result":"ok","snapshot":"source"}"#, None)
        .unwrap();
    assert_eq!(told.text, "ok");
    assert_eq!(told.snapshot.unwrap().text, "source");
    let proposed = SourceSnapshot {
        kind: SourceKind::RustLibrary,
        name: "demo".into(),
        text: "proposed".into(),
    };
    assert_eq!(
        run("kcode-rust-libs-v2/write", r#"{"result":"ok"}"#, Some(proposed))
            .unwrap()
            .snapshot
            .unwrap()
            .text,
        "proposed"
    );
    assert_eq!(
        run("kcode-rust-libs-v2/open", r#"{"result":"files"}"#, None)
            .unwrap()
            .snapshot
            .unwrap()
            .text,
        "files"
    );
    assert!(run("kcode-rust-libs-v2/write", r#"{"result":"ok"}"#, None)
        .unwrap()
        .snapshot
        .is_none());
    assert_eq!(
        run("kcode-rust-libs-v2/write", r#"{"result":1}"#, None).unwrap_err().code,
        "invalid_tool_result"
    );
    assert_eq!(
        plain(&remote_body("s", "n", arguments.clone())),
        value(r#"{"session_id":"s","name":"n","arguments":{"name":"demo"}}"#)
    );
}

fn shown(text: &str) -> SourceSnapshot {
    SourceSnapshot { kind: SourceKind::RustLibrary, name: "demo".into(), text: text.into() }
}

#[test]
fn freeform_writes_run_only_after_a_preview() {
    let done = Reply::Done { text: "ok".into(), snapshot: Some(shown("source")) };
    assert!(matches!(after_preview("w", &done).unwrap(), AfterPreview::Run));
    let failed = Reply::Failed(Failure::fixed("no such file"));
    let AfterPreview::Fail(outcome) = after_preview("w", &failed).unwrap() else {
        panic!("a failed preview ends the write");
    };
    assert_eq!(outcome.text, "w failed: no such file");
    assert!(outcome.store_result && !outcome.ok);
    let silent = Reply::Done { text: "ok".into(), snapshot: None };
    assert!(after_preview("w", &silent).is_err());
    let written = after_write("w", done).unwrap();
    assert_eq!(written.snapshot.unwrap().text, "source");
    assert!(written.outcome.ok && !written.outcome.store_result);
    assert_eq!(
        after_write("w", silent).err().unwrap().message,
        "freeform write omitted the resulting source snapshot"
    );
    assert_eq!(
        subagent_preview(Reply::Done { text: String::new(), snapshot: None }).unwrap_err().message,
        "subagent freeform write preview omitted its source snapshot"
    );
    assert_eq!(
        check_subagent_write("w", false).unwrap_err().message,
        "w was not run because its resulting source state would exceed the subagent context limit"
    );
    assert_eq!(
        after_subagent_write(failed).err().unwrap().message,
        "no such file"
    );
    let mut tokens = vec!["a".to_owned(), "b".to_owned()];
    assert_eq!(take_token(&Json::text("a"), &mut tokens).unwrap(), "a");
    assert_eq!(
        take_token(&Json::text("a"), &mut tokens).unwrap_err().message,
        "subagent freeform capture token is unknown"
    );
    assert_eq!(
        take_token(&Json::Null, &mut tokens).unwrap_err().message,
        "subagent freeform capture token is invalid"
    );
    assert_eq!(tokens, vec!["b"]);
}

#[test]
fn nodes_are_read_with_what_they_are_connected_to() {
    let node = StoredNode {
        id: "AAECAwQF".into(),
        short_name: "Node".into(),
        short_description: "short".into(),
        long_description: "long".into(),
        owner: Owner::SelfNode,
        fixed_connections: vec!["AAECAwQF".into(), "AAECAwQG".into()],
        recent_connections: vec![],
        objects: vec!["gAECAwQG".into()],
        last_author: "Kennedy".into(),
        committed_at: "2026-07-28T04:00:00+00:00".into(),
    };
    assert_eq!(fixed_to_load(&node.fixed_connections, "AAECAwQF"), vec!["AAECAwQG"]);
    assert_eq!(
        check_requested("AAECAwQG", "AAECAwQF").unwrap_err().message,
        "Kweb returned node AAECAwQG when AAECAwQF was requested"
    );
    let connection = Connection {
        id: "AAECAwQG".into(),
        short_name: "Other".into(),
        short_description: String::new(),
    };
    let held = node_from_kweb(node, vec![connection], vec![]);
    assert_eq!(held.owner, "AAECAwQF");
    let planned = planned_node(&held);
    assert_eq!(planned.fixed_connections, vec!["AAECAwQG"]);
    assert!(planned.attach_session_archive);
}

#[test]
fn libraries_are_named_and_sessions_too() {
    assert!(validate_session_id("conversation:first").is_ok());
    assert!(validate_session_id("").is_err());
    assert!(validate_session_id(&"a".repeat(128)).is_ok());
    assert!(validate_session_id(&"a".repeat(129)).is_err());
    let refused = validate_session_id("a b").unwrap_err();
    assert_eq!(refused.message, "The hidden Kennedy tool session ID is invalid.");
    assert_eq!((refused.status, refused.code.as_str()), (400, "invalid_arguments"));
    assert!(validate_library_name("example-lib_2").is_ok());
    assert!(validate_library_name("-example").is_err());
    assert!(validate_library_name("").is_err());
    assert!(validate_library_name("é").is_err());
    assert!(validate_library_name(&"a".repeat(255)).is_ok());
    assert!(validate_library_name(&"a".repeat(256)).is_err());
    for (name, tool) in [
        (CREATE_RUST_LIB_TOOL, RustLibTool::Create),
        (OPEN_RUST_LIB_TOOL, RustLibTool::Open),
        (DOCS_RUST_LIB_TOOL, RustLibTool::Docs),
        (WRITE_RUST_LIB_TOOL, RustLibTool::Write),
        (CHECK_RUST_LIB_TOOL, RustLibTool::Check),
        (PUBLISH_RUST_LIB_TOOL, RustLibTool::Publish),
    ] {
        assert_eq!(rust_lib_tool(name).unwrap(), tool);
    }
    assert_eq!(
        rust_lib_tool("x").unwrap_err().message,
        "Tool x is not a Rust library tool."
    );
}

#[test]
fn open_libraries_are_kept_while_they_are_used() {
    let mut registry = Registry::new();
    let first = HandleKey::new("conversation:first", "example-lib");
    let second = HandleKey::new("conversation:second", "example-lib");
    assert!(registry.check_create(&first).is_ok());
    assert_eq!(
        registry.begin_operation(&first, 0).unwrap_err().message,
        "Rust library \"example-lib\" is not open in this Kennedy session. Call kcode-rust-libs-v2/open first."
    );
    registry.insert(HandleKey::new("conversation:first", "example-lib"), 0);
    registry.insert(HandleKey::new("conversation:second", "example-lib"), 5);
    assert_eq!(
        registry.check_create(&first).unwrap_err().message,
        "Rust library \"example-lib\" is already open in this Kennedy session."
    );
    registry.begin_operation(&first, 1).unwrap();
    registry.remove_expired(SESSION_LEASE + 10);
    assert!(registry.contains(&first));
    assert!(!registry.contains(&second));

    let keys = registry.close_session("conversation:first");
    assert_eq!(keys, vec![HandleKey::new("conversation:first", "example-lib")]);
    assert!(registry.are_busy(&keys));
    assert_eq!(
        registry.begin_operation(&first, 2).unwrap_err().code,
        "rust_lib_session_ending"
    );
    registry.finish_operation(&first);
    assert!(!registry.are_busy(&keys));
    registry.remove(&keys);
    assert!(!registry.contains(&first));
    assert!(registry.close_session("conversation:first").is_empty());
}

#[test]
fn library_errors_do_not_tell_where_libraries_are_kept() {
    let stale = map_library_error("stale_snapshot: /srv/libs/a changed /srv/libs", "/srv/libs");
    assert_eq!((stale.status, stale.code.as_str()), (409, "rust_lib_stale_snapshot"));
    assert_eq!(
        stale.message,
        "stale_snapshot: <managed-rust-libraries>/a changed <managed-rust-libraries>"
    );
    for (text, status, code) in [
        ("invalid_name: x", 400, "invalid_arguments"),
        ("already_exists: x", 409, "rust_lib_exists"),
        ("not_found: x", 404, "rust_lib_not_found"),
        ("unsafe_source: x", 422, "rust_lib_invalid_repository"),
        ("migration: x", 503, "rust_lib_migration_failure"),
        ("invalid_token: secret", 503, "registry_token_unavailable"),
        ("check.fmt: x", 422, "rust_lib_check_failed"),
        ("publish: x", 503, "rust_lib_publish_failed"),
        ("sandbox.start: x", 503, "rust_lib_infrastructure_failure"),
        ("io: x", 503, "rust_lib_infrastructure_failure"),
        ("anything", 503, "rust_lib_infrastructure_failure"),
    ] {
        let error = map_library_error(text, "/srv/libs");
        assert_eq!((error.status, error.code.as_str()), (status, code), "{text}");
    }
    assert!(!map_library_error("invalid_token: secret", "/srv").message.contains("secret"));
    assert_eq!(registry_token("  token\n").unwrap(), "token");
    assert_eq!(
        registry_token(" ").unwrap_err().message,
        "the crates.io registry token is empty"
    );
}

#[test]
fn library_answers_show_names_and_files() {
    let files = vec![SourceFile { path: "src/lib.rs".into(), contents: "pub fn a() {}\n".into() }];
    assert_eq!(
        plain(&library_snapshot("demo", &files)),
        value(r#"{"name":"demo","files":[{"path":"src/lib.rs","contents":"pub fn a() {}\n"}]}"#)
    );
    assert_eq!(
        plain(&written("demo", &files)),
        value(r#"{"name":"demo","written":true,"file_count":1,"paths":["src/lib.rs"]}"#)
    );
    assert_eq!(
        plain(&documented("demo", "0.1.0", "docs")),
        value(r#"{"name":"demo","version":"0.1.0","documentation":"docs"}"#)
    );
    assert_eq!(plain(&check_passed("demo")), value(r#"{"name":"demo","passed":true}"#));
    assert_eq!(plain(&published("demo")), value(r#"{"name":"demo","published":true}"#));
}
