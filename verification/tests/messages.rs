use kennedy_orchestration::clock::{parse_time, FIRST_SECOND, LAST_SECOND};
use kennedy_orchestration::commands::{
    command_event, is_adopted, settle_command, stopped_by_user, turn_stop,
};
use kennedy_orchestration::delivery::ResolvedObject;
use kennedy_orchestration::errors::{
    is_agent_loop_round_limit, is_cancelled, is_state_conflict, ErrorReport, Origin,
};
use kennedy_orchestration::group_context::{
    acknowledged_message, batch_context, batch_setup, batch_step, context_chat,
    decorate_group_context, describe_message, file_names, message_needs, note_document,
    prepare_document, update_step, BatchStep, DirectoryEntry, FileFacts, Preparation, UpdateStep,
};
use kennedy_orchestration::groups::{
    format_telegram_group_message, format_telegram_participant, group_update,
};
use kennedy_orchestration::ids::Readings;
use kennedy_orchestration::json::Json;
use kennedy_orchestration::json_text::compact;
use kennedy_orchestration::launch::{
    completed_batch, event_user_id, ingress_claim, ingress_setup, record_ingress_failure,
    record_setup, self_time_intent, self_time_setup, self_time_span, slice_end_reason, start_self_time,
    wakeup_setup, SliceEnd,
};
use kennedy_orchestration::media::{
    file_extension_for_mime_type, file_name_extension, normalized_file_mime_type,
};
use kennedy_orchestration::records::{
    interrupted_event, participant_references, record_group_id, record_user_id, required_string,
    string_array, value_string, SessionRecord,
};
use kennedy_orchestration::replies::{
    collect_deliveries, name_delivery, send_object, send_text, TelegramDelivery,
};
use kennedy_orchestration::scheduling::ingress_precedes;
use kennedy_orchestration::session::AgentMode;
use kennedy_orchestration::telegram::{
    input_need, is_detached, is_group_event, needs_binding, private_user,
    queued_state, reset_answer, telegram_input, telegram_setup, unreadable_document, DocumentText,
    EventFile, GroupPart, InputNeed,
};

fn convert(value: serde_json::Value) -> Json {
    match value {
        serde_json::Value::Null => Json::Null,
        serde_json::Value::Bool(flag) => Json::Bool(flag),
        serde_json::Value::Number(number) => match number.as_i64() {
            Some(n) => Json::Integer(n as i128),
            None => Json::Real(number.to_string()),
        },
        serde_json::Value::String(text) => Json::Text(text),
        serde_json::Value::Array(items) => Json::Array(items.into_iter().map(convert).collect()),
        serde_json::Value::Object(members) => {
            Json::Object(members.into_iter().map(|(key, value)| (key, convert(value))).collect())
        }
    }
}

fn json(text: &str) -> Json {
    convert(serde_json::from_str(text).unwrap())
}

fn assert_same(actual: &Json, expected: &str) {
    assert!(actual.same(&json(expected)), "{actual:?} is not {expected}");
}

fn texts(items: &[&str]) -> Vec<String> {
    items.iter().map(|item| item.to_string()).collect()
}

fn record(id: &str, phase: &str, updated_at: &str, state: &str) -> SessionRecord {
    SessionRecord {
        id: id.into(),
        phase: phase.into(),
        started_at: "2026-07-30T00:00:00Z".into(),
        updated_at: updated_at.into(),
        state: json(state),
        version: 1,
        ingress_next_attempt_at: None,
    }
}

fn file(name: &str, bytes: usize) -> ResolvedObject {
    ResolvedObject {
        object_id: "o".into(),
        bytes: vec![1; bytes],
        file_name: name.into(),
        media_type: "image/png".into(),
        transport_kind: None,
    }
}

// ---- events ----

#[test]
fn plain_events_carry_their_text() {
    let event = json(r#"{"id":"e","text":"hello"}"#);
    assert_eq!(input_need(&event), InputNeed::Text);
    let (text, metadata) = telegram_input(&event, None, None).unwrap();
    assert_eq!(text, "hello");
    assert_same(&metadata, r#"{"externalEventId":"e","inputKind":"text"}"#);
    assert_eq!(
        telegram_input(&json("{}"), None, None).unwrap_err().message,
        "backend response omitted id"
    );
}

#[test]
fn voice_events_carry_their_recording() {
    let event = json(r#"{"id":"e","kind":"voice","durationSeconds":3}"#);
    assert_eq!(input_need(&event), InputNeed::File);
    let voice = EventFile { mime: "audio/ogg".into(), bytes: b"hi".to_vec() };
    let (text, metadata) = telegram_input(&event, Some(&voice), None).unwrap();
    assert_eq!(text, "");
    assert_same(
        &metadata,
        r#"{"externalEventId":"e","inputKind":"voice","media":{"id":"telegram:e","kind":"voice","source":"telegram","mimeType":"audio/ogg","fileName":"telegram-voice.ogg","dataUrl":"data:audio/ogg;base64,aGk=","sizeBytes":2,"durationSeconds":3}}"#,
    );
}

#[test]
fn documents_carry_what_was_read_out_of_them_or_why_not() {
    let event = json(r#"{"id":"e","kind":"document","fileName":"a.txt","mimeType":"text/html"}"#);
    assert_eq!(input_need(&event), InputNeed::Document);
    let document = EventFile { mime: "text/plain".into(), bytes: b"hi".to_vec() };
    let read = DocumentText::Read {
        format: "text".into(),
        text: "hi".into(),
        characters: 2,
        truncated: false,
    };
    let (_, metadata) = telegram_input(&event, Some(&document), Some(&read)).unwrap();
    assert_same(
        &metadata,
        r#"{"externalEventId":"e","inputKind":"document","attachments":[{"id":"telegram:e","kind":"document","source":"telegram","fileName":"a.txt","mimeType":"text/plain","sizeBytes":2,"dataUrl":"data:text/plain;base64,aGk=","format":"text","text":"hi","characters":2,"truncated":false}]}"#,
    );
    let failed = DocumentText::Failed { message: "broken".into() };
    let (_, metadata) = telegram_input(&event, Some(&document), Some(&failed)).unwrap();
    let attachment = &metadata.array_at("attachments").unwrap()[0];
    assert_eq!(attachment.text_at("extractionError"), Some("broken"));
    assert_eq!(
        unreadable_document(&event, "gone.").unwrap(),
        "I couldn't read a.txt: gone. Please try sending it again."
    );
    assert!(unreadable_document(&json(r#"{"kind":"photo"}"#), "gone.").is_none());
}

#[test]
fn pictures_get_a_name_of_their_kind() {
    let event = json(r#"{"id":"e","kind":"photo","mimeType":" ","text":"look"}"#);
    let photo = EventFile { mime: "image/jpeg".into(), bytes: vec![1] };
    let (text, metadata) = telegram_input(&event, Some(&photo), None).unwrap();
    assert_eq!(text, "look");
    assert_same(
        &metadata,
        r#"{"externalEventId":"e","inputKind":"photo","attachments":[{"id":"telegram:e","kind":"photo","source":"telegram","fileName":"telegram-photo.jpg","mimeType":"image/jpeg","sizeBytes":1,"dataUrl":"data:image/jpeg;base64,AQ=="}]}"#,
    );
    let event = json(r#"{"id":"e","kind":"photo","mimeType":"image/png","fileName":"x.png"}"#);
    let (_, metadata) = telegram_input(&event, Some(&photo), None).unwrap();
    let attachment = &metadata.array_at("attachments").unwrap()[0];
    assert_eq!(attachment.text_at("mimeType"), Some("image/png"));
    assert_eq!(attachment.text_at("dataUrl"), Some("data:image/png;base64,AQ=="));
}

#[test]
fn events_belong_to_users_and_groups() {
    let group = json(r#"{"sessionKind":"group","groupId":"g"}"#);
    let private = json(r#"{"telegramUserId":42,"conversationId":"c","processingStartedAt":"t"}"#);
    assert!(is_group_event(&group) && !is_group_event(&private));
    assert_eq!(private_user(&group).unwrap(), None);
    assert_eq!(private_user(&private).unwrap(), Some(42));
    assert_eq!(
        private_user(&json("{}")).unwrap_err().message,
        "private Telegram event is missing its numeric user identity"
    );
    assert!(!needs_binding(&private, "c") && needs_binding(&private, "d"));
    assert_eq!(event_user_id(&private).unwrap(), 42);
    assert_eq!(event_user_id(&json(r#"{"telegramUserId":"7"}"#)).unwrap(), 7);
    assert_eq!(
        event_user_id(&json("{}")).unwrap_err().message,
        "Telegram event omitted user ID"
    );
    assert_eq!(
        event_user_id(&json(r#"{"telegramUserId":"x"}"#)).unwrap_err().message,
        "Telegram event has an invalid user ID"
    );
}

#[test]
fn telegram_sessions_are_set_up_for_their_event() {
    let event = json(
        r#"{"sessionKind":"group","telegramUserId":42,"groupId":"g","chatId":-5,"displayName":"Ann"}"#,
    );
    let group = GroupPart {
        root: "G".into(),
        context: Some(json(r#"{"participants":[{"rootNodeId":"P"},{"rootNodeId":"U"}]}"#)),
    };
    let options = telegram_setup(&event, "U", Some(&group), "K", 9);
    assert_eq!(options.session_type, "telegram-group");
    assert_eq!(options.root_node_ids, texts(&["U", "G", "K"]));
    assert_eq!(options.reference_root_node_ids, texts(&["P"]));
    assert_eq!(options.channel.text_at("groupRootNodeId"), Some("G"));
    assert_eq!(options.channel.u64_at("maxObjectBytes"), Some(9));
    let private = telegram_setup(&json(r#"{"telegramUserId":42}"#), "U", None, "K", 9);
    assert_eq!(private.session_type, "telegram");
    assert_same(
        &private.channel,
        r#"{"kind":"telegram","telegramUserId":42,"chatId":null,"groupId":null,"username":null,"displayName":null,"maxObjectBytes":9}"#,
    );
}

#[test]
fn sessions_that_are_over_are_queued_and_resets_are_answered() {
    assert_same(
        &queued_state(&json(r#"{"a":1}"#), "telegram-timeout"),
        r#"{"a":1,"orchestration":{"owner":"backend","status":"stopped","reason":"telegram-timeout"}}"#,
    );
    let held = record("s", "active", "t", r#"{"sessionType":"telegram"}"#);
    assert!(is_detached(&held, &Vec::new()));
    assert!(!is_detached(&held, &texts(&["s"])));
    let nothing =
        "There is no active Telegram session to reset. Your next message will begin one.";
    assert_eq!(reset_answer(None), (nothing, false));
    assert_eq!(reset_answer(Some("complete")), (nothing, false));
    assert!(reset_answer(Some("active")).1);
}

// ---- replies ----

#[test]
fn replies_are_delivered_in_order_with_the_last_text_as_a_caption() {
    let responses = vec![
        json(r#"{"role":"kennedy","content":"","objects":["o"],"attachments":[{"objectId":"o","fileName":"a.png"}]}"#),
        json(r#"{"role":"kennedy","content":"here"}"#),
    ];
    let deliveries = collect_deliveries(&responses).unwrap();
    assert_eq!(deliveries.len(), 2);
    let send = send_object(&deliveries, 0, &file("a.png", 2));
    assert_eq!((send.caption.as_deref(), send.complete, send.next), (Some("here"), true, 2));
    assert_eq!(send_text(&deliveries, 1), ("here", None, 2));
    assert!(matches!(
        &deliveries[0],
        TelegramDelivery::Object { object_id, file_name: Some(name) }
            if object_id == "o" && name == "a.png"
    ));
    assert_eq!(
        collect_deliveries(&Vec::new()).unwrap_err().message,
        "Kennedy completed the turn without a recoverable Telegram response"
    );
    let mut read = Readings::new();
    read.file_names.push(("b.png".into(), "b.png".into()));
    read.file_names.push(("x/c.png".into(), "c.png".into()));
    assert!(name_delivery("o", &Some("x/c.png".into()), file("a.png", 2), 2, &read).is_err());
    let named = name_delivery("o", &Some("b.png".into()), file("a.png", 2), 2, &read).unwrap();
    assert_eq!(named.file_name, "b.png");
    assert_eq!(
        name_delivery("o", &None, file("a.png", 3), 2, &read).unwrap_err().message,
        "object o is 3 bytes, over the configured 2-byte Telegram media limit"
    );
}

// ---- groups ----

#[test]
fn group_messages_are_read_and_described() {
    let message = json(
        r#"{"messageId":7,"kind":"document","hasMedia":true,"text":"see","fileName":"a.pdf","mimeType":"application/pdf"}"#,
    );
    let needs = message_needs(&message, None).unwrap();
    assert_eq!((needs.number, needs.extract, needs.describe, needs.has_media), (7, true, true, true));
    let excluded = message_needs(&message, Some("7")).unwrap();
    assert!(!excluded.extract && !excluded.describe);
    assert_eq!(
        message_needs(&json("{}"), None).unwrap_err().message,
        "Telegram group context message omitted its numeric message ID"
    );
    let failed = prepare_document(Preparation::Failed { message: "no".into() });
    assert_eq!(failed.text, "Document extraction failed: no");
    assert_eq!(failed.model.as_deref(), Some("preparation-error"));
    let read = prepare_document(Preparation::Read {
        text: "body".into(),
        format: "pdf".into(),
        truncated: true,
    });
    let noted = note_document(message, &read);
    assert_eq!(noted.text_at("preparedText"), Some("body"));
    assert_eq!(noted.bool_at("preparationTruncated"), Some(true));
    let (supplied, fallback, mime) = file_names(&noted, "text/plain");
    assert_eq!(supplied.as_deref(), Some("a.pdf"));
    assert_eq!(fallback, "telegram-group-document-7.pdf");
    assert_eq!(mime, "application/pdf");
    let facts =
        FileFacts { size: 4, mime_type: mime, file_name: "a.pdf".into(), named: true };
    let told = describe_message(noted, &json("-5"), Some(facts));
    assert_eq!(
        told.text_at("text"),
        Some("see\n\nUser-provided file\nOriginal filename: a.pdf\nExtension: .pdf\nMIME type: application/pdf\nSize: 4 bytes\n\nbody")
    );
    assert_same(
        told.get("mediaRef").unwrap(),
        r#"{"kind":"document","source":"telegram-group","chatId":-5,"messageId":7,"fileName":"a.pdf","fileNameSource":"transport","mimeType":"application/pdf","sizeBytes":4,"durationSeconds":null}"#,
    );
    let lost = describe_message(json(r#"{"messageId":8,"kind":"photo"}"#), &json("-5"), None);
    assert_eq!(lost.text_at("text"), Some("\n\n[The Telegram photo file is unavailable.]"));
}

#[test]
fn group_contexts_name_their_roots() {
    let context = json(r#"{"chatId":-5,"participants":[{"telegramUserId":1}]}"#);
    assert_eq!(context_chat(&context).unwrap(), -5);
    assert_eq!(
        context_chat(&json("{}")).unwrap_err().message,
        "Telegram group context omitted its numeric chat ID"
    );
    let group = DirectoryEntry { root: Some("G".into()), ready: true };
    let participants = vec![json(r#"{"telegramUserId":1}"#)];
    let entries = vec![DirectoryEntry { root: None, ready: false }];
    let decorated = decorate_group_context(
        context,
        vec![json(r#"{"messageId":1}"#)],
        "g",
        &group,
        &participants,
        &entries,
    );
    assert_same(
        &decorated,
        r#"{"chatId":-5,"groupId":"g","groupRootNodeId":"G","groupRootReady":true,"messages":[{"messageId":1}],"participants":[{"telegramUserId":1,"rootNodeId":null,"rootReady":false}]}"#,
    );
    let roots = texts(&["G"]);
    let context = json(
        r#"{"participants":[{"rootNodeId":"b"},{"rootNodeId":"G"},{"rootNodeId":"a"},{"rootNodeId":"b"}]}"#,
    );
    assert_eq!(participant_references(&context, &roots), texts(&["a", "b"]));
}

#[test]
fn group_contexts_are_told_in_words() {
    assert_eq!(
        format_telegram_participant(&json(r#"{"displayName":"Ann","username":"ann"}"#)),
        "Ann (@ann)"
    );
    assert_eq!(format_telegram_participant(&json("{}")), "an unidentified participant");
    let told = group_update(
        "telegram-group",
        &json(r#"{"groupTitle":"Friends","participants":[{"username":"ann"}],"messages":[]}"#),
    )
    .unwrap();
    assert_eq!(
        told,
        "The following retained conversation context comes from Friends.\n\nThe known participants are @ann.\n\nThere are no retained group messages in this context."
    );
    assert!(group_update("telegram", &json("{}")).is_none());
    assert!(format_telegram_group_message(&json(r#"{"text":"hello there"}"#)).contains("hello there"));
}

#[test]
fn batches_and_updates_are_taken_in_once() {
    assert_eq!(batch_step("complete"), BatchStep::Complete);
    assert_eq!(batch_step("active"), BatchStep::Queue);
    assert_eq!(batch_step("ingress_pending"), BatchStep::Wait);
    let reset = json(r#"{"resetRequired":true,"throughMessageId":9}"#);
    assert_eq!(update_step("complete", false, &reset), UpdateStep::Closed { reset: true });
    assert_eq!(update_step("active", true, &reset), UpdateStep::Wait);
    assert_eq!(update_step("active", false, &json("{}")), UpdateStep::TakeIn { reset: false });
    assert_eq!(acknowledged_message(&reset), 9);
    assert_eq!(acknowledged_message(&json("{}")), 0);
    assert_same(
        &batch_context(&json(r#"{"chatId":-5}"#)),
        r#"{"groupTitle":"Telegram group","chatId":-5,"participants":[],"messages":[]}"#,
    );
    let options =
        batch_setup(&json(r#"{"chatId":-5}"#), "b", "g", "G", "K", &json(r#"{"messages":[]}"#));
    assert_eq!(options.root_node_ids, texts(&["G", "K"]));
    assert_eq!(options.source_session_type.as_deref(), Some("telegram-group"));
    assert_same(
        &options.channel,
        r#"{"kind":"telegram-group","chatId":-5,"groupId":"g","groupRootNodeId":"G","groupIngressBatchId":"b","backgroundIngress":true,"groupContext":{"messages":[]}}"#,
    );
    let state = Json::object().with("channel", options.channel);
    assert_eq!(completed_batch(&state), Some("b"));
}

// ---- launches ----

#[test]
fn recorded_sessions_are_set_up_again() {
    let (state, options) = record_setup(
        &json(r#"{"sessionType":"telegram","rootNodeIds":["r"],"provenanceId":"p"}"#),
        9,
        "U",
        "K",
    );
    assert_eq!(state.get("channel").unwrap().u64_at("maxObjectBytes"), Some(9));
    assert_eq!(options.root_node_ids, texts(&["r"]));
    assert_eq!(options.provenance_id.as_deref(), Some("p"));
    assert_eq!(options.mode, AgentMode::Conversation);
    let (_, options) = record_setup(&json(r#"{"sessionType":"wakeup"}"#), 9, "U", "K");
    assert_eq!(options.root_node_ids, texts(&["U", "K"]));
    assert_eq!(options.mode, AgentMode::Wakeup);
    let options = ingress_setup("s", &json(r#"{"sessionType":"audio"}"#), "U", "K");
    assert_eq!(options.session_type, "history-ingress");
    assert_eq!(options.source_session_type.as_deref(), Some("audio"));
    assert_eq!(options.rust_lib_session_id.as_deref(), Some("kennedy:history-ingress:s"));
    assert_eq!(options.mode, AgentMode::Ingress { record_id: Some("s".into()) });
    assert_eq!(ingress_claim("s", &json(r#"{"sessionId":"s"}"#)).unwrap(), "session:s");
    assert_eq!(
        ingress_claim("s", &json("{}")).unwrap_err().message,
        "The queued session has no Session History ID"
    );
    let error = ErrorReport::new("broken", Origin::Other);
    let failure = record_ingress_failure("ingress_pending", "claim", &error).unwrap();
    assert_eq!(
        (failure.stage.as_str(), failure.code.as_str(), failure.message.as_str()),
        ("claim", "ingress_error", "broken")
    );
    assert!(record_ingress_failure("complete", "claim", &error).is_none());
    let options = wakeup_setup("U", "K", 42, None, "ann", &Json::Null, "m");
    assert_eq!(options.channel.text_at("username"), Some("ann"));
    assert_eq!(options.channel.text_at("wakeupMarker"), Some("m"));
}

#[test]
fn self_time_starts_from_its_intent_and_ends_for_a_reason() {
    let state = json(r#"{"selfTimeIntent":{"durationMinutes":30,"customPrompt":"Rest"}}"#);
    let intent = self_time_intent(&state, "2026-07-30T00:00:00Z").unwrap().unwrap();
    assert_eq!(intent.requested_at, "2026-07-30T00:00:00Z");
    let started = start_self_time(&state, "s", &intent, "30.0", "a", "b");
    assert_same(
        started.get("freeTime").unwrap(),
        r#"{"runId":"s","runStartedAt":"a","deadlineAt":"b","durationMinutes":30.0,"customPrompt":"Rest","sliceIndex":1}"#,
    );
    assert!(self_time_intent(&started, "t").unwrap().is_none());
    assert_eq!(
        self_time_intent(&json("{}"), "t").unwrap_err().message,
        "backend self-time record is missing its durable start intent"
    );
    assert_eq!(
        self_time_intent(&json(r#"{"selfTimeIntent":{}}"#), "t").unwrap_err().message,
        "self-time duration is missing"
    );
    let options = self_time_setup("U", "K", Json::Null, None);
    assert_eq!(options.session_type, "free-time");
    assert_eq!(options.mode, AgentMode::FreeTime);
    let free = json("{}");
    assert_eq!(slice_end_reason(SliceEnd::Stopped, &free, false, false), "user-stop");
    assert_eq!(slice_end_reason(SliceEnd::TimedOut, &free, false, false), "hard-stop");
    assert_eq!(slice_end_reason(SliceEnd::TimedOut, &free, false, true), "user-stop");
    assert_eq!(slice_end_reason(SliceEnd::Finished, &free, true, false), "deadline");
    assert_eq!(slice_end_reason(SliceEnd::Finished, &free, false, false), "tool");
}

#[test]
fn self_time_runs_end_their_length_after_they_were_requested() {
    let span = |requested, milliseconds| self_time_span(requested, milliseconds);
    assert_eq!(
        span("2026-07-30T01:00:00+02:00", 1_800_000).unwrap(),
        ("2026-07-29T23:00:00+00:00".to_owned(), "2026-07-29T23:30:00+00:00".to_owned())
    );
    assert_eq!(
        span("2026-07-30T00:00:00.25Z", -1).unwrap(),
        ("2026-07-30T00:00:00.250+00:00".to_owned(), "2026-07-30T00:00:00.249+00:00".to_owned())
    );
    assert_eq!(
        span("2016-12-31T23:59:60.5Z", 250).unwrap().1,
        "2016-12-31T23:59:60.750+00:00"
    );
    assert_eq!(span("2016-12-31T23:59:60.5Z", 500).unwrap().1, "2017-01-01T00:00:00+00:00");
    assert_eq!(span("2016-12-31T23:59:60.5Z", -1_000).unwrap().1, "2016-12-31T23:59:59.500+00:00");
    assert!(span("tomorrow", 0).is_none());
    assert!(span("2026-07-30T00:00:00Z", i64::MAX).is_none());
    assert!(span("2026-07-30T00:00:00Z", i64::MIN).is_none());
    let start = parse_time("2026-07-30T00:00:00Z").unwrap();
    let last = (LAST_SECOND - start.seconds) * 1_000;
    assert_eq!(
        span("2026-07-30T00:00:00Z", last + 999).unwrap().1,
        "+262142-12-31T23:59:59.999+00:00"
    );
    assert!(span("2026-07-30T00:00:00Z", last + 1_000).is_none());
    let first = (FIRST_SECOND - start.seconds) * 1_000;
    assert_eq!(span("2026-07-30T00:00:00Z", first).unwrap().1, "-262143-01-01T00:00:00+00:00");
    assert!(span("2026-07-30T00:00:00Z", first - 1).is_none());
}

#[test]
fn values_are_named_by_their_text_or_their_compact_json() {
    assert_eq!(value_string(&json("null")), "null");
    assert_eq!(value_string(&json("-7")), "-7");
    assert_eq!(value_string(&json("1.5")), "1.5");
    assert_eq!(value_string(&json("[]")), "[]");
    assert_eq!(value_string(&json(r#"[1, "a\"b", [true]]"#)), r#"[1,"a\"b",[true]]"#);
    assert_eq!(value_string(&json("{}")), "{}");
    let pairs = Json::Object(vec![
        ("b".into(), Json::text("old")),
        ("a".into(), Json::Null),
        ("b".into(), Json::object().with("z", Json::unsigned(1))),
    ]);
    assert_eq!(value_string(&pairs), r#"{"a":null,"b":{"z":1}}"#);
    assert_eq!(event_user_id(&json(r#"{"telegramUserId":[42]}"#)).unwrap_err().message,
        "Telegram event has an invalid user ID");
}

#[test]
fn compact_json_agrees_with_the_json_library() {
    for text in [
        r#"{"zeta":[1,2.5,-3],"Alpha":{"é":"ü","e":"\u0001\u001f\u007f"},"":null}"#,
        r#"["\"","\\","\b\f\n\r\t","/\u2028","𝄞",true,false]"#,
        r#"[[],{},[[{"a":[]}]]]"#,
    ] {
        let value: serde_json::Value = serde_json::from_str(text).unwrap();
        assert_eq!(compact(&json(text)), value.to_string());
    }
    for c in 0u32..300 {
        let text: String = char::from_u32(c).unwrap().to_string();
        assert_eq!(compact(&Json::text(&text)), serde_json::Value::from(text.as_str()).to_string());
    }
}

// ---- commands and records ----

#[test]
fn commands_are_settled_with_their_outcome() {
    assert_eq!(command_event("c"), "web:c");
    assert_same(&settle_command("message", true).unwrap(), r#"{"status":"answered"}"#);
    assert_eq!(
        settle_command("message", false).unwrap_err().message,
        "Kennedy completed the web turn without a recoverable response"
    );
    assert_same(&settle_command("retry", false).unwrap(), r#"{"status":"retried"}"#);
    assert_same(&settle_command("send-and-end", false).unwrap(), r#"{"status":"closed"}"#);
    assert_same(&turn_stop("stopped"), r#"{"status":"stopped","scope":"turn"}"#);
    assert_same(&stopped_by_user(), r#"{"status":"stopped","reason":"user_stopped"}"#);
    assert!(is_adopted(&json(r#"{"owner":"backend"}"#)));
    assert!(!is_adopted(&json("{}")));
}

#[test]
fn failures_are_told_apart_by_their_origin() {
    let service = |code: &str| ErrorReport::new("x", Origin::Service { code: code.into() });
    assert!(is_cancelled(&service("operation_cancelled")));
    assert!(!is_cancelled(&service("not_found")));
    assert!(is_state_conflict(&service("state_conflict")));
    assert!(is_agent_loop_round_limit(&ErrorReport::new("x", Origin::RoundLimit)));
    assert!(!is_agent_loop_round_limit(&service("x").context("y")));
}

#[test]
fn records_name_their_groups_and_users() {
    let held = record(
        "s",
        "active",
        "t",
        r#"{"channel":{"groupContext":{"groupId":"g"},"telegramUserId":42}}"#,
    );
    assert_eq!(record_group_id(&held), Some("g"));
    assert_eq!(record_user_id(&held), "42");
    assert_eq!(value_string(&json(r#""x""#)), "x");
    assert_eq!(value_string(&json("true")), "true");
    assert_eq!(interrupted_event("telegram", Some("e")), Some("e"));
    assert_eq!(interrupted_event("conversation", Some("e")), None);
    assert_eq!(string_array(&json(r#"{"a":["x",1,"y"]}"#), "a"), texts(&["x", "y"]));
    assert_eq!(
        required_string(&json(r#"{"a":""}"#), "a").unwrap_err().message,
        "backend response omitted a"
    );
    let early = record("b", "ingress_pending", "2026-07-30T01:00:00Z", "{}");
    let late = record("a", "ingress_pending", "2026-07-30T02:00:00Z", "{}");
    let begun = record("c", "ingress_in_progress", "2026-07-30T03:00:00Z", "{}");
    assert!(ingress_precedes(&early, &late) && !ingress_precedes(&late, &early));
    assert!(ingress_precedes(&begun, &early));
}

#[test]
fn file_types_give_extensions() {
    assert_eq!(normalized_file_mime_type(" Image/PNG ; q=1"), "image/png");
    assert_eq!(normalized_file_mime_type("nonsense"), "application/octet-stream");
    assert_eq!(file_extension_for_mime_type("audio/opus"), "ogg");
    assert_eq!(file_extension_for_mime_type("text/plain"), "bin");
    assert_eq!(file_name_extension("a.tar.gz"), ".gz");
    assert_eq!(file_name_extension(".hidden"), "(none)");
    assert_eq!(file_name_extension("name."), "(none)");
}
