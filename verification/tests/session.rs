use kennedy_orchestration::agent_loop::{
    end_turn, force_commit_note, invalid_call, overflow_end, overflow_step, with_context_warning,
    AgentLoop, Completion, ContextMeasure, ContextRecovery, Halts, OverflowEnd, OverflowStep,
    RoundEnd, RoundStart, ToolReport, TurnEnd, AGENT_LOOP_ROUND_LIMIT, CONTEXT_OVERFLOW_WARNING,
};
use kennedy_orchestration::arguments::{
    bounded_nonempty_string, box_id_array, canonical_node_id_array, canonical_node_id_list,
    native_ktool_call, node_text_arguments, optional_object_id_array, rust_binary_object_ids,
    validate_arguments, web_library_object_id, ToolCall, MAX_NODE_LONG_DESCRIPTION_CHARACTERS,
    MAX_NODE_SHORT_DESCRIPTION_CHARACTERS,
};
use kennedy_orchestration::box_texts::{stage_box_text_objects, TextObject};
use kennedy_orchestration::clock::{parse_time, wakeup_opening};
use kennedy_orchestration::delivery::{
    optional_delivery_file_name, resolved_object_delivery, telegram_attachments,
    telegram_caption_attachment, telegram_group_root, validate_delivery_file_name,
    ObjectDeliveryRequest, ResolvedObject, ResolvedObjectDelivery,
};
use kennedy_orchestration::groups::format_telegram_group_context;
use kennedy_orchestration::ids::{parse_resource_id, Readings};
use kennedy_orchestration::input::{
    append_user_file_metadata, canonicalize_staged_file_descriptor,
    message_metadata_without_attachment_payloads, staged_fallback_name, StagedFile,
};
use kennedy_orchestration::json::Json;
use kennedy_orchestration::media::{
    image_extension, ingress_object_filename, render_user_file_metadata,
    validate_annotation_media, validate_extractable_document, validate_image_model,
    validate_transcribable_audio, validate_transcription_model,
};
use kennedy_orchestration::objects::{
    authoritative_object_filename, box_text_object, existing_box_text_object,
    object_place, render_staged_telegram_group_media, resolve_staged, resolve_stored,
    select_boxes, staged_object_transport_kind, staged_telegram_group_media,
    telegram_group_media_filename, telegram_group_media_reference, ObjectPlace, StagedObject,
    BOX_TEXT_MEDIA_TYPE, BOX_TEXT_OBJECT_SOURCE,
};
use kennedy_orchestration::plan::{KwebPlan, NodeTable, PlannedNode, StagedNodeCreate};
use kennedy_orchestration::registry::WRITE_RUST_LIB_TOOL;
use kennedy_orchestration::render::{
    append_duration, append_slow_tool_duration, cost_summary, provider_tool_result_with_context_footer,
    render_audio_transcription_result, render_document_extraction_result,
    render_media_annotation_result, render_web_fetch_result, render_web_search_result, Annotation,
    Elapsed, Extraction, WebPage, WebSource,
};
use kennedy_orchestration::session::{
    controller_message, restore_commit_receipt, restore_session_type, AgentMode, SessionOptions,
};
use kennedy_orchestration::snapshot::{render_load_nodes_result, ContextItem};
use kennedy_orchestration::subagents::{
    canonical_box_versions, changed_subagent_tool_states, hidden_boxes, tool_call_box_content,
};
use kennedy_orchestration::text::Failure;
use kennedy_orchestration::tools::{CALL_KTOOL_DESCRIPTION, SUBAGENT_CONTEXT_NODE_LIMIT};
use kennedy_orchestration::transcript::{
    is_terminal_external_response, restore_pending_turn, transcript_from_journal, BoxContent,
    BoxOwner, BoxState,
};

fn convert(value: serde_json::Value) -> Json {
    match value {
        serde_json::Value::Null => Json::Null,
        serde_json::Value::Bool(flag) => Json::Bool(flag),
        serde_json::Value::Number(number) => match (number.as_i64(), number.as_u64()) {
            (Some(n), _) => Json::Integer(n as i128),
            (_, Some(n)) => Json::Integer(n as i128),
            _ => Json::Real(number.to_string()),
        },
        serde_json::Value::String(text) => Json::Text(text),
        serde_json::Value::Array(items) => Json::Array(items.into_iter().map(convert).collect()),
        serde_json::Value::Object(members) => {
            Json::Object(members.into_iter().map(|(key, value)| (key, convert(value))).collect())
        }
    }
}

fn json(text: &str) -> Json {
    convert(serde_json::from_str(text).unwrap())
}

fn value(text: &str) -> serde_json::Value {
    serde_json::from_str(text).unwrap()
}

fn plain(json: &Json) -> serde_json::Value {
    match json {
        Json::Null => serde_json::Value::Null,
        Json::Bool(flag) => serde_json::Value::Bool(*flag),
        Json::Integer(number) => match (i64::try_from(*number), u64::try_from(*number)) {
            (Ok(n), _) => serde_json::Value::from(n),
            (_, Ok(n)) => serde_json::Value::from(n),
            _ => unreachable!(),
        },
        Json::Real(text) => serde_json::from_str(text).unwrap(),
        Json::Text(text) => serde_json::Value::String(text.clone()),
        Json::Array(items) => serde_json::Value::Array(items.iter().map(plain).collect()),
        Json::Object(members) => serde_json::Value::Object(
            members.iter().map(|(key, value)| (key.clone(), plain(value))).collect(),
        ),
    }
}

#[test]
fn wakeup_opening_uses_the_acquired_marker_verbatim() {
    let marker = parse_time("2026-07-28T04:00:00Z").unwrap();
    assert_eq!(
        wakeup_opening(&marker),
        "The time is 04:00 UTC on 2026-07-28. Determine whether you have any messages you would like to send the user"
    );
}

#[test]
fn journaled_answer_clears_stale_restored_external_turn() {
    let restored = json(r#"{"pendingTurn":true,"pendingExternalEventId":"answered-event"}"#);
    let transcript = vec![
        json(r#"{"role":"user","content":"question","externalEventId":"answered-event"}"#),
        json(r#"{"role":"kennedy","content":"answer","externalEventId":"answered-event"}"#),
    ];
    assert_eq!(restore_pending_turn(Some(&restored), &transcript), (false, None));
}

#[test]
fn journal_unanswered_external_turn_overrides_stale_restored_event() {
    let restored = json(r#"{"pendingTurn":true,"pendingExternalEventId":"answered-event"}"#);
    let transcript = vec![
        json(r#"{"role":"user","content":"old","externalEventId":"answered-event"}"#),
        json(r#"{"role":"kennedy","content":"answer","externalEventId":"answered-event"}"#),
        json(r#"{"role":"user","content":"new","externalEventId":"unanswered-event"}"#),
    ];
    assert_eq!(
        restore_pending_turn(Some(&restored), &transcript),
        (true, Some("unanswered-event".into()))
    );
}

#[test]
fn journaled_legacy_stop_closes_the_preceding_external_turn() {
    let restored = json(r#"{"pendingTurn":true,"pendingExternalEventId":"stopped-event"}"#);
    let transcript = vec![
        json(r#"{"role":"user","content":"question","externalEventId":"stopped-event"}"#),
        json(
            r#"{"role":"system","content":"The user stopped this agent turn.","userStopped":true}"#,
        ),
    ];
    assert_eq!(restore_pending_turn(Some(&restored), &transcript), (false, None));
}

fn content(text: &str, objects: &[&str], metadata: Json) -> BoxContent {
    BoxContent {
        text: text.into(),
        objects: objects.iter().map(|id| (*id).to_owned()).collect(),
        metadata,
    }
}

fn state(id: u64, name: &str, owner: BoxOwner, content: BoxContent) -> BoxState {
    BoxState { id, name: name.into(), owner, event_id: id, active: true, dehydrated: false, content }
}

#[test]
fn user_stopped_marker_survives_journal_transcript_recovery() {
    let boxes = vec![
        state(
            1,
            "User message",
            BoxOwner::User,
            content("question", &[], json(r#"{"externalEventId":"stopped-event"}"#)),
        ),
        state(
            2,
            "Turn stopped",
            BoxOwner::Controller,
            content(
                "The user stopped this agent turn.",
                &[],
                json(r#"{"transcriptRole":"system","userStopped":true}"#),
            ),
        ),
    ];
    let transcript = transcript_from_journal(&boxes);
    assert_eq!(transcript[1].get("userStopped"), Some(&Json::Bool(true)));
    assert_eq!(
        restore_pending_turn(
            Some(&json(r#"{"pendingTurn":true,"pendingExternalEventId":"stopped-event"}"#)),
            &transcript,
        ),
        (false, None)
    );
}

fn pairs(texts: &[(&str, &str)]) -> Vec<(String, String)> {
    texts.iter().map(|(text, read)| (text.to_string(), read.to_string())).collect()
}

/// Readings in which these texts name nodes and these are names of files, as written.
fn readings(nodes: &[&str], names: &[&str]) -> Readings {
    let same = |texts: &[&str]| {
        pairs(&texts.iter().map(|text| (*text, *text)).collect::<Vec<_>>())
    };
    Readings {
        nodes: same(nodes),
        objects: vec![],
        refused: vec![],
        file_names: same(names),
    }
}

#[test]
fn resource_identifiers_accept_pending_and_canonical_but_not_fake_short_ids() {
    assert_eq!(parse_resource_id("pending:47", &readings(&[], &[])).unwrap(), "pending:47".to_owned());
    assert!(parse_resource_id("km:47", &readings(&[], &[])).is_err());
}

#[test]
fn subagent_receives_new_canonical_state_even_when_parent_box_is_dehydrated() {
    let owner = || BoxOwner::Tool { tool_instance: "managed-source".into(), slot: "example-lib".into() };
    let mut before = state(7, "example-lib", owner(), content("old source", &[], Json::Null));
    before.dehydrated = true;
    let previous = canonical_box_versions(&vec![before]);
    let mut after = state(7, "example-lib", owner(), content("new source", &[], Json::Null));
    after.event_id = 9;
    let states = changed_subagent_tool_states(&vec![after], &previous);
    assert_eq!(states.len(), 1);
    assert_eq!(states[0].text.as_deref(), Some("new source"));
    assert!(states[0].hide_from_parent);
    assert_eq!(hidden_boxes(&states), vec![7]);
}

#[test]
fn model_costs_are_rendered_as_pennies_to_three_decimal_places() {
    assert_eq!(
        cost_summary("subagent cost", 12_345_678, 0),
        "Estimated subagent cost: 1.235 pennies at standard API rates."
    );
    assert_eq!(
        cost_summary("session cost before history ingress", 10_000, 2),
        "Estimated session cost before history ingress: 0.001 pennies at standard API rates; 2 provider calls could not be priced."
    );
}

#[test]
fn subagent_node_selection_preserves_order_and_rejects_duplicates() {
    let read = readings(&["AAECAwQG", "AAECAwQF"], &[]);
    let selected = canonical_node_id_array(
        &json(r#"{"contextNodeIds":["AAECAwQG","AAECAwQF"]}"#),
        "contextNodeIds",
        SUBAGENT_CONTEXT_NODE_LIMIT,
        &read,
    )
    .unwrap();
    assert_eq!(selected, vec!["AAECAwQG", "AAECAwQF"]);
    assert!(canonical_node_id_array(
        &json(r#"{"contextNodeIds":["AAECAwQF","AAECAwQF"]}"#),
        "contextNodeIds",
        SUBAGENT_CONTEXT_NODE_LIMIT,
        &read,
    )
    .is_err());
}

#[test]
fn load_nodes_selection_is_nonempty_ordered_and_duplicate_free() {
    let read = readings(&["AAECAwQG", "AAECAwQF"], &[]);
    let selected = canonical_node_id_list(
        &json(r#"{"identifiers":["AAECAwQG","AAECAwQF"]}"#),
        "identifiers",
        &read,
    )
    .unwrap();
    assert_eq!(selected, vec!["AAECAwQG", "AAECAwQF"]);
    assert!(canonical_node_id_list(&json(r#"{"identifiers":[]}"#), "identifiers", &read).is_err());
    assert!(canonical_node_id_list(
        &json(r#"{"identifiers":["AAECAwQF","AAECAwQF"]}"#),
        "identifiers",
        &read,
    )
    .is_err());
}

fn staged(pending_id: &str, media_type: &str, name: Option<&str>, transport: Json, len: u64) -> StagedObject {
    StagedObject {
        pending_id: pending_id.into(),
        media_type: media_type.into(),
        file_name: name.map(ToOwned::to_owned),
        transport,
        payload_len: len,
    }
}

#[test]
fn selected_boxes_stage_exact_canonical_text_once_per_revision() {
    let tool = BoxOwner::Tool { tool_instance: "managed-source".into(), slot: "example".into() };
    let mut codebase = state(
        1,
        "Managed source",
        tool,
        content("fn main() {\n    println!(\"exact\");\n}\n", &[], Json::Null),
    );
    codebase.event_id = 3;
    let transcript = state(
        4,
        "Pasted transcript",
        BoxOwner::User,
        content("Speaker 1: hello\nSpeaker 2: goodbye\n", &[], Json::Null),
    );
    let boxes = vec![codebase, transcript];
    let selected = box_id_array(&json(r#"{"boxIds":[1,4]}"#), "boxIds").unwrap();
    assert_eq!(select_boxes(&boxes, &selected).unwrap(), vec![0, 1]);
    let none: Vec<StagedObject> = vec![];
    let (plans, made) = stage_box_text_objects(&boxes, &selected, &none).unwrap();
    assert_eq!(plans.iter().map(|plan| boxes[plan.place].id).collect::<Vec<_>>(), vec![1, 4]);
    assert!(plans.iter().all(|plan| !plan.reused));
    assert_eq!(plans[0].object, TextObject::New(0));
    assert_eq!(plans[1].object, TextObject::New(1));
    assert_eq!(made[0].text, "fn main() {\n    println!(\"exact\");\n}\n");
    assert_eq!(made[1].text, "Speaker 1: hello\nSpeaker 2: goodbye\n");
    assert_eq!(made[0].file_name, "box-1.txt");
    assert_eq!(made[0].transport.text_at("source"), Some(BOX_TEXT_OBJECT_SOURCE));
    assert_eq!(made[0].transport.u64_at("boxId"), Some(1));

    let mut objects: Vec<StagedObject> = Vec::new();
    for (number, object) in made.into_iter().enumerate() {
        objects.push(staged(
            &format!("pending:{}", number + 1),
            BOX_TEXT_MEDIA_TYPE,
            Some(object.file_name.as_str()),
            object.transport,
            object.text.len() as u64,
        ));
    }
    let (repeated, made) = stage_box_text_objects(&boxes, &selected, &objects).unwrap();
    assert!(repeated.iter().all(|plan| plan.reused));
    assert_eq!(repeated[0].object, TextObject::Known(0));
    assert_eq!(repeated[1].object, TextObject::Known(1));
    assert!(made.is_empty());
}

#[test]
fn box_texts_are_staged_again_only_after_a_change() {
    let mut boxes = vec![
        state(1, "One", BoxOwner::User, content("first", &[], Json::Null)),
        state(2, "Two", BoxOwner::User, content("second", &[], Json::Null)),
    ];
    let (name, transport) = box_text_object(&boxes[1]);
    let other = staged("pending:1", "text/plain", None, Json::Null, 1);
    let held = staged("pending:2", BOX_TEXT_MEDIA_TYPE, Some(name.as_str()), transport, 6);
    let objects = vec![other, held];
    assert_eq!(existing_box_text_object(&objects, 2, 2), Some(1));
    assert_eq!(existing_box_text_object(&objects, 2, 3), None);
    assert_eq!(existing_box_text_object(&objects, 1, 2), None);
    boxes[1].dehydrated = true;
    let (plans, made) = stage_box_text_objects(&boxes, &vec![2, 1, 1], &objects).unwrap();
    assert_eq!((plans[0].object, plans[0].reused), (TextObject::Known(1), true));
    assert_eq!((plans[1].object, plans[1].reused), (TextObject::New(0), false));
    assert_eq!((plans[2].object, plans[2].reused), (TextObject::New(0), true));
    assert_eq!(made.len(), 1);
    boxes[1].event_id = 3;
    let (plans, _) = stage_box_text_objects(&boxes, &vec![2], &objects).unwrap();
    assert!(!plans[0].reused);
    boxes[0].active = false;
    for (id, message) in [(1, "box 1 is not active"), (9, "box 9 does not exist")] {
        assert_eq!(
            stage_box_text_objects(&boxes, &vec![2, id], &objects).unwrap_err().message,
            message
        );
    }
    boxes[0].active = true;
    boxes[0].content.text.clear();
    assert_eq!(
        stage_box_text_objects(&boxes, &vec![1], &objects).unwrap_err().message,
        "box 1 has no text content"
    );
}

#[test]
fn box_object_selection_requires_distinct_positive_ids() {
    assert!(box_id_array(&json(r#"{"boxIds":[]}"#), "boxIds")
        .unwrap_err()
        .message
        .contains("at least one"));
    assert!(box_id_array(&json(r#"{"boxIds":[1, 1]}"#), "boxIds").is_err());
    assert!(box_id_array(&json(r#"{"boxIds":[0]}"#), "boxIds").is_err());
    assert!(box_id_array(&json(r#"{"boxIds":["1"]}"#), "boxIds").is_err());
}

#[test]
fn object_resolution_reads_exact_staged_bytes_and_validates_provider_matrix() {
    let expected = b"\x89PNG\r\nexact-original".to_vec();
    let object = staged(
        "pending:47",
        "image/png",
        Some("diagram.png"),
        json(r#"{"source":"test","kind":"photo"}"#),
        expected.len() as u64,
    );
    assert_eq!(object_place("pending:47", &readings(&[], &[])).unwrap(), ObjectPlace::Staged);
    let boxes: Vec<BoxState> = vec![];
    let kind = staged_object_transport_kind(&boxes, Some(&object.transport), "pending:47");
    let resolved =
        resolve_staged(&object, "diagram.png".into(), kind, expected.clone()).unwrap();
    assert_eq!(
        resolved,
        ResolvedObject {
            object_id: "pending:47".into(),
            bytes: expected.clone(),
            file_name: "diagram.png".into(),
            media_type: "image/png".into(),
            transport_kind: Some("photo".into()),
        }
    );
    let short = resolve_staged(&object, "diagram.png".into(), None, vec![1]).unwrap_err();
    assert_eq!(short.message, "staged object pending:47 declared 20 bytes but resolved to 1");
    assert_eq!(
        rust_binary_object_ids(&json(r#"{"objectIds":["pending:47", "AAECAwQF"]}"#)).unwrap(),
        vec!["pending:47".to_owned(), "AAECAwQF".to_owned()]
    );
    assert_eq!(
        web_library_object_id(&json(r#"{"objectId":"pending:47"}"#)).unwrap(),
        "pending:47"
    );
    assert!(web_library_object_id(&json(r#"{"objectId":"  "}"#)).is_err());
    assert!(validate_annotation_media("gpt-5.6", "image/png").is_ok());
    assert!(validate_annotation_media("gpt-5.6-sol", "image/webp").is_ok());
    assert!(validate_annotation_media("gemini-2.5-flash", "audio/mpeg").is_ok());
    assert!(validate_annotation_media("gemini-3.1-pro-preview", "video/mp4").is_ok());
    assert!(validate_annotation_media("gpt-5.6", "audio/mpeg").is_err());
    assert!(validate_annotation_media("gpt-5.6-sol", "video/mp4").is_err());
    assert!(validate_transcription_model("gemini-3.1-pro-preview").is_ok());
    assert!(validate_transcription_model("gemini").is_err());
    assert!(validate_transcribable_audio("audio/ogg").is_ok());
    assert!(validate_transcribable_audio("audio/webm").is_ok());
    assert!(validate_transcribable_audio("image/png").is_err());
    assert!(validate_transcribable_audio("audio/aiff").is_err());
    assert!(validate_image_model("gpt-image-2").is_ok());
    assert!(validate_image_model("gemini-3-pro-image").is_ok());
    assert!(validate_image_model("gemini-3.1-pro-preview").is_err());
    assert_eq!(image_extension("image/jpeg"), "jpg");
    assert_eq!(image_extension("image/webp"), "webp");
    assert_eq!(
        optional_object_id_array(
            &json(r#"{"referenceObjectIds":["pending:47"]}"#),
            "referenceObjectIds",
            14,
        )
        .unwrap(),
        vec!["pending:47"]
    );
    assert!(optional_object_id_array(
        &json(r#"{"referenceObjectIds":["pending:47","pending:47"]}"#),
        "referenceObjectIds",
        14,
    )
    .is_err());
    assert_eq!(
        bounded_nonempty_string(&json(r#"{"prompt":"  inspect exactly\n"}"#), "prompt", 4_000)
            .unwrap(),
        "  inspect exactly\n"
    );
}

#[test]
fn objects_are_where_the_stores_read_them() {
    let read = Readings {
        objects: pairs(&[("AAECAwQF", "AAECAwQF")]),
        refused: pairs(&[("pending:x", "no number")]),
        ..readings(&["AAECAwQG"], &[])
    };
    assert_eq!(
        object_place("AAECAwQF", &read).unwrap(),
        ObjectPlace::Stored { object_id: "AAECAwQF".into() }
    );
    assert_eq!(
        object_place("AAECAwQG", &read).unwrap_err().message,
        "\"AAECAwQG\" is not an object ID"
    );
    assert_eq!(object_place("pending:x", &read).unwrap_err().message, "no number");
}

#[test]
fn telegram_attachments_have_no_tool_specific_count_or_duplicate_restriction() {
    let attachments = (1..=11)
        .map(|index| format!("pending:{index}"))
        .chain(["pending:1".to_owned()])
        .collect::<Vec<_>>();
    let arguments = Json::object().with("attachments", Json::texts(&attachments));
    assert_eq!(
        telegram_attachments(&arguments, &readings(&[], &[]))
            .unwrap()
            .into_iter()
            .map(|attachment| attachment.object_id)
            .collect::<Vec<_>>(),
        attachments,
    );
    assert!(telegram_attachments(&json(r#"{"attachments":"pending:1"}"#), &readings(&[], &[])).is_err());
    assert!(telegram_attachments(&json(r#"{"attachments":[""]}"#), &readings(&[], &[])).is_err());
}

#[test]
fn telegram_group_delivery_uses_an_exact_canonical_root_target() {
    let arguments = json(r#"{"group":{"rootNodeId":"AAAAAAAE"},"message":"hello"}"#);
    validate_arguments(&arguments, &["group"], &["message", "attachments"]).unwrap();
    let read = readings(&["AAAAAAAE"], &[]);
    let root = telegram_group_root(&arguments, &read).unwrap();
    assert_eq!(root.to_string(), "AAAAAAAE");
    assert!(telegram_group_root(
        &json(r#"{"group":{"rootNodeId":"AAAAAAAE","telegramChatId":-100}}"#),
        &read,
    )
    .is_err());
    assert_eq!(
        telegram_group_root(&arguments, &readings(&[], &[])).unwrap_err().message,
        "group.rootNodeId must be a canonical Kweb node ID"
    );
    let other = Readings { nodes: pairs(&[("AAAAAAAE", "AAAAAAAF")]), ..readings(&[], &[]) };
    assert_eq!(
        telegram_group_root(&arguments, &other).unwrap_err().message,
        "group.rootNodeId must use the canonical Kweb node ID encoding"
    );
    assert!(CALL_KTOOL_DESCRIPTION.contains("SendTelegramGroupMessage"));
}

#[test]
fn telegram_dm_tool_describes_out_of_band_cold_delivery() {
    let description = CALL_KTOOL_DESCRIPTION;
    assert!(description.contains("out-of-band cold delivery"));
    assert!(description.contains("SendTelegramDM"));
    assert!(description.contains("EmitObject"));
}

#[test]
fn object_delivery_filenames_are_optional_safe_and_attachment_specific() {
    let read = Readings {
        file_names: pairs(&[
            ("quarterly report.pdf", "quarterly report.pdf"),
            ("Kennedy’s résumé.pdf", "Kennedy’s résumé.pdf"),
            ("report.pdf", "report.pdf"),
            ("../report.pdf", "report.pdf"),
        ]),
        ..readings(&[], &[])
    };
    assert_eq!(
        telegram_attachments(
            &json(
                r#"{"attachments":[
                    "pending:1",
                    {"objectId":"AAECAwQF","fileName":"quarterly report.pdf"},
                    {"objectId":"pending:1"}
                ]}"#
            ),
            &read,
        )
        .unwrap(),
        vec![
            ObjectDeliveryRequest { object_id: "pending:1".into(), file_name: None },
            ObjectDeliveryRequest {
                object_id: "AAECAwQF".into(),
                file_name: Some("quarterly report.pdf".into()),
            },
            ObjectDeliveryRequest { object_id: "pending:1".into(), file_name: None },
        ]
    );
    assert_eq!(optional_delivery_file_name(&json("{}"), "fileName", &read).unwrap(), None);
    assert_eq!(
        optional_delivery_file_name(
            &json(r#"{"fileName":"Kennedy’s résumé.pdf"}"#),
            "fileName",
            &read,
        )
        .unwrap(),
        Some("Kennedy’s résumé.pdf".into())
    );
    for (invalid, cleaned) in [
        ("", "object.bin"),
        ("   ", "object.bin"),
        (".", "object.bin"),
        ("..", "object.bin"),
        ("../report.pdf", "report.pdf"),
        (r"folder\report.pdf", "report.pdf"),
        ("bad\u{0000}name.pdf", "badname.pdf"),
        ("\"report.pdf\"", "_report.pdf_"),
        (&"é".repeat(128), &"é".repeat(127)),
    ] {
        assert!(
            validate_delivery_file_name(invalid, cleaned).is_err(),
            "{invalid:?} should be rejected"
        );
        assert!(validate_delivery_file_name(cleaned, cleaned).is_ok());
    }
    assert!(telegram_attachments(
        &json(r#"{"attachments":[{"objectId":"AAECAwQF","fileName":"../report.pdf"}]}"#),
        &read,
    )
    .is_err());
    assert!(telegram_attachments(
        &json(
            r#"{"attachments":[{"objectId":"AAECAwQF","fileName":"report.pdf","extra":true}]}"#,
        ),
        &read,
    )
    .is_err());

    let delivery = resolved_object_delivery(
        ResolvedObject {
            object_id: "AAECAwQF".into(),
            bytes: b"report".to_vec(),
            file_name: "AAECAwQF.pdf".into(),
            media_type: "application/pdf".into(),
            transport_kind: None,
        },
        Some("quarterly-report.pdf".into()),
    );
    assert_eq!(delivery.file_name, "quarterly-report.pdf");
    assert_eq!(delivery.object.file_name, "AAECAwQF.pdf");
}

fn delivery(kind: &str, media_type: &str) -> ResolvedObjectDelivery {
    resolved_object_delivery(
        ResolvedObject {
            object_id: format!("object-{kind}"),
            bytes: vec![1],
            file_name: format!("object-{kind}.bin"),
            media_type: media_type.into(),
            transport_kind: Some(kind.into()),
        },
        None,
    )
}

#[test]
fn telegram_message_uses_the_first_attachment_that_accepts_its_exact_caption() {
    let attachments = vec![delivery("sticker", "image/webp"), delivery("photo", "image/jpeg")];
    assert_eq!(telegram_caption_attachment(&attachments, "  exact caption\n"), Some(1));
    assert_eq!(telegram_caption_attachment(&attachments, &"x".repeat(1_025)), None);
}

#[test]
fn object_resolution_is_independent_of_tool_specific_media_requirements() {
    let object = staged("pending:3", "application/octet-stream", None, Json::Null, 0);
    let resolved = resolve_staged(&object, staged_fallback_name(3), None, vec![]).unwrap();
    assert_eq!(
        resolved,
        ResolvedObject {
            object_id: "pending:3".into(),
            bytes: Vec::new(),
            file_name: "object-3.bin".into(),
            media_type: "application/octet-stream".into(),
            transport_kind: None,
        }
    );
}

#[test]
fn object_resolution_reads_canonical_bytes_and_preserves_metadata() {
    let expected = b"\xff\xd8\xffexact-canonical".to_vec();
    let stored = ResolvedObject {
        object_id: "gAECAwQG".into(),
        bytes: expected.clone(),
        file_name: "stored-photo.jpg".into(),
        media_type: "image/jpeg".into(),
        transport_kind: Some("telegram".into()),
    };
    let read = Readings { objects: pairs(&[("gAECAwQG", "gAECAwQG")]), ..readings(&[], &[]) };
    let ObjectPlace::Stored { object_id } = object_place("gAECAwQG", &read).unwrap() else {
        panic!("the object is stored");
    };
    let resolved = resolve_stored(&object_id, stored).unwrap();
    assert_eq!(
        resolved,
        ResolvedObject {
            object_id: "gAECAwQG".into(),
            bytes: expected,
            file_name: "stored-photo.jpg".into(),
            media_type: "image/jpeg".into(),
            transport_kind: Some("telegram".into()),
        }
    );
}

#[test]
fn telegram_group_media_staging_is_context_bound_and_idempotently_discoverable() {
    let text = r#"{
        "chatId":-100123,
        "groupTitle":"K2",
        "groupRootNodeId":"AAECAwQF",
        "participants":[{
            "displayName":"David",
            "username":"Taek42",
            "rootNodeId":"AAECAwQG"
        }],
        "messages":[
            {
                "messageId":77,
                "createdAt":"2026-07-25T04:34:00Z",
                "displayName":"David",
                "username":"Taek42",
                "kind":"photo",
                "mediaRef":{
                    "source":"telegram-group",
                    "chatId":CHAT,
                    "messageId":77,
                    "kind":"photo",
                    "fileName":"thread-photo.jpg",
                    "mimeType":"image/jpeg"
                }
            },
            {"messageId":78,"kind":"text","text":"No media"}
        ]
    }"#;
    let context = json(&text.replace("CHAT", "-100123"));
    let media_ref = telegram_group_media_reference(&context, 77).unwrap();
    assert_eq!(media_ref.text_at("kind"), Some("photo"));
    assert!(telegram_group_media_reference(&context, 78).is_err());
    assert!(telegram_group_media_reference(&context, 79).is_err());
    let wrong_group = json(&text.replace("CHAT", "-999"));
    assert!(telegram_group_media_reference(&wrong_group, 77).is_err());
    let rendered_context = format_telegram_group_context(&context);
    assert!(
        rendered_context.contains("The following retained conversation context comes from K2.")
    );
    assert!(rendered_context.contains("July 25th, 2026, 4:34am UTC"));
    assert!(rendered_context.contains("Telegram message 77"));
    assert!(rendered_context.contains("even if it did not mention or reply to Kennedy"));
    assert!(!rendered_context.contains("\"chatId\""));
    assert!(!rendered_context.contains('{'));

    let objects = vec![staged("pending:9", "image/jpeg", Some("thread-photo.jpg"), media_ref, 18)];
    let found = staged_telegram_group_media(&objects, -100123, 77).unwrap();
    assert_eq!(found, 0);
    assert_eq!(
        telegram_group_media_filename(&objects[0].transport, "image/jpeg", 77),
        "thread-photo.jpg"
    );
    let rendered = render_staged_telegram_group_media(&objects[0], 77, true).unwrap();
    assert!(rendered.contains("Reused already-staged Telegram group media"));
    assert!(rendered.contains("Object: pending:9"));
    assert!(rendered.contains("Original filename: thread-photo.jpg"));
    assert!(rendered.contains("Extension: .jpg"));
    assert!(rendered.contains("MIME type: image/jpeg"));
    assert!(rendered.contains("Size: 18 bytes"));
    assert!(staged_telegram_group_media(&objects, -100123, 78).is_none());
}

#[test]
fn document_enrichment_accepts_library_document_formats() {
    assert!(validate_extractable_document("application/pdf", "file.bin").is_ok());
    assert!(validate_extractable_document("application/octet-stream", "legacy.doc").is_ok());
    assert!(validate_extractable_document(
        "application/vnd.openxmlformats-officedocument.wordprocessingml.document",
        "file",
    )
    .is_ok());
    for extension in [
        "xlsx", "xls", "xlsb", "ods", "csv", "tsv", "txt", "md", "json", "yaml", "yml", "xml",
    ] {
        assert!(
            validate_extractable_document(
                "application/octet-stream",
                &format!("document.{extension}")
            )
            .is_ok(),
            "{extension} should be extractable"
        );
    }
    for media_type in [
        "text/plain; charset=utf-8",
        "text/markdown",
        "application/json",
        "application/xml",
        "application/yaml",
        "application/x-yaml",
        "application/vnd.openxmlformats-officedocument.spreadsheetml.sheet",
        "application/vnd.ms-excel",
        "application/vnd.ms-excel.sheet.binary.macroenabled.12",
        "application/vnd.oasis.opendocument.spreadsheet",
    ] {
        assert!(
            validate_extractable_document(media_type, "document").is_ok(),
            "{media_type} should be extractable"
        );
    }
    assert!(validate_extractable_document("application/octet-stream", "NOTES.TXT").is_ok());
    assert!(validate_extractable_document("image/png", "photo.png").is_err());
    assert!(validate_extractable_document("application/octet-stream", "archive.zip").is_err());
}

#[test]
fn staged_object_filename_is_assigned_once_and_then_required() {
    assert_eq!(ingress_object_filename(Some("original.png"), "media"), "original.png");
    assert_eq!(ingress_object_filename(Some("  "), "media"), "media");

    let mut metadata = staged("pending:47", "image/png", Some("original.png"), Json::Null, 0);
    assert_eq!(authoritative_object_filename(&metadata).unwrap(), "original.png");
    metadata.file_name = None;
    assert!(authoritative_object_filename(&metadata)
        .unwrap_err()
        .message
        .contains("has no authoritative filename"));
}

#[test]
fn media_and_document_results_use_authoritative_staged_filenames() {
    let annotation_result = Annotation {
        complete: false,
        model: "gpt-5.6".into(),
        text: "A sign reads \"Kennedy\".".into(),
        incomplete_reason: Some("output limit".into()),
    };
    let annotation =
        render_media_annotation_result("pending:47", "scene.png", "image/png", &annotation_result)
            .unwrap();
    assert!(annotation.contains("Annotation for pending:47"));
    assert!(annotation.contains("File: scene.png"));
    assert!(annotation.contains("Content type: image/png"));
    assert!(annotation.contains("Model: gpt-5.6"));
    assert!(annotation.contains("Status: incomplete"));
    assert!(annotation.contains("Incomplete reason: output limit"));
    assert!(!annotation.contains("adapter-reconstructed.png"));
    assert!(annotation.ends_with("A sign reads \"Kennedy\"."));

    let transcription = render_audio_transcription_result(
        "pending:47",
        "voice-note.ogg",
        "audio/ogg",
        "gpt-4o-transcribe",
        "The exact spoken words.",
    )
    .unwrap();
    assert!(transcription.contains("Transcription for pending:47"));
    assert!(transcription.contains("Model: gpt-4o-transcribe"));
    assert!(transcription.ends_with("The exact spoken words."));

    let extraction_result = Extraction {
        format: "doc".into(),
        text: "Original body".into(),
        characters: 13,
        truncated: false,
    };
    let extraction =
        render_document_extraction_result("pending:47", "brief.doc", &extraction_result);
    assert!(extraction.contains("File: brief.doc"));
    assert!(extraction.contains("Format: doc"));
    assert!(!extraction.contains("adapter-reconstructed.doc"));
    assert!(extraction.ends_with("Original body"));
}

#[test]
fn ingress_continuation_explains_the_solo_session_and_end_session_call() {
    let message = controller_message(&AgentMode::Ingress { record_id: None }, &Json::Null);
    assert!(message.contains("solo history-ingress session"));
    assert!(message.contains("there is no user"));
    assert!(message.contains("call EndSession"));
    assert!(message.contains("with no arguments"));
    assert!(!message.contains('{'));
    assert!(message.contains("A normal response does not end this session"));
}

#[test]
fn restoring_a_source_record_does_not_relabel_history_ingress() {
    let mut ingress = SessionOptions::conversation("history-ingress", Vec::new());
    ingress.mode = AgentMode::Ingress { record_id: None };
    ingress.source_session_type = Some("conversation".into());
    restore_session_type(&mut ingress, &json(r#"{"sessionType":"conversation"}"#));
    assert_eq!(ingress.session_type, "history-ingress");
    assert_eq!(ingress.source_session_type.as_deref(), Some("conversation"));

    let mut conversation = SessionOptions::conversation("conversation", Vec::new());
    restore_session_type(&mut conversation, &json(r#"{"sessionType":"telegram"}"#));
    assert_eq!(conversation.session_type, "telegram");
}

#[test]
fn a_null_stored_commit_receipt_means_not_committed() {
    assert_eq!(restore_commit_receipt(Some(&json(r#"{"commitReceipt":null}"#))), None);
    assert_eq!(restore_commit_receipt(Some(&json("{}"))), None);
}

#[test]
fn node_text_policy_counts_unicode_characters_at_the_live_tool_boundary() {
    let accepted_long_description = "🦀".repeat(MAX_NODE_LONG_DESCRIPTION_CHARACTERS);
    let arguments = json(r#"{"shortName":"Four","shortDescription":"A concise summary."}"#)
        .with("longDescription", Json::text(&accepted_long_description));
    let accepted =
        node_text_arguments(&arguments, "shortName", "shortDescription", "longDescription")
            .unwrap();
    assert_eq!(accepted.2.chars().count(), MAX_NODE_LONG_DESCRIPTION_CHARACTERS);
    assert!(accepted.2.len() > MAX_NODE_LONG_DESCRIPTION_CHARACTERS);

    let arguments = json(r#"{"shortName":"Four","shortDescription":""}"#).with(
        "longDescription",
        Json::text(&"🦀".repeat(MAX_NODE_LONG_DESCRIPTION_CHARACTERS + 1)),
    );
    let error = node_text_arguments(&arguments, "shortName", "shortDescription", "longDescription")
        .unwrap_err()
        .message;
    assert!(error.contains("longDescription must be at most 5000 characters"));
    assert!(error.contains("received 5001"));
    assert!(error.contains("Shorten it and retry"));
}

#[test]
fn node_text_policy_reports_create_and_update_field_names() {
    let short_name_error = node_text_arguments(
        &json(r#"{"newShortName":"abc","newShortDescription":"","newLongDescription":""}"#),
        "newShortName",
        "newShortDescription",
        "newLongDescription",
    )
    .unwrap_err()
    .message;
    assert!(short_name_error.contains("newShortName"));
    assert!(short_name_error.contains("received 3"));

    let arguments = json(r#"{"shortName":"Valid name","longDescription":""}"#).with(
        "shortDescription",
        Json::text(&"x".repeat(MAX_NODE_SHORT_DESCRIPTION_CHARACTERS + 1)),
    );
    let short_description_error =
        node_text_arguments(&arguments, "shortName", "shortDescription", "longDescription")
            .unwrap_err()
            .message;
    assert!(short_description_error.contains("shortDescription"));
    assert!(short_description_error.contains("received 201"));
}

#[test]
fn only_slow_tool_results_receive_elapsed_duration() {
    let mut fast = "fast result".to_owned();
    append_slow_tool_duration(&mut fast, Elapsed { seconds: 3, nanos: 0 });
    assert_eq!(fast, "fast result");

    let mut slow = "slow result".to_owned();
    append_slow_tool_duration(&mut slow, Elapsed { seconds: 3, nanos: 250_000_000 });
    assert_eq!(slow, "slow result\n[tool duration: 3.250s]");
}

#[test]
fn durations_stand_on_a_line_of_their_own() {
    let mut empty = String::new();
    append_duration(&mut empty, "4.000");
    assert_eq!(empty, "[tool duration: 4.000s]");
    let mut ended = "done\n".to_owned();
    append_duration(&mut ended, "12.500");
    assert_eq!(ended, "done\n[tool duration: 12.500s]");
}

#[test]
fn managed_complete_write_invocation_omits_source_from_active_call_box() {
    let call = ToolCall {
        name: WRITE_RUST_LIB_TOOL.into(),
        arguments: json(
            r#"{
                "name":"example-lib",
                "files":[{
                    "path":"src/lib.rs",
                    "contents":"pub fn unique_new_revision() {}\n"
                }]
            }"#,
        ),
    };
    let (shown, metadata) = tool_call_box_content(&call, &vec![WRITE_RUST_LIB_TOOL.to_owned()]);
    let compact_call = plain(&shown).to_string();
    assert!(!compact_call.contains("unique_new_revision"));
    assert!(compact_call.contains("completeFileContents"));
    assert_eq!(metadata.bool_at("compactedToolInvocation"), Some(true));
    let (open, _) = tool_call_box_content(&call, &vec![]);
    assert!(plain(&open).to_string().contains("unique_new_revision"));
}

#[test]
fn web_tool_results_are_plain_text() {
    let search = render_web_search_result(
        "The answer uses \"quotes\" and a backslash: \\",
        &vec![
            WebSource {
                title: "Primary source".into(),
                url: "https://example.test/source".into(),
            },
            WebSource { title: String::new(), url: "https://example.test/untitled".into() },
        ],
    );
    assert_eq!(
        search,
        "The answer uses \"quotes\" and a backslash: \\\n\nSources:\n- Primary source: https://example.test/source\n- https://example.test/untitled"
    );
    assert!(!search.contains("\\\"quotes\\\""));

    let fetch_result = WebPage {
        url: "https://example.test/page".into(),
        title: Some("A page".into()),
        content_type: "text/plain".into(),
        content: "fn main() {\n    println!(\"raw\");\n}\n".into(),
        truncated: true,
    };
    let fetched = render_web_fetch_result(&fetch_result);
    assert_eq!(
        fetched,
        "Source URL: https://example.test/page\nTitle: A page\nContent type: text/plain\nThe returned page text was truncated.\n\nfn main() {\n    println!(\"raw\");\n}\n"
    );
    assert!(!fetched.contains("\\n"));
    assert!(!fetched.contains("\\\"raw\\\""));
}

#[test]
fn attachment_payload_metadata_is_separate_and_not_a_transcript_turn() {
    let metadata = json(
        r#"{
            "externalEventId":"event-1",
            "attachments":[{
                "fileName":"notes.txt",
                "text":"derived contents",
                "dataUrl":"data:text/plain;base64,ZA==",
                "sizeBytes":1
            }]
        }"#,
    );
    let sanitized = message_metadata_without_attachment_payloads(&metadata);
    let attachment = &sanitized.array_at("attachments").unwrap()[0];
    assert!(attachment.get("text").is_none());
    assert!(attachment.get("dataUrl").is_none());
    assert_eq!(attachment.text_at("fileName"), Some("notes.txt"));

    let boxes = vec![
        state(
            1,
            "User message",
            BoxOwner::User,
            content(
                "please inspect the attachment",
                &["pending:3"],
                json(
                    r#"{"attachments":[{
                        "pendingId":"pending:3",
                        "kind":"document",
                        "fileName":"notes.txt",
                        "mimeType":"text/plain"
                    }]}"#,
                ),
            ),
        ),
        state(
            2,
            "User attachment text: notes.txt",
            BoxOwner::User,
            content("derived contents", &[], Json::Null),
        ),
    ];
    let transcript = transcript_from_journal(&boxes);
    assert_eq!(transcript.len(), 1);
    assert_eq!(transcript[0].text_at("content"), Some("please inspect the attachment"));
    assert_eq!(transcript[0].get("objects"), Some(&json(r#"["pending:3"]"#)));
    assert_eq!(
        transcript[0].array_at("attachments").unwrap()[0].text_at("fileName"),
        Some("notes.txt")
    );
    assert_eq!(
        staged_object_transport_kind(&boxes, None, "pending:3").as_deref(),
        Some("document")
    );
}

#[test]
fn user_file_metadata_is_authoritative_model_context_not_transcript_text() {
    let file = StagedFile {
        pending_id: "pending:1".into(),
        file_name: "quarterly.Report.PDF".into(),
        media_type: "application/pdf; charset=binary".into(),
        size_bytes: 3,
    };
    let descriptor = canonicalize_staged_file_descriptor(
        json(
            r#"{"pendingId":"pending:1","fileName":"spoofed.txt","mimeType":"text/plain","sizeBytes":999}"#,
        ),
        &file,
    );
    assert_eq!(descriptor.text_at("fileName"), Some("quarterly.Report.PDF"));
    assert_eq!(descriptor.text_at("extension"), Some(".PDF"));
    assert_eq!(descriptor.text_at("mimeType"), Some("application/pdf"));
    assert_eq!(descriptor.u64_at("sizeBytes"), Some(3));
    let block = render_user_file_metadata(
        1,
        "pending:1",
        "quarterly.Report.PDF",
        "application/pdf; charset=binary",
        3,
    );
    let shown = append_user_file_metadata("Please review this.".into(), &vec![block]);
    assert!(shown.starts_with("Please review this."));
    assert!(shown.contains("User-provided file 1"));
    assert!(shown.contains("Object reference: pending:1"));
    assert!(shown.contains("Original filename: quarterly.Report.PDF"));
    assert!(shown.contains("Extension: .PDF"));
    assert!(shown.contains("MIME type: application/pdf"));
    assert!(shown.contains("Size: 3 bytes"));
    let boxes = vec![state(
        2,
        "User message",
        BoxOwner::User,
        content(&shown, &["pending:1"], json(r#"{"transcriptText":"Please review this."}"#)),
    )];
    assert_eq!(
        transcript_from_journal(&boxes)[0].text_at("content"),
        Some("Please review this.")
    );
}

#[test]
fn context_overflow_warnings_are_recovered_as_nonterminal_system_messages() {
    let boxes = vec![state(
        1,
        "Context overflow warning",
        BoxOwner::Controller,
        content(
            CONTEXT_OVERFLOW_WARNING,
            &[],
            json(
                r#"{"transcriptRole":"system","externalEventId":"event-1","contextOverflowWarning":true}"#,
            ),
        ),
    )];
    let mut transcript = transcript_from_journal(&boxes);
    assert_eq!(transcript.len(), 1);
    assert_eq!(
        plain(&transcript[0]),
        plain(
            &json(
                r#"{"role":"system","externalEventId":"event-1","contextOverflowWarning":true}"#
            )
            .with("content", Json::text(CONTEXT_OVERFLOW_WARNING))
        )
    );
    assert!(!is_terminal_external_response(&transcript[0]));
    transcript.insert(
        0,
        json(r#"{"role":"user","content":"question","externalEventId":"event-1"}"#),
    );
    assert_eq!(
        restore_pending_turn(
            Some(&json(r#"{"pendingTurn":true,"pendingExternalEventId":"event-1"}"#)),
            &transcript,
        ),
        (true, Some("event-1".into()))
    );
}

#[test]
fn load_nodes_results_show_the_changed_boxes_as_projected() {
    let item = |box_id: u64, marker: bool, text: &str| ContextItem {
        box_id,
        marker,
        text: text.into(),
    };
    let items = vec![
        item(1, true, "marker"),
        item(2, false, "second"),
        item(1, false, "first"),
        item(3, false, "third"),
    ];
    assert_eq!(render_load_nodes_result(&items, &vec![2, 1]).unwrap(), "second\n\nfirst");
    assert_eq!(
        render_load_nodes_result(&items, &vec![]).unwrap(),
        "LoadNodes completed. The shared Kweb boxes were already current."
    );
    assert_eq!(
        render_load_nodes_result(&items, &vec![9]).unwrap_err().message,
        "updated Kweb box 9 is absent from the projection"
    );
}

#[test]
fn footers_end_provider_results() {
    let result = provider_tool_result_with_context_footer(
        "[current context size: 1 | max context size: 7000]",
        "Tool completed.",
    );
    assert!(result.starts_with("Tool completed."));
    assert!(result.ends_with("| max context size: 7000]"));
}

#[test]
fn plans_with_repeated_creations_are_not_committed() {
    let node = || PlannedNode {
        short_name: "Test node".into(),
        short_description: String::new(),
        long_description: String::new(),
        owner: "self".into(),
        fixed_connections: Vec::new(),
        recent_connections: Vec::new(),
        objects: Vec::new(),
        attach_session_archive: true,
    };
    let create = |id: &str| StagedNodeCreate { pending_id: id.into(), data: node() };
    let mut plan = KwebPlan { creates: vec![create("pending:3")], updates: NodeTable::new() };
    assert!(plan.check_commit(&readings(&[], &[])).is_ok());
    plan.creates.push(create("pending:3"));
    assert_eq!(plan.check_commit(&readings(&[], &[])).unwrap_err().message, "duplicate staged node pending:3");
    let mut misnamed = KwebPlan { creates: vec![], updates: NodeTable::new() };
    misnamed.updates.insert("not a node", node());
    assert_eq!(
        misnamed.check_commit(&readings(&["AAAAAAAB"], &[])).unwrap_err().message,
        "\"not a node\" is not a canonical node ID"
    );
}

#[test]
fn turns_stop_at_the_round_limit() {
    let mode = AgentMode::Conversation;
    let mut turn = AgentLoop::resume(AGENT_LOOP_ROUND_LIMIT - 1);
    assert!(matches!(turn.start_round(&mode), RoundStart::Ask));
    assert!(matches!(turn.start_round(&mode), RoundStart::Exhausted));
    let mut ingress = AgentLoop::resume(AGENT_LOOP_ROUND_LIMIT);
    assert!(matches!(
        ingress.start_round(&AgentMode::Ingress { record_id: None }),
        RoundStart::ForceCommit
    ));
}

#[test]
fn ingress_is_ended_by_its_tool_and_conversations_by_their_answer() {
    let halts =
        Halts { recovery: ContextRecovery::NotNeeded, force_commit: false, source_terminated: false };
    let ingress = AgentMode::Ingress { record_id: None };
    let turn = AgentLoop::resume(0);
    assert!(!matches!(
        turn.end_round(&ingress, "I am done.", &halts),
        RoundEnd::Finish { answer: _ }
    ));
    assert!(matches!(
        turn.end_round(&AgentMode::Conversation, "Hello.", &halts),
        RoundEnd::Finish { answer: Some(_) }
    ));
    let mut ended = AgentLoop::resume(0);
    assert!(ended.tool_called().is_none());
    let report = ToolReport { emitted: false, ok: true, end_session: true, awaits_write: None };
    ended.tool_finished(&ingress, report, &halts);
    assert!(matches!(ended.end_round(&ingress, "", &halts), RoundEnd::Finish { answer: _ }));
}

#[test]
fn freeform_writes_take_the_next_output() {
    let halts =
        Halts { recovery: ContextRecovery::NotNeeded, force_commit: false, source_terminated: false };
    let mut turn = AgentLoop::resume(0);
    assert!(turn.tool_called().is_none());
    let report = ToolReport {
        emitted: false,
        ok: true,
        end_session: false,
        awaits_write: Some("kcode-rust-libs-v2/write-file-freeform".into()),
    };
    turn.tool_finished(&AgentMode::Conversation, report, &halts);
    assert!(matches!(turn.completed("file contents"), Completion::Write { tool: _ }));
    assert!(matches!(turn.completed("an answer"), Completion::Answer { text: _ }));
}

#[test]
fn overflowing_contexts_are_recovered_or_committed() {
    let measure = |estimated_tokens: u64| ContextMeasure {
        estimated_tokens,
        limit_tokens: 100,
        projection_hash: "hash".into(),
    };
    assert!(matches!(overflow_step(&measure(100), None), OverflowStep::Fits));
    assert!(matches!(overflow_step(&measure(101), None), OverflowStep::Recover));
    assert!(matches!(
        overflow_end(&AgentMode::Ingress { record_id: None }, true, false),
        OverflowEnd::ForceCommit
    ));
    assert!(matches!(
        overflow_end(&AgentMode::Conversation, false, false),
        OverflowEnd::Recovered
    ));
    assert!(force_commit_note(true, "why", 2, 1).is_none());
    assert!(force_commit_note(false, "why", 2, 1).is_some());
    assert_eq!(with_context_warning("done", false), "done");
    assert_eq!(
        with_context_warning("done", true),
        format!("done\n\n{CONTEXT_OVERFLOW_WARNING}")
    );
    assert_eq!(
        invalid_call(&Failure::fixed("no name")).text,
        "Invalid Ktool call: no name"
    );
    assert!(matches!(
        end_turn(&AgentMode::Conversation, false, Some("x".into()), true),
        TurnEnd::Done { answer: _ }
    ));
}

#[test]
fn native_calls_name_a_tool_and_its_arguments() {
    let call = native_ktool_call(
        "call_ktool",
        &json(r#"{"name":"LoadNodes","arguments":{"identifiers":[]}}"#),
    )
    .unwrap();
    assert_eq!(call.name, "LoadNodes");
    assert!(native_ktool_call("other", &json("{}")).is_err());
    assert!(native_ktool_call("call_ktool", &json(r#"{"name":"x"}"#)).is_err());
}
