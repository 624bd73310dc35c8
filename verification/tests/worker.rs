use kennedy_orchestration::clock::{
    human_utc_datetime, nanos_from, next_wakeup_marker, parse_time, time_text, wait_until,
};
use kennedy_orchestration::commands::{
    after_turn, command_step, open_command, AfterTurn, CommandOpening, CommandScene, CommandStep,
    TurnOutcome,
};
use kennedy_orchestration::delivery::ResolvedObject;
use kennedy_orchestration::errors::{bounded_error, is_not_found, ErrorReport, Origin};
use kennedy_orchestration::group_context::{
    telegram_group_context_file_metadata, telegram_group_context_file_name,
};
use kennedy_orchestration::json::Json;
use kennedy_orchestration::launch::{
    has_next_slice, ingress_step, is_web_user, next_slice, slice_timeout, IngressStep,
};
use kennedy_orchestration::operations::{
    EventGate, Listener, ProviderOperations, SessionOperations,
};
use kennedy_orchestration::prompts::{manual_text, Manuals, RuntimeModel};
use kennedy_orchestration::records::{
    after_write, holds_write, ingress_checkpoint, ingress_restore_state, is_browser_conversation, missing_group_session_recovery, stop_response,
    stop_scope, stops_idle_turn, telegram_session_is_expired, MissingGroupSessionRecovery,
    SessionRecord, Written,
};
use kennedy_orchestration::replies::{
    telegram_reply_caption, telegram_response_object_deliveries, TelegramDelivery,
};
use kennedy_orchestration::scheduling::{
    next_ingress, record_telegram_event_retry, schedule_writer_job, telegram_event_retry_delay,
    telegram_event_retry_should_warn, telegram_timeout, time_left, WriterJob,
};
use kennedy_orchestration::telegram::{event_step, telegram_session, EventStep};

fn convert(value: serde_json::Value) -> Json {
    match value {
        serde_json::Value::Null => Json::Null,
        serde_json::Value::Bool(flag) => Json::Bool(flag),
        serde_json::Value::Number(number) => match (number.as_i64(), number.as_u64()) {
            (Some(n), _) => Json::Integer(n as i128),
            (_, Some(n)) => Json::Integer(n as i128),
            _ => Json::Real(number.to_string()),
        },
        serde_json::Value::String(text) => Json::Text(text),
        serde_json::Value::Array(items) => Json::Array(items.into_iter().map(convert).collect()),
        serde_json::Value::Object(members) => {
            Json::Object(members.into_iter().map(|(key, value)| (key, convert(value))).collect())
        }
    }
}

fn json(text: &str) -> Json {
    convert(serde_json::from_str(text).unwrap())
}

fn value(text: &str) -> serde_json::Value {
    serde_json::from_str(text).unwrap()
}

fn plain(json: &Json) -> serde_json::Value {
    match json {
        Json::Null => serde_json::Value::Null,
        Json::Bool(flag) => serde_json::Value::Bool(*flag),
        Json::Integer(number) => match (i64::try_from(*number), u64::try_from(*number)) {
            (Ok(n), _) => serde_json::Value::from(n),
            (_, Ok(n)) => serde_json::Value::from(n),
            _ => unreachable!(),
        },
        Json::Real(text) => serde_json::from_str(text).unwrap(),
        Json::Text(text) => serde_json::Value::String(text.clone()),
        Json::Array(items) => serde_json::Value::Array(items.iter().map(plain).collect()),
        Json::Object(members) => serde_json::Value::Object(
            members.iter().map(|(key, value)| (key.clone(), plain(value))).collect(),
        ),
    }
}

fn session_record(overrides: &str) -> SessionRecord {
    let mut record = SessionRecord {
        id: "session".into(),
        phase: "active".into(),
        started_at: "2026-07-30T00:00:00Z".into(),
        updated_at: "2026-07-30T00:00:00Z".into(),
        state: Json::object(),
        version: 1,
        ingress_next_attempt_at: None,
    };
    let overrides = json(overrides);
    if let Some(id) = overrides.text_at("id") {
        record.id = id.into();
    }
    if let Some(phase) = overrides.text_at("phase") {
        record.phase = phase.into();
    }
    if let Some(started) = overrides.text_at("started_at") {
        record.started_at = started.into();
    }
    if let Some(updated) = overrides.text_at("updated_at") {
        record.updated_at = updated.into();
    }
    if let Some(state) = overrides.get("state") {
        record.state = state.clone();
    }
    if let Some(next) = overrides.text_at("ingress_next_attempt_at") {
        record.ingress_next_attempt_at = Some(next.into());
    }
    record
}

#[test]
fn wakeup_markers_are_strictly_future_four_hour_utc_boundaries() {
    let before = parse_time("2026-07-28T03:59:59Z").unwrap();
    assert_eq!(
        next_wakeup_marker(before.seconds),
        parse_time("2026-07-28T04:00:00+00:00").unwrap().seconds
    );
    let exactly = parse_time("2026-07-28T20:00:00Z").unwrap();
    assert_eq!(
        next_wakeup_marker(exactly.seconds),
        parse_time("2026-07-29T00:00:00+00:00").unwrap().seconds
    );
}

#[test]
fn browser_and_telegram_sessions_are_classified_from_current_control_state() {
    let browser = session_record(
        r#"{
            "phase":"active",
            "state":{
                "sessionType":"conversation",
                "orchestration":{"owner":"backend","status":"idle"}
            }
        }"#,
    );
    assert!(is_browser_conversation(&browser));
    assert!(!is_browser_conversation(&session_record(
        r#"{"phase":"active","state":{"sessionType":"telegram"}}"#
    )));
}

#[test]
fn stop_scope_preserves_interactive_sessions_and_terminates_autonomous_work() {
    for session_type in ["conversation", "telegram", "telegram-group"] {
        assert_eq!(
            stop_scope(&session_record(&format!(
                r#"{{"phase":"active","state":{{"sessionType":"{session_type}"}}}}"#
            ))),
            "turn"
        );
    }
    assert_eq!(
        stop_scope(&session_record(
            r#"{"phase":"active","state":{"sessionType":"free-time"}}"#
        )),
        "self-time-run"
    );
    for (phase, session_type) in [
        ("active", "wakeup"),
        ("ingress_pending", "conversation"),
        ("ingress_in_progress", "telegram"),
    ] {
        assert_eq!(
            stop_scope(&session_record(&format!(
                r#"{{"phase":"{phase}","state":{{"sessionType":"{session_type}"}}}}"#
            ))),
            "session"
        );
    }
}

#[test]
fn telegram_sessions_roll_over_six_hours_after_creation_once_idle() {
    let now = parse_time("2026-07-30T12:00:00Z").unwrap();
    let record = session_record(
        r#"{
            "phase":"active",
            "started_at":"2026-07-30T06:00:00Z",
            "state":{"sessionType":"telegram","pendingTurn":false}
        }"#,
    );
    assert!(telegram_session_is_expired(&record, &now));
    assert!(!telegram_session_is_expired(
        &session_record(
            r#"{
                "phase":"active",
                "started_at":"2026-07-30T06:00:01Z",
                "state":{"sessionType":"telegram-group","pendingTurn":false}
            }"#
        ),
        &now
    ));
    assert!(!telegram_session_is_expired(
        &session_record(
            r#"{
                "phase":"active",
                "started_at":"2026-07-30T05:00:00Z",
                "state":{"sessionType":"telegram","pendingTurn":true}
            }"#
        ),
        &now
    ));
    assert!(!telegram_session_is_expired(
        &session_record(
            r#"{
                "phase":"ingress_pending",
                "started_at":"2026-07-30T05:00:00Z",
                "state":{"sessionType":"telegram","pendingTurn":false}
            }"#
        ),
        &now
    ));
}

#[test]
fn history_ingress_restart_prefers_its_own_checkpoint() {
    let source = json(
        r#"{
            "sessionType":"conversation",
            "kwebPlan":{"creates":[]},
            "historyIngress":{
                "sessionType":"history-ingress",
                "completed":true,
                "commitReceipt":{"sessionObjectId":"A1234567"},
                "kwebPlan":{"creates":[{"pendingId":"pending:1"}]}
            }
        }"#,
    );
    let restored = ingress_restore_state(&source);
    assert_eq!(restored.text_at("sessionType"), Some("history-ingress"));
    assert_eq!(restored.bool_at("completed"), Some(true));
    assert_eq!(
        restored.get("commitReceipt").unwrap().text_at("sessionObjectId"),
        Some("A1234567")
    );
    assert_eq!(restored.get("kwebPlan").unwrap().array_at("creates").unwrap().len(), 1);
    assert_eq!(
        ingress_restore_state(&json(r#"{"sessionType":"conversation"}"#)).text_at("sessionType"),
        Some("conversation")
    );
}

#[test]
fn missing_group_sessions_choose_the_transport_recovery_for_the_update_kind() {
    assert_eq!(
        missing_group_session_recovery(&json(
            r#"{"groupId":"group-1","telegramUserId":42,"resetRequired":false}"#
        ))
        .unwrap(),
        MissingGroupSessionRecovery::DetachCurrent {
            group_id: "group-1".into(),
            telegram_user_id: 42,
        }
    );
    assert_eq!(
        missing_group_session_recovery(&json(r#"{"resetRequired":true}"#)).unwrap(),
        MissingGroupSessionRecovery::CompleteSilentReset
    );
}

#[test]
fn ingress_scheduler_uses_due_oldest_work_not_newest_updates() {
    let now = parse_time("2026-07-25T03:00:00Z").unwrap();
    let histories = vec![
        session_record(
            r#"{
                "id":"newest-not-due",
                "phase":"ingress_pending",
                "updated_at":"2026-07-25T02:59:00Z",
                "ingress_next_attempt_at":"2026-07-25T03:01:00Z"
            }"#,
        ),
        session_record(
            r#"{
                "id":"newer-due",
                "phase":"ingress_pending",
                "updated_at":"2026-07-25T02:30:00Z",
                "ingress_next_attempt_at":null
            }"#,
        ),
        session_record(
            r#"{
                "id":"oldest-due",
                "phase":"ingress_pending",
                "updated_at":"2026-07-25T01:30:00Z",
                "ingress_next_attempt_at":"2026-07-25T02:00:00Z"
            }"#,
        ),
    ];
    assert_eq!(
        next_ingress(&histories, &now).map(|place| histories[place].id.as_str()),
        Some("oldest-due")
    );
}

#[test]
fn bounded_errors_include_the_cause_chain() {
    let error = ErrorReport::new("inner cause", Origin::Other).context("outer context");
    assert_eq!(bounded_error(&error), "outer context: inner cause");
}

#[test]
fn retained_group_files_use_the_same_complete_metadata_contract() {
    let file_name = telegram_group_context_file_name("voice", "audio/ogg", "77");
    assert_eq!(file_name, "telegram-group-voice-77.ogg");
    let message = json(
        r#"{"fileNameSource":"synthesized","mimeType":"audio/ogg; codecs=opus","sizeBytes":42}"#,
    )
    .with("fileName", Json::text(&file_name));
    let rendered = telegram_group_context_file_metadata(&message);
    assert!(rendered.contains(
        "Original filename: telegram-group-voice-77.ogg (synthesized because Telegram supplied no filename)"
    ));
    assert!(rendered.contains("Extension: .ogg"));
    assert!(rendered.contains("MIME type: audio/ogg"));
    assert!(rendered.contains("Size: 42 bytes"));
}

#[test]
fn telegram_object_delivery_carries_each_emitted_filename_override() {
    let deliveries = telegram_response_object_deliveries(&json(
        r#"{
            "objects":["pending:2","AAECAwQF"],
            "attachments":[
                {"objectId":"AAECAwQF","fileName":"canonical-report.pdf"},
                {"objectId":"pending:2","fileName":"draft-report.pdf"}
            ]
        }"#,
    ));
    assert_eq!(
        deliveries,
        vec![
            ("pending:2".into(), Some("draft-report.pdf".into())),
            ("AAECAwQF".into(), Some("canonical-report.pdf".into())),
        ]
    );
    assert_eq!(
        telegram_response_object_deliveries(&json(
            r#"{"objects":["AAECAwQG"],"attachments":[{"fileName":"index-fallback.txt"}]}"#
        )),
        vec![("AAECAwQG".into(), Some("index-fallback.txt".into()))]
    );
}

#[test]
fn final_kennedy_text_becomes_one_exact_caption_when_supported() {
    let file = ResolvedObject {
        object_id: "object".into(),
        bytes: vec![1],
        file_name: "photo.jpg".into(),
        media_type: "image/jpeg".into(),
        transport_kind: Some("photo".into()),
    };
    let deliveries = vec![
        TelegramDelivery::Object { object_id: "object".into(), file_name: None },
        TelegramDelivery::Text {
            text: "  exact caption\n".into(),
            response_warning: Json::Null,
            captionable: true,
        },
    ];
    assert_eq!(telegram_reply_caption(&deliveries, 0, &file), Some("  exact caption\n"));

    let warning = vec![
        TelegramDelivery::Object { object_id: "object".into(), file_name: None },
        TelegramDelivery::Text {
            text: "caption".into(),
            response_warning: Json::text("warning"),
            captionable: true,
        },
    ];
    assert_eq!(telegram_reply_caption(&warning, 0, &file), None);
}

#[test]
fn telegram_event_retries_back_off_to_one_per_minute() {
    assert_eq!(telegram_event_retry_delay(1), 2);
    assert_eq!(telegram_event_retry_delay(2), 4);
    assert_eq!(telegram_event_retry_delay(3), 8);
    assert_eq!(telegram_event_retry_delay(6), 60);
    assert_eq!(telegram_event_retry_delay(u32::MAX), 60);
}

#[test]
fn identical_telegram_retry_warnings_are_periodic() {
    assert!(telegram_event_retry_should_warn(None, "failure", 1));
    assert!(!telegram_event_retry_should_warn(Some("failure"), "failure", 2));
    assert!(telegram_event_retry_should_warn(Some("old failure"), "new failure", 2));
    assert!(telegram_event_retry_should_warn(Some("failure"), "failure", 10));
}

#[test]
fn ingress_scheduler_resumes_claimed_work_before_pending_work() {
    let pending = session_record(
        r#"{"id":"pending","phase":"ingress_pending","updated_at":"2026-07-25T01:00:00Z"}"#,
    );
    let claimed = session_record(
        r#"{
            "id":"claimed",
            "phase":"ingress_in_progress",
            "updated_at":"2026-07-25T02:00:00Z",
            "state":{"sourceCreatedAt":"2026-07-25T00:00:00Z"}
        }"#,
    );
    let now = parse_time("2026-07-25T03:00:00Z").unwrap();
    let histories = vec![pending, claimed];
    assert_eq!(
        next_ingress(&histories, &now).map(|place| histories[place].id.as_str()),
        Some("claimed")
    );
}

#[test]
fn stop_responses_keep_the_browser_contract() {
    assert_eq!(
        plain(&stop_response("record", "turn", "request")),
        value(
            r#"{"id":"record","scope":"turn","status":"stopping","stopRequested":true,"stopRequestId":"request"}"#
        )
    );
    assert!(stops_idle_turn("turn", false, false));
    assert!(!stops_idle_turn("turn", true, false));
    assert!(!stops_idle_turn("session", false, false));
}

#[test]
fn human_time_uses_ordinals_and_unambiguous_twelve_hour_clock() {
    assert_eq!(
        human_utc_datetime(&parse_time("2026-07-06T04:23:00Z").unwrap()),
        "July 6th, 2026, 4:23am UTC"
    );
    assert_eq!(
        human_utc_datetime(&parse_time("2026-07-11T16:34:00Z").unwrap()),
        "July 11th, 2026, 4:34pm UTC"
    );
    assert_eq!(
        human_utc_datetime(&parse_time("2026-07-22T00:05:00Z").unwrap()),
        "July 22nd, 2026, 12:05am UTC"
    );
}

#[test]
fn times_are_read_with_their_offset() {
    let utc = parse_time("2026-07-28T04:00:00.250Z").unwrap();
    assert_eq!((utc.year, utc.month, utc.day, utc.hour, utc.minute), (2026, 7, 28, 4, 0));
    assert_eq!(utc.nanos, 250_000_000);
    let east = parse_time("2026-07-28T06:00:00+02:00").unwrap();
    assert_eq!(east.seconds, utc.seconds);
    assert!(parse_time("yesterday").is_none());
}

fn testing_manuals() -> Manuals {
    let keys = [
        "identity",
        "conversationSession",
        "freeTimeSession",
        "wakeupSession",
        "historyIngressSession",
        "audioIngressSession",
        "telegramSession",
        "telegramGroupSession",
        "codexHarness",
        "kmapBasics",
        "readTools",
        "writeTools",
    ];
    Manuals { sections: keys.iter().map(|key| ((*key).to_owned(), format!("[{key}]"))).collect() }
}

#[test]
fn telegram_layers_are_scoped_to_telegram_channels() {
    let manuals = testing_manuals();
    let runtime = RuntimeModel::testing();
    let now = parse_time("2026-07-28T04:00:00Z").unwrap();
    let browser = manuals.compose_conversation(&runtime, "conversation", "", &now).unwrap();
    assert!(!browser.contains("[telegramSession]"));
    assert!(!browser.contains("[telegramGroupSession]"));

    let private = manuals.compose_conversation(&runtime, "telegram", "", &now).unwrap();
    assert!(private.contains("[telegramSession]"));
    assert!(!private.contains("[telegramGroupSession]"));

    let group = manuals.compose_conversation(&runtime, "telegram-group", "", &now).unwrap();
    assert!(group.contains("[telegramSession]"));
    assert!(group.contains("[telegramGroupSession]"));

    let group_ingress = manuals.compose_ingress(&runtime, "telegram-group", &now).unwrap();
    assert!(group_ingress.contains("[telegramSession]"));
    assert!(group_ingress.contains("[telegramGroupSession]"));

    let audio = manuals.compose_ingress(&runtime, "audio", &now).unwrap();
    assert!(!audio.contains("[telegramSession]"));
    assert!(!audio.contains("[telegramGroupSession]"));
}

#[test]
fn wakeup_sessions_have_their_own_autonomous_write_prompt() {
    let now = parse_time("2026-07-28T04:00:00Z").unwrap();
    let prompt = testing_manuals()
        .compose_conversation(&RuntimeModel::testing(), "wakeup", "", &now)
        .unwrap();
    assert!(prompt.contains("[wakeupSession]"));
    assert!(prompt.contains("[writeTools]"));
    assert!(!prompt.contains("[conversationSession]"));
    assert!(!prompt.contains("[telegramSession]"));
}

#[test]
fn manuals_are_trimmed_and_not_empty() {
    assert_eq!(manual_text("  text\n", "a.txt").unwrap(), "text");
    assert_eq!(manual_text(" \n", "a.txt").unwrap_err().message, "system prompt a.txt is empty");
}

#[test]
fn services_tell_where_errors_come_from() {
    let missing =
        ErrorReport::new("gone", Origin::Service { code: "not_found".into() }).context("reading");
    assert!(is_not_found(&missing));
    assert_eq!(missing.message(), "reading");
    let long = ErrorReport::new(&"x".repeat(5_000), Origin::Other);
    assert_eq!(bounded_error(&long).chars().count(), 1_000);
}

#[test]
fn retries_are_counted_and_delayed() {
    let (first, wait, warn) = record_telegram_event_retry(None, "failure");
    assert_eq!((first.failures, wait, warn), (1, 2, true));
    let (second, wait, warn) = record_telegram_event_retry(Some(first), "failure");
    assert_eq!((second.failures, wait, warn), (2, 4, false));
    assert_eq!(time_left(0, 0), (5_400, 0));
    assert_eq!(time_left(5_399, 1), (0, 999_999_999));
    assert_eq!(time_left(6_000, 0), (0, 0));
}

#[test]
fn events_have_ninety_minutes_from_their_beginning() {
    let now = parse_time("2026-07-25T03:00:00.25Z").unwrap();
    let left = |event: &str| telegram_timeout(&json(event), &now);
    assert_eq!(left(r#"{"processingStartedAt":"2026-07-25T02:59:00.5Z"}"#), (5_340, 250_000_000));
    assert_eq!(left(r#"{"processingStartedAt":"2026-07-25T04:59:00+02:00"}"#), (5_339, 750_000_000));
    assert_eq!(left(r#"{"processingStartedAt":"2026-07-25T01:30:00.25Z"}"#), (0, 0));
    assert_eq!(left(r#"{"processingStartedAt":"2020-01-01T00:00:00Z"}"#), (0, 0));
    assert_eq!(left(r#"{"processingStartedAt":"2026-07-25T03:00:01Z"}"#), (5_400, 0));
    assert_eq!(left(r#"{"processingStartedAt":"soon"}"#), (5_400, 0));
    assert_eq!(left(r#"{"processingStartedAt":7}"#), (5_400, 0));
    assert_eq!(left("{}"), (5_400, 0));
}

#[test]
fn elapsed_time_agrees_with_the_calendar_library() {
    let texts = [
        "2016-12-31T23:59:59.5Z",
        "2016-12-31T23:59:60.25Z",
        "2017-01-01T00:00:00Z",
        "2016-12-31T12:00:00.125Z",
        "1969-12-31T23:59:59Z",
        "2017-01-01T23:59:60.5Z",
    ];
    for then in texts {
        for now in texts {
            let expected = chrono::DateTime::parse_from_rfc3339(now)
                .unwrap()
                .signed_duration_since(chrono::DateTime::parse_from_rfc3339(then).unwrap());
            assert_eq!(
                nanos_from(&parse_time(then).unwrap(), &parse_time(now).unwrap()),
                expected.num_nanoseconds().unwrap() as i128,
                "{then} {now}"
            );
        }
    }
}

#[test]
fn commands_on_closed_conversations_are_completed_whatever_they_are() {
    for kind in ["message", "retry", "send-and-end", "end", "other"] {
        for state in ["{}", "null", "[]", "7", r#""text""#] {
            for (phase, is_browser) in [("completed", true), ("active", false)] {
                match open_command(kind, phase, is_browser, &json(state)) {
                    CommandOpening::Closed { outcome } => {
                        assert_eq!(outcome.text_at("status"), Some("conversation_closed"))
                    }
                    opening => panic!("{opening:?}"),
                }
            }
        }
    }
    assert!(matches!(open_command("retry", "active", true, &json("[]")), CommandOpening::Load));
}

#[test]
fn commands_that_read_no_message_take_any_metadata() {
    let payload = json(r#"{"text":"hello","metadata":[1]}"#);
    let scene = |kind, pending_turn, answered, mentioned| CommandScene {
        kind,
        payload: &payload,
        event: "web:1",
        pending_turn,
        answered,
        mentioned,
    };
    let step = |scene: &CommandScene| command_step(scene);
    assert!(matches!(step(&scene("message", false, true, true)).unwrap(), CommandStep::Settle));
    assert!(matches!(step(&scene("message", true, false, true)).unwrap(), CommandStep::Resume));
    assert!(matches!(step(&scene("retry", true, false, false)).unwrap(), CommandStep::Retry));
    assert!(matches!(
        step(&scene("send-and-end", false, false, true)).unwrap(),
        CommandStep::Close { last: None }
    ));
    assert!(step(&scene("send-and-end", true, false, false)).is_err());
    assert!(step(&scene("other", false, false, false)).is_err());
}

#[test]
fn one_writer_runs_at_a_time() {
    let now = parse_time("2026-07-25T03:00:00Z").unwrap();
    let histories = vec![session_record(
        r#"{"id":"claimed","phase":"ingress_in_progress","state":{}}"#,
    )];
    assert!(schedule_writer_job(&histories, &now, true).is_none());
    assert!(matches!(
        schedule_writer_job(&histories, &now, false),
        Some(WriterJob::Ingress(0))
    ));
    assert!(matches!(ingress_step("ingress_pending"), IngressStep::Claim));
    assert!(matches!(ingress_step("ingress_in_progress"), IngressStep::Run));
    assert!(matches!(ingress_step("completed"), IngressStep::Skip));
}

#[test]
fn ended_operations_do_not_forget_later_ones() {
    let mut operations = SessionOperations::new();
    operations.register_operation("s", 1);
    assert_eq!(operations.signal_stop("s"), Some(1));
    operations.register_operation("s", 2);
    operations.remove_operation("s", 1);
    assert_eq!(operations.signal_stop("s"), Some(2));
    operations.remove_operation("s", 2);
    assert_eq!(operations.signal_stop("s"), None);
}

#[test]
fn provider_operations_are_cancelled_once_they_are_known() {
    let mut operations = ProviderOperations::new();
    assert!(!operations.cancel("a"));
    assert!(operations.register("a").is_ok());
    assert!(operations.cancel("a"));
    assert_eq!(operations.active.get("a"), Some(Listener::Listening { cancelled: true }));
    assert_eq!(
        operations.register("a").unwrap_err().message,
        "subagent operation identifier is already active"
    );
    assert!(!operations.cancel("a"));
    operations.finish("a");
    assert!(operations.register("a").is_ok());
}

#[test]
fn handled_events_are_not_started_again() {
    let mut gate = EventGate::new();
    assert!(gate.start("e", 0));
    assert!(!gate.start("e", 10));
    gate.note("e", Some(100));
    gate.finish("e");
    assert!(!gate.start("e", 99));
    assert!(gate.start("e", 100));
    gate.finish("e");
    gate.note("f", Some(100));
    gate.list(&vec!["e".into()]);
    assert!(gate.start("f", 0));
}

#[test]
fn web_users_are_known_by_their_handle() {
    assert!(is_web_user("@Alice", "alice"));
    assert!(!is_web_user("@bob", "@alice"));
    let deadline = parse_time("2026-07-28T04:00:00Z").unwrap();
    let enough = parse_time("2026-07-28T03:55:00Z").unwrap();
    let late = parse_time("2026-07-28T03:55:00.000000001Z").unwrap();
    assert!(has_next_slice("tool", &deadline, &enough));
    assert!(!has_next_slice("tool", &deadline, &late));
    assert!(!has_next_slice("user-stop", &deadline, &enough));
    assert_eq!(slice_timeout(&deadline, &late), (659, 999_999_999));
    assert_eq!(slice_timeout(&enough, &deadline), (60, 0));
    assert_eq!(slice_timeout(&enough, &parse_time("2026-07-28T05:00:00Z").unwrap()), (0, 0));
    assert_eq!(wait_until(&deadline, 0, &late), (299, 999_999_999));
    assert_eq!(wait_until(&enough, 0, &deadline), (0, 0));
    assert_eq!(time_text(&late).unwrap(), "2026-07-28T03:55:00.000000001+00:00");
    let handed = next_slice(
        json(r#"{"sliceNumber":1,"message":"for later"}"#),
        "2026-07-28T04:00:00Z",
    );
    assert!(handed.is_object());
}

#[test]
fn finished_commands_are_not_run_again() {
    let scene = CommandScene {
        kind: "message",
        payload: &json(r#"{"message":"hello"}"#),
        event: "command:1",
        pending_turn: false,
        answered: true,
        mentioned: true,
    };
    assert!(matches!(command_step(&scene).unwrap(), CommandStep::Settle));
    assert!(matches!(
        open_command("message", "completed", true, &Json::object()),
        CommandOpening::Closed { outcome: _ }
    ));
    assert!(matches!(
        after_turn(&TurnOutcome::Stopped, false),
        AfterTurn::Interrupt { outcome: _, stop: _ }
    ));
    assert!(matches!(after_turn(&TurnOutcome::Finished, false), AfterTurn::Settle));
}

#[test]
fn events_go_to_their_users_session() {
    let histories = vec![
        session_record(
            r#"{"id":"one","state":{"sessionType":"telegram","channel":{"telegramUserId":1}}}"#,
        ),
        session_record(
            r#"{"id":"two","state":{"sessionType":"telegram","channel":{"telegramUserId":2}}}"#,
        ),
    ];
    let event = json(r#"{"telegramUserId":2,"conversationId":"two"}"#);
    assert_eq!(telegram_session(&histories, &event), Some(1));
    assert!(matches!(event_step(true, false, None, "e").unwrap(), EventStep::Deliver));
    assert!(matches!(event_step(false, false, None, "e").unwrap(), EventStep::Begin));
    assert!(matches!(event_step(false, true, Some("e"), "e").unwrap(), EventStep::Resume));
    assert!(event_step(false, true, Some("other"), "e").is_err());
}

#[test]
fn a_conflicting_write_is_read_again_and_accepted_where_it_was_written_after_all() {
    assert!(matches!(after_write(None), Written::Accepted));
    assert!(matches!(after_write(Some("state_conflict")), Written::Reread));
    assert!(matches!(after_write(Some("not_found")), Written::Failed));

    let written = json(r#"{"a":1,"b":[true,null]}"#);
    assert!(holds_write(&json(r#"{"b":[true,null],"a":1}"#), &written));
    assert!(!holds_write(&json(r#"{"a":1,"b":[null,true]}"#), &written));
    assert!(!holds_write(&json(r#"{"a":1}"#), &written));
}

#[test]
fn an_ingress_checkpoint_is_what_the_ingress_restarts_from() {
    let archive = json(r#"{"sessionId":"s","roundsUsed":3}"#);
    let state = ingress_checkpoint(json(r#"{"sessionId":"s"}"#), archive);
    assert_eq!(
        plain(&state),
        value(r#"{"sessionId":"s","historyIngress":{"sessionId":"s","roundsUsed":3}}"#)
    );
    assert_eq!(
        plain(ingress_restore_state(&state)),
        value(r#"{"sessionId":"s","roundsUsed":3}"#)
    );
}

#[test]
fn documents_are_compared_without_the_order_of_their_members() {
    assert!(json(r#"{"x":{"p":1,"q":"t"},"y":0.5}"#).same(&json(r#"{"y":0.5,"x":{"q":"t","p":1}}"#)));
    assert!(!json(r#"[1,2]"#).same(&json(r#"[2,1]"#)));
    assert!(!json(r#"{"x":null}"#).same(&json("{}")));
    assert!(!json("1").same(&json(r#""1""#)));
}
