use kennedy_orchestration::agent_loop::{
    answer_transcript, completion_recovery, end_turn, failed_call, idle_round, overflow_note,
    overflow_step, overflow_transcript, overflow_warning_metadata, overflowed_call, pinned_boxes,
    reset_exhausted_turn_rounds_for_retry, settle_outcome, silent_turn, AgentLoop, Completion,
    ContextMeasure, ContextRecovery, Halts, OverflowStep, RoundEnd, RoundStart, ToolReport,
    TurnEnd, CONTEXT_OVERFLOW_WARNING,
};
use kennedy_orchestration::arguments::ToolCall;
use kennedy_orchestration::clock::parse_time;
use kennedy_orchestration::delivery::{
    attach, check_attachment_sizes, direct_message, group_is_ready, group_message, holds_user_lock,
    report_sent, send_steps, ObjectDeliveryRequest, Recipient, ResolvedObject, SendStep,
};
use kennedy_orchestration::input::{
    attachment_metadata_without_payload, compose_input, has_input, not_staged, object_request,
    staged_fallback_name, ObjectRequest, StagedFile,
};
use kennedy_orchestration::ids::Readings;
use kennedy_orchestration::json::Json;
use kennedy_orchestration::objects::{
    check_group_media, check_image_reference, media_object, unknown_staged_object,
};
use kennedy_orchestration::prompts::{refresh_runtime_prompt, section, Manuals, RuntimeModel};
use kennedy_orchestration::render::{
    natural_language_list, render_box_text_objects, render_generated_image, BoxTextObject, Elapsed,
};
use kennedy_orchestration::session::{
    agent_request_timeout, controller_box_name, controller_message, free_time_first_message,
    free_time_opening, free_time_schedule, opening, restore_session, sealed_conversation,
    session_kind, session_prompt, AgentMode, FreshValues, JournalFacts, Opening, SessionKind,
    SessionOptions,
};
use kennedy_orchestration::subagents::{
    managed_write_state, refuse_subagent_call, subagent_state_updates, ChangedState,
};
use kennedy_orchestration::text::Failure;
use kennedy_orchestration::tools::{
    accountable_user, assert_tool_allowed, codex_reasoning_effort, emit_object, managed_objects,
    report_dehydrated, report_hydrated, report_subagent, report_summarized,
    subagent_may_have_effects, tool_action, ReasoningEffort, ToolAction, ToolCatalog, ToolScene,
};
use kennedy_orchestration::transcript::{
    answer_for_external_event, responses_for_external_event, transcript_from_journal, BoxContent,
    BoxOwner, BoxState,
};
use kennedy_orchestration::turns::{
    commit_current_write_session, ends_slice, over_capacity_note, prepare_free_time_round,
    prepare_history_ingress, requires_history_ingress, stage_source_message, TurnState,
};

fn convert(value: serde_json::Value) -> Json {
    match value {
        serde_json::Value::Null => Json::Null,
        serde_json::Value::Bool(flag) => Json::Bool(flag),
        serde_json::Value::Number(number) => Json::Integer(number.as_i64().unwrap() as i128),
        serde_json::Value::String(text) => Json::Text(text),
        serde_json::Value::Array(items) => Json::Array(items.into_iter().map(convert).collect()),
        serde_json::Value::Object(members) => {
            Json::Object(members.into_iter().map(|(key, value)| (key, convert(value))).collect())
        }
    }
}

fn json(text: &str) -> Json {
    convert(serde_json::from_str(text).unwrap())
}

fn assert_same(actual: &Json, expected: &str) {
    assert!(actual.same(&json(expected)), "{actual:?} is not {expected}");
}

fn texts(items: &[&str]) -> Vec<String> {
    items.iter().map(|item| item.to_string()).collect()
}

fn pairs(texts: &[(&str, &str)]) -> Vec<(String, String)> {
    texts.iter().map(|(text, read)| (text.to_string(), read.to_string())).collect()
}

/// Readings in which these texts name nodes and these are names of files, as written.
fn readings(nodes: &[&str], names: &[&str]) -> Readings {
    let same = |texts: &[&str]| {
        pairs(&texts.iter().map(|text| (*text, *text)).collect::<Vec<_>>())
    };
    Readings {
        nodes: same(nodes),
        objects: vec![],
        refused: vec![],
        file_names: same(names),
    }
}

fn ingress() -> AgentMode {
    AgentMode::Ingress { record_id: None }
}

fn no_halts() -> Halts {
    Halts { recovery: ContextRecovery::NotNeeded, force_commit: false, source_terminated: false }
}

fn object(id: &str, bytes: usize, media_type: &str) -> ResolvedObject {
    ResolvedObject {
        object_id: id.into(),
        bytes: vec![1; bytes],
        file_name: "stored.bin".into(),
        media_type: media_type.into(),
        transport_kind: None,
    }
}

fn turn(free_time: &str) -> TurnState {
    TurnState {
        pending_turn: false,
        pending_external_event_id: None,
        rounds_used: 4,
        completed: false,
        free_time: json(free_time),
        orchestration: Json::Null,
    }
}

// ---- the agent loop ----

#[test]
fn a_conversation_asks_calls_tools_and_answers() {
    let mode = AgentMode::Conversation;
    let mut state = AgentLoop::resume(0);
    assert!(matches!(state.start_round(&mode), RoundStart::Ask));
    assert!(state.prepared(&mode, true, ContextRecovery::Recovered, true));
    assert!(!state.deadline_after_response);
    assert!(state.tool_called().is_none());
    let report = ToolReport { emitted: false, ok: true, end_session: false, awaits_write: None };
    assert!(!state.tool_finished(&mode, report, &no_halts()));
    assert!(matches!(state.completed("  "), Completion::Nothing));
    assert!(matches!(state.end_round(&mode, "", &no_halts()), RoundEnd::Continue));

    assert!(matches!(state.start_round(&mode), RoundStart::Ask));
    assert!(state.prepared(&mode, false, ContextRecovery::NotNeeded, false));
    let Completion::Answer { text } = state.completed(" Hello. \n") else {
        panic!("an answer was expected");
    };
    assert_eq!(text, "Hello.");
    assert_eq!(
        state.end_round(&mode, &text, &no_halts()),
        RoundEnd::Finish { answer: Some("Hello.".into()) }
    );
}

#[test]
fn a_round_without_anything_is_a_failure() {
    let mut state = AgentLoop::resume(0);
    state.start_round(&AgentMode::Conversation);
    assert!(matches!(state.end_round(&AgentMode::Conversation, "", &no_halts()), RoundEnd::Idle));
    assert_eq!(idle_round().message, "provider completed without a response or tool call");
    // An answer keeps an ingress session going; it does not end it.
    assert!(matches!(state.end_round(&ingress(), "done", &no_halts()), RoundEnd::Continue));
}

#[test]
fn turns_end_when_their_rounds_are_used_up() {
    let mut state = AgentLoop::resume(99);
    assert!(matches!(state.start_round(&AgentMode::Wakeup), RoundStart::Ask));
    assert!(matches!(state.start_round(&AgentMode::Wakeup), RoundStart::Exhausted));
    assert!(matches!(state.start_round(&ingress()), RoundStart::ForceCommit));
    assert_eq!(reset_exhausted_turn_rounds_for_retry(&AgentMode::Conversation, 100), 0);
    assert_eq!(reset_exhausted_turn_rounds_for_retry(&AgentMode::Conversation, 99), 99);
    assert_eq!(reset_exhausted_turn_rounds_for_retry(&AgentMode::FreeTime, 100), 100);
}

#[test]
fn a_file_that_is_waited_for_comes_before_other_tools() {
    let mode = AgentMode::FreeTime;
    let mut state = AgentLoop::resume(0);
    state.start_round(&mode);
    let report =
        ToolReport { emitted: false, ok: true, end_session: false, awaits_write: Some("w".into()) };
    state.tool_finished(&mode, report, &no_halts());
    assert_eq!(
        state.tool_called().unwrap().message,
        "w is awaiting the complete file contents; no other Ktool can run before that output."
    );
    assert!(matches!(state.completed("contents"), Completion::Write { tool } if tool == "w"));
}

#[test]
fn turns_stop_where_nothing_more_can_be_done() {
    let terminated = Halts { source_terminated: true, ..no_halts() };
    assert!(terminated.stop(&AgentMode::Conversation));
    assert!(!terminated.stop(&ingress()));
    let committed = Halts { force_commit: true, ..no_halts() };
    assert!(committed.stop(&ingress()));
    assert!(!committed.stop(&AgentMode::Conversation));
    assert!(matches!(
        completion_recovery(ContextRecovery::Irreducible, ContextRecovery::NotNeeded),
        ContextRecovery::Irreducible
    ));
    assert!(matches!(
        completion_recovery(ContextRecovery::Irreducible, ContextRecovery::Recovered),
        ContextRecovery::Recovered
    ));
}

#[test]
fn outcomes_tell_what_happened_and_how_long_it_took() {
    let failed = failed_call("WebFetch", &Failure::new("no network".into()));
    assert_eq!(failed.text, "WebFetch failed: no network");
    assert!(failed.store_result && !failed.ok);
    assert!(!failed_call("LoadNodes", &Failure::new("x".into())).store_result);
    let overflowed = overflowed_call();
    assert_eq!(overflowed.text, CONTEXT_OVERFLOW_WARNING);
    assert!(!overflowed.store_result);
    let slow = settle_outcome(failed, true, Elapsed { seconds: 4, nanos: 250_000_000 });
    assert_eq!(slow.text, "WebFetch failed: no network\n[tool duration: 4.250s]");
    assert!(!slow.store_result);
    let quick = settle_outcome(overflowed_call(), false, Elapsed { seconds: 3, nanos: 0 });
    assert_eq!(quick.text, CONTEXT_OVERFLOW_WARNING);
}

#[test]
fn turns_end_for_their_sessions() {
    let answer = || Some("yes".to_owned());
    assert!(matches!(
        end_turn(&AgentMode::Conversation, false, answer(), false),
        TurnEnd::Done { answer: Some(text) } if text == "yes"
    ));
    assert!(matches!(
        end_turn(&AgentMode::Conversation, true, answer(), false),
        TurnEnd::Done { answer: None }
    ));
    assert!(matches!(
        end_turn(&AgentMode::Conversation, false, None, true),
        TurnEnd::Done { answer: None }
    ));
    assert!(matches!(end_turn(&AgentMode::Conversation, false, None, false), TurnEnd::Silent));
    assert!(matches!(end_turn(&AgentMode::Wakeup, false, None, false), TurnEnd::Commit));
    assert_eq!(
        silent_turn().message,
        "Kennedy ended a conversational turn without an assistant response"
    );
    assert_same(
        &answer_transcript("hi", Some("e")),
        r#"{"role":"kennedy","content":"hi","externalEventId":"e"}"#,
    );
}

#[test]
fn contexts_that_are_too_large_are_reduced_once() {
    let measure = ContextMeasure {
        estimated_tokens: 120,
        limit_tokens: 100,
        projection_hash: "h".into(),
    };
    assert!(matches!(overflow_step(&measure, None), OverflowStep::Recover));
    let note = overflow_note(120, 110, 100, json("[3]"), true, "h");
    assert_same(
        &note,
        r#"{"beforeTokens":120,"estimatedTokens":110,"limitTokens":100,"dehydratedBoxIds":[3],"irreducible":true,"projectionHash":"h"}"#,
    );
    assert!(matches!(overflow_step(&measure, Some(&note)), OverflowStep::Irreducible));
    let fits = ContextMeasure { estimated_tokens: 100, ..measure };
    assert!(matches!(overflow_step(&fits, Some(&note)), OverflowStep::Fits));
    assert_same(
        &overflow_warning_metadata(&fits, None),
        r#"{"transcriptRole":"system","contextOverflowWarning":true,"projectedTokens":100,"limitTokens":100}"#,
    );
    let entry = overflow_transcript(Some("e"));
    assert_eq!(entry.text_at("content"), Some(CONTEXT_OVERFLOW_WARNING));
    assert_eq!(entry.text_at("externalEventId"), Some("e"));
    assert_eq!(pinned_boxes(&vec![4], 9), vec![4, 9]);
    assert_eq!(pinned_boxes(&vec![9], 9), vec![9]);
}

// ---- turns ----

#[test]
fn a_turn_begins_with_a_message_and_can_be_stopped() {
    let mut turn = turn("null");
    assert!(!turn.begin_user_turn("  ", &json("{}")));
    assert!(turn.begin_user_turn("hi", &json(r#"{"externalEventId":"web:1"}"#)));
    assert_eq!(turn.rounds_used, 0);
    assert!(!turn.begin_user_turn("again", &json("{}")));
    let told = turn.interrupt_current_turn();
    assert_eq!(told.content.text, "The user stopped this agent turn.");
    assert_same(
        &told.transcript,
        r#"{"role":"system","content":"The user stopped this agent turn.","userStopped":true,"externalEventId":"web:1"}"#,
    );
    assert!(!turn.pending_turn && turn.pending_external_event_id.is_none());
    assert_same(
        &turn.orchestration,
        r#"{"owner":"backend","status":"idle","lastOutcome":"user-stopped"}"#,
    );
}

#[test]
fn self_time_opens_with_its_focus_and_the_message_left_for_it() {
    let mut turn = turn(r#"{"customPrompt":"Rest","handoffMessage":"Go on"}"#);
    assert_eq!(
        turn.stage_free_time_opening().unwrap(),
        "Begin this self-time session.\n\nRequested focus:\nRest\n\nMessage from the previous self-time session:\n\nGo on"
    );
    assert!(turn.pending_turn);
    assert!(turn.stage_free_time_opening().is_none());
    turn.leave_message(&Some("later".into()));
    assert_eq!(turn.free_time.text_at("nextSessionMessage"), Some("later"));
    assert_eq!(
        turn.finalize_free_time("bored", "now").unwrap_err().message,
        "invalid self-time completion reason"
    );
    turn.finalize_free_time("tool", "2026-01-01T00:00:00Z").unwrap();
    assert_eq!(turn.free_time.text_at("sliceEndedReason"), Some("tool"));
    assert!(!turn.pending_turn);
    assert_eq!(free_time_opening(&json("{}")), "Begin this self-time session.");
    assert_eq!(free_time_first_message(&json("{}")), "Begin this self-time session.");
}

#[test]
fn self_time_without_a_message_or_a_reason_is_left_as_it_is() {
    let mut turn = turn("[1]");
    turn.leave_message(&None);
    assert_same(&turn.free_time, "[1]");
    assert!(turn.finalize_free_time("bored", "now").is_err());
    assert_same(&turn.free_time, "[1]");
    assert!(ends_slice("hard-stop") && !ends_slice("bored"));
}

#[test]
fn wakeups_need_their_marker() {
    let mut turn = turn("null");
    assert_eq!(
        turn.stage_wakeup_opening(&json("{}")).unwrap_err().message,
        "wakeup session is missing its acquired time marker"
    );
    let opened =
        turn.stage_wakeup_opening(&json(r#"{"wakeupMarker":"2026-07-28T04:00:00Z"}"#)).unwrap();
    assert_eq!(opened.unwrap().hour, 4);
    assert!(turn.pending_turn);
}

#[test]
fn turns_are_closed_by_their_ends() {
    let mut turn = turn("null");
    turn.begin_user_turn("hi", &json("{}"));
    turn.close(&TurnEnd::Silent);
    assert!(turn.pending_turn && !turn.completed);
    turn.close(&TurnEnd::Commit);
    assert!(!turn.pending_turn && turn.completed);
    assert!(commit_current_write_session(&ingress()).is_ok());
    assert_eq!(
        commit_current_write_session(&AgentMode::Conversation).unwrap_err().message,
        "a read-only conversation cannot be committed as a Kweb write session"
    );
    assert!(requires_history_ingress(&AgentMode::Conversation, true));
    assert!(!requires_history_ingress(&AgentMode::FreeTime, true));
}

#[test]
fn self_time_is_over_at_its_deadline() {
    let free = json(r#"{"deadlineAt":"2026-07-28T04:00:00Z"}"#);
    let at = parse_time("2026-07-28T04:00:00Z").unwrap();
    let before = parse_time("2026-07-28T03:59:59Z").unwrap();
    assert!(at.reached(&before) && !before.reached(&at));
    assert!(prepare_free_time_round(&AgentMode::FreeTime, &free, &at));
    assert!(!prepare_free_time_round(&AgentMode::FreeTime, &free, &before));
    assert!(!prepare_free_time_round(&AgentMode::Wakeup, &free, &at));
    assert_eq!(free_time_schedule(&json("{}")), "The self-time deadline was not supplied.");
    assert!(free_time_schedule(&free).starts_with("The self-time deadline is "));
}

#[test]
fn an_ingress_is_prepared_with_the_cost_of_its_source() {
    let prepared = prepare_history_ingress(false, 100, 200, true, 1_234_000, 0);
    assert!(prepared.terminate_source && prepared.reconfigure);
    assert_eq!(
        prepared.cost,
        "Estimated session cost before history ingress: 0.123 pennies at standard API rates."
    );
    let again = prepare_history_ingress(true, 200, 200, true, 0, 2);
    assert!(!again.terminate_source && !again.reconfigure);
    assert!(again.cost.ends_with("; 2 provider calls could not be priced."));
    assert_same(
        &over_capacity_note(9, 8),
        r#"{"reason":"fully_dehydrated_context_above_initial_target","estimatedTokens":9,"initialTargetTokens":8}"#,
    );
    let (new_box, entry) = stage_source_message(true, "hi", &json(r#"{"externalEventId":"e"}"#));
    assert_eq!(new_box.name, "Kennedy message");
    assert_same(
        &entry,
        r#"{"role":"kennedy","content":"hi","metadata":{"externalEventId":"e"},"externalEventId":"e"}"#,
    );
}

// ---- sessions ----

#[test]
fn sessions_are_restored_from_their_state() {
    let mut options = SessionOptions::conversation("conversation", texts(&["root"]));
    options.reference_root_node_ids = texts(&["z", "root", "a", "z"]);
    let state = json(
        r#"{"sessionId":"s","startedAt":"t","sessionType":"telegram","channel":{"groupContext":{"x":1}},"roundsUsed":7,"commitReceipt":null,"commitAuthor":"someone"}"#,
    );
    let fresh = || FreshValues {
        started_at: "now".into(),
        session_id: "fresh".into(),
        rust_lib_session_id: "fresh".into(),
    };
    let setup = restore_session(options, Some(&state), fresh(), &RuntimeModel::testing());
    assert_eq!(setup.session_id, "s");
    assert!(setup.resumes);
    assert_eq!(setup.started_at, "t");
    assert_eq!(setup.rust_lib_session_id, "kennedy:fresh");
    assert_eq!(setup.options.session_type, "telegram");
    assert_eq!(setup.options.reference_root_node_ids, texts(&["a", "z"]));
    assert_same(&setup.options.group_context, r#"{"x":1}"#);
    assert_eq!(setup.rounds_used, 7);
    assert!(setup.commit_receipt.is_none());
    assert_eq!(setup.commit_author, "someone");

    let plain = SessionOptions::conversation("conversation", texts(&["root"]));
    let setup = restore_session(plain, None, fresh(), &RuntimeModel::testing());
    assert_eq!((setup.session_id.as_str(), setup.resumes), ("fresh", false));
    assert_eq!(setup.commit_author, "gpt-5.6-sol-xhigh");
}

#[test]
fn sessions_open_as_their_journal_allows() {
    let facts = |sealed, has_receipt, has_system_box, ingress_started| JournalFacts {
        sealed,
        has_receipt,
        completed: has_receipt,
        has_system_box,
        ingress_started,
    };
    let open = |mode: &AgentMode, kind: &str, facts: &JournalFacts| {
        opening(mode, kind, &json(r#"{"a":1}"#), facts)
    };
    assert!(matches!(
        open(&AgentMode::Conversation, "conversation", &facts(true, false, true, false)),
        Opening::Refuse
    ));
    assert_eq!(
        sealed_conversation().message,
        "a read-only conversation has an unexpectedly sealed session log"
    );
    assert!(matches!(
        open(&ingress(), "history-ingress", &facts(true, false, true, true)),
        Opening::Complete { commit_first: true }
    ));
    assert!(matches!(
        open(&AgentMode::FreeTime, "free-time", &facts(true, true, true, false)),
        Opening::Complete { commit_first: false }
    ));
    assert!(matches!(
        open(&AgentMode::Conversation, "telegram-group", &facts(false, false, false, false)),
        Opening::Open {
            repair_tools: false,
            create_boxes: true,
            group_context_box: true,
            prepare_ingress: false,
        }
    ));
    assert!(matches!(
        open(&ingress(), "history-ingress", &facts(false, false, true, false)),
        Opening::Open {
            repair_tools: true,
            create_boxes: false,
            group_context_box: _,
            prepare_ingress: true,
        }
    ));
}

#[test]
fn sessions_are_kept_by_their_kind() {
    assert!(matches!(session_kind("telegram", &AgentMode::Conversation), SessionKind::Telegram));
    assert!(matches!(session_kind("free-time", &AgentMode::FreeTime), SessionKind::SelfTime));
    assert!(matches!(session_kind("audio", &ingress()), SessionKind::HistoryIngress));
    assert!(matches!(
        session_kind("wakeup", &AgentMode::Wakeup),
        SessionKind::Other(name) if name == "wakeup"
    ));
}

#[test]
fn requests_have_the_time_of_their_mode() {
    let conversation = AgentMode::Conversation;
    let now = parse_time("2026-07-28T04:00:00.5Z").unwrap();
    let timeout = |mode: &AgentMode, session_type: &str, free_time: &str| {
        agent_request_timeout(mode, session_type, &json(free_time), &now)
    };
    let self_time = |deadline: &str| {
        let free_time = format!(r#"{{"deadlineAt":"{deadline}"}}"#);
        timeout(&AgentMode::FreeTime, "free-time", &free_time)
    };
    assert_eq!(timeout(&conversation, "conversation", "null"), Some(5_400));
    assert_eq!(timeout(&conversation, "telegram", "null"), None);
    assert_eq!(timeout(&ingress(), "history-ingress", "null"), Some(5_400));
    assert_eq!(timeout(&AgentMode::Wakeup, "wakeup", "null"), Some(5_400));
    assert_eq!(self_time("2026-07-28T04:01:40.5Z"), Some(460));
    assert_eq!(self_time("2026-07-28T04:01:40Z"), Some(459));
    assert_eq!(self_time("2026-07-28T03:59:55Z"), Some(361));
    assert_eq!(self_time("2026-07-28T04:00:01Z"), Some(361));
    assert_eq!(self_time("soon"), None);
    assert_eq!(timeout(&AgentMode::FreeTime, "free-time", "{}"), None);
    assert_eq!(
        controller_message(&AgentMode::Conversation, &Json::Null),
        "Continue the turn. Use tools if needed, then answer the user."
    );
    assert!(!controller_box_name(&ingress()).is_empty());
}

#[test]
fn prompts_are_composed_and_their_runtime_is_refreshed() {
    let keys = [
        "identity", "conversationSession", "freeTimeSession", "wakeupSession",
        "historyIngressSession", "audioIngressSession", "telegramSession",
        "telegramGroupSession", "codexHarness", "kmapBasics", "readTools", "writeTools",
    ];
    let manuals = Manuals {
        sections: keys.iter().map(|key| (key.to_string(), format!("<{key}>"))).collect(),
    };
    let model = RuntimeModel::testing();
    let now = parse_time("2026-07-28T04:00:00Z").unwrap();
    let fresh = FreshValues {
        started_at: "t".into(),
        session_id: "s".into(),
        rust_lib_session_id: "r".into(),
    };
    let options = SessionOptions::conversation("telegram", texts(&["root"]));
    let setup = restore_session(options, None, fresh, &model);
    let prompt = session_prompt(&manuals, &model, &setup, &now).unwrap();
    assert!(prompt.starts_with("Kennedy's identity\n\n<identity>"));
    assert!(prompt.contains("<telegramSession>") && !prompt.contains("<telegramGroupSession>"));
    assert!(!prompt.contains("<writeTools>"));
    assert!(prompt.contains("\n\nCurrent runtime\n\n"));
    assert!(refresh_runtime_prompt(&prompt, &model, &now).is_none());
    let later = parse_time("2026-07-29T04:00:00Z").unwrap();
    let refreshed = refresh_runtime_prompt(&prompt, &model, &later).unwrap();
    assert_ne!(refreshed, prompt);
    assert!(refresh_runtime_prompt("no marker", &model, &later).is_none());
    assert_eq!(section("Title", "text"), "Title\n\ntext");
}

// ---- input ----

#[test]
fn messages_are_composed_from_their_text_and_their_files() {
    let metadata = json(
        r#"{"externalEventId":"e","attachments":[{"pendingId":"pending:1","fileName":"x","text":"extracted"}]}"#,
    );
    assert!(has_input("", &metadata));
    assert!(!has_input(" ", &json("{}")));
    let attachments: Vec<Json> = metadata
        .array_at("attachments")
        .unwrap()
        .iter()
        .map(|attachment| attachment.clone())
        .collect();
    let staged = vec![Some(StagedFile {
        pending_id: "pending:1".into(),
        file_name: "notes.txt".into(),
        media_type: "text/plain".into(),
        size_bytes: 9,
    })];
    let input = compose_input("Look at this", &metadata, &attachments, &staged, &None);
    assert_eq!(input.boxes.len(), 2);
    assert_eq!(input.boxes[0].name, "User message");
    assert_eq!(input.boxes[0].content.objects, texts(&["pending:1"]));
    assert!(input.boxes[0].content.text.starts_with("Look at this"));
    assert!(input.boxes[0].content.text.contains("notes.txt"));
    assert_eq!(input.boxes[1].name, "User attachment text: notes.txt");
    assert_eq!(input.boxes[1].content.text, "extracted");
    assert_eq!(input.transcript.text_at("content"), Some("Look at this"));
    assert_eq!(input.transcript.text_at("externalEventId"), Some("e"));
    assert_same(input.transcript.get("objects").unwrap(), r#"["pending:1"]"#);
}

#[test]
fn space_around_a_message_does_not_count() {
    let input = compose_input(" \n hi there\t ", &json("{}"), &vec![], &vec![], &None);
    assert_eq!(input.boxes[0].content.text, "hi there");
    assert_eq!(input.transcript.text_at("content"), Some("hi there"));
}

#[test]
fn attachments_say_what_they_need_of_the_store() {
    let read =
        Readings { refused: pairs(&[("pending:0", "zero is reserved")]), ..readings(&[], &[]) };
    assert_eq!(
        object_request(&json(r#"{"pendingId":"pending:0"}"#), "document", &read)
            .unwrap_err()
            .message,
        "zero is reserved"
    );
    assert!(matches!(object_request(&json("{}"), "document", &read).unwrap(), ObjectRequest::Nothing));
    assert!(matches!(
        object_request(
            &json(r#"{"pendingId":"pending:3","dataUrl":"data:,"}"#),
            "document",
            &read,
        )
        .unwrap(),
        ObjectRequest::Existing { pending_id } if pending_id == "pending:3"
    ));
    let staged =
        object_request(&json(r#"{"dataUrl":"data:text/plain;base64,aGk="}"#), "document", &read)
            .unwrap();
    let ObjectRequest::Stage { media_type, bytes, .. } = staged else {
        panic!("bytes were to be staged");
    };
    assert_eq!((media_type.as_str(), bytes.as_slice()), ("text/plain", b"hi".as_slice()));
    assert!(object_request(&json(r#"{"dataUrl":"nonsense"}"#), "document", &read).is_err());
    assert_eq!(
        not_staged("attached", "pending:9").message,
        "attached object pending:9 is not staged in this session"
    );
    assert_eq!(staged_fallback_name(4), "object-4.bin");
    assert_same(
        &attachment_metadata_without_payload(&json(r#"{"dataUrl":"d","text":"t","id":"i"}"#)),
        r#"{"id":"i"}"#,
    );
}

// ---- tools ----

fn catalog() -> ToolCatalog {
    ToolCatalog {
        speech: texts(&["speech/identify"]),
        managed: texts(&["bin/call", "web/attach", "lib/open"]),
        run_binary: "bin/call".into(),
        attach_object: "web/attach".into(),
    }
}

fn action(mode: &AgentMode, name: &str, arguments: &str) -> Result<ToolAction, Failure> {
    let roots = texts(&["AAAAAAAB"]);
    let group = Json::Null;
    let scene =
        ToolScene {
            mode,
            roots: &roots,
            reasoning_effort: "high",
            group_context: &group,
            readings: &readings(&["AAAAAAAB", "AAAAAAAC", "AAAAAAAE"], &["a.pdf"]),
        };
    tool_action(&scene, &catalog(), &ToolCall { name: name.into(), arguments: json(arguments) })
}

#[test]
fn calls_become_actions() {
    let mode = AgentMode::Conversation;
    assert!(matches!(
        action(&mode, "WebSearch", r#"{"question":"q","model":"m"}"#),
        Ok(ToolAction::WebSearch { user, model, question })
            if user == "AAAAAAAB" && model == "m" && question == "q"
    ));
    assert!(matches!(
        action(&mode, "DehydrateBoxes", r#"{"boxIds":[4,5]}"#),
        Ok(ToolAction::Dehydrate { boxes }) if boxes == vec![4, 5]
    ));
    assert!(matches!(
        action(&mode, "LoadNodes", r#"{"identifiers":["AAAAAAAB"]}"#),
        Ok(ToolAction::LoadNodes { ids }) if ids == texts(&["AAAAAAAB"])
    ));
    assert!(matches!(
        action(&ingress(), "EndSession", r#"{"message":"bye"}"#),
        Ok(ToolAction::EndSession { .. })
    ));
    assert!(matches!(action(&mode, "speech/identify", "{}"), Ok(ToolAction::Speech)));
    assert!(matches!(action(&mode, "lib/open", "{}"), Ok(ToolAction::Managed)));
    let Ok(ToolAction::Subagent(request)) =
        action(&mode, "RunSubagent", r#"{"model":"m","contextNodeIds":[],"task":"t"}"#)
    else {
        panic!("a subagent was to be run");
    };
    assert_eq!(request.reasoning_effort, "high");
}

#[test]
fn calls_that_are_not_allowed_or_not_understood_are_refused() {
    let mode = AgentMode::Conversation;
    let refused = |mode: &AgentMode, name: &str, arguments: &str| match action(mode, name, arguments)
    {
        Ok(_) => panic!("the call was to be refused"),
        Err(failure) => failure.message,
    };
    assert_eq!(refused(&mode, "Unknown", "{}"), "Tool Unknown is not available");
    assert_eq!(refused(&mode, "EndSession", "{}"), "EndSession is unavailable in a conversation");
    assert_eq!(
        refused(&mode, "CreateNode", "{}"),
        "CreateNode requires the global Kweb write lane and is unavailable in a read-only conversation"
    );
    assert_eq!(
        refused(&ingress(), "EmitObject", r#"{"objectId":"x"}"#),
        "EmitObject is only available in a conversation"
    );
    assert_eq!(refused(&mode, "HydrateBox", "{}"), "expected exactly: boxId");
    assert_eq!(refused(&mode, "HydrateBox", r#"{"boxId":0}"#), "boxId must be a positive integer");
    assert!(assert_tool_allowed(&AgentMode::FreeTime, "CreateNode").is_ok());
    assert_eq!(
        accountable_user(&Vec::new()).unwrap_err().message,
        "session has no user root for intelligence accounting"
    );
}

#[test]
fn managed_tools_name_their_objects() {
    let arguments = json(r#"{"objectIds":["a","b"]}"#);
    assert_eq!(managed_objects(&catalog(), "bin/call", &arguments).unwrap(), texts(&["a", "b"]));
    let arguments = json(r#"{"objectId":"c"}"#);
    assert_eq!(managed_objects(&catalog(), "web/attach", &arguments).unwrap(), texts(&["c"]));
    assert!(managed_objects(&catalog(), "lib/open", &arguments).unwrap().is_empty());
}

#[test]
fn tools_report_what_they_did() {
    assert_eq!(report_dehydrated(&vec![4, 5]), "Dehydrated boxes 4, 5.");
    assert_eq!(report_summarized(3), "Summarized box 3.");
    assert_eq!(report_hydrated(3, &ContextRecovery::NotNeeded).unwrap(), "Hydrated box 3.");
    assert_eq!(
        report_hydrated(3, &ContextRecovery::Irreducible).unwrap_err().message,
        CONTEXT_OVERFLOW_WARNING
    );
    assert_eq!(
        report_subagent("done", 10_000, 30_000, 0, 1),
        "done\n\n[Estimated subagent cost: 0.002 pennies at standard API rates; 1 provider call could not be priced.]"
    );
    assert!(subagent_may_have_effects(&texts(&["a", "subagent_tool_call"])));
    assert!(!subagent_may_have_effects(&texts(&["a"])));
    assert!(matches!(codex_reasoning_effort("xhigh"), Ok(ReasoningEffort::XHigh)));
    assert!(codex_reasoning_effort("loud").is_err());
    assert_eq!(
        render_generated_image("o", "f.png", "image/png", 5, "m"),
        "Generated image.\nObject: o\nFile: f.png\nContent type: image/png\nSize: 5 bytes\nModel: m\nUse EmitObject with o to deliver it."
    );
    let staged = |id, reused| BoxTextObject { box_id: id, pending_id: "pending:1".into(), reused };
    assert_eq!(
        render_box_text_objects(&vec![staged(2, false), staged(3, true)]),
        "Box text objects:\nBox 2: pending:1\nBox 3: pending:1 (already staged)\nThese pending object references resolve to canonical object IDs when the logical session commits."
    );
    assert_eq!(natural_language_list(&texts(&["a", "b"])), "a and b");
    assert_eq!(natural_language_list(&texts(&["a", "b", "c"])), "a, b, and c");
}

#[test]
fn emitted_objects_are_described_and_tied_to_their_event() {
    let emission = emit_object(
        "pending:1",
        &object("pending:1", 5, "image/png"),
        &json(r#"{"objectId":"pending:1","fileName":"cat.png"}"#),
        &json(r#"{"maxObjectBytes":5}"#),
        Some("e"),
        &readings(&[], &["cat.png"]),
    )
    .unwrap();
    assert_eq!(emission.content.objects, texts(&["pending:1"]));
    assert_same(
        &emission.transcript,
        r#"{"role":"kennedy","content":"","objects":["pending:1"],"attachments":[{"objectId":"pending:1","fileName":"cat.png","mediaType":"image/png","byteLength":5}],"externalEventId":"e"}"#,
    );
    let refuse = |bytes: usize| match emit_object(
        "o",
        &object("o", bytes, "image/png"),
        &json(r#"{"objectId":"o"}"#),
        &json(r#"{"maxObjectBytes":5}"#),
        None,
        &readings(&[], &[]),
    ) {
        Ok(_) => panic!("the object was to be refused"),
        Err(failure) => failure.message,
    };
    assert_eq!(refuse(6), "object o is 6 bytes, over this channel's 5-byte limit");
    assert_eq!(refuse(0), "object o is empty and cannot be sent through this channel");
}

#[test]
fn media_is_checked_before_it_is_used() {
    let media = media_object(object("o", 3, "IMAGE/PNG; x=1")).unwrap();
    assert_eq!(media.media_type, "image/png");
    assert_eq!(
        media_object(object("o", 0, "image/png")).unwrap_err().message,
        "media object o is empty"
    );
    assert_eq!(
        check_image_reference("o", "text/plain").unwrap_err().message,
        "GenerateImage reference o is not an image"
    );
    assert!(check_group_media(1, 7).is_ok());
    assert_eq!(
        check_group_media(0, 7).unwrap_err().message,
        "Telegram group media message 7 is empty"
    );
    assert_eq!(
        unknown_staged_object("pending:1").message,
        "staged object pending:1 does not exist in this session"
    );
}

#[test]
fn subagents_may_not_do_everything_and_hear_of_changes() {
    assert!(refuse_subagent_call("WebFetch", 5, 5, true).is_none());
    assert_eq!(
        refuse_subagent_call("RunSubagent", 0, 5, true).unwrap().message,
        "RunSubagent is unavailable inside a subagent. Only Kennedy may launch subagents."
    );
    assert!(refuse_subagent_call("WebFetch", 6, 5, true).is_some());
    assert!(refuse_subagent_call("WebFetch", 5, 5, false).is_some());
    let updates = subagent_state_updates(&vec![ChangedState {
        box_id: 8,
        name: "Node".into(),
        text: Some("body".into()),
        hide_from_parent: true,
    }]);
    assert_eq!(updates[0].key, "tool-state:8");
    assert_eq!(updates[0].text.as_deref(), Some("Current Node:\nbody"));
    let state = managed_write_state(None, "RustLibrary", "Rust Library", "x", "y");
    assert_eq!(state.key, "prospective-managed-state:RustLibrary:x");
    assert_eq!(state.text.as_deref(), Some("Current Managed Rust Library x:\ny"));
}

// ---- cold messages ----

#[test]
fn cold_messages_are_read_and_sent_in_steps() {
    let read = readings(&["AAAAAAAE"], &["a.pdf"]);
    let message = direct_message(
        &json(
            r#"{"user":{"telegramUserId":42},"message":"hi","attachments":["pending:1",{"objectId":"o","fileName":"a.pdf"}]}"#,
        ),
        &read,
    )
    .unwrap();
    assert!(matches!(message.recipient, Recipient::User(42)));
    assert_eq!(message.attachments[1].file_name.as_deref(), Some("a.pdf"));
    assert_eq!(
        direct_message(&json(r#"{"user":{"telegramUserId":42}}"#), &read).unwrap_err().message,
        "SendTelegramDM requires a nonempty message, at least one attachment, or both"
    );
    assert_eq!(
        direct_message(&json(r#"{"user":7,"message":"x"}"#), &read).unwrap_err().message,
        "user must be an object"
    );
    assert!(group_message(&json(r#"{"group":{"rootNodeId":"AAAAAAAE"},"message":"x"}"#), &read).is_ok());
    assert_eq!(
        group_message(&json(r#"{"group":{"rootNodeId":"AAAAAAAE"}}"#), &read).unwrap_err().message,
        "SendTelegramGroupMessage requires a nonempty message, at least one attachment, or both"
    );

    let request = ObjectDeliveryRequest { object_id: "o".into(), file_name: Some("a.pdf".into()) };
    assert_eq!(
        attach(object("o", 0, "image/png"), &request).unwrap_err().message,
        "attachment object o is empty"
    );
    let attached = vec![attach(object("o", 4, "image/png"), &request).unwrap()];
    assert_eq!(attached[0].file_name, "a.pdf");
    assert!(check_attachment_sizes(&attached, 4).is_ok());
    assert_eq!(
        check_attachment_sizes(&attached, 3).unwrap_err().message,
        "attachment object o is 4 bytes, over Telegram's 3-byte limit"
    );
    assert_eq!(
        send_steps(&attached, "hi"),
        vec![SendStep::Object { index: 0, captioned: true }]
    );
    assert_eq!(send_steps(&Vec::new(), "hi"), vec![SendStep::Text]);
    assert_eq!(
        report_sent(&Recipient::User(42), 1),
        "Sent a cold Telegram direct message with 1 attachment to user 42."
    );
    assert_eq!(
        report_sent(&Recipient::Group("AAAAAAAE".into()), 0),
        "Sent a Telegram group message to group root AAAAAAAE."
    );
    assert!(holds_user_lock("telegram", &json(r#"{"telegramUserId":42}"#), 42));
    assert!(!holds_user_lock("conversation", &json(r#"{"telegramUserId":42}"#), 42));
    assert_eq!(
        group_is_ready(true, Some("other"), "AAAAAAAE").unwrap_err().message,
        "The Telegram group's Kennedy root is not ready."
    );
    assert!(group_is_ready(true, Some("AAAAAAAE"), "AAAAAAAE").is_ok());
}

// ---- transcripts ----

#[test]
fn transcripts_are_read_from_the_journal() {
    let state = |id: u64, name: &str, owner: BoxOwner, text: &str, metadata: &str| BoxState {
        id,
        name: name.into(),
        owner,
        event_id: id,
        active: true,
        dehydrated: false,
        content: BoxContent { text: text.into(), objects: Vec::new(), metadata: json(metadata) },
    };
    let boxes = vec![
        state(1, "Kennedy system prompt", BoxOwner::System, "prompt", "{}"),
        state(2, "User message", BoxOwner::User, "question", r#"{"externalEventId":"e"}"#),
        state(3, "Kennedy message", BoxOwner::Kennedy, "answer", r#"{"externalEventId":"e"}"#),
        state(4, "Kennedy tool call: X", BoxOwner::Kennedy, "call", "{}"),
    ];
    let entries = transcript_from_journal(&boxes);
    let roles: Vec<_> = entries.iter().map(|entry| entry.text_at("role").unwrap()).collect();
    assert_eq!(roles, vec!["user", "kennedy"]);
    assert_eq!(answer_for_external_event(&entries, "e"), Some(1));
    assert_eq!(answer_for_external_event(&entries, "f"), None);
    let responses = responses_for_external_event(&entries, "e");
    assert_eq!(responses.len(), 1);
    assert_eq!(responses[0].text_at("content"), Some("answer"));
}
