//! The stored state of a session: what is written down, and what it brings back.

use crate::json;
use crate::json::{Json, JsonView};
use crate::session;
use crate::session::SessionSetup;
use crate::text;
use crate::text::Failure;
use crate::turns::TurnState;
use vstd::prelude::*;

verus! {

/// What the journal and the context say of a session when its state is written down.
#[derive(Debug)]
pub struct JournalParts {
    pub metadata: Json,
    pub session_object_id: Option<String>,
    pub transcript: Vec<Json>,
    pub kweb_plan: Json,
    pub box_count: u64,
    pub event_count: u64,
    pub boxes: Json,
    pub events: Json,
    pub context: Json,
    pub status: Json,
    pub chatend_text: String,
}

/// An optional text as a document.
pub open spec fn optional(value: Option<Seq<char>>) -> JsonView {
    match value {
        Some(found) => JsonView::Text(found),
        None => JsonView::Null,
    }
}

/// The part of a stored state that tells of the journal.
pub open spec fn journal_part(
    setup: SessionSetup,
    turn: TurnState,
    parts: JournalParts,
    model: Seq<char>,
) -> JsonView {
    JsonView::Object(Map::empty()).with("format"@, JsonView::Text("kennedy-chatend"@)).with(
        "version"@,
        JsonView::Integer(1),
    ).with("stateVersion"@, JsonView::Integer(3)).with("chatendMetadata"@, parts.metadata@).with(
        "provenanceId"@,
        optional(setup.options.provenance_id.deep_view()),
    ).with("rootNodeIds"@, json::text_list(setup.options.root_node_ids.deep_view())).with(
        "referenceRootNodeIds"@,
        json::text_list(setup.options.reference_root_node_ids.deep_view()),
    ).with("transcript"@, JsonView::Array(json::values_of(parts.transcript@))).with(
        "completed"@,
        JsonView::Bool(turn.completed),
    ).with("sessionObjectId"@, optional(parts.session_object_id.deep_view())).with(
        "providerModel"@,
        JsonView::Text(model),
    ).with("boxCount"@, JsonView::Integer(parts.box_count as int)).with(
        "eventCount"@,
        JsonView::Integer(parts.event_count as int),
    ).with("boxes"@, parts.boxes@).with("events"@, parts.events@).with(
        "context"@,
        parts.context@,
    ).with("sessionStatus"@, parts.status@).with(
        "chatendText"@,
        JsonView::Text(parts.chatend_text@),
    )
}

/// The stored state of a session.
pub open spec fn stored_state(
    setup: SessionSetup,
    turn: TurnState,
    parts: JournalParts,
    model: Seq<char>,
) -> JsonView {
    journal_part(setup, turn, parts, model).with("sessionId"@, JsonView::Text(setup.session_id@)).with(
        "sessionType"@,
        JsonView::Text(setup.options.session_type@),
    ).with("sourceSessionType"@, optional(setup.source_session_type.deep_view())).with(
        "channel"@,
        setup.options.channel@,
    ).with("freeTime"@, turn.free_time@).with("orchestration"@, turn.orchestration@).with(
        "rustLibSessionId"@,
        JsonView::Text(setup.rust_lib_session_id@),
    ).with("startedAt"@, JsonView::Text(setup.started_at@)).with(
        "pendingTurn"@,
        JsonView::Bool(turn.pending_turn),
    ).with("pendingExternalEventId"@, optional(turn.pending_external_event_id.deep_view())).with(
        "roundsUsed"@,
        JsonView::Integer(turn.rounds_used as int),
    ).with(
        "commitReceipt"@,
        match setup.commit_receipt {
            Some(receipt) => receipt@,
            None => JsonView::Null,
        },
    ).with("commitAuthor"@, JsonView::Text(setup.commit_author@)).with(
        "kwebPlan"@,
        parts.kweb_plan@,
    )
}

fn optional_value(value: &Option<String>) -> (result: Json)
    ensures
        result@ == optional(value.deep_view()),
{
    match value {
        Some(found) => Json::text(found.as_str()),
        None => Json::Null,
    }
}

fn copied_entries(entries: &Vec<Json>) -> (copies: Vec<Json>)
    ensures
        json::values_of(copies@) == json::values_of(entries@),
{
    let mut copies: Vec<Json> = Vec::new();
    let mut i: usize = 0;
    while i < entries.len()
        invariant
            i <= entries.len(),
            copies.len() == i,
            forall|j: int|
                0 <= j < i ==> json::value_of(#[trigger] copies@[j]) == json::value_of(entries@[j]),
        decreases entries.len() - i,
    {
        copies.push(entries[i].clone());
        i = i + 1;
    }
    proof {
        json::values_at(copies@);
        json::values_at(entries@);
        assert(json::values_of(copies@) =~= json::values_of(entries@));
    }
    copies
}

/// The stored state of a session.
pub fn snapshot(setup: &SessionSetup, turn: &TurnState, parts: JournalParts, model: &str) -> (state:
    Json)
    ensures
        state@ == stored_state(*setup, *turn, parts, model@),
{
    let journal = Json::object().with("format", Json::text("kennedy-chatend")).with(
        "version",
        Json::unsigned(1),
    ).with("stateVersion", Json::unsigned(3)).with("chatendMetadata", parts.metadata).with(
        "provenanceId",
        optional_value(&setup.options.provenance_id),
    ).with("rootNodeIds", Json::texts(&setup.options.root_node_ids)).with(
        "referenceRootNodeIds",
        Json::texts(&setup.options.reference_root_node_ids),
    ).with("transcript", Json::array(copied_entries(&parts.transcript))).with(
        "completed",
        Json::Bool(turn.completed),
    ).with("sessionObjectId", optional_value(&parts.session_object_id)).with(
        "providerModel",
        Json::text(model),
    ).with("boxCount", Json::unsigned(parts.box_count)).with(
        "eventCount",
        Json::unsigned(parts.event_count),
    ).with("boxes", parts.boxes).with("events", parts.events).with("context", parts.context).with(
        "sessionStatus",
        parts.status,
    ).with("chatendText", Json::text(parts.chatend_text.as_str()));
    journal.with("sessionId", Json::text(setup.session_id.as_str())).with(
        "sessionType",
        Json::text(setup.options.session_type.as_str()),
    ).with("sourceSessionType", optional_value(&setup.source_session_type)).with(
        "channel",
        setup.options.channel.clone(),
    ).with("freeTime", turn.free_time.clone()).with(
        "orchestration",
        turn.orchestration.clone(),
    ).with("rustLibSessionId", Json::text(setup.rust_lib_session_id.as_str())).with(
        "startedAt",
        Json::text(setup.started_at.as_str()),
    ).with("pendingTurn", Json::Bool(turn.pending_turn)).with(
        "pendingExternalEventId",
        optional_value(&turn.pending_external_event_id),
    ).with("roundsUsed", Json::unsigned(turn.rounds_used)).with(
        "commitReceipt",
        match &setup.commit_receipt {
            Some(receipt) => receipt.clone(),
            None => Json::Null,
        },
    ).with("commitAuthor", Json::text(setup.commit_author.as_str())).with(
        "kwebPlan",
        parts.kweb_plan,
    )
}

/// The keys under which a stored state keeps what it brings back are all different.
proof fn stored_keys_differ()
    ensures
        all_differ(),
{
    reveal_strlit("sessionId");
    reveal_strlit("sessionType");
    reveal_strlit("sourceSessionType");
    reveal_strlit("channel");
    reveal_strlit("freeTime");
    reveal_strlit("orchestration");
    reveal_strlit("rustLibSessionId");
    reveal_strlit("startedAt");
    reveal_strlit("pendingTurn");
    reveal_strlit("pendingExternalEventId");
    reveal_strlit("roundsUsed");
    reveal_strlit("commitReceipt");
    reveal_strlit("commitAuthor");
    reveal_strlit("kwebPlan");
    assert("sessionId"@[1] != "startedAt"@[1]);
    assert("sessionType"@[0] != "pendingTurn"@[0]);
    assert("freeTime"@[0] != "kwebPlan"@[0]);
    assert("orchestration"@[0] != "commitReceipt"@[0]);
    assert("sessionId"@.len() == 9);
    assert("sessionType"@.len() == 11);
    assert("sourceSessionType"@.len() == 17);
    assert("channel"@.len() == 7);
    assert("freeTime"@.len() == 8);
    assert("orchestration"@.len() == 13);
    assert("rustLibSessionId"@.len() == 16);
    assert("startedAt"@.len() == 9);
    assert("pendingTurn"@.len() == 11);
    assert("pendingExternalEventId"@.len() == 22);
    assert("roundsUsed"@.len() == 10);
    assert("commitReceipt"@.len() == 13);
    assert("commitAuthor"@.len() == 12);
    assert("kwebPlan"@.len() == 8);
}

/// Whether the keys that are read back are all different.
spec fn all_differ() -> bool {
    &&& "sessionId"@ != "sessionType"@
    &&& "sessionId"@ != "sourceSessionType"@
    &&& "sessionId"@ != "channel"@
    &&& "sessionId"@ != "freeTime"@
    &&& "sessionId"@ != "orchestration"@
    &&& "sessionId"@ != "rustLibSessionId"@
    &&& "sessionId"@ != "startedAt"@
    &&& "sessionId"@ != "pendingTurn"@
    &&& "sessionId"@ != "pendingExternalEventId"@
    &&& "sessionId"@ != "roundsUsed"@
    &&& "sessionId"@ != "commitReceipt"@
    &&& "sessionId"@ != "commitAuthor"@
    &&& "sessionId"@ != "kwebPlan"@
    &&& "sessionType"@ != "sourceSessionType"@
    &&& "sessionType"@ != "channel"@
    &&& "sessionType"@ != "freeTime"@
    &&& "sessionType"@ != "orchestration"@
    &&& "sessionType"@ != "rustLibSessionId"@
    &&& "sessionType"@ != "startedAt"@
    &&& "sessionType"@ != "pendingTurn"@
    &&& "sessionType"@ != "pendingExternalEventId"@
    &&& "sessionType"@ != "roundsUsed"@
    &&& "sessionType"@ != "commitReceipt"@
    &&& "sessionType"@ != "commitAuthor"@
    &&& "sessionType"@ != "kwebPlan"@
    &&& "sourceSessionType"@ != "channel"@
    &&& "sourceSessionType"@ != "freeTime"@
    &&& "sourceSessionType"@ != "orchestration"@
    &&& "sourceSessionType"@ != "rustLibSessionId"@
    &&& "sourceSessionType"@ != "startedAt"@
    &&& "sourceSessionType"@ != "pendingTurn"@
    &&& "sourceSessionType"@ != "pendingExternalEventId"@
    &&& "sourceSessionType"@ != "roundsUsed"@
    &&& "sourceSessionType"@ != "commitReceipt"@
    &&& "sourceSessionType"@ != "commitAuthor"@
    &&& "sourceSessionType"@ != "kwebPlan"@
    &&& "channel"@ != "freeTime"@
    &&& "channel"@ != "orchestration"@
    &&& "channel"@ != "rustLibSessionId"@
    &&& "channel"@ != "startedAt"@
    &&& "channel"@ != "pendingTurn"@
    &&& "channel"@ != "pendingExternalEventId"@
    &&& "channel"@ != "roundsUsed"@
    &&& "channel"@ != "commitReceipt"@
    &&& "channel"@ != "commitAuthor"@
    &&& "channel"@ != "kwebPlan"@
    &&& "freeTime"@ != "orchestration"@
    &&& "freeTime"@ != "rustLibSessionId"@
    &&& "freeTime"@ != "startedAt"@
    &&& "freeTime"@ != "pendingTurn"@
    &&& "freeTime"@ != "pendingExternalEventId"@
    &&& "freeTime"@ != "roundsUsed"@
    &&& "freeTime"@ != "commitReceipt"@
    &&& "freeTime"@ != "commitAuthor"@
    &&& "freeTime"@ != "kwebPlan"@
    &&& "orchestration"@ != "rustLibSessionId"@
    &&& "orchestration"@ != "startedAt"@
    &&& "orchestration"@ != "pendingTurn"@
    &&& "orchestration"@ != "pendingExternalEventId"@
    &&& "orchestration"@ != "roundsUsed"@
    &&& "orchestration"@ != "commitReceipt"@
    &&& "orchestration"@ != "commitAuthor"@
    &&& "orchestration"@ != "kwebPlan"@
    &&& "rustLibSessionId"@ != "startedAt"@
    &&& "rustLibSessionId"@ != "pendingTurn"@
    &&& "rustLibSessionId"@ != "pendingExternalEventId"@
    &&& "rustLibSessionId"@ != "roundsUsed"@
    &&& "rustLibSessionId"@ != "commitReceipt"@
    &&& "rustLibSessionId"@ != "commitAuthor"@
    &&& "rustLibSessionId"@ != "kwebPlan"@
    &&& "startedAt"@ != "pendingTurn"@
    &&& "startedAt"@ != "pendingExternalEventId"@
    &&& "startedAt"@ != "roundsUsed"@
    &&& "startedAt"@ != "commitReceipt"@
    &&& "startedAt"@ != "commitAuthor"@
    &&& "startedAt"@ != "kwebPlan"@
    &&& "pendingTurn"@ != "pendingExternalEventId"@
    &&& "pendingTurn"@ != "roundsUsed"@
    &&& "pendingTurn"@ != "commitReceipt"@
    &&& "pendingTurn"@ != "commitAuthor"@
    &&& "pendingTurn"@ != "kwebPlan"@
    &&& "pendingExternalEventId"@ != "roundsUsed"@
    &&& "pendingExternalEventId"@ != "commitReceipt"@
    &&& "pendingExternalEventId"@ != "commitAuthor"@
    &&& "pendingExternalEventId"@ != "kwebPlan"@
    &&& "roundsUsed"@ != "commitReceipt"@
    &&& "roundsUsed"@ != "commitAuthor"@
    &&& "roundsUsed"@ != "kwebPlan"@
    &&& "commitReceipt"@ != "commitAuthor"@
    &&& "commitReceipt"@ != "kwebPlan"@
    &&& "commitAuthor"@ != "kwebPlan"@
}

/// A session that goes on from its own stored state is the same session: everything
/// that is read back from the state is what was written into it.
pub proof fn stored_states_are_read_back(
    setup: SessionSetup,
    turn: TurnState,
    parts: JournalParts,
    model: Seq<char>,
)
    ensures
        ({
            let state = stored_state(setup, turn, parts, model);
            &&& session::stored_text(Some(state), "sessionId"@) == Some(setup.session_id@)
            &&& session::stored_text(Some(state), "sessionType"@) == Some(
                setup.options.session_type@,
            )
            &&& session::stored_text(Some(state), "sourceSessionType"@)
                == setup.source_session_type.deep_view()
            &&& session::member_or(Some(state), "channel"@, JsonView::Null)
                == setup.options.channel@
            &&& session::member_or(Some(state), "freeTime"@, JsonView::Null) == turn.free_time@
            &&& session::member_or(Some(state), "orchestration"@, JsonView::Null)
                == turn.orchestration@
            &&& session::stored_text(Some(state), "rustLibSessionId"@) == Some(
                setup.rust_lib_session_id@,
            )
            &&& session::stored_text(Some(state), "startedAt"@) == Some(setup.started_at@)
            &&& state.bool_at("pendingTurn"@) == Some(turn.pending_turn)
            &&& session::stored_text(Some(state), "pendingExternalEventId"@)
                == turn.pending_external_event_id.deep_view()
            &&& state.u64_at("roundsUsed"@) == Some(turn.rounds_used)
            &&& session::stored_text(Some(state), "commitAuthor"@) == Some(setup.commit_author@)
            &&& state.get("kwebPlan"@) == Some(parts.kweb_plan@)
            &&& session::stored_receipt(Some(state)) == match setup.commit_receipt {
                Some(receipt) => if receipt@ is Null {
                    None
                } else {
                    Some(receipt@)
                },
                None => None::<JsonView>,
            }
        }),
{
    stored_keys_differ();
}

/// A stored plan among the recorded changes: the last one that holds a plan.
pub open spec fn last_plan(operations: Seq<JsonView>) -> Option<JsonView>
    decreases operations.len(),
{
    if operations.len() == 0 {
        None
    } else {
        match operations.last().get("plan"@) {
            Some(plan) => Some(plan),
            None => last_plan(operations.drop_last()),
        }
    }
}

/// The document from which a session's staged edits are restored: the stored state's
/// own, or else the last among the recorded changes.
pub fn stored_plan(restored: Option<&Json>, operations: &Vec<Json>) -> (plan: Option<Json>)
    ensures
        plan.deep_view() == match restored.deep_view() {
            Some(state) => match state.get("kwebPlan"@) {
                Some(plan) => Some(plan),
                None => last_plan(json::values_of(operations@)),
            },
            None => last_plan(json::values_of(operations@)),
        },
{
    if let Some(state) = restored {
        if let Some(plan) = state.get("kwebPlan") {
            return Some(plan.clone());
        }
    }
    last_recorded_plan(operations)
}

fn last_recorded_plan(operations: &Vec<Json>) -> (plan: Option<Json>)
    ensures
        plan.deep_view() == last_plan(json::values_of(operations@)),
{
    let ghost views = json::values_of(operations@);
    proof {
        json::values_at(operations@);
    }
    let mut i: usize = operations.len();
    assert(views.take(i as int) =~= views);
    while i > 0
        invariant
            i <= operations.len(),
            views == json::values_of(operations@),
            views.len() == operations.len(),
            forall|j: int| 0 <= j < operations.len() ==> views[j] == json::value_of(operations@[j]),
            last_plan(views) == last_plan(views.take(i as int)),
        decreases i,
    {
        assert(views.take(i as int).drop_last() =~= views.take(i - 1));
        if let Some(plan) = operations[i - 1].get("plan") {
            return Some(plan.clone());
        }
        i = i - 1;
    }
    None
}

/// A recorded call of a tool.
#[derive(Debug)]
pub struct RecordedCall {
    pub tool_name: String,
    pub arguments: Json,
}

/// The nodes that a recorded call loaded.
pub open spec fn loaded_by(call: RecordedCall) -> Seq<Seq<char>> {
    if call.tool_name@ == "LoadNodes"@ {
        match call.arguments@.array_at("identifiers"@) {
            Some(items) => json::texts_among(items),
            None => Seq::empty(),
        }
    } else if call.tool_name@ == "LoadNode"@ {
        match call.arguments@.text_at("identifier"@) {
            Some(id) => seq![id],
            None => Seq::empty(),
        }
    } else {
        Seq::empty()
    }
}

/// The nodes that the recorded calls loaded, in order.
pub open spec fn loaded_by_all(calls: Seq<RecordedCall>) -> Seq<Seq<char>>
    decreases calls.len(),
{
    if calls.len() == 0 {
        Seq::empty()
    } else {
        loaded_by_all(calls.drop_last()) + loaded_by(calls.last())
    }
}

fn find_loaded(call: &RecordedCall) -> (ids: Vec<String>)
    ensures
        ids.deep_view() == loaded_by(*call),
{
    let mut ids: Vec<String> = Vec::new();
    assert(ids.deep_view() =~= Seq::empty());
    if *call.tool_name.as_str() == *"LoadNodes" {
        if let Some(items) = call.arguments.array_at("identifiers") {
            return json::texts_in(items);
        }
    } else if *call.tool_name.as_str() == *"LoadNode" {
        if let Some(id) = call.arguments.text_at("identifier") {
            ids.push(id.to_owned());
            assert(ids.deep_view() =~= seq![id@]);
        }
    }
    ids
}

/// The nodes that a restored session has loaded itself: those of its recorded calls,
/// or its roots where there are none.
pub fn directly_loaded(calls: &Vec<RecordedCall>, roots: &Vec<String>) -> (ids: Vec<String>)
    ensures
        ids.deep_view() == if loaded_by_all(calls@).len() == 0 {
            roots.deep_view()
        } else {
            loaded_by_all(calls@)
        },
{
    let mut ids: Vec<String> = Vec::new();
    assert(ids.deep_view() =~= Seq::empty());
    let mut i: usize = 0;
    while i < calls.len()
        invariant
            i <= calls.len(),
            ids.deep_view() == loaded_by_all(calls@.take(i as int)),
        decreases calls.len() - i,
    {
        assert(calls@.take(i + 1).drop_last() =~= calls@.take(i as int));
        let mut found = find_loaded(&calls[i]);
        let ghost before = ids.deep_view();
        let ghost more = found.deep_view();
        ids.append(&mut found);
        assert(ids.deep_view() =~= before + more);
        i = i + 1;
    }
    assert(calls@.take(calls.len() as int) =~= calls@);
    if ids.len() == 0 {
        return text::copied(roots);
    }
    ids
}

/// One item of the context, as it is shown.
#[derive(Debug)]
pub struct ContextItem {
    pub box_id: u64,
    pub marker: bool,
    pub text: String,
}

/// The text of the last item of a box that is no marker.
pub open spec fn shown_text(items: Seq<ContextItem>, id: u64) -> Option<Seq<char>>
    decreases items.len(),
{
    if items.len() == 0 {
        None
    } else if !items.last().marker && items.last().box_id == id {
        Some(items.last().text@)
    } else {
        shown_text(items.drop_last(), id)
    }
}

/// The texts of the changed boxes, or the first that is not in the context.
pub open spec fn shown_texts(items: Seq<ContextItem>, ids: Seq<u64>) -> Result<
    Seq<Seq<char>>,
    Seq<char>,
>
    decreases ids.len(),
{
    if ids.len() == 0 {
        Ok(Seq::empty())
    } else {
        match shown_texts(items, ids.drop_last()) {
            Err(message) => Err(message),
            Ok(texts) => match shown_text(items, ids.last()) {
                Some(found) => Ok(texts.push(found)),
                None => Err(
                    "updated Kweb box "@ + text::digits(ids.last() as nat)
                        + " is absent from the projection"@,
                ),
            },
        }
    }
}

proof fn shown_texts_refuse(items: Seq<ContextItem>, ids: Seq<u64>, n: int)
    requires
        0 <= n <= ids.len(),
        shown_texts(items, ids.take(n)) is Err,
    ensures
        shown_texts(items, ids) == shown_texts(items, ids.take(n)),
    decreases ids.len(),
{
    if n < ids.len() {
        assert(ids.drop_last().take(n) =~= ids.take(n));
        shown_texts_refuse(items, ids.drop_last(), n);
    } else {
        assert(ids.take(n) =~= ids);
    }
}

fn find_shown<'a>(items: &'a Vec<ContextItem>, id: u64) -> (found: Option<&'a str>)
    ensures
        found.deep_view() == shown_text(items@, id),
{
    let mut i: usize = items.len();
    assert(items@.take(i as int) =~= items@);
    while i > 0
        invariant
            i <= items.len(),
            shown_text(items@, id) == shown_text(items@.take(i as int), id),
        decreases i,
    {
        assert(items@.take(i as int).drop_last() =~= items@.take(i - 1));
        if !items[i - 1].marker && items[i - 1].box_id == id {
            return Some(items[i - 1].text.as_str());
        }
        i = i - 1;
    }
    None
}

/// The report of loaded nodes: the boxes that changed, as the context shows them.
pub open spec fn load_report(items: Seq<ContextItem>, changed: Seq<u64>) -> Result<
    Seq<char>,
    Seq<char>,
> {
    if changed.len() == 0 {
        Ok("LoadNodes completed. The shared Kweb boxes were already current."@)
    } else {
        match shown_texts(items, changed) {
            Err(message) => Err(message),
            Ok(texts) => Ok(text::joined(texts, "\n\n"@)),
        }
    }
}

/// The report of loaded nodes: the boxes that changed, as the context shows them.
pub fn render_load_nodes_result(items: &Vec<ContextItem>, changed: &Vec<u64>) -> (result: Result<
    String,
    Failure,
>)
    ensures
        text::seen(result) == load_report(items@, changed@),
{
    if changed.len() == 0 {
        return Ok(
            "LoadNodes completed. The shared Kweb boxes were already current.".to_owned(),
        );
    }
    let mut texts: Vec<String> = Vec::new();
    assert(texts.deep_view() =~= Seq::empty());
    let mut i: usize = 0;
    while i < changed.len()
        invariant
            changed.len() > 0,
            i <= changed.len(),
            shown_texts(items@, changed@.take(i as int)) == Ok::<Seq<Seq<char>>, Seq<char>>(
                texts.deep_view(),
            ),
        decreases changed.len() - i,
    {
        assert(changed@.take(i + 1).drop_last() =~= changed@.take(i as int));
        match find_shown(items, changed[i]) {
            Some(found) => {
                let ghost before = texts.deep_view();
                texts.push(found.to_owned());
                assert(texts.deep_view() =~= before.push(found@));
            },
            None => {
                let mut message = "updated Kweb box ".to_owned();
                message.append(text::decimal(changed[i] as u128).as_str());
                message.append(" is absent from the projection");
                proof {
                    shown_texts_refuse(items@, changed@, i + 1);
                }
                return Err(Failure::new(message));
            },
        }
        i = i + 1;
    }
    assert(changed@.take(changed.len() as int) =~= changed@);
    Ok(text::join(&texts, "\n\n"))
}

/// The plan that is restored from the operations is the last one among them.
pub proof fn the_last_plan_is_restored(operations: Seq<JsonView>, at: int)
    ensures
        0 <= at < operations.len() && operations[at].get("plan"@) is Some && (forall|i: int|
            at < i < operations.len() ==> (#[trigger] operations[i]).get("plan"@) is None)
            ==> last_plan(operations) == operations[at].get("plan"@),
        (forall|i: int|
            0 <= i < operations.len() ==> (#[trigger] operations[i]).get("plan"@) is None)
            ==> last_plan(operations) is None,
    decreases operations.len(),
{
    if operations.len() > 0 {
        let rest = operations.drop_last();
        the_last_plan_is_restored(rest, at);
        assert(operations[operations.len() - 1] == operations.last());
    }
}

/// The nodes that calls loaded are those that each named, call by call: a list for one
/// tool, a single node for the other, and none for the rest.
pub proof fn calls_load_what_they_name(
    calls: Seq<RecordedCall>,
    call: RecordedCall,
    items: Seq<JsonView>,
    id: Seq<char>,
)
    ensures
        call.tool_name@ == "LoadNodes"@ && call.arguments@.array_at("identifiers"@) == Some(items)
            ==> loaded_by_all(calls.push(call)) == loaded_by_all(calls) + items.filter_map(
            |item: JsonView|
                match item {
                    JsonView::Text(text) => Some(text),
                    _ => None,
                },
        ),
        call.tool_name@ == "LoadNode"@ && call.arguments@.text_at("identifier"@) == Some(id)
            ==> loaded_by_all(calls.push(call)) == loaded_by_all(calls).push(id),
        call.tool_name@ != "LoadNodes"@ && call.tool_name@ != "LoadNode"@ ==> loaded_by_all(
            calls.push(call),
        ) == loaded_by_all(calls),
        loaded_by_all(Seq::empty()) == Seq::<Seq<char>>::empty(),
{
    reveal_strlit("LoadNodes");
    reveal_strlit("LoadNode");
    assert("LoadNodes"@.len() == 9 && "LoadNode"@.len() == 8);
    assert(calls.push(call).drop_last() =~= calls);
    json::texts_are_picked_in_order(items);
    let before = loaded_by_all(calls);
    assert(before + seq![id] =~= before.push(id));
    assert(before + Seq::<Seq<char>>::empty() =~= before);
}

/// The text that is shown of a box is that of the last item that shows it; markers show
/// nothing.
pub proof fn boxes_show_their_last_text(items: Seq<ContextItem>, id: u64, at: int)
    ensures
        0 <= at < items.len() && !items[at].marker && items[at].box_id == id && (forall|i: int|
            at < i < items.len() ==> (#[trigger] items[i]).marker || items[i].box_id != id)
            ==> shown_text(items, id) == Some(items[at].text@),
        (forall|i: int|
            0 <= i < items.len() ==> (#[trigger] items[i]).marker || items[i].box_id != id)
            ==> shown_text(items, id) is None,
    decreases items.len(),
{
    if items.len() > 0 {
        let rest = items.drop_last();
        boxes_show_their_last_text(rest, id, at);
        assert(items[items.len() - 1] == items.last());
    }
}

/// Loading reports the boxes that it changed, each by what is shown of it, in order; a box
/// that is not shown makes the report fail, and without any it says that all were current.
pub proof fn loads_report_the_changed_boxes(items: Seq<ContextItem>, changed: Seq<u64>)
    ensures
        shown_texts(items, changed) is Ok <==> forall|i: int|
            0 <= i < changed.len() ==> shown_text(items, #[trigger] changed[i]) is Some,
        shown_texts(items, changed) is Ok ==> shown_texts(items, changed)->Ok_0 == Seq::new(
            changed.len(),
            |i: int| shown_text(items, changed[i])->0,
        ),
        changed.len() == 0 ==> load_report(items, changed) == Ok::<Seq<char>, Seq<char>>(
            "LoadNodes completed. The shared Kweb boxes were already current."@,
        ),
        changed.len() > 0 && shown_texts(items, changed) is Ok ==> load_report(items, changed)
            == Ok::<Seq<char>, Seq<char>>(
            text::joined(
                Seq::new(changed.len(), |i: int| shown_text(items, changed[i])->0),
                "\n\n"@,
            ),
        ),
        changed.len() > 0 && shown_texts(items, changed) is Err ==> load_report(items, changed)
            is Err,
    decreases changed.len(),
{
    if changed.len() > 0 {
        let rest = changed.drop_last();
        loads_report_the_changed_boxes(items, rest);
        if shown_texts(items, rest) is Ok {
            assert forall|i: int| 0 <= i < rest.len() implies shown_text(
                items,
                #[trigger] changed[i],
            ) is Some by {
                assert(shown_text(items, rest[i]) is Some);
            }
        } else {
            let k = choose|i: int|
                0 <= i < rest.len() && shown_text(items, #[trigger] rest[i]) is None;
            assert(shown_text(items, changed[k]) is None);
        }
        assert(changed[changed.len() - 1] == changed.last());
        if shown_texts(items, changed) is Ok {
            assert(shown_texts(items, changed)->Ok_0 =~= Seq::new(
                changed.len(),
                |i: int| shown_text(items, changed[i])->0,
            ));
        }
    } else {
        assert(Seq::<Seq<char>>::empty() =~= Seq::new(
            changed.len(),
            |i: int| shown_text(items, changed[i])->0,
        ));
    }
}

/// What a snapshot holds of the journal: its roots, its conversation, its boxes and its
/// events, and the model that it ran on.
pub proof fn snapshots_hold_the_journal(
    setup: SessionSetup,
    turn: TurnState,
    parts: JournalParts,
    model: Seq<char>,
)
    ensures
        ({
            let part = journal_part(setup, turn, parts, model);
            &&& part.text_at("format"@) == Some("kennedy-chatend"@)
            &&& part.u64_at("version"@) == Some(1u64)
            &&& part.u64_at("stateVersion"@) == Some(3u64)
            &&& part.get("chatendMetadata"@) == Some(parts.metadata@)
            &&& part.text_at("provenanceId"@) == setup.options.provenance_id.deep_view()
            &&& part.get("rootNodeIds"@) == Some(
                json::text_list(setup.options.root_node_ids.deep_view()),
            )
            &&& part.get("referenceRootNodeIds"@) == Some(
                json::text_list(setup.options.reference_root_node_ids.deep_view()),
            )
            &&& part.array_at("transcript"@) == Some(json::values_of(parts.transcript@))
            &&& part.bool_at("completed"@) == Some(turn.completed)
            &&& part.text_at("sessionObjectId"@) == parts.session_object_id.deep_view()
            &&& part.text_at("providerModel"@) == Some(model)
            &&& part.u64_at("boxCount"@) == Some(parts.box_count)
            &&& part.u64_at("eventCount"@) == Some(parts.event_count)
            &&& part.get("boxes"@) == Some(parts.boxes@)
            &&& part.get("events"@) == Some(parts.events@)
            &&& part.get("context"@) == Some(parts.context@)
            &&& part.get("sessionStatus"@) == Some(parts.status@)
            &&& part.text_at("chatendText"@) == Some(parts.chatend_text@)
        }),
{
    reveal_strlit("format");
    reveal_strlit("version");
    reveal_strlit("stateVersion");
    reveal_strlit("chatendMetadata");
    reveal_strlit("provenanceId");
    reveal_strlit("rootNodeIds");
    reveal_strlit("referenceRootNodeIds");
    reveal_strlit("transcript");
    reveal_strlit("completed");
    reveal_strlit("sessionObjectId");
    reveal_strlit("providerModel");
    reveal_strlit("boxCount");
    reveal_strlit("eventCount");
    reveal_strlit("boxes");
    reveal_strlit("events");
    reveal_strlit("context");
    reveal_strlit("sessionStatus");
    reveal_strlit("chatendText");
    assert("format"@.len() == 6 && "format"@[0] == 'f');
    assert("version"@.len() == 7 && "version"@[0] == 'v');
    assert("stateVersion"@.len() == 12 && "stateVersion"@[0] == 's');
    assert("chatendMetadata"@.len() == 15 && "chatendMetadata"@[0] == 'c');
    assert("provenanceId"@.len() == 12 && "provenanceId"@[0] == 'p');
    assert("rootNodeIds"@.len() == 11 && "rootNodeIds"@[0] == 'r');
    assert("referenceRootNodeIds"@.len() == 20);
    assert("transcript"@.len() == 10 && "transcript"@[0] == 't');
    assert("completed"@.len() == 9);
    assert("sessionObjectId"@.len() == 15 && "sessionObjectId"@[0] == 's');
    assert("providerModel"@.len() == 13 && "providerModel"@[0] == 'p');
    assert("boxCount"@.len() == 8);
    assert("eventCount"@.len() == 10 && "eventCount"@[0] == 'e');
    assert("boxes"@.len() == 5);
    assert("events"@.len() == 6 && "events"@[0] == 'e');
    assert("context"@.len() == 7 && "context"@[0] == 'c');
    assert("sessionStatus"@.len() == 13 && "sessionStatus"@[0] == 's');
    assert("chatendText"@.len() == 11 && "chatendText"@[0] == 'c');
}

/// A snapshot keeps the journal's roots and conversation beside what it holds of the
/// session.
pub proof fn snapshots_keep_the_journal(
    setup: SessionSetup,
    turn: TurnState,
    parts: JournalParts,
    model: Seq<char>,
)
    ensures
        ({
            let state = stored_state(setup, turn, parts, model);
            let part = journal_part(setup, turn, parts, model);
            &&& state.get("rootNodeIds"@) == part.get("rootNodeIds"@)
            &&& state.get("transcript"@) == part.get("transcript"@)
            &&& state.get("boxes"@) == part.get("boxes"@)
            &&& state.get("events"@) == part.get("events"@)
            &&& state.get("chatendText"@) == part.get("chatendText"@)
            &&& setup.commit_receipt is Some ==> state.get("commitReceipt"@) == Some(
                setup.commit_receipt->0@,
            )
            &&& setup.commit_receipt is None ==> state.get("commitReceipt"@) == Some(JsonView::Null)
        }),
{
    reveal_strlit("rootNodeIds");
    reveal_strlit("transcript");
    reveal_strlit("boxes");
    reveal_strlit("events");
    reveal_strlit("chatendText");
    reveal_strlit("sessionId");
    reveal_strlit("sessionType");
    reveal_strlit("sourceSessionType");
    reveal_strlit("channel");
    reveal_strlit("freeTime");
    reveal_strlit("orchestration");
    reveal_strlit("rustLibSessionId");
    reveal_strlit("startedAt");
    reveal_strlit("pendingTurn");
    reveal_strlit("pendingExternalEventId");
    reveal_strlit("roundsUsed");
    reveal_strlit("commitReceipt");
    reveal_strlit("commitAuthor");
    reveal_strlit("kwebPlan");
    assert("rootNodeIds"@.len() == 11 && "rootNodeIds"@[0] == 'r');
    assert("transcript"@.len() == 10 && "transcript"@[0] == 't');
    assert("boxes"@.len() == 5);
    assert("events"@.len() == 6);
    assert("chatendText"@.len() == 11 && "chatendText"@[0] == 'c');
    assert("sessionId"@.len() == 9 && "sessionId"@[1] == 'e');
    assert("sessionType"@.len() == 11 && "sessionType"@[0] == 's');
    assert("sourceSessionType"@.len() == 17);
    assert("channel"@.len() == 7);
    assert("freeTime"@.len() == 8 && "freeTime"@[0] == 'f');
    assert("orchestration"@.len() == 13 && "orchestration"@[0] == 'o');
    assert("rustLibSessionId"@.len() == 16);
    assert("startedAt"@.len() == 9 && "startedAt"@[1] == 't');
    assert("pendingTurn"@.len() == 11 && "pendingTurn"@[0] == 'p');
    assert("pendingExternalEventId"@.len() == 22);
    assert("roundsUsed"@.len() == 10 && "roundsUsed"@[0] == 'r');
    assert("commitReceipt"@.len() == 13 && "commitReceipt"@[0] == 'c');
    assert("commitAuthor"@.len() == 12);
    assert("kwebPlan"@.len() == 8 && "kwebPlan"@[0] == 'k');
}

} // verus!
