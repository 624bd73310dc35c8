//! What a subagent is shown of the session that runs it, and what it may do there.

use crate::arguments::ToolCall;
use crate::json;
use crate::json::{Json, JsonView};
use crate::text;
use crate::text::Failure;
use crate::transcript::{BoxOwner, BoxState};
use vstd::prelude::*;

verus! {

/// The version of a box before a tool ran.
#[derive(Clone, Copy, Debug, PartialEq, Eq)]
pub struct BoxVersion {
    pub id: u64,
    pub event_id: u64,
    pub active: bool,
    pub tool_owned: bool,
    pub dehydrated: bool,
}

/// A box that changed while a tool ran.
#[derive(Debug)]
pub struct ChangedState {
    pub box_id: u64,
    pub name: String,
    /// The text that the box now holds; none where it holds none, or is no tool's any
    /// more.
    pub text: Option<String>,
    pub hide_from_parent: bool,
}

/// The mathematical value of a changed box.
pub struct ChangeView {
    pub box_id: u64,
    pub name: Seq<char>,
    pub text: Option<Seq<char>>,
    pub hide_from_parent: bool,
}

impl DeepView for ChangedState {
    type V = ChangeView;

    open spec fn deep_view(&self) -> ChangeView {
        ChangeView {
            box_id: self.box_id,
            name: self.name@,
            text: self.text.deep_view(),
            hide_from_parent: self.hide_from_parent,
        }
    }
}

/// The version of a box as it is now.
pub open spec fn version_of(state: BoxState) -> BoxVersion {
    BoxVersion {
        id: state.id,
        event_id: state.event_id,
        active: state.active,
        tool_owned: state.owner is Tool,
        dehydrated: state.dehydrated,
    }
}

fn owned_by_tool(state: &BoxState) -> (yes: bool)
    ensures
        yes == (state.owner is Tool),
{
    matches!(state.owner, BoxOwner::Tool { .. })
}

/// The versions of all boxes.
pub fn canonical_box_versions(boxes: &Vec<BoxState>) -> (versions: Vec<BoxVersion>)
    ensures
        versions@ == boxes@.map_values(|state: BoxState| version_of(state)),
{
    let mut versions: Vec<BoxVersion> = Vec::new();
    let mut i: usize = 0;
    while i < boxes.len()
        invariant
            i <= boxes.len(),
            versions.len() == i,
            forall|j: int| 0 <= j < i ==> (#[trigger] versions@[j]) == version_of(boxes@[j]),
        decreases boxes.len() - i,
    {
        let state = &boxes[i];
        versions.push(
            BoxVersion {
                id: state.id,
                event_id: state.event_id,
                active: state.active,
                tool_owned: owned_by_tool(state),
                dehydrated: state.dehydrated,
            },
        );
        i = i + 1;
    }
    assert(versions@ =~= boxes@.map_values(|state: BoxState| version_of(state)));
    versions
}

/// The version of the box called `id`, from place `i` on.
pub open spec fn version_at(versions: Seq<BoxVersion>, id: u64, i: int) -> Option<BoxVersion>
    decreases versions.len() - i,
{
    if i < 0 || i >= versions.len() {
        None
    } else if versions[i].id == id {
        Some(versions[i])
    } else {
        version_at(versions, id, i + 1)
    }
}

fn find_version(versions: &Vec<BoxVersion>, id: u64) -> (found: Option<BoxVersion>)
    ensures
        found == version_at(versions@, id, 0),
{
    let mut i: usize = 0;
    while i < versions.len()
        invariant
            i <= versions.len(),
            version_at(versions@, id, 0) == version_at(versions@, id, i as int),
        decreases versions.len() - i,
    {
        if versions[i].id == id {
            return Some(versions[i]);
        }
        i = i + 1;
    }
    None
}

/// How a box changed: only boxes that are a tool's, or were one's, count.
pub open spec fn change_of(state: BoxState, prior: Option<BoxVersion>) -> Option<ChangeView> {
    let owned = state.owner is Tool;
    let concerns = owned || (prior is Some && prior->0.tool_owned);
    let changed = prior is None || prior->0.event_id != state.event_id || prior->0.active
        != state.active || prior->0.tool_owned != owned;
    if concerns && changed {
        Some(
            ChangeView {
                box_id: state.id,
                name: state.name@,
                text: if owned && state.content.text@.len() > 0 {
                    Some(state.content.text@)
                } else {
                    None
                },
                hide_from_parent: prior is None || prior->0.dehydrated || !prior->0.active,
            },
        )
    } else {
        None
    }
}

/// The changes of some boxes, in order.
pub open spec fn changes_of(boxes: Seq<BoxState>, previous: Seq<BoxVersion>) -> Seq<ChangeView>
    decreases boxes.len(),
{
    if boxes.len() == 0 {
        Seq::empty()
    } else {
        let before = changes_of(boxes.drop_last(), previous);
        match change_of(boxes.last(), version_at(previous, boxes.last().id, 0)) {
            Some(change) => before.push(change),
            None => before,
        }
    }
}

fn find_change(state: &BoxState, prior: Option<BoxVersion>) -> (change: Option<ChangedState>)
    ensures
        change.deep_view() == change_of(*state, prior),
{
    let owned = owned_by_tool(state);
    let (concerned, changed, hide) = match prior {
        None => (owned, true, true),
        Some(prior) => (
            owned || prior.tool_owned,
            prior.event_id != state.event_id || prior.active != state.active || prior.tool_owned
                != owned,
            prior.dehydrated || !prior.active,
        ),
    };
    if !(concerned && changed) {
        return None;
    }
    let text = if owned && !state.content.text.as_str().is_empty() {
        Some(state.content.text.clone())
    } else {
        None
    };
    Some(ChangedState { box_id: state.id, name: state.name.clone(), text, hide_from_parent: hide })
}

/// The boxes of tools that changed since `previous`.
pub fn changed_subagent_tool_states(boxes: &Vec<BoxState>, previous: &Vec<BoxVersion>) -> (changes:
    Vec<ChangedState>)
    ensures
        changes.deep_view() == changes_of(boxes@, previous@),
{
    let mut changes: Vec<ChangedState> = Vec::new();
    assert(boxes@.take(0) =~= Seq::empty());
    assert(changes.deep_view() =~= Seq::empty());
    let mut i: usize = 0;
    while i < boxes.len()
        invariant
            i <= boxes.len(),
            changes.deep_view() == changes_of(boxes@.take(i as int), previous@),
        decreases boxes.len() - i,
    {
        assert(boxes@.take(i + 1).drop_last() =~= boxes@.take(i as int));
        let prior = find_version(previous, boxes[i].id);
        let ghost before = changes.deep_view();
        if let Some(change) = find_change(&boxes[i], prior) {
            changes.push(change);
            assert(changes.deep_view() =~= before.push(change.deep_view()));
        }
        i = i + 1;
    }
    assert(boxes@.take(boxes.len() as int) =~= boxes@);
    changes
}

/// A session whose boxes are as they were has no changes to tell a subagent.
pub proof fn unchanged_boxes_are_not_told(boxes: Seq<BoxState>)
    requires
        forall|i: int, j: int|
            0 <= i < j < boxes.len() ==> (#[trigger] boxes[i]).id != (#[trigger] boxes[j]).id,
    ensures
        changes_of(boxes, boxes.map_values(|state: BoxState| version_of(state)))
            == Seq::<ChangeView>::empty(),
{
    unchanged_prefix(boxes, boxes.len() as int);
    assert(boxes.take(boxes.len() as int) =~= boxes);
}

proof fn unchanged_prefix(boxes: Seq<BoxState>, n: int)
    requires
        0 <= n <= boxes.len(),
        forall|i: int, j: int|
            0 <= i < j < boxes.len() ==> (#[trigger] boxes[i]).id != (#[trigger] boxes[j]).id,
    ensures
        changes_of(boxes.take(n), boxes.map_values(|state: BoxState| version_of(state)))
            == Seq::<ChangeView>::empty(),
    decreases n,
{
    let versions = boxes.map_values(|state: BoxState| version_of(state));
    if n > 0 {
        unchanged_prefix(boxes, n - 1);
        assert(boxes.take(n).drop_last() =~= boxes.take(n - 1));
        version_found(boxes, n - 1, 0);
        assert(change_of(boxes[n - 1], Some(version_of(boxes[n - 1]))) is None);
    }
}

proof fn version_found(boxes: Seq<BoxState>, n: int, i: int)
    requires
        0 <= i <= n < boxes.len(),
        forall|i: int, j: int|
            0 <= i < j < boxes.len() ==> (#[trigger] boxes[i]).id != (#[trigger] boxes[j]).id,
    ensures
        version_at(
            boxes.map_values(|state: BoxState| version_of(state)),
            boxes[n].id,
            i,
        ) == Some(version_of(boxes[n])),
    decreases n - i,
{
    let versions = boxes.map_values(|state: BoxState| version_of(state));
    if i < n {
        assert(boxes[i].id != boxes[n].id);
        assert(versions[i].id == boxes[i].id);
        version_found(boxes, n, i + 1);
    }
}

/// A state that a subagent keeps in view, by its key; none where it is gone.
#[derive(Debug)]
pub struct StateUpdate {
    pub key: String,
    pub text: Option<String>,
}

impl DeepView for StateUpdate {
    type V = (Seq<char>, Option<Seq<char>>);

    open spec fn deep_view(&self) -> (Seq<char>, Option<Seq<char>>) {
        (self.key@, self.text.deep_view())
    }
}

/// The key under which a subagent keeps a box in view.
pub open spec fn state_key(box_id: u64) -> Seq<char> {
    "tool-state:"@ + text::digits(box_id as nat)
}

/// What a subagent is told of a changed box.
pub open spec fn update_of(change: ChangeView) -> (Seq<char>, Option<Seq<char>>) {
    (
        state_key(change.box_id),
        match change.text {
            Some(words) => Some("Current "@ + change.name + ":\n"@ + words),
            None => None,
        },
    )
}

/// What a subagent is told of the changed boxes.
pub fn subagent_state_updates(changes: &Vec<ChangedState>) -> (updates: Vec<StateUpdate>)
    ensures
        updates.deep_view() == changes.deep_view().map_values(|change: ChangeView| update_of(change)),
{
    let mut updates: Vec<StateUpdate> = Vec::new();
    let ghost views = changes.deep_view();
    let mut i: usize = 0;
    while i < changes.len()
        invariant
            i <= changes.len(),
            views == changes.deep_view(),
            updates.len() == i,
            forall|j: int|
                0 <= j < i ==> (#[trigger] updates@[j]).deep_view() == update_of(views[j]),
        decreases changes.len() - i,
    {
        let change = &changes[i];
        let mut key = "tool-state:".to_owned();
        key.append(text::decimal(change.box_id as u128).as_str());
        let told = match &change.text {
            Some(words) => {
                let mut told = "Current ".to_owned();
                told.append(change.name.as_str());
                told.append(":\n");
                told.append(words.as_str());
                Some(told)
            },
            None => None,
        };
        updates.push(StateUpdate { key, text: told });
        i = i + 1;
    }
    assert(updates.deep_view() =~= views.map_values(|change: ChangeView| update_of(change)));
    updates
}

/// Whether a changed box is kept out of the parent's context.
pub open spec fn hidden(change: ChangeView) -> bool {
    change.hide_from_parent && change.text is Some
}

/// The boxes that are kept out of the parent's context, in order.
pub open spec fn hidden_ids(changes: Seq<ChangeView>) -> Seq<u64>
    decreases changes.len(),
{
    if changes.len() == 0 {
        Seq::empty()
    } else if hidden(changes.last()) {
        hidden_ids(changes.drop_last()).push(changes.last().box_id)
    } else {
        hidden_ids(changes.drop_last())
    }
}

/// The boxes that are kept out of the parent's context: what a subagent brought up
/// and the parent did not have in view.
pub fn hidden_boxes(changes: &Vec<ChangedState>) -> (ids: Vec<u64>)
    ensures
        ids@ == hidden_ids(changes.deep_view()),
{
    let mut ids: Vec<u64> = Vec::new();
    let ghost views = changes.deep_view();
    let mut i: usize = 0;
    while i < changes.len()
        invariant
            i <= changes.len(),
            views == changes.deep_view(),
            ids@ == hidden_ids(views.take(i as int)),
        decreases changes.len() - i,
    {
        assert(views.take(i + 1).drop_last() =~= views.take(i as int));
        let change = &changes[i];
        assert(change.deep_view() == views[i as int]);
        if change.hide_from_parent && change.text.is_some() {
            ids.push(change.box_id);
        }
        i = i + 1;
    }
    assert(views.take(views.len() as int) =~= views);
    ids
}

/// Why a subagent may not make a call, before anything is done for it.
pub open spec fn subagent_refusal(
    name: Seq<char>,
    estimated_tokens: u64,
    max_input_tokens: u64,
    write_fits: bool,
) -> Option<Seq<char>> {
    if name == "RunSubagent"@ {
        Some("RunSubagent is unavailable inside a subagent. Only Kennedy may launch subagents."@)
    } else if name == "SendTelegramDM"@ || name == "SendTelegramGroupMessage"@ {
        Some(
            "Telegram cold delivery is unavailable inside a subagent. Only Kennedy may initiate a Telegram message."@,
        )
    } else if estimated_tokens > max_input_tokens {
        Some(
            "The Ktool call was not run because its retained invocation would exceed the subagent context limit."@,
        )
    } else if !write_fits {
        Some(
            "The managed-source write was not run because its resulting current state would exceed the subagent context limit."@,
        )
    } else {
        None
    }
}

/// Why a subagent may not make a call.
pub fn refuse_subagent_call(
    name: &str,
    estimated_tokens: u64,
    max_input_tokens: u64,
    write_fits: bool,
) -> (refusal: Option<Failure>)
    ensures
        match refusal {
            Some(failure) => subagent_refusal(
                name@,
                estimated_tokens,
                max_input_tokens,
                write_fits,
            ) == Some(failure@),
            None => subagent_refusal(name@, estimated_tokens, max_input_tokens, write_fits) is None,
        },
{
    if *name == *"RunSubagent" {
        return Some(
            Failure::fixed(
                "RunSubagent is unavailable inside a subagent. Only Kennedy may launch subagents.",
            ),
        );
    }
    if *name == *"SendTelegramDM" || *name == *"SendTelegramGroupMessage" {
        return Some(
            Failure::fixed(
                "Telegram cold delivery is unavailable inside a subagent. Only Kennedy may initiate a Telegram message.",
            ),
        );
    }
    if estimated_tokens > max_input_tokens {
        return Some(
            Failure::fixed(
                "The Ktool call was not run because its retained invocation would exceed the subagent context limit.",
            ),
        );
    }
    if !write_fits {
        return Some(
            Failure::fixed(
                "The managed-source write was not run because its resulting current state would exceed the subagent context limit.",
            ),
        );
    }
    None
}

/// The state that a managed write would leave: under the box that holds the source, or
/// under a name of its own where no box holds it yet.
pub fn managed_write_state(
    source_box: Option<u64>,
    kind: &str,
    label: &str,
    name: &str,
    contents: &str,
) -> (state: StateUpdate)
    ensures
        state.deep_view() == (
            match source_box {
                Some(id) => state_key(id),
                None => "prospective-managed-state:"@ + kind@ + ":"@ + name@,
            },
            Some("Current Managed "@ + label@ + " "@ + name@ + ":\n"@ + contents@),
        ),
{
    let key = match source_box {
        Some(id) => {
            let mut key = "tool-state:".to_owned();
            key.append(text::decimal(id as u128).as_str());
            key
        },
        None => {
            let mut key = "prospective-managed-state:".to_owned();
            key.append(kind);
            key.append(":");
            key.append(name);
            key
        },
    };
    let mut words = "Current Managed ".to_owned();
    words.append(label);
    words.append(" ");
    words.append(name);
    words.append(":\n");
    words.append(contents);
    StateUpdate { key, text: Some(words) }
}

/// The name of a library, cut to the length that is shown.
pub open spec fn shown_name(name: Seq<char>) -> Seq<char> {
    if name.len() <= 255 {
        name
    } else {
        name.subrange(0, 255)
    }
}

/// What is shown of a call that writes whole files.
pub open spec fn compact_call(call: (Seq<char>, JsonView)) -> JsonView {
    let arguments = JsonView::Object(Map::empty()).with(
        "name"@,
        match call.1.text_at("name"@) {
            Some(name) => JsonView::Text(shown_name(name)),
            None => JsonView::Null,
        },
    ).with(
        "fileCount"@,
        match call.1.array_at("files"@) {
            Some(files) => JsonView::Integer(files.len() as int),
            None => JsonView::Null,
        },
    ).with(
        "completeFileContents"@,
        JsonView::Text(
            "omitted from active context; retained in the durable tool invocation"@,
        ),
    );
    JsonView::Object(Map::empty()).with("name"@, JsonView::Text(call.0)).with(
        "arguments"@,
        arguments,
    )
}

/// What is shown of a call, and what is noted of its box. A call that writes whole
/// files is shown without them.
pub fn tool_call_box_content(call: &ToolCall, write_tools: &Vec<String>) -> (result: (Json, Json))
    ensures
        write_tools.deep_view().contains(call.name@) ==> {
            &&& result.0@ == compact_call(call.deep_view())
            &&& result.1@ == JsonView::Object(Map::empty()).with(
                "compactedToolInvocation"@,
                JsonView::Bool(true),
            ).with("toolName"@, JsonView::Text(call.name@))
        },
        !write_tools.deep_view().contains(call.name@) ==> {
            &&& result.0@ == JsonView::Object(Map::empty()).with(
                "name"@,
                JsonView::Text(call.name@),
            ).with("arguments"@, call.arguments@)
            &&& result.1@ == JsonView::Null
        },
{
    if !text::among(write_tools, call.name.as_str()) {
        let shown = Json::object().with("name", Json::text(call.name.as_str())).with(
            "arguments",
            call.arguments.clone(),
        );
        return (shown, Json::Null);
    }
    let name = match call.arguments.text_at("name") {
        Some(name) => {
            if name.unicode_len() <= 255 {
                Json::text(name)
            } else {
                Json::text(name.substring_char(0, 255))
            }
        },
        None => Json::Null,
    };
    let count = match call.arguments.array_at("files") {
        Some(files) => {
            proof {
                json::values_at(files@);
            }
            Json::unsigned(files.len() as u64)
        },
        None => Json::Null,
    };
    let arguments = Json::object().with("name", name).with("fileCount", count).with(
        "completeFileContents",
        Json::text("omitted from active context; retained in the durable tool invocation"),
    );
    let shown = Json::object().with("name", Json::text(call.name.as_str())).with(
        "arguments",
        arguments,
    );
    let metadata = Json::object().with("compactedToolInvocation", Json::Bool(true)).with(
        "toolName",
        Json::text(call.name.as_str()),
    );
    (shown, metadata)
}

/// A box of a tool is told where it is new, was revised, or was turned on or off; any other
/// box only where it was a tool's before. It is told with its text while it is a tool's, and
/// kept from the parent where the parent did not see it.
pub proof fn changed_tool_boxes_are_told(state: BoxState, prior: Option<BoxVersion>)
    ensures
        ({
            let change = change_of(state, prior);
            let owned = state.owner is Tool;
            &&& owned && prior is None ==> change is Some
            &&& owned && prior is Some && prior->0.event_id != state.event_id ==> change is Some
            &&& owned && prior is Some && prior->0.active != state.active ==> change is Some
            &&& owned && prior is Some && !prior->0.tool_owned ==> change is Some
            &&& !owned && prior is Some && prior->0.tool_owned ==> change is Some
            &&& !owned && (prior is None || !prior->0.tool_owned) ==> change is None
            &&& prior is Some && prior->0.event_id == state.event_id && prior->0.active
                == state.active && prior->0.tool_owned == owned ==> change is None
            &&& change is Some ==> change->0.box_id == state.id && change->0.name == state.name@
            &&& change is Some && owned && state.content.text@.len() > 0 ==> change->0.text == Some(
                state.content.text@,
            )
            &&& change is Some && !owned ==> change->0.text is None
            &&& change is Some && prior is None ==> change->0.hide_from_parent
            &&& change is Some && prior is Some && prior->0.active && !prior->0.dehydrated
                ==> !change->0.hide_from_parent
            &&& change is Some && prior is Some && (prior->0.dehydrated || !prior->0.active)
                ==> change->0.hide_from_parent
        }),
{
}

/// The changes of boxes in two parts are those of the first followed by those of the
/// second.
pub proof fn changes_are_told_in_order(
    first: Seq<BoxState>,
    second: Seq<BoxState>,
    previous: Seq<BoxVersion>,
)
    ensures
        changes_of(first + second, previous) == changes_of(first, previous) + changes_of(
            second,
            previous,
        ),
    decreases second.len(),
{
    let all = first + second;
    if second.len() > 0 {
        changes_are_told_in_order(first, second.drop_last(), previous);
        assert(all.drop_last() =~= first + second.drop_last());
        assert(all.last() == second.last());
        assert(changes_of(all, previous) =~= changes_of(first, previous) + changes_of(
            second,
            previous,
        ));
    } else {
        assert(all =~= first);
        assert(changes_of(first, previous) =~= changes_of(first, previous) + changes_of(
            second,
            previous,
        ));
    }
}

/// A single box is held against the version that carries its identity first.
pub proof fn boxes_are_held_against_their_version(
    state: BoxState,
    previous: Seq<BoxVersion>,
    at: int,
)
    ensures
        0 <= at < previous.len() && previous[at].id == state.id && (forall|i: int|
            0 <= i < at ==> (#[trigger] previous[i]).id != state.id) ==> changes_of(
            seq![state],
            previous,
        ) == match change_of(state, Some(previous[at])) {
            Some(change) => seq![change],
            None => Seq::empty(),
        },
        (forall|i: int| 0 <= i < previous.len() ==> (#[trigger] previous[i]).id != state.id)
            ==> changes_of(seq![state], previous) == match change_of(state, None) {
            Some(change) => seq![change],
            None => Seq::empty(),
        },
{
    let one = seq![state];
    assert(one.drop_last() =~= Seq::empty());
    assert(changes_of(one.drop_last(), previous) =~= Seq::empty());
    version_is_first(previous, state.id, 0);
    match change_of(state, version_at(previous, state.id, 0)) {
        Some(change) => {
            assert(Seq::<ChangeView>::empty().push(change) =~= seq![change]);
        },
        None => {},
    }
}

/// The version that carries an identity first is found.
proof fn version_is_first(versions: Seq<BoxVersion>, id: u64, i: int)
    requires
        0 <= i,
    ensures
        match version_at(versions, id, i) {
            Some(version) => exists|at: int|
                i <= at < versions.len() && #[trigger] versions[at] == version && version.id == id
                    && forall|j: int| i <= j < at ==> (#[trigger] versions[j]).id != id,
            None => forall|j: int| i <= j < versions.len() ==> (#[trigger] versions[j]).id != id,
        },
    decreases versions.len() - i,
{
    if i < versions.len() {
        if versions[i].id == id {
            assert(versions[i] == version_at(versions, id, i)->0);
        } else {
            version_is_first(versions, id, i + 1);
            if version_at(versions, id, i) is Some {
                let version = version_at(versions, id, i)->0;
                let at = choose|at: int|
                    i + 1 <= at < versions.len() && #[trigger] versions[at] == version && version.id
                        == id && forall|j: int|
                        i + 1 <= j < at ==> (#[trigger] versions[j]).id != id;
                assert(versions[at] == version);
                assert forall|j: int| i <= j < at implies (#[trigger] versions[j]).id != id by {
                    if j == i {
                    }
                }
            }
        }
    }
}

/// The boxes to hide are those whose change has a text and is kept from the parent, in
/// order.
pub proof fn hidden_boxes_are_picked_in_order(changes: Seq<ChangeView>)
    ensures
        hidden_ids(changes) == changes.filter_map(
            |change: ChangeView|
                if change.hide_from_parent && change.text is Some {
                    Some(change.box_id)
                } else {
                    None
                },
        ),
    decreases changes.len(),
{
    if changes.len() > 0 {
        hidden_boxes_are_picked_in_order(changes.drop_last());
    }
}

/// A subagent runs every tool but those that start another one or send messages, where its
/// call and what it writes fit; nothing else is refused.
pub proof fn subagents_run_what_fits(
    name: Seq<char>,
    estimated_tokens: u64,
    max_input_tokens: u64,
    write_fits: bool,
)
    ensures
        subagent_refusal(name, estimated_tokens, max_input_tokens, write_fits) is None <==> name
            != "RunSubagent"@ && name != "SendTelegramDM"@ && name != "SendTelegramGroupMessage"@
            && estimated_tokens <= max_input_tokens && write_fits,
{
}

/// A state is told under the identity of its box, with its name and its text; one without
/// a text is taken back.
pub proof fn states_are_told_by_their_box(change: ChangeView)
    ensures
        match update_of(change) {
            (key, words) => {
                &&& text::ends(key, text::digits(change.box_id as nat))
                &&& change.text is Some ==> words is Some && text::ends(words->0, change.text->0)
                &&& change.text is None ==> words is None
            },
        },
{
    let key = state_key(change.box_id);
    let number = text::digits(change.box_id as nat);
    assert(key.subrange(key.len() - number.len(), key.len() as int) =~= number);
    match change.text {
        Some(words) => {
            let told = "Current "@ + change.name + ":\n"@ + words;
            assert(told.subrange(told.len() - words.len(), told.len() as int) =~= words);
        },
        None => {},
    }
}

/// A long call is shown by its tool, its first 255 characters of a name and how many files
/// it writes, and without what it writes.
pub proof fn compact_calls_leave_their_contents_out(tool: Seq<char>, arguments: JsonView)
    ensures
        ({
            let shown = compact_call((tool, arguments));
            let inner = shown.get("arguments"@)->0;
            let name = arguments.text_at("name"@);
            let files = arguments.array_at("files"@);
            &&& shown.text_at("name"@) == Some(tool)
            &&& shown.get("arguments"@) is Some
            &&& inner.get("files"@) is None
            &&& name is Some && name->0.len() <= 255 ==> inner.text_at("name"@) == name
            &&& name is Some && name->0.len() > 255 ==> inner.text_at("name"@) == Some(
                name->0.take(255),
            )
            &&& name is None ==> inner.get("name"@) == Some(JsonView::Null)
            &&& files is Some ==> inner.get("fileCount"@) == Some(
                JsonView::Integer(files->0.len() as int),
            )
            &&& files is None ==> inner.get("fileCount"@) == Some(JsonView::Null)
        }),
{
    reveal_strlit("name");
    reveal_strlit("arguments");
    reveal_strlit("files");
    reveal_strlit("fileCount");
    reveal_strlit("completeFileContents");
    assert("name"@.len() == 4 && "files"@.len() == 5 && "fileCount"@.len() == 9
        && "completeFileContents"@.len() == 20 && "arguments"@.len() == 9);
    if arguments.text_at("name"@) is Some {
        let name = arguments.text_at("name"@)->0;
        if name.len() > 255 {
            assert(name.subrange(0, 255) =~= name.take(255));
        }
    }
}

} // verus!
