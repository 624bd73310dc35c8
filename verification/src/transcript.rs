//! What a session's boxes say of its conversation, and which turn is unanswered.

use crate::json;
use crate::json::{Json, JsonView};
use crate::text;
use vstd::prelude::*;

verus! {

/// Whose box it is.
#[derive(Debug, PartialEq, Eq)]
pub enum BoxOwner {
    User,
    Kennedy,
    Controller,
    System,
    Tool { tool_instance: String, slot: String },
}

/// What a box holds.
#[derive(Debug, PartialEq, Eq)]
pub struct BoxContent {
    pub text: String,
    pub objects: Vec<String>,
    pub metadata: Json,
}

/// One box of a session, in its current state.
#[derive(Debug, PartialEq, Eq)]
pub struct BoxState {
    pub id: u64,
    pub name: String,
    pub owner: BoxOwner,
    /// The event that gave the box its canonical content.
    pub event_id: u64,
    pub active: bool,
    pub dehydrated: bool,
    pub content: BoxContent,
}

/// The role of a box in the conversation; none for a box that is not part of it.
pub open spec fn role_of(state: BoxState) -> Option<Seq<char>> {
    match state.owner {
        BoxOwner::User => if state.name@ == "User message"@ {
            Some("user"@)
        } else {
            None
        },
        BoxOwner::Kennedy => if state.name@ == "Kennedy message"@ {
            Some("kennedy"@)
        } else {
            None
        },
        BoxOwner::Controller => if state.content.metadata@.text_at("transcriptRole"@) == Some(
            "system"@,
        ) {
            Some("system"@)
        } else {
            None
        },
        _ => None,
    }
}

/// `entry` with `key` set to what `value` gives, where it gives something.
pub open spec fn with_some(entry: JsonView, key: Seq<char>, value: Option<JsonView>) -> JsonView {
    match value {
        Some(value) => entry.with(key, value),
        None => entry,
    }
}

/// The attachments that a box shows in the conversation.
pub open spec fn shown_attachments(metadata: JsonView) -> Option<JsonView> {
    let attachments = metadata.get("attachments"@);
    let media = metadata.get("media"@);
    if attachments is Some && attachments->0 is Array {
        attachments
    } else if media is Some && media->0 is Object {
        Some(JsonView::Array(seq![media->0]))
    } else {
        None
    }
}

/// `true`, where the member `key` is `true`.
pub open spec fn raised(metadata: JsonView, key: Seq<char>) -> Option<JsonView> {
    if metadata.bool_at(key) == Some(true) {
        Some(JsonView::Bool(true))
    } else {
        None
    }
}

/// The entry of a box in the conversation.
pub open spec fn entry_of(state: BoxState) -> JsonView {
    let content = state.content;
    let metadata = content.metadata@;
    let shown = match metadata.text_at("transcriptText"@) {
        Some(text) => text,
        None => content.text@,
    };
    let start = JsonView::Object(Map::empty()).with("role"@, JsonView::Text(role_of(state)->0)).with(
        "content"@,
        JsonView::Text(shown),
    );
    let objects = if content.objects@.len() > 0 {
        Some(json::text_list(content.objects.deep_view()))
    } else {
        None
    };
    let listed = with_some(start, "objects"@, objects);
    let attached = with_some(listed, "attachments"@, shown_attachments(metadata));
    let caused = with_some(attached, "externalEventId"@, metadata.get("externalEventId"@));
    let warned = with_some(
        caused,
        "contextOverflowWarning"@,
        raised(metadata, "contextOverflowWarning"@),
    );
    with_some(warned, "userStopped"@, raised(metadata, "userStopped"@))
}

/// The conversation that some boxes tell, in their order.
pub open spec fn conversation(boxes: Seq<BoxState>) -> Seq<JsonView>
    decreases boxes.len(),
{
    if boxes.len() == 0 {
        Seq::empty()
    } else if role_of(boxes.last()) is Some {
        conversation(boxes.drop_last()).push(entry_of(boxes.last()))
    } else {
        conversation(boxes.drop_last())
    }
}

/// The role of a box in the conversation.
pub fn transcript_role(state: &BoxState) -> (role: Option<&'static str>)
    ensures
        role.deep_view() == role_of(*state),
{
    match &state.owner {
        BoxOwner::User => {
            if *state.name.as_str() == *"User message" {
                Some("user")
            } else {
                None
            }
        },
        BoxOwner::Kennedy => {
            if *state.name.as_str() == *"Kennedy message" {
                Some("kennedy")
            } else {
                None
            }
        },
        BoxOwner::Controller => match state.content.metadata.text_at("transcriptRole") {
            Some(role) => {
                if *role == *"system" {
                    Some("system")
                } else {
                    None
                }
            },
            None => None,
        },
        _ => None,
    }
}

fn is_raised(metadata: &Json, key: &str) -> (yes: bool)
    ensures
        yes == (metadata@.bool_at(key@) == Some(true)),
{
    match metadata.bool_at(key) {
        Some(flag) => flag,
        None => false,
    }
}

/// The entry of a box in the conversation.
pub fn transcript_entry(state: &BoxState) -> (entry: Option<Json>)
    ensures
        entry.deep_view() == if role_of(*state) is Some {
            Some(entry_of(*state))
        } else {
            None
        },
{
    let role = match transcript_role(state) {
        None => return None,
        Some(role) => role,
    };
    let metadata = &state.content.metadata;
    let shown = match metadata.text_at("transcriptText") {
        Some(text) => text,
        None => state.content.text.as_str(),
    };
    let mut entry = Json::object().with("role", Json::text(role)).with("content", Json::text(shown));
    if state.content.objects.len() > 0 {
        entry = entry.with("objects", Json::texts(&state.content.objects));
    }
    let attachments = metadata.get("attachments");
    let media = metadata.get("media");
    let listed = match attachments {
        Some(value) => matches!(value, Json::Array(_)),
        None => false,
    };
    if listed {
        if let Some(value) = attachments {
            entry = entry.with("attachments", value.clone());
        }
    } else if let Some(value) = media {
        if value.is_object() {
            entry = entry.with("attachments", Json::single(value.clone()));
        }
    }
    if let Some(id) = metadata.get("externalEventId") {
        entry = entry.with("externalEventId", id.clone());
    }
    if is_raised(metadata, "contextOverflowWarning") {
        entry = entry.with("contextOverflowWarning", Json::Bool(true));
    }
    if is_raised(metadata, "userStopped") {
        entry = entry.with("userStopped", Json::Bool(true));
    }
    Some(entry)
}

/// The conversation that some boxes tell, in their order.
pub fn transcript_from_journal(boxes: &Vec<BoxState>) -> (entries: Vec<Json>)
    ensures
        entries.deep_view() == conversation(boxes@),
{
    let mut entries: Vec<Json> = Vec::new();
    let mut i: usize = 0;
    assert(entries.deep_view() =~= Seq::<JsonView>::empty());
    while i < boxes.len()
        invariant
            i <= boxes.len(),
            entries.deep_view() == conversation(boxes@.take(i as int)),
        decreases boxes.len() - i,
    {
        assert(boxes@.take(i + 1).drop_last() =~= boxes@.take(i as int));
        if let Some(entry) = transcript_entry(&boxes[i]) {
            let ghost before = entries.deep_view();
            let ghost value = entry@;
            entries.push(entry);
            assert(entries.deep_view() =~= before.push(value));
        }
        i = i + 1;
    }
    assert(boxes@.take(boxes.len() as int) =~= boxes@);
    entries
}

/// Whether an entry ends the turn of the external event that it belongs to: a
/// message of Kennedy, or a system notice other than a context warning.
pub open spec fn terminal(entry: JsonView) -> bool {
    ||| entry.text_at("role"@) == Some("kennedy"@)
    ||| entry.text_at("role"@) == Some("system"@) && entry.bool_at("contextOverflowWarning"@)
        != Some(true)
}

/// Whether an entry ends the turn of the external event that it belongs to.
pub fn is_terminal_external_response(entry: &Json) -> (yes: bool)
    ensures
        yes == terminal(entry@),
{
    match entry.text_at("role") {
        Some(role) => {
            if *role == *"kennedy" {
                true
            } else if *role == *"system" {
                proof {
                    reveal_strlit("system");
                    reveal_strlit("kennedy");
                }
                !is_raised(entry, "contextOverflowWarning")
            } else {
                false
            }
        },
        None => false,
    }
}

/// Which external events a conversation has answered, and which it has not, in the
/// order in which they were last asked.
pub struct Answers {
    pub open: Seq<Seq<char>>,
    pub answered: Set<Seq<char>>,
}

impl Answers {
    /// What one more entry makes of it.
    pub open spec fn after(self, entry: JsonView) -> Answers {
        let event = entry.text_at("externalEventId"@);
        if entry.text_at("role"@) == Some("user"@) {
            match event {
                Some(id) => Answers {
                    open: text::excluding(self.open, seq![id]).push(id),
                    answered: self.answered.remove(id),
                },
                None => self,
            }
        } else if !terminal(entry) {
            self
        } else {
            match event {
                Some(id) => Answers {
                    open: text::excluding(self.open, seq![id]),
                    answered: self.answered.insert(id),
                },
                None => if entry.bool_at("userStopped"@) == Some(true) && self.open.len() > 0 {
                    Answers {
                        open: self.open.drop_last(),
                        answered: self.answered.insert(self.open.last()),
                    }
                } else {
                    self
                },
            }
        }
    }
}

/// What a conversation has answered and what not.
pub open spec fn answers(entries: Seq<JsonView>) -> Answers
    decreases entries.len(),
{
    if entries.len() == 0 {
        Answers { open: Seq::empty(), answered: Set::empty() }
    } else {
        answers(entries.drop_last()).after(entries.last())
    }
}

/// No event is open twice, and none is both open and answered.
pub proof fn open_events_are_unanswered(entries: Seq<JsonView>)
    ensures
        answers(entries).open.no_duplicates(),
        forall|id: Seq<char>| #[trigger]
            answers(entries).open.contains(id) ==> !answers(entries).answered.contains(id),
    decreases entries.len(),
{
    if entries.len() > 0 {
        open_events_are_unanswered(entries.drop_last());
        let before = answers(entries.drop_last());
        let after = answers(entries);
        let entry = entries.last();
        match entry.text_at("externalEventId"@) {
            Some(id) => {
                text::excluding_keeps(before.open, seq![id]);
                assert(seq![id][0] == id);
                let kept = text::excluding(before.open, seq![id]);
                assert(!kept.contains(id));
                if entry.text_at("role"@) == Some("user"@) {
                    assert forall|other: Seq<char>| #[trigger]
                        after.open.contains(other) implies !after.answered.contains(other) by {
                        let i = after.open.index_of(other);
                        if i < kept.len() {
                            assert(kept[i] == other);
                            assert(kept.contains(other));
                            assert(before.open.contains(other));
                        }
                    }
                    assert forall|i: int, j: int|
                        0 <= i < after.open.len() && 0 <= j < after.open.len() && i
                            != j implies after.open[i] != after.open[j] by {
                        if i == kept.len() {
                            assert(kept.contains(kept[j]));
                        } else if j == kept.len() {
                            assert(kept.contains(kept[i]));
                        }
                    }
                } else if terminal(entry) {
                    assert forall|other: Seq<char>| #[trigger]
                        after.open.contains(other) implies !after.answered.contains(other) by {
                        assert(before.open.contains(other));
                    }
                }
            },
            None => {
                if entry.text_at("role"@) != Some("user"@) && terminal(entry) && entry.bool_at(
                    "userStopped"@,
                ) == Some(true) && before.open.len() > 0 {
                    assert forall|other: Seq<char>| #[trigger]
                        after.open.contains(other) implies !after.answered.contains(other) by {
                        let i = after.open.index_of(other);
                        assert(before.open[i] == other);
                        assert(before.open[i] != before.open[before.open.len() - 1]);
                        assert(before.open.contains(other));
                    }
                }
            },
        }
    }
}

/// Whether a session has a turn to run, and for which external event.
///
/// What the conversation itself leaves open counts before what the last checkpoint
/// says: an answer is recorded before the checkpoint that clears its turn.
pub open spec fn pending_turn(restored: Option<JsonView>, entries: Seq<JsonView>) -> (
    bool,
    Option<Seq<char>>,
) {
    let found = answers(entries);
    let was_pending = match restored {
        Some(state) => state.bool_at("pendingTurn"@) == Some(true),
        None => false,
    };
    let stored = match restored {
        Some(state) => state.text_at("pendingExternalEventId"@),
        None => None,
    };
    let stored_answered = stored is Some && found.answered.contains(stored->0);
    let event = if found.open.len() > 0 {
        Some(found.open.last())
    } else if stored is Some && !stored_answered {
        stored
    } else {
        None
    };
    (event is Some || was_pending && !stored_answered, event)
}

/// A session never takes up the turn of an external event that its conversation
/// has already answered.
pub proof fn answered_turns_stay_closed(restored: Option<JsonView>, entries: Seq<JsonView>)
    ensures
        match pending_turn(restored, entries).1 {
            Some(id) => pending_turn(restored, entries).0 && !answers(entries).answered.contains(
                id,
            ),
            None => true,
        },
{
    open_events_are_unanswered(entries);
    let open = answers(entries).open;
    if open.len() > 0 {
        assert(open.contains(open.last()));
    }
}

/// Whether a session has a turn to run, and for which external event.
pub fn restore_pending_turn(restored: Option<&Json>, transcript: &Vec<Json>) -> (result: (
    bool,
    Option<String>,
))
    ensures
        result.deep_view() == pending_turn(restored.deep_view(), transcript.deep_view()),
{
    let ghost entries = transcript.deep_view();
    let mut open: Vec<String> = Vec::new();
    let mut answered: Vec<String> = Vec::new();
    let mut i: usize = 0;
    assert(open.deep_view() =~= Seq::<Seq<char>>::empty());
    assert(answered.deep_view() =~= Seq::<Seq<char>>::empty());
    while i < transcript.len()
        invariant
            i <= transcript.len(),
            entries == transcript.deep_view(),
            open.deep_view() == answers(entries.take(i as int)).open,
            forall|id: Seq<char>| #[trigger]
                answered.deep_view().contains(id) <==> answers(
                    entries.take(i as int),
                ).answered.contains(id),
        decreases transcript.len() - i,
    {
        let entry = &transcript[i];
        let ghost before = answers(entries.take(i as int));
        let ghost after = answers(entries.take(i + 1));
        assert(entries.take(i + 1).drop_last() =~= entries.take(i as int));
        assert(after == before.after(entry@));
        let is_user = match entry.text_at("role") {
            Some(role) => *role == *"user",
            None => false,
        };
        let event = entry.text_at("externalEventId");
        if is_user {
            if let Some(id) = event {
                let ghost held = answered.deep_view();
                answered = text::exclude_one(&answered, id);
                proof {
                    text::excluding_keeps(held, seq![id@]);
                    assert(seq![id@][0] == id@);
                }
                open = text::exclude_one(&open, id);
                let ghost kept = open.deep_view();
                open.push(id.to_owned());
                assert(open.deep_view() =~= kept.push(id@));
            }
        } else if is_terminal_external_response(entry) {
            if let Some(id) = event {
                let ghost held = answered.deep_view();
                answered.push(id.to_owned());
                assert(answered.deep_view() =~= held.push(id@));
                proof {
                    push_contains(held, id@);
                }
                open = text::exclude_one(&open, id);
            } else if is_raised(entry, "userStopped") {
                let ghost held = open.deep_view();
                match open.pop() {
                    Some(id) => {
                        assert(open.deep_view() =~= held.drop_last());
                        let ghost known = answered.deep_view();
                        assert(id@ == held.last());
                        answered.push(id);
                        assert(answered.deep_view() =~= known.push(id@));
                        proof {
                            push_contains(known, id@);
                        }
                    },
                    None => {},
                }
            }
        }
        i = i + 1;
    }
    assert(entries.take(entries.len() as int) =~= entries);
    let was_pending = match restored {
        Some(state) => is_raised(state, "pendingTurn"),
        None => false,
    };
    let stored = match restored {
        Some(state) => state.text_at("pendingExternalEventId"),
        None => None,
    };
    let stored_answered = match stored {
        Some(id) => text::among(&answered, id),
        None => false,
    };
    let event = if open.len() > 0 {
        Some(open[open.len() - 1].clone())
    } else {
        match stored {
            Some(id) => {
                if stored_answered {
                    None
                } else {
                    Some(id.to_owned())
                }
            },
            None => None,
        }
    };
    let turn = event.is_some() || (was_pending && !stored_answered);
    (turn, event)
}

/// A pushed item is in the list, and nothing else that was not.
proof fn push_contains(list: Seq<Seq<char>>, item: Seq<char>)
    ensures
        forall|x: Seq<char>| #[trigger]
            list.push(item).contains(x) <==> list.contains(x) || x == item,
{
    assert forall|x: Seq<char>| #[trigger]
        list.push(item).contains(x) <==> list.contains(x) || x == item by {
        let all = list.push(item);
        if all.contains(x) {
            let i = all.index_of(x);
            if i < list.len() {
                assert(list[i] == x);
            }
        }
        if list.contains(x) {
            let i = list.index_of(x);
            assert(all[i] == x);
        }
        assert(all[list.len() as int] == item);
    }
}

/// The last entry that answers the external event `id`, among the first `n`.
pub open spec fn answer_before(entries: Seq<JsonView>, id: Seq<char>, n: int) -> Option<int>
    decreases n,
{
    if n <= 0 {
        None
    } else if terminal(entries[n - 1]) && entries[n - 1].text_at("externalEventId"@) == Some(id) {
        Some(n - 1)
    } else {
        answer_before(entries, id, n - 1)
    }
}

/// The place of the last entry that answers the external event `id`.
pub fn answer_for_external_event(entries: &Vec<Json>, id: &str) -> (place: Option<usize>)
    ensures
        place is Some == answer_before(entries.deep_view(), id@, entries.len() as int) is Some,
        place is Some ==> place->0 == answer_before(
            entries.deep_view(),
            id@,
            entries.len() as int,
        )->0 && place->0 < entries.len(),
{
    let mut i: usize = entries.len();
    while i > 0
        invariant
            i <= entries.len(),
            answer_before(entries.deep_view(), id@, entries.len() as int) == answer_before(
                entries.deep_view(),
                id@,
                i as int,
            ),
        decreases i,
    {
        let entry = &entries[i - 1];
        let same = match entry.text_at("externalEventId") {
            Some(event) => *event == *id,
            None => false,
        };
        if is_terminal_external_response(entry) && same {
            return Some(i - 1);
        }
        i = i - 1;
    }
    None
}

/// Whether an entry is shown as a response to the external event `id`.
pub open spec fn responds_to(entry: JsonView, id: Seq<char>) -> bool {
    &&& entry.text_at("role"@) == Some("kennedy"@) || entry.text_at("role"@) == Some("system"@)
    &&& entry.text_at("externalEventId"@) == Some(id)
}

/// The entries that are responses to the external event `id`, in order.
pub open spec fn responses(entries: Seq<JsonView>, id: Seq<char>) -> Seq<JsonView>
    decreases entries.len(),
{
    if entries.len() == 0 {
        Seq::empty()
    } else if responds_to(entries.last(), id) {
        responses(entries.drop_last(), id).push(entries.last())
    } else {
        responses(entries.drop_last(), id)
    }
}

/// The entries that are responses to the external event `id`, in order.
pub fn responses_for_external_event(entries: &Vec<Json>, id: &str) -> (found: Vec<Json>)
    ensures
        found.deep_view() == responses(entries.deep_view(), id@),
{
    let ghost views = entries.deep_view();
    let mut found: Vec<Json> = Vec::new();
    let mut i: usize = 0;
    assert(found.deep_view() =~= Seq::<JsonView>::empty());
    while i < entries.len()
        invariant
            i <= entries.len(),
            views == entries.deep_view(),
            found.deep_view() == responses(views.take(i as int), id@),
        decreases entries.len() - i,
    {
        assert(views.take(i + 1).drop_last() =~= views.take(i as int));
        let entry = &entries[i];
        let spoken = match entry.text_at("role") {
            Some(role) => *role == *"kennedy" || *role == *"system",
            None => false,
        };
        let same = match entry.text_at("externalEventId") {
            Some(event) => *event == *id,
            None => false,
        };
        if spoken && same {
            let ghost before = found.deep_view();
            found.push(entry.clone());
            assert(found.deep_view() =~= before.push(views[i as int]));
        }
        i = i + 1;
    }
    assert(views.take(views.len() as int) =~= views);
    found
}

/// The responses to an event are the entries of Kennedy and of the system that carry
/// its id: each as often as it stands there, in order, and nothing else.
pub proof fn responses_are_the_events_entries(entries: Seq<JsonView>, id: Seq<char>)
    ensures
        responses(entries, id) == entries.filter(
            |entry: JsonView|
                (entry.text_at("role"@) == Some("kennedy"@) || entry.text_at("role"@) == Some(
                    "system"@,
                )) && entry.text_at("externalEventId"@) == Some(id),
        ),
    decreases entries.len(),
{
    reveal(Seq::filter);
    if entries.len() > 0 {
        responses_are_the_events_entries(entries.drop_last(), id);
    }
}

/// The responses to a conversation split in two are those in its first part followed by
/// those in its second.
pub proof fn responses_follow_the_conversation(
    first: Seq<JsonView>,
    second: Seq<JsonView>,
    id: Seq<char>,
)
    ensures
        responses(first + second, id) == responses(first, id) + responses(second, id),
        responses(first + second, id).len() == responses(first, id).len() + responses(
            second,
            id,
        ).len(),
    decreases second.len(),
{
    let all = first + second;
    if second.len() > 0 {
        responses_follow_the_conversation(first, second.drop_last(), id);
        assert(all.drop_last() =~= first + second.drop_last());
        assert(all.last() == second.last());
        assert(responses(all, id) =~= responses(first, id) + responses(second, id));
    } else {
        assert(all =~= first);
        assert(responses(first, id) =~= responses(first, id) + responses(second, id));
    }
}

/// A single entry is a response to an event where Kennedy or the system gave it and it
/// carries the event's id.
pub proof fn single_responses(entry: JsonView, id: Seq<char>)
    ensures
        entry.text_at("externalEventId"@) == Some(id) && (entry.text_at("role"@) == Some(
            "kennedy"@,
        ) || entry.text_at("role"@) == Some("system"@)) ==> responses(seq![entry], id) == seq![
            entry,
        ],
        entry.text_at("externalEventId"@) != Some(id) ==> responses(seq![entry], id).len() == 0,
        entry.text_at("role"@) == Some("user"@) ==> responses(seq![entry], id).len() == 0,
{
    reveal_strlit("user");
    reveal_strlit("kennedy");
    reveal_strlit("system");
    let one = seq![entry];
    assert("user"@.len() == 4 && "kennedy"@.len() == 7 && "system"@.len() == 6);
    assert(one.drop_last() =~= Seq::empty());
    assert(responses(one.drop_last(), id) =~= Seq::empty());
    assert(Seq::<JsonView>::empty().push(entry) =~= one);
}

/// The conversation of boxes in two parts is that of the first followed by that of the
/// second: no box changes what another one tells.
pub proof fn boxes_tell_independently(first: Seq<BoxState>, second: Seq<BoxState>)
    ensures
        conversation(first + second) == conversation(first) + conversation(second),
    decreases second.len(),
{
    let all = first + second;
    if second.len() > 0 {
        boxes_tell_independently(first, second.drop_last());
        assert(all.drop_last() =~= first + second.drop_last());
        assert(all.last() == second.last());
        assert(conversation(all) =~= conversation(first) + conversation(second));
    } else {
        assert(all =~= first);
        assert(conversation(first) =~= conversation(first) + conversation(second));
    }
}

/// A message of the user, a message of Kennedy and a system notice each tell one entry
/// with their role, and no other box tells one.
pub proof fn messages_tell_their_role(state: BoxState)
    ensures
        ({
            let told = conversation(seq![state]);
            let user = state.owner is User && state.name@ == "User message"@;
            let kennedy = state.owner is Kennedy && state.name@ == "Kennedy message"@;
            let system = state.owner is Controller && state.content.metadata@.text_at(
                "transcriptRole"@,
            ) == Some("system"@);
            &&& told.len() == 1 <==> user || kennedy || system
            &&& told.len() <= 1
            &&& user ==> told[0].text_at("role"@) == Some("user"@)
            &&& kennedy ==> told[0].text_at("role"@) == Some("kennedy"@)
            &&& system ==> told[0].text_at("role"@) == Some("system"@)
        }),
{
    let one = seq![state];
    assert(one.drop_last() =~= Seq::empty());
    assert(conversation(one.drop_last()) =~= Seq::empty());
    if role_of(state) is Some {
        assert(conversation(one) =~= seq![entry_of(state)]);
        entries_tell_their_box(state);
    }
}

/// An entry shows the text that its box has for the conversation, or else the box's own,
/// with its objects, its attachments, the event that caused it and its marks.
pub proof fn entries_tell_their_box(state: BoxState)
    requires
        role_of(state) is Some,
    ensures
        ({
            let entry = entry_of(state);
            let metadata = state.content.metadata@;
            let objects = state.content.objects.deep_view();
            &&& entry.get("role"@) == Some(JsonView::Text(role_of(state)->0))
            &&& metadata.text_at("transcriptText"@) is Some ==> entry.text_at("content"@)
                == metadata.text_at("transcriptText"@)
            &&& metadata.text_at("transcriptText"@) is None ==> entry.text_at("content"@) == Some(
                state.content.text@,
            )
            &&& objects.len() > 0 ==> entry.get("objects"@) == Some(json::text_list(objects))
            &&& objects.len() == 0 ==> entry.get("objects"@) is None
            &&& metadata.array_at("attachments"@) is Some ==> entry.array_at("attachments"@)
                == metadata.array_at("attachments"@)
            &&& entry.get("externalEventId"@) == metadata.get("externalEventId"@)
            &&& entry.bool_at("contextOverflowWarning"@) == Some(true) <==> metadata.bool_at(
                "contextOverflowWarning"@,
            ) == Some(true)
            &&& entry.bool_at("userStopped"@) == Some(true) <==> metadata.bool_at("userStopped"@)
                == Some(true)
        }),
{
    reveal_strlit("role");
    reveal_strlit("content");
    reveal_strlit("objects");
    reveal_strlit("attachments");
    reveal_strlit("externalEventId");
    reveal_strlit("contextOverflowWarning");
    reveal_strlit("userStopped");
    assert("role"@.len() == 4 && "content"@.len() == 7 && "objects"@.len() == 7);
    assert("content"@[0] == 'c' && "objects"@[0] == 'o');
    assert("attachments"@.len() == 11 && "userStopped"@.len() == 11);
    assert("attachments"@[0] == 'a' && "userStopped"@[0] == 'u');
    assert("externalEventId"@.len() == 15 && "contextOverflowWarning"@.len() == 22);
}

/// A message of the user opens its event, as the last one asked, and leaves the order of
/// the others as it was.
pub proof fn asked_events_are_open(entries: Seq<JsonView>, entry: JsonView, id: Seq<char>)
    requires
        entry.text_at("role"@) == Some("user"@),
        entry.text_at("externalEventId"@) == Some(id),
    ensures
        answers(entries.push(entry)).open == answers(entries).open.filter(
            |other: Seq<char>| other != id,
        ).push(id),
        answers(entries.push(entry)).answered == answers(entries).answered.remove(id),
{
    assert(entries.push(entry).drop_last() =~= entries);
    without_one(answers(entries).open, id);
}

/// A message of Kennedy, or a notice of the system that is no context warning, closes its
/// event and no other.
pub proof fn answered_events_are_closed(entries: Seq<JsonView>, entry: JsonView, id: Seq<char>)
    requires
        entry.text_at("externalEventId"@) == Some(id),
        entry.text_at("role"@) == Some("kennedy"@) || entry.text_at("role"@) == Some("system"@)
            && entry.bool_at("contextOverflowWarning"@) != Some(true),
    ensures
        answers(entries.push(entry)).open == answers(entries).open.filter(
            |other: Seq<char>| other != id,
        ),
        answers(entries.push(entry)).answered == answers(entries).answered.insert(id),
{
    reveal_strlit("user");
    reveal_strlit("kennedy");
    reveal_strlit("system");
    assert("user"@.len() == 4 && "kennedy"@.len() == 7 && "system"@.len() == 6);
    assert(entries.push(entry).drop_last() =~= entries);
    without_one(answers(entries).open, id);
}

/// A stop by the user, which names no event, closes the event asked last; every other
/// entry that names none, and every context warning, leaves the events as they were.
pub proof fn unnamed_entries_close_only_by_a_stop(entries: Seq<JsonView>, entry: JsonView)
    ensures
        ({
            let before = answers(entries);
            let after = answers(entries.push(entry));
            let named = entry.text_at("externalEventId"@) is Some;
            let spoken = entry.text_at("role"@) == Some("kennedy"@) || entry.text_at("role"@)
                == Some("system"@);
            let warning = entry.text_at("role"@) == Some("system"@) && entry.bool_at(
                "contextOverflowWarning"@,
            ) == Some(true);
            let stop = entry.bool_at("userStopped"@) == Some(true);
            &&& !named && spoken && !warning && stop && before.open.len() > 0 ==> after.open
                == before.open.drop_last() && after.answered == before.answered.insert(
                before.open.last(),
            )
            &&& !named && !stop ==> after == before
            &&& warning ==> after == before
        }),
{
    reveal_strlit("user");
    reveal_strlit("kennedy");
    reveal_strlit("system");
    assert("user"@.len() == 4 && "kennedy"@.len() == 7 && "system"@.len() == 6);
    assert(entries.push(entry).drop_last() =~= entries);
}

/// Leaving out one item is filtering the others.
proof fn without_one(list: Seq<Seq<char>>, id: Seq<char>)
    ensures
        text::excluding(list, seq![id]) == list.filter(|other: Seq<char>| other != id),
    decreases list.len(),
{
    reveal(Seq::filter);
    assert(seq![id][0] == id);
    if list.len() > 0 {
        without_one(list.drop_last(), id);
    }
}

/// A session takes up the event asked last of those its conversation leaves open; with
/// none open, the one of its last checkpoint, unless the conversation answered it.
/// Without any it has a turn only where the checkpoint had one.
pub proof fn turns_are_taken_up_for_the_last_open_event(
    restored: Option<JsonView>,
    entries: Seq<JsonView>,
)
    ensures
        ({
            let open = answers(entries).open;
            let turn = pending_turn(restored, entries);
            &&& open.len() > 0 ==> turn == (true, Some(open[open.len() - 1]))
            &&& open.len() == 0 && restored is None ==> turn == (false, None::<Seq<char>>)
            &&& open.len() == 0 && restored is Some ==> match restored->0.text_at(
                "pendingExternalEventId"@,
            ) {
                Some(id) => if answers(entries).answered.contains(id) {
                    turn == (false, None::<Seq<char>>)
                } else {
                    turn == (true, Some(id))
                },
                None => turn == (
                    restored->0.bool_at("pendingTurn"@) == Some(true),
                    None::<Seq<char>>,
                ),
            }
        }),
{
}

/// The answer found for an event is the last entry of the conversation that answers it;
/// none is found where none does.
pub proof fn the_last_answer_is_found(entries: Seq<JsonView>, id: Seq<char>, n: int, i: int)
    requires
        0 <= i < n <= entries.len(),
        entries[i].text_at("externalEventId"@) == Some(id),
        entries[i].text_at("role"@) == Some("kennedy"@) || entries[i].text_at("role"@) == Some(
            "system"@,
        ) && entries[i].bool_at("contextOverflowWarning"@) != Some(true),
    ensures
        ({
            let place = answer_before(entries, id, n);
            &&& place is Some
            &&& i <= place->0 < n
            &&& entries[place->0].text_at("externalEventId"@) == Some(id)
            &&& entries[place->0].text_at("role"@) == Some("kennedy"@)
                || entries[place->0].text_at("role"@) == Some("system"@)
        }),
    decreases n,
{
    if i < n - 1 {
        the_last_answer_is_found(entries, id, n - 1, i);
    }
}

/// What a message came with is shown as it is listed, or else as its one medium.
pub proof fn attachments_or_the_medium_are_shown(metadata: JsonView, items: Seq<JsonView>)
    ensures
        metadata.get("attachments"@) == Some(JsonView::Array(items)) ==> shown_attachments(metadata)
            == Some(JsonView::Array(items)),
        metadata.get("attachments"@) is None && metadata.get("media"@) is Some && metadata.get(
            "media"@,
        )->0 is Object ==> shown_attachments(metadata) == Some(
            JsonView::Array(seq![metadata.get("media"@)->0]),
        ),
        metadata.get("attachments"@) is None && metadata.get("media"@) is None
            ==> shown_attachments(metadata) is None,
{
}

} // verus!
