//! Objects that hold the texts of boxes: which are there already, and which are new.

use crate::json::{Json, JsonView};
use crate::objects;
use crate::objects::StagedObject;
use crate::text;
use crate::text::Failure;
use crate::transcript::BoxState;
use vstd::prelude::*;

verus! {

/// The first transport, from place `i` on, of an object that holds the text that this
/// event gave to this box.
pub open spec fn match_at(transports: Seq<JsonView>, box_id: u64, event_id: u64, i: int) -> Option<
    int,
>
    decreases transports.len() - i,
{
    if i < 0 || i >= transports.len() {
        None
    } else if objects::is_box_text(transports[i], box_id, event_id) {
        Some(i)
    } else {
        match_at(transports, box_id, event_id, i + 1)
    }
}

proof fn match_is(transports: Seq<JsonView>, box_id: u64, event_id: u64, i: int, at: int)
    requires
        0 <= i <= at < transports.len(),
        objects::is_box_text(transports[at], box_id, event_id),
        forall|j: int|
            i <= j < at ==> !objects::is_box_text(#[trigger] transports[j], box_id, event_id),
    ensures
        match_at(transports, box_id, event_id, i) == Some(at),
    decreases at - i,
{
    if i < at {
        match_is(transports, box_id, event_id, i + 1, at);
    }
}

proof fn match_is_none(transports: Seq<JsonView>, box_id: u64, event_id: u64, i: int)
    requires
        0 <= i <= transports.len(),
        forall|j: int|
            i <= j < transports.len() ==> !objects::is_box_text(
                #[trigger] transports[j],
                box_id,
                event_id,
            ),
    ensures
        match_at(transports, box_id, event_id, i) is None,
    decreases transports.len() - i,
{
    if i < transports.len() {
        match_is_none(transports, box_id, event_id, i + 1);
    }
}

proof fn match_says(transports: Seq<JsonView>, box_id: u64, event_id: u64, i: int)
    requires
        0 <= i <= transports.len(),
    ensures
        match match_at(transports, box_id, event_id, i) {
            Some(at) => {
                &&& i <= at < transports.len()
                &&& objects::is_box_text(transports[at], box_id, event_id)
                &&& forall|j: int|
                    i <= j < at ==> !objects::is_box_text(
                        #[trigger] transports[j],
                        box_id,
                        event_id,
                    )
            },
            None => forall|j: int|
                i <= j < transports.len() ==> !objects::is_box_text(
                    #[trigger] transports[j],
                    box_id,
                    event_id,
                ),
        },
    decreases transports.len() - i,
{
    if i < transports.len() {
        match_says(transports, box_id, event_id, i + 1);
    }
}

/// The object of a selected box: one that was staged before, by its place among those,
/// or one that is staged now, by its number among these.
pub enum TextPlace {
    Known(int),
    New(int),
}

/// What is done for one selected box: the place of the box, its object, and whether
/// the object was there already.
pub struct TextPlan {
    pub place: int,
    pub object: TextPlace,
    pub reused: bool,
}

/// What is done for the selected boxes, in order, and the transports and texts of the
/// objects that are staged for it. An object that holds the text of the same event is
/// used again; each other box has its text staged.
pub open spec fn planned(boxes: Seq<BoxState>, places: Seq<int>, known: Seq<JsonView>) -> (
    Seq<TextPlan>,
    Seq<(JsonView, Seq<char>)>,
)
    decreases places.len(),
{
    if places.len() == 0 {
        (Seq::empty(), Seq::empty())
    } else {
        let (plans, fresh) = planned(boxes, places.drop_last(), known);
        let place = places.last();
        let state = boxes[place];
        match match_at(known, state.id, state.event_id, 0) {
            Some(at) => (
                plans.push(TextPlan { place, object: TextPlace::Known(at), reused: true }),
                fresh,
            ),
            None => match match_at(transports(fresh), state.id, state.event_id, 0) {
                Some(at) => (
                    plans.push(TextPlan { place, object: TextPlace::New(at), reused: true }),
                    fresh,
                ),
                None => (
                    plans.push(
                        TextPlan {
                            place,
                            object: TextPlace::New(fresh.len() as int),
                            reused: false,
                        },
                    ),
                    fresh.push((objects::text_transport(state), state.content.text@)),
                ),
            },
        }
    }
}

/// The transports of objects.
pub open spec fn transports(objects: Seq<(JsonView, Seq<char>)>) -> Seq<JsonView> {
    Seq::new(objects.len(), |i: int| objects[i].0)
}

/// The object of a selected box.
#[derive(Clone, Copy, Debug, PartialEq, Eq)]
pub enum TextObject {
    /// Staged before, at this place.
    Known(usize),
    /// Staged now, with this number.
    New(usize),
}

/// What is done for one selected box.
#[derive(Clone, Copy, Debug, PartialEq, Eq)]
pub struct PlannedText {
    /// The place of the box.
    pub place: usize,
    pub object: TextObject,
    /// The object was there already.
    pub reused: bool,
}

impl View for PlannedText {
    type V = TextPlan;

    open spec fn view(&self) -> TextPlan {
        TextPlan {
            place: self.place as int,
            object: match self.object {
                TextObject::Known(at) => TextPlace::Known(at as int),
                TextObject::New(number) => TextPlace::New(number as int),
            },
            reused: self.reused,
        }
    }
}

/// An object to stage.
#[derive(Debug)]
pub struct NewText {
    pub file_name: String,
    pub transport: Json,
    pub text: String,
}

/// The name of the object that holds a box's text.
pub open spec fn text_name(box_id: u64) -> Seq<char> {
    "box-"@ + text::digits(box_id as nat) + ".txt"@
}

/// The transports of staged objects.
pub open spec fn known_transports(objects: Seq<StagedObject>) -> Seq<JsonView> {
    Seq::new(objects.len(), |i: int| objects[i].transport@)
}

/// The objects to stage have these transports and texts, and are named by their boxes.
pub open spec fn are_new(made: Seq<NewText>, fresh: Seq<(JsonView, Seq<char>)>) -> bool {
    &&& made.len() == fresh.len()
    &&& forall|i: int|
        0 <= i < made.len() ==> {
            let object = #[trigger] made[i];
            &&& (object.transport@, object.text@) == fresh[i]
            &&& object.transport@.u64_at("boxId"@) is Some
            &&& object.file_name@ == text_name(object.transport@.u64_at("boxId"@)->0)
        }
}

fn made_already(made: &Vec<NewText>, box_id: u64, event_id: u64, Ghost(fresh): Ghost<
    Seq<(JsonView, Seq<char>)>,
>) -> (number: Option<usize>)
    requires
        are_new(made@, fresh),
    ensures
        match number {
            Some(number) => match_at(transports(fresh), box_id, event_id, 0) == Some(number as int),
            None => match_at(transports(fresh), box_id, event_id, 0) is None,
        },
{
    let mut i: usize = 0;
    while i < made.len()
        invariant
            i <= made.len(),
            are_new(made@, fresh),
            match_at(transports(fresh), box_id, event_id, 0) == match_at(
                transports(fresh),
                box_id,
                event_id,
                i as int,
            ),
        decreases made.len() - i,
    {
        assert(made@[i as int].transport@ == transports(fresh)[i as int]);
        if objects::holds_box_text(&made[i].transport, box_id, event_id) {
            return Some(i);
        }
        i = i + 1;
    }
    None
}

/// What is done for the boxes `ids`, in order, and the objects that are staged for it,
/// or why a box cannot be taken. Nothing is staged unless all of them can.
pub fn stage_box_text_objects(boxes: &Vec<BoxState>, ids: &Vec<u64>, staged: &Vec<StagedObject>)
    -> (result: Result<(Vec<PlannedText>, Vec<NewText>), Failure>)
    ensures
        match result {
            Ok((plans, made)) => {
                &&& objects::selected(boxes@, ids@) is Ok
                &&& ({
                    let (all, fresh) = planned(
                        boxes@,
                        objects::selected(boxes@, ids@)->Ok_0,
                        known_transports(staged@),
                    );
                    &&& Seq::new(plans@.len(), |i: int| plans@[i]@) == all
                    &&& are_new(made@, fresh)
                })
            },
            Err(failure) => objects::selected(boxes@, ids@) == Err::<Seq<int>, Seq<char>>(failure@),
        },
{
    let places = match objects::select_boxes(boxes, ids) {
        Ok(places) => places,
        Err(failure) => return Err(failure),
    };
    let ghost wanted = Seq::new(places@.len(), |i: int| places@[i] as int);
    let ghost known = known_transports(staged@);
    let mut plans: Vec<PlannedText> = Vec::new();
    let mut made: Vec<NewText> = Vec::new();
    let mut i: usize = 0;
    while i < places.len()
        invariant
            i <= places.len(),
            wanted == Seq::new(places@.len(), |i: int| places@[i] as int),
            known == known_transports(staged@),
            forall|j: int| 0 <= j < places.len() ==> (#[trigger] places@[j]) < boxes.len(),
            Seq::new(plans@.len(), |i: int| plans@[i]@) == planned(
                boxes@,
                wanted.take(i as int),
                known,
            ).0,
            are_new(made@, planned(boxes@, wanted.take(i as int), known).1),
        decreases places.len() - i,
    {
        let place: usize = places[i];
        let state = &boxes[place];
        let ghost so_far = planned(boxes@, wanted.take(i as int), known);
        let ghost before = plans@;
        assert(wanted.take(i + 1).drop_last() =~= wanted.take(i as int));
        assert(wanted.take(i + 1).last() == place as int);
        match objects::existing_box_text_object(staged, state.id, state.event_id) {
            Some(at) => {
                proof {
                    assert(known[at as int] == staged@[at as int].transport@);
                    assert forall|j: int| 0 <= j < at implies !objects::is_box_text(
                        #[trigger] known[j],
                        state.id,
                        state.event_id,
                    ) by {
                        assert(known[j] == staged@[j].transport@);
                    }
                    match_is(known, state.id, state.event_id, 0, at as int);
                }
                plans.push(PlannedText { place, object: TextObject::Known(at), reused: true });
            },
            None => {
                proof {
                    assert forall|j: int| 0 <= j < known.len() implies !objects::is_box_text(
                        #[trigger] known[j],
                        state.id,
                        state.event_id,
                    ) by {
                        assert(known[j] == staged@[j].transport@);
                    }
                    match_is_none(known, state.id, state.event_id, 0);
                }
                match made_already(&made, state.id, state.event_id, Ghost(so_far.1)) {
                    Some(number) => {
                        plans.push(
                            PlannedText { place, object: TextObject::New(number), reused: true },
                        );
                    },
                    None => {
                        let number: usize = made.len();
                        let (file_name, transport) = objects::box_text_object(state);
                        let words = state.content.text.clone();
                        made.push(NewText { file_name, transport, text: words });
                        plans.push(
                            PlannedText { place, object: TextObject::New(number), reused: false },
                        );
                    },
                }
            },
        }
        assert(Seq::new(plans@.len(), |i: int| plans@[i]@) =~= Seq::new(
            before.len(),
            |i: int| before[i]@,
        ).push(plans@.last()@));
        i = i + 1;
    }
    assert(wanted.take(places.len() as int) =~= wanted);
    Ok((plans, made))
}

/// The object that is staged for a box.
pub open spec fn text_object(state: BoxState) -> (JsonView, Seq<char>) {
    (objects::text_transport(state), state.content.text@)
}

/// All boxes are still there, active as before, and none was given another text;
/// whether they are shown in full does not matter.
pub open spec fn keeps_texts(boxes: Seq<BoxState>, later: Seq<BoxState>) -> bool {
    &&& boxes.len() <= later.len()
    &&& forall|i: int|
        0 <= i < boxes.len() ==> {
            let state = #[trigger] later[i];
            &&& state.id == boxes[i].id
            &&& state.event_id == boxes[i].event_id
            &&& state.active == boxes[i].active
            &&& state.content.text@ == boxes[i].content.text@
        }
}

/// An object that says it holds the text of a selected box does hold it.
pub open spec fn holds_texts(
    store: Seq<(JsonView, Seq<char>)>,
    boxes: Seq<BoxState>,
    places: Seq<int>,
) -> bool {
    forall|i: int, k: int|
        #![trigger store[i], places[k]]
        0 <= i < store.len() && 0 <= k < places.len() && objects::is_box_text(
            store[i].0,
            boxes[places[k]].id,
            boxes[places[k]].event_id,
        ) ==> store[i].1 == boxes[places[k]].content.text@
}

/// The objects `after` are `known` and `fresh`: what was known stands at the places
/// `kept`, in the order it had, and what is new at the places `added`.
pub open spec fn holds_both(
    known: Seq<(JsonView, Seq<char>)>,
    fresh: Seq<(JsonView, Seq<char>)>,
    after: Seq<(JsonView, Seq<char>)>,
    kept: Seq<int>,
    added: Seq<int>,
) -> bool {
    &&& kept.len() == known.len()
    &&& added.len() == fresh.len()
    &&& forall|i: int|
        0 <= i < kept.len() ==> 0 <= #[trigger] kept[i] < after.len() && after[kept[i]] == known[i]
    &&& forall|i: int, j: int| 0 <= i < j < kept.len() ==> kept[i] < kept[j]
    &&& forall|i: int|
        0 <= i < added.len() ==> 0 <= #[trigger] added[i] < after.len() && after[added[i]]
            == fresh[i]
    &&& forall|p: int|
        #![trigger after[p]]
        0 <= p < after.len() ==> kept.contains(p) || added.contains(p)
}

proof fn transport_matches(state: BoxState, box_id: u64, event_id: u64)
    ensures
        objects::is_box_text(objects::text_transport(state), box_id, event_id) == (state.id
            == box_id && state.event_id == event_id),
        objects::text_transport(state).u64_at("boxId"@) == Some(state.id),
{
    reveal_strlit("source");
    reveal_strlit("boxId");
    reveal_strlit("boxName");
    reveal_strlit("canonicalEventId");
    assert("source"@.len() == 6);
    assert("boxId"@.len() == 5);
    assert("boxName"@.len() == 7);
    assert("canonicalEventId"@.len() == 16);
}

proof fn box_found(boxes: Seq<BoxState>, later: Seq<BoxState>, id: u64, i: int)
    requires
        keeps_texts(boxes, later),
        0 <= i,
        objects::box_at(boxes, id, i) is Some,
    ensures
        objects::box_at(later, id, i) == objects::box_at(boxes, id, i),
        0 <= objects::box_at(boxes, id, i)->0 < boxes.len(),
        boxes[objects::box_at(boxes, id, i)->0].id == id,
    decreases boxes.len() - i,
{
    if i < boxes.len() {
        assert(later[i].id == boxes[i].id);
        if boxes[i].id != id {
            box_found(boxes, later, id, i + 1);
        }
    }
}

proof fn selection_holds(boxes: Seq<BoxState>, later: Seq<BoxState>, ids: Seq<u64>)
    requires
        keeps_texts(boxes, later),
        objects::selected(boxes, ids) is Ok,
    ensures
        objects::selected(later, ids) == objects::selected(boxes, ids),
        objects::selected(boxes, ids)->Ok_0.len() == ids.len(),
        forall|k: int|
            0 <= k < ids.len() ==> {
                let place = #[trigger] objects::selected(boxes, ids)->Ok_0[k];
                0 <= place < boxes.len() && boxes[place].id == ids[k]
            },
    decreases ids.len(),
{
    if ids.len() > 0 {
        selection_holds(boxes, later, ids.drop_last());
        box_found(boxes, later, ids.last(), 0);
        let place = objects::box_at(boxes, ids.last(), 0)->0;
        assert(later[place].active == boxes[place].active);
    }
}

/// The boxes at these places are called differently.
spec fn apart(boxes: Seq<BoxState>, places: Seq<int>) -> bool {
    forall|i: int, j: int|
        0 <= i < j < places.len() ==> boxes[#[trigger] places[i]].id
            != boxes[#[trigger] places[j]].id
}

spec fn plan_fits(
    boxes: Seq<BoxState>,
    known: Seq<JsonView>,
    place: int,
    plan: TextPlan,
    fresh: Seq<(JsonView, Seq<char>)>,
) -> bool {
    &&& plan.place == place
    &&& match match_at(known, boxes[place].id, boxes[place].event_id, 0) {
        Some(at) => plan.object == TextPlace::Known(at) && plan.reused,
        None => match plan.object {
            TextPlace::Known(_) => false,
            TextPlace::New(number) => !plan.reused && 0 <= number < fresh.len()
                && fresh[number] == text_object(boxes[place]),
        },
    }
}

spec fn made_at(
    boxes: Seq<BoxState>,
    place: int,
    known: Seq<JsonView>,
    object: (JsonView, Seq<char>),
) -> bool {
    &&& object == text_object(boxes[place])
    &&& match_at(known, boxes[place].id, boxes[place].event_id, 0) is None
}

spec fn made_for(
    boxes: Seq<BoxState>,
    places: Seq<int>,
    known: Seq<JsonView>,
    object: (JsonView, Seq<char>),
) -> bool {
    exists|k: int| 0 <= k < places.len() && made_at(boxes, #[trigger] places[k], known, object)
}

proof fn plan_shape(boxes: Seq<BoxState>, places: Seq<int>, known: Seq<JsonView>)
    requires
        apart(boxes, places),
    ensures
        planned(boxes, places, known).0.len() == places.len(),
        forall|k: int|
            0 <= k < places.len() ==> plan_fits(
                boxes,
                known,
                #[trigger] places[k],
                planned(boxes, places, known).0[k],
                planned(boxes, places, known).1,
            ),
        forall|n: int|
            0 <= n < planned(boxes, places, known).1.len() ==> made_for(
                boxes,
                places,
                known,
                #[trigger] planned(boxes, places, known).1[n],
            ),
        forall|m: int, n: int|
            0 <= m < n < planned(boxes, places, known).1.len() ==> (#[trigger] planned(
                boxes,
                places,
                known,
            ).1[m]).0.u64_at("boxId"@) != (#[trigger] planned(boxes, places, known).1[n]).0.u64_at(
                "boxId"@,
            ),
    decreases places.len(),
{
    if places.len() > 0 {
        let rest = places.drop_last();
        let place = places.last();
        let state = boxes[place];
        assert(apart(boxes, rest)) by {
            assert forall|i: int, j: int| 0 <= i < j < rest.len() implies boxes[#[trigger] rest[i]].id
                != boxes[#[trigger] rest[j]].id by {
                assert(rest[i] == places[i] && rest[j] == places[j]);
            }
        }
        plan_shape(boxes, rest, known);
        let (plans, fresh) = planned(boxes, rest, known);
        let (all, now) = planned(boxes, places, known);
        assert forall|n: int| 0 <= n < fresh.len() implies !objects::is_box_text(
            #[trigger] transports(fresh)[n],
            state.id,
            state.event_id,
        ) && fresh[n].0.u64_at("boxId"@) != Some(state.id) by {
            assert(made_for(boxes, rest, known, fresh[n]));
            let k = choose|k: int|
                0 <= k < rest.len() && made_at(boxes, #[trigger] rest[k], known, fresh[n]);
            assert(rest[k] == places[k]);
            assert(boxes[places[k]].id != boxes[places[places.len() - 1]].id);
            transport_matches(boxes[rest[k]], state.id, state.event_id);
        }
        match_is_none(transports(fresh), state.id, state.event_id, 0);
        transport_matches(state, state.id, state.event_id);
        assert forall|k: int| 0 <= k < places.len() implies plan_fits(
            boxes,
            known,
            #[trigger] places[k],
            all[k],
            now,
        ) by {
            if k < rest.len() {
                assert(rest[k] == places[k]);
                assert(plan_fits(boxes, known, rest[k], plans[k], fresh));
            }
        }
        assert forall|n: int| 0 <= n < now.len() implies made_for(
            boxes,
            places,
            known,
            #[trigger] now[n],
        ) by {
            if n < fresh.len() {
                assert(made_for(boxes, rest, known, fresh[n]));
                let k = choose|k: int|
                    0 <= k < rest.len() && made_at(boxes, #[trigger] rest[k], known, fresh[n]);
                assert(rest[k] == places[k]);
            } else {
                assert(made_at(boxes, places[places.len() - 1], known, now[n]));
            }
        }
        assert forall|m: int, n: int| 0 <= m < n < now.len() implies (
        #[trigger] now[m]).0.u64_at("boxId"@) != (#[trigger] now[n]).0.u64_at("boxId"@) by {
            assert(now[m] == fresh[m]);
            assert(transports(fresh)[m] == fresh[m].0);
            if n < fresh.len() {
                assert(now[n] == fresh[n]);
            }
        }
    }
}

proof fn nothing_is_new(boxes: Seq<BoxState>, places: Seq<int>, known: Seq<JsonView>)
    requires
        forall|k: int|
            0 <= k < places.len() ==> match_at(
                known,
                boxes[#[trigger] places[k]].id,
                boxes[places[k]].event_id,
                0,
            ) is Some,
    ensures
        planned(boxes, places, known).1.len() == 0,
    decreases places.len(),
{
    if places.len() > 0 {
        let rest = places.drop_last();
        assert forall|k: int| 0 <= k < rest.len() implies match_at(
            known,
            boxes[#[trigger] rest[k]].id,
            boxes[rest[k]].event_id,
            0,
        ) is Some by {
            assert(rest[k] == places[k]);
        }
        nothing_is_new(boxes, rest, known);
        assert(places[places.len() - 1] == places.last());
    }
}

/// The place, among all objects, of the object that a plan uses.
pub open spec fn place_after(plan: TextPlan, kept: Seq<int>, added: Seq<int>) -> int {
    match plan.object {
        TextPlace::Known(at) => kept[at],
        TextPlace::New(number) => added[number],
    }
}

/// Boxes that were staged once are not staged again. Once the texts of distinct boxes
/// have been staged, and while no box is updated or deactivated, the same boxes are
/// accepted again and each has the same object as before, which counts as reused;
/// nothing new is staged. An object that was new then holds the exact text of its box,
/// whether or not the box is still shown in full, and so does one that was there
/// already, unless it never held the text that it says it holds.
pub proof fn staged_box_texts_are_used_again(
    boxes: Seq<BoxState>,
    later: Seq<BoxState>,
    ids: Seq<u64>,
    known: Seq<(JsonView, Seq<char>)>,
    after: Seq<(JsonView, Seq<char>)>,
    kept: Seq<int>,
    added: Seq<int>,
)
    requires
        ids.no_duplicates(),
        objects::selected(boxes, ids) is Ok,
        keeps_texts(boxes, later),
        holds_both(
            known,
            planned(boxes, objects::selected(boxes, ids)->Ok_0, transports(known)).1,
            after,
            kept,
            added,
        ),
    ensures
        ({
            let places = objects::selected(boxes, ids)->Ok_0;
            let first = planned(boxes, places, transports(known)).0;
            let (second, fresh) = planned(later, places, transports(after));
            &&& objects::selected(later, ids) == objects::selected(boxes, ids)
            &&& fresh.len() == 0
            &&& first.len() == ids.len()
            &&& second.len() == ids.len()
            &&& forall|k: int|
                0 <= k < ids.len() ==> {
                    let plan = #[trigger] second[k];
                    let at = place_after(first[k], kept, added);
                    &&& plan == (TextPlan { place: places[k], object: TextPlace::Known(at), reused:
                        true })
                    &&& later[plan.place].id == ids[k]
                    &&& 0 <= at < after.len()
                    &&& !first[k].reused || holds_texts(known, boxes, places) ==> after[at].1
                        == later[plan.place].content.text@
                }
        }),
{
    let places = objects::selected(boxes, ids)->Ok_0;
    selection_holds(boxes, later, ids);
    let (first, fresh) = planned(boxes, places, transports(known));
    assert forall|i: int, j: int| 0 <= i < j < places.len() implies boxes[#[trigger] places[i]].id
        != boxes[#[trigger] places[j]].id && later[places[i]].id != later[places[j]].id by {
        assert(boxes[places[i]].id == ids[i] && boxes[places[j]].id == ids[j]);
        assert(later[places[i]].id == ids[i] && later[places[j]].id == ids[j]);
    }
    plan_shape(boxes, places, transports(known));
    plan_shape(later, places, transports(after));
    assert forall|k: int| 0 <= k < places.len() implies {
        let state = later[#[trigger] places[k]];
        let at = place_after(first[k], kept, added);
        &&& match_at(transports(after), state.id, state.event_id, 0) == Some(at)
        &&& 0 <= at < after.len()
        &&& !first[k].reused || holds_texts(known, boxes, places) ==> after[at].1
            == state.content.text@
    } by {
        again(boxes, places, known, after, kept, added, k);
        assert(later[places[k]].id == boxes[places[k]].id);
    }
    nothing_is_new(later, places, transports(after));
    let second = planned(later, places, transports(after)).0;
    assert forall|k: int| 0 <= k < ids.len() implies {
        let plan = #[trigger] second[k];
        let at = place_after(first[k], kept, added);
        &&& plan == (TextPlan { place: places[k], object: TextPlace::Known(at), reused: true })
        &&& later[plan.place].id == ids[k]
        &&& 0 <= at < after.len()
        &&& !first[k].reused || holds_texts(known, boxes, places) ==> after[at].1
            == later[plan.place].content.text@
    } by {
        assert(plan_fits(
            later,
            transports(after),
            places[k],
            second[k],
            planned(later, places, transports(after)).1,
        ));
        assert(boxes[places[k]].id == ids[k]);
        assert(later[places[k]].id == ids[k]);
    }
}

proof fn again(
    boxes: Seq<BoxState>,
    places: Seq<int>,
    known: Seq<(JsonView, Seq<char>)>,
    after: Seq<(JsonView, Seq<char>)>,
    kept: Seq<int>,
    added: Seq<int>,
    k: int,
)
    requires
        0 <= k < places.len(),
        apart(boxes, places),
        holds_both(known, planned(boxes, places, transports(known)).1, after, kept, added),
    ensures
        ({
            let state = boxes[places[k]];
            let at = place_after(planned(boxes, places, transports(known)).0[k], kept, added);
            &&& match_at(transports(after), state.id, state.event_id, 0) == Some(at)
            &&& 0 <= at < after.len()
            &&& !planned(boxes, places, transports(known)).0[k].reused || holds_texts(
                known,
                boxes,
                places,
            ) ==> after[at].1 == state.content.text@
        }),
{
    let state = boxes[places[k]];
    let (first, fresh) = planned(boxes, places, transports(known));
    plan_shape(boxes, places, transports(known));
    assert(plan_fits(boxes, transports(known), places[k], first[k], fresh));
    match_says(transports(known), state.id, state.event_id, 0);
    let at = place_after(first[k], kept, added);
    match match_at(transports(known), state.id, state.event_id, 0) {
        Some(old_place) => {
            assert(at == kept[old_place]);
            assert(transports(known)[old_place] == known[old_place].0);
            assert(holds_texts(known, boxes, places) ==> known[old_place].1
                == state.content.text@);
        },
        None => {
            let number = first[k].object->New_0;
            assert(at == added[number]);
            transport_matches(state, state.id, state.event_id);
        },
    }
    assert(transports(after)[at] == after[at].0);
    assert forall|p: int| 0 <= p < at implies !objects::is_box_text(
        #[trigger] transports(after)[p],
        state.id,
        state.event_id,
    ) by {
        assert(transports(after)[p] == after[p].0);
        if kept.contains(p) {
            let i = kept.index_of(p);
            assert(transports(known)[i] == known[i].0);
        } else {
            let n = added.index_of(p);
            assert(made_for(boxes, places, transports(known), fresh[n]));
            let j = choose|j: int|
                0 <= j < places.len() && made_at(
                    boxes,
                    #[trigger] places[j],
                    transports(known),
                    fresh[n],
                );
            transport_matches(boxes[places[j]], state.id, state.event_id);
            if j == k {
                assert(fresh[first[k].object->New_0].0 == fresh[n].0);
            }
        }
    }
    match_is(transports(after), state.id, state.event_id, 0, at);
}

/// With nothing staged, each selected box becomes an object of its own that holds its
/// text, in order, and none is used again.
pub proof fn box_texts_become_objects(boxes: Seq<BoxState>, places: Seq<int>)
    requires
        forall|i: int, j: int|
            0 <= i < j < places.len() ==> boxes[#[trigger] places[i]].id
                != boxes[#[trigger] places[j]].id,
    ensures
        match planned(boxes, places, Seq::empty()) {
            (plans, fresh) => {
                &&& plans.len() == places.len() == fresh.len()
                &&& forall|i: int|
                    0 <= i < places.len() ==> {
                        let plan = #[trigger] plans[i];
                        &&& plan.place == places[i]
                        &&& plan.object == TextPlace::New(i)
                        &&& !plan.reused
                        &&& fresh[i].1 == boxes[places[i]].content.text@
                        &&& fresh[i].0.u64_at("boxId"@) == Some(boxes[places[i]].id)
                    }
                &&& forall|i: int|
                    0 <= i < fresh.len() ==> #[trigger] fresh[i] == text_object(boxes[places[i]])
            },
        },
    decreases places.len(),
{
    if places.len() > 0 {
        let rest = places.drop_last();
        assert forall|i: int, j: int| 0 <= i < j < rest.len() implies boxes[#[trigger] rest[i]].id
            != boxes[#[trigger] rest[j]].id by {
            assert(boxes[places[i]].id != boxes[places[j]].id);
        }
        box_texts_become_objects(boxes, rest);
        let (plans, fresh) = planned(boxes, rest, Seq::empty());
        let place = places.last();
        let state = boxes[place];
        match_is_none(Seq::empty(), state.id, state.event_id, 0);
        assert forall|j: int| 0 <= j < transports(fresh).len() implies !objects::is_box_text(
            #[trigger] transports(fresh)[j],
            state.id,
            state.event_id,
        ) by {
            assert(fresh[j] == text_object(boxes[rest[j]]));
            transport_matches(boxes[rest[j]], state.id, state.event_id);
            assert(boxes[places[j]].id != boxes[places[places.len() - 1]].id);
        }
        match_is_none(transports(fresh), state.id, state.event_id, 0);
        transport_matches(state, state.id, state.event_id);
        let (all_plans, all_fresh) = planned(boxes, places, Seq::empty());
        assert(all_plans == plans.push(
            TextPlan { place, object: TextPlace::New(fresh.len() as int), reused: false },
        ));
        assert(all_fresh == fresh.push(text_object(state)));
        assert forall|i: int| 0 <= i < places.len() implies {
            let plan = #[trigger] all_plans[i];
            &&& plan.place == places[i]
            &&& plan.object == TextPlace::New(i)
            &&& !plan.reused
            &&& all_fresh[i].1 == boxes[places[i]].content.text@
            &&& all_fresh[i].0.u64_at("boxId"@) == Some(boxes[places[i]].id)
        } by {
            if i < rest.len() {
                assert(all_plans[i] == plans[i]);
                assert(all_fresh[i] == fresh[i]);
                assert(rest[i] == places[i]);
            }
        }
        assert forall|i: int| 0 <= i < all_fresh.len() implies #[trigger] all_fresh[i]
            == text_object(boxes[places[i]]) by {
            if i < rest.len() {
                assert(all_fresh[i] == fresh[i]);
                assert(rest[i] == places[i]);
            }
        }
    }
}

/// Each new object is named after its box.
pub proof fn new_objects_are_named_after_their_box(
    made: Seq<NewText>,
    fresh: Seq<(JsonView, Seq<char>)>,
    i: int,
)
    requires
        are_new(made, fresh),
        0 <= i < fresh.len(),
    ensures
        made.len() == fresh.len(),
        made[i].transport@ == fresh[i].0,
        made[i].text@ == fresh[i].1,
        made[i].transport@.u64_at("boxId"@) is Some,
        made[i].file_name@ == "box-"@ + text::digits(
            made[i].transport@.u64_at("boxId"@)->0 as nat,
        ) + ".txt"@,
{
}

} // verus!
