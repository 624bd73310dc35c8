//! The responses to a Telegram event, and how they are delivered.

use crate::delivery;
use crate::delivery::ResolvedObject;
use crate::ids::{Readings, ReadingsView};
use crate::json;
use crate::json::{Json, JsonView};
use crate::text;
use crate::text::Failure;
use vstd::prelude::*;

verus! {

/// One thing to deliver.
#[derive(Debug)]
pub enum TelegramDelivery {
    Object { object_id: String, file_name: Option<String> },
    Text { text: String, response_warning: Json, captionable: bool },
}

/// The mathematical value of one thing to deliver.
pub enum DeliveryView {
    Object { object_id: Seq<char>, file_name: Option<Seq<char>> },
    Text { text: Seq<char>, response_warning: JsonView, captionable: bool },
}

impl DeepView for TelegramDelivery {
    type V = DeliveryView;

    open spec fn deep_view(&self) -> DeliveryView {
        match *self {
            TelegramDelivery::Object { object_id, file_name } => DeliveryView::Object {
                object_id: object_id@,
                file_name: file_name.deep_view(),
            },
            TelegramDelivery::Text { text, response_warning, captionable } => DeliveryView::Text {
                text: text@,
                response_warning: response_warning@,
                captionable,
            },
        }
    }
}

/// The items of an array member; none where there is no such member.
pub open spec fn list_at(value: JsonView, key: Seq<char>) -> Seq<JsonView> {
    match value.array_at(key) {
        Some(items) => items,
        None => Seq::empty(),
    }
}

/// Whether a descriptor is that of an object.
pub open spec fn describes(descriptor: JsonView, object_id: Seq<char>) -> bool {
    descriptor.text_at("objectId"@) == Some(object_id) || descriptor.text_at("pendingId"@) == Some(
        object_id,
    ) || descriptor.text_at("id"@) == Some(object_id)
}

/// The first descriptor, from place `i` on, of an object.
pub open spec fn descriptor_of(attachments: Seq<JsonView>, object_id: Seq<char>, i: int) -> Option<
    JsonView,
>
    decreases attachments.len() - i,
{
    if i < 0 || i >= attachments.len() {
        None
    } else if describes(attachments[i], object_id) {
        Some(attachments[i])
    } else {
        descriptor_of(attachments, object_id, i + 1)
    }
}

/// The name under which an object is delivered: that of its descriptor, or else that of
/// the descriptor at its place.
pub open spec fn delivered_name(
    attachments: Seq<JsonView>,
    object_id: Seq<char>,
    index: int,
) -> Option<Seq<char>> {
    let descriptor = match descriptor_of(attachments, object_id, 0) {
        Some(descriptor) => Some(descriptor),
        None => if 0 <= index < attachments.len() {
            Some(attachments[index])
        } else {
            None
        },
    };
    match descriptor {
        Some(descriptor) => descriptor.text_at("fileName"@),
        None => None,
    }
}

/// The objects of a response, in order, each with the name under which it is delivered.
pub open spec fn object_deliveries(response: JsonView) -> Seq<(Seq<char>, Option<Seq<char>>)> {
    let ids = json::texts_among(list_at(response, "objects"@));
    Seq::new(
        ids.len(),
        |i: int| (ids[i], delivered_name(list_at(response, "attachments"@), ids[i], i)),
    )
}

fn describes_object(descriptor: &Json, object_id: &str) -> (yes: bool)
    ensures
        yes == describes(descriptor@, object_id@),
{
    let by_object = match descriptor.text_at("objectId") {
        Some(id) => *id == *object_id,
        None => false,
    };
    let by_pending = match descriptor.text_at("pendingId") {
        Some(id) => *id == *object_id,
        None => false,
    };
    let by_id = match descriptor.text_at("id") {
        Some(id) => *id == *object_id,
        None => false,
    };
    by_object || by_pending || by_id
}

fn find_name(attachments: &Vec<Json>, object_id: &str, index: usize) -> (name: Option<String>)
    ensures
        name.deep_view() == delivered_name(
            json::values_of(attachments@),
            object_id@,
            index as int,
        ),
{
    let ghost views = json::values_of(attachments@);
    proof {
        json::values_at(attachments@);
    }
    let mut i: usize = 0;
    while i < attachments.len()
        invariant
            i <= attachments.len(),
            views == json::values_of(attachments@),
            views.len() == attachments.len(),
            forall|j: int| 0 <= j < attachments.len() ==> views[j] == json::value_of(
                attachments@[j],
            ),
            descriptor_of(views, object_id@, 0) == descriptor_of(views, object_id@, i as int),
        decreases attachments.len() - i,
    {
        if describes_object(&attachments[i], object_id) {
            return match attachments[i].text_at("fileName") {
                Some(name) => Some(name.to_owned()),
                None => None,
            };
        }
        i = i + 1;
    }
    if index < attachments.len() {
        return match attachments[index].text_at("fileName") {
            Some(name) => Some(name.to_owned()),
            None => None,
        };
    }
    None
}

/// The objects of a response, in order, each with the name under which it is delivered.
pub fn telegram_response_object_deliveries(response: &Json) -> (deliveries: Vec<
    (String, Option<String>),
>)
    ensures
        deliveries.deep_view() == object_deliveries(response@),
{
    let none: Vec<Json> = Vec::new();
    proof {
        json::values_at(none@);
    }
    let attachments = match response.array_at("attachments") {
        Some(items) => items,
        None => &none,
    };
    assert(json::values_of(attachments@) =~= list_at(response@, "attachments"@));
    let objects = match response.array_at("objects") {
        Some(items) => items,
        None => &none,
    };
    assert(json::values_of(objects@) =~= list_at(response@, "objects"@));
    let ids = json::texts_in(objects);
    let mut deliveries: Vec<(String, Option<String>)> = Vec::new();
    let mut i: usize = 0;
    while i < ids.len()
        invariant
            i <= ids.len(),
            deliveries.len() == i,
            json::values_of(attachments@) == list_at(response@, "attachments"@),
            ids.deep_view() == json::texts_among(list_at(response@, "objects"@)),
            forall|j: int|
                0 <= j < i ==> (#[trigger] deliveries@[j]).deep_view() == object_deliveries(
                    response@,
                )[j],
        decreases ids.len() - i,
    {
        let name = find_name(attachments, ids[i].as_str(), i);
        deliveries.push((ids[i].clone(), name));
        i = i + 1;
    }
    assert(deliveries.deep_view() =~= object_deliveries(response@));
    deliveries
}

/// Objects to deliver.
pub open spec fn as_objects(objects: Seq<(Seq<char>, Option<Seq<char>>)>) -> Seq<DeliveryView> {
    objects.map_values(
        |object: (Seq<char>, Option<Seq<char>>)|
            DeliveryView::Object { object_id: object.0, file_name: object.1 },
    )
}

/// The text of a response, where it has one.
pub open spec fn text_delivery(response: JsonView) -> Seq<DeliveryView> {
    match response.text_at("content"@) {
        Some(words) => if words.len() > 0 {
            seq![
                DeliveryView::Text {
                    text: words,
                    response_warning: match response.get("contextWarning"@) {
                        Some(warning) => warning,
                        None => JsonView::Null,
                    },
                    captionable: response.text_at("role"@) == Some("kennedy"@),
                },
            ]
        } else {
            Seq::empty()
        },
        None => Seq::empty(),
    }
}

/// What is delivered of a response: its objects, and then its text.
pub open spec fn deliveries_in(response: JsonView) -> Seq<DeliveryView> {
    as_objects(object_deliveries(response)) + text_delivery(response)
}

/// What is delivered of some responses, in order.
pub open spec fn all_deliveries(responses: Seq<JsonView>) -> Seq<DeliveryView>
    decreases responses.len(),
{
    if responses.len() == 0 {
        Seq::empty()
    } else {
        all_deliveries(responses.drop_last()) + deliveries_in(responses.last())
    }
}

fn push_response(deliveries: &mut Vec<TelegramDelivery>, response: &Json)
    ensures
        final(deliveries).deep_view() == old(deliveries).deep_view() + deliveries_in(response@),
{
    let ghost start = deliveries.deep_view();
    let objects = telegram_response_object_deliveries(response);
    let ghost all = as_objects(objects.deep_view());
    let mut i: usize = 0;
    while i < objects.len()
        invariant
            i <= objects.len(),
            all == as_objects(objects.deep_view()),
            deliveries.deep_view() =~= start + all.take(i as int),
        decreases objects.len() - i,
    {
        let ghost before = deliveries.deep_view();
        let delivery = TelegramDelivery::Object {
            object_id: objects[i].0.clone(),
            file_name: match &objects[i].1 {
                Some(name) => Some(name.clone()),
                None => None,
            },
        };
        assert(objects.deep_view()[i as int] == objects@[i as int].deep_view());
        assert(delivery.deep_view() == all[i as int]);
        deliveries.push(delivery);
        assert(deliveries.deep_view() =~= before.push(delivery.deep_view()));
        i = i + 1;
    }
    assert(all.take(all.len() as int) =~= all);
    let ghost before = deliveries.deep_view();
    if let Some(words) = response.text_at("content") {
        if !words.is_empty() {
            let captionable = match response.text_at("role") {
                Some(role) => *role == *"kennedy",
                None => false,
            };
            let response_warning = match response.get("contextWarning") {
                Some(warning) => warning.clone(),
                None => Json::Null,
            };
            let delivery = TelegramDelivery::Text {
                text: words.to_owned(),
                response_warning,
                captionable,
            };
            deliveries.push(delivery);
            assert(deliveries.deep_view() =~= before.push(delivery.deep_view()));
        }
    }
    assert(deliveries.deep_view() =~= start + deliveries_in(response@));
}

/// What is delivered of the responses to an event. There has to be something.
pub fn collect_deliveries(responses: &Vec<Json>) -> (result: Result<
    Vec<TelegramDelivery>,
    Failure,
>)
    ensures
        text::seen(result) == if all_deliveries(responses.deep_view()).len() == 0 {
            Err::<Seq<DeliveryView>, Seq<char>>(
                "Kennedy completed the turn without a recoverable Telegram response"@,
            )
        } else {
            Ok::<Seq<DeliveryView>, Seq<char>>(all_deliveries(responses.deep_view()))
        },
{
    let mut deliveries: Vec<TelegramDelivery> = Vec::new();
    let ghost views = responses.deep_view();
    assert(deliveries.deep_view() =~= Seq::empty());
    let mut i: usize = 0;
    while i < responses.len()
        invariant
            i <= responses.len(),
            views == responses.deep_view(),
            deliveries.deep_view() == all_deliveries(views.take(i as int)),
        decreases responses.len() - i,
    {
        assert(views.take(i + 1).drop_last() =~= views.take(i as int));
        push_response(&mut deliveries, &responses[i]);
        i = i + 1;
    }
    assert(views.take(views.len() as int) =~= views);
    if deliveries.len() == 0 {
        return Err(
            Failure::fixed("Kennedy completed the turn without a recoverable Telegram response"),
        );
    }
    Ok(deliveries)
}

/// The caption that the object at `index` carries: the text behind it, where that is the
/// last thing to deliver, is Kennedy's own, comes without a warning, and can be attached
/// as it is.
pub open spec fn caption_at(deliveries: Seq<DeliveryView>, index: int, file: ResolvedObject) -> Option<
    Seq<char>,
> {
    if index + 2 != deliveries.len() {
        None
    } else {
        match deliveries[index + 1] {
            DeliveryView::Text { text, response_warning, captionable } => if captionable && (
            response_warning is Null || response_warning == JsonView::Text(Seq::empty()))
                && file.takes_caption(text) {
                Some(text)
            } else {
                None
            },
            _ => None,
        }
    }
}

/// The caption that the object at `index` carries.
pub fn telegram_reply_caption<'a>(
    deliveries: &'a Vec<TelegramDelivery>,
    index: usize,
    file: &ResolvedObject,
) -> (caption: Option<&'a str>)
    requires
        index < deliveries.len(),
    ensures
        caption.deep_view() == caption_at(deliveries.deep_view(), index as int, *file),
{
    if deliveries.len() - index != 2 {
        return None;
    }
    assert(deliveries.deep_view()[index + 1] == deliveries@[index + 1].deep_view());
    match &deliveries[index + 1] {
        TelegramDelivery::Text { text, response_warning, captionable } => {
            let plain = response_warning.is_null() || match response_warning.as_text() {
                Some(warning) => warning.is_empty(),
                None => false,
            };
            proof {
                if response_warning@.as_text() is Some && response_warning@.as_text()->0.len()
                    == 0 {
                    assert(response_warning@.as_text()->0 =~= Seq::empty());
                }
            }
            if *captionable && plain {
                delivery::telegram_caption_for(file, text.as_str())
            } else {
                None
            }
        },
        _ => None,
    }
}

/// An object as it is delivered: under the name asked for, where that can be a file's
/// name, and within the size that Telegram takes.
pub open spec fn deliverable_object(
    object_id: Seq<char>,
    file_name: Option<Seq<char>>,
    size: nat,
    maximum: usize,
    readings: ReadingsView,
) -> Option<Seq<char>> {
    if file_name is Some && !readings.keeps_name(file_name->0) {
        Some(delivery::file_name_refusal())
    } else if size > maximum {
        Some(
            "object "@ + object_id + " is "@ + text::digits(size) + " bytes, over the configured "@
                + text::digits(maximum as nat) + "-byte Telegram media limit"@,
        )
    } else {
        None
    }
}

/// An object as it is delivered.
pub fn name_delivery(
    object_id: &str,
    file_name: &Option<String>,
    file: ResolvedObject,
    maximum: usize,
    readings: &Readings,
) -> (result: Result<ResolvedObject, Failure>)
    ensures
        match deliverable_object(
            object_id@,
            file_name.deep_view(),
            file.bytes@.len(),
            maximum,
            readings@,
        ) {
            Some(message) => result is Err && result->Err_0@ == message,
            None => {
                &&& result is Ok
                &&& result->Ok_0.file_name@ == match file_name.deep_view() {
                    Some(name) => name,
                    None => file.file_name@,
                }
                &&& (ResolvedObject { file_name: file.file_name, ..result->Ok_0 }) == file
            },
        },
{
    let mut file = file;
    if let Some(name) = file_name {
        if let Err(failure) = delivery::check_file_name(name.as_str(), readings) {
            return Err(failure);
        }
        file.file_name = name.clone();
    }
    if file.bytes.len() > maximum {
        let mut message = "object ".to_owned();
        message.append(object_id);
        message.append(" is ");
        message.append(text::decimal(file.bytes.len() as u128).as_str());
        message.append(" bytes, over the configured ");
        message.append(text::decimal(maximum as u128).as_str());
        message.append("-byte Telegram media limit");
        return Err(Failure::new(message));
    }
    Ok(file)
}

/// How an object is sent.
#[derive(Debug)]
pub struct ObjectSend {
    pub caption: Option<String>,
    /// Whether this completes the answer.
    pub complete: bool,
    /// Where the delivery goes on.
    pub next: usize,
}

/// How the object at `index` is sent, and where the delivery goes on.
pub fn send_object(deliveries: &Vec<TelegramDelivery>, index: usize, file: &ResolvedObject) -> (
send: ObjectSend)
    requires
        index < deliveries.len(),
        deliveries@[index as int] is Object,
    ensures
        send.caption.deep_view() == caption_at(deliveries.deep_view(), index as int, *file),
        index < send.next <= deliveries.len(),
        forall|files: Seq<ResolvedObject>| #[trigger]
            files[index as int] == *file ==> sent_from(
                deliveries.deep_view(),
                files,
                index as int,
            ) == seq![
                SentView::Object {
                    object_id: deliveries.deep_view()[index as int]->object_id,
                    caption: send.caption.deep_view(),
                    complete: send.complete,
                },
            ] + sent_from(deliveries.deep_view(), files, send.next as int),
{
    assert(deliveries.deep_view()[index as int] == deliveries@[index as int].deep_view());
    match telegram_reply_caption(deliveries, index, file) {
        Some(caption) => ObjectSend {
            caption: Some(caption.to_owned()),
            complete: true,
            next: index + 2,
        },
        None => ObjectSend {
            caption: None,
            complete: index + 1 == deliveries.len(),
            next: index + 1,
        },
    }
}

/// How the text at `index` is sent: the text, and the warning that comes with it.
pub fn send_text<'a>(deliveries: &'a Vec<TelegramDelivery>, index: usize) -> (send: (
    &'a str,
    Option<&'a str>,
    usize,
))
    requires
        index < deliveries.len(),
        deliveries@[index as int] is Text,
    ensures
        send.2 == index + 1,
        forall|files: Seq<ResolvedObject>|
            #![trigger sent_from(deliveries.deep_view(), files, index as int)]
            sent_from(deliveries.deep_view(), files, index as int) == seq![
                SentView::Reply { text: send.0@, warning: send.1.deep_view() },
            ] + sent_from(deliveries.deep_view(), files, send.2 as int),
{
    assert(deliveries.deep_view()[index as int] == deliveries@[index as int].deep_view());
    match &deliveries[index] {
        TelegramDelivery::Text { text, response_warning, .. } => (
            text.as_str(),
            response_warning.as_text(),
            index + 1,
        ),
        TelegramDelivery::Object { .. } => ("", None, index + 1),
    }
}

/// One thing that is sent for an event.
pub enum SentView {
    Object { object_id: Seq<char>, caption: Option<Seq<char>>, complete: bool },
    Reply { text: Seq<char>, warning: Option<Seq<char>> },
}

/// All that is sent for an event, from place `i` on. `files` holds the resolved object
/// for each place that has one.
pub open spec fn sent_from(deliveries: Seq<DeliveryView>, files: Seq<ResolvedObject>, i: int) -> Seq<
    SentView,
>
    decreases deliveries.len() - i,
{
    if i < 0 || i >= deliveries.len() {
        Seq::empty()
    } else {
        match deliveries[i] {
            DeliveryView::Object { object_id, .. } => {
                let caption = caption_at(deliveries, i, files[i]);
                let next = if caption is Some {
                    i + 2
                } else {
                    i + 1
                };
                seq![SentView::Object { object_id, caption, complete: next == deliveries.len() }]
                    + sent_from(deliveries, files, next)
            },
            DeliveryView::Text { text, response_warning, .. } => seq![
                SentView::Reply { text, warning: response_warning.as_text() },
            ] + sent_from(deliveries, files, i + 1),
        }
    }
}

/// The texts among what is sent, in order, whether sent on their own or as a caption.
pub open spec fn texts_sent(sent: Seq<SentView>) -> Seq<Seq<char>>
    decreases sent.len(),
{
    if sent.len() == 0 {
        Seq::empty()
    } else {
        let rest = texts_sent(sent.drop_first());
        match sent[0] {
            SentView::Object { caption: Some(words), .. } => seq![words] + rest,
            SentView::Object { caption: None, .. } => rest,
            SentView::Reply { text, .. } => seq![text] + rest,
        }
    }
}

/// The texts to deliver, from place `i` on, in order.
pub open spec fn texts_from(deliveries: Seq<DeliveryView>, i: int) -> Seq<Seq<char>>
    decreases deliveries.len() - i,
{
    if i < 0 || i >= deliveries.len() {
        Seq::empty()
    } else {
        match deliveries[i] {
            DeliveryView::Text { text, .. } => seq![text] + texts_from(deliveries, i + 1),
            DeliveryView::Object { .. } => texts_from(deliveries, i + 1),
        }
    }
}

/// Every text of an answer is sent exactly once and unchanged, in order: on its own, or
/// as the caption of the object before it.
pub proof fn texts_are_delivered_once(
    deliveries: Seq<DeliveryView>,
    files: Seq<ResolvedObject>,
    i: int,
)
    requires
        0 <= i,
    ensures
        texts_sent(sent_from(deliveries, files, i)) == texts_from(deliveries, i),
    decreases deliveries.len() - i,
{
    if i < deliveries.len() {
        match deliveries[i] {
            DeliveryView::Object { object_id, .. } => {
                let caption = caption_at(deliveries, i, files[i]);
                let next = if caption is Some {
                    i + 2
                } else {
                    i + 1
                };
                texts_are_delivered_once(deliveries, files, next);
                let first = SentView::Object {
                    object_id,
                    caption,
                    complete: next == deliveries.len(),
                };
                let rest = sent_from(deliveries, files, next);
                assert((seq![first] + rest).drop_first() =~= rest);
                assert((seq![first] + rest)[0] == first);
                if caption is Some {
                    assert(deliveries[i + 1] is Text);
                    assert(texts_from(deliveries, i + 2) =~= Seq::empty());
                    assert(texts_from(deliveries, i + 1) =~= seq![caption->0] + texts_from(
                        deliveries,
                        i + 2,
                    ));
                }
            },
            DeliveryView::Text { text, response_warning, .. } => {
                texts_are_delivered_once(deliveries, files, i + 1);
                let first = SentView::Reply { text, warning: response_warning.as_text() };
                let rest = sent_from(deliveries, files, i + 1);
                assert((seq![first] + rest).drop_first() =~= rest);
                assert((seq![first] + rest)[0] == first);
            },
        }
    }
}

/// What two runs of responses deliver is what the first delivers followed by what the
/// second does: every response is delivered, in order.
pub proof fn responses_are_delivered_in_order(first: Seq<JsonView>, second: Seq<JsonView>)
    ensures
        all_deliveries(first + second) == all_deliveries(first) + all_deliveries(second),
    decreases second.len(),
{
    let all = first + second;
    if second.len() > 0 {
        responses_are_delivered_in_order(first, second.drop_last());
        assert(all.drop_last() =~= first + second.drop_last());
        assert(all.last() == second.last());
        assert(all_deliveries(all) =~= all_deliveries(first) + all_deliveries(second));
    } else {
        assert(all =~= first);
        assert(all_deliveries(first) =~= all_deliveries(first) + all_deliveries(second));
    }
}

/// A response delivers its objects, in order, and then its text, where that is not empty;
/// only Kennedy's text can be a caption.
pub proof fn responses_deliver_objects_and_text(
    response: JsonView,
    items: Seq<JsonView>,
    ids: Seq<Seq<char>>,
    i: int,
)
    requires
        response.array_at("objects"@) == Some(items),
        items.len() == ids.len(),
        forall|j: int| 0 <= j < ids.len() ==> items[j] == JsonView::Text(#[trigger] ids[j]),
        0 <= i < ids.len(),
    ensures
        ({
            let delivered = all_deliveries(seq![response]);
            let words = response.text_at("content"@);
            let spoken = words is Some && words->0.len() > 0;
            &&& delivered[i] is Object
            &&& delivered[i]->object_id == ids[i]
            &&& !spoken ==> delivered.len() == ids.len()
            &&& spoken ==> delivered.len() == ids.len() + 1 && delivered[ids.len() as int]
                is Text && delivered[ids.len() as int]->text == words->0
            &&& spoken && response.text_at("role"@) == Some("kennedy"@)
                ==> delivered[ids.len() as int]->captionable
            &&& spoken && response.text_at("role"@) == Some("system"@)
                ==> !delivered[ids.len() as int]->captionable
            &&& spoken && response.get("contextWarning"@) is Some
                ==> delivered[ids.len() as int]->response_warning == response.get(
                "contextWarning"@,
            )->0
            &&& spoken && response.get("contextWarning"@) is None
                ==> delivered[ids.len() as int]->response_warning is Null
        }),
{
    reveal_strlit("kennedy");
    reveal_strlit("system");
    assert("kennedy"@.len() == 7 && "system"@.len() == 6);
    delivers_alone(response);
    texts_of_texts(items, ids);
}

/// A response without objects delivers its text alone, or nothing.
pub proof fn responses_without_objects_deliver_text(response: JsonView)
    requires
        response.array_at("objects"@) is None,
    ensures
        ({
            let delivered = all_deliveries(seq![response]);
            let words = response.text_at("content"@);
            &&& words is Some && words->0.len() > 0 ==> delivered.len() == 1 && delivered[0]
                is Text && delivered[0]->text == words->0
            &&& words is None || words->0.len() == 0 ==> delivered.len() == 0
        }),
{
    delivers_alone(response);
}

/// What a single response delivers.
proof fn delivers_alone(response: JsonView)
    ensures
        all_deliveries(seq![response]) == deliveries_in(response),
{
    let one = seq![response];
    assert(one.drop_last() =~= Seq::empty());
    assert(all_deliveries(one.drop_last()) =~= Seq::empty());
    assert(Seq::<DeliveryView>::empty() + deliveries_in(response) =~= deliveries_in(response));
}

/// The texts among texts are all of them.
proof fn texts_of_texts(items: Seq<JsonView>, ids: Seq<Seq<char>>)
    requires
        items.len() == ids.len(),
        forall|j: int| 0 <= j < ids.len() ==> items[j] == JsonView::Text(#[trigger] ids[j]),
    ensures
        json::texts_among(items) == ids,
    decreases items.len(),
{
    if items.len() > 0 {
        let rest = ids.drop_last();
        assert forall|j: int| 0 <= j < rest.len() implies items.drop_last()[j] == JsonView::Text(
            #[trigger] rest[j],
        ) by {
            assert(items[j] == JsonView::Text(ids[j]));
        }
        texts_of_texts(items.drop_last(), rest);
        assert(items[items.len() - 1] == JsonView::Text(ids[ids.len() - 1]));
        assert(json::texts_among(items) =~= ids);
    }
}

/// An object is delivered under the name in the first descriptor that carries its
/// identity, or else under that in the descriptor at its place.
pub proof fn objects_are_named_by_their_descriptor(
    attachments: Seq<JsonView>,
    object_id: Seq<char>,
    index: int,
    at: int,
)
    ensures
        0 <= at < attachments.len() && (attachments[at].text_at("objectId"@) == Some(object_id)
            || attachments[at].text_at("pendingId"@) == Some(object_id) || attachments[at].text_at(
            "id"@,
        ) == Some(object_id)) && (forall|j: int|
            0 <= j < at ==> (#[trigger] attachments[j]).text_at("objectId"@) != Some(object_id)
                && attachments[j].text_at("pendingId"@) != Some(object_id)
                && attachments[j].text_at("id"@) != Some(object_id)) ==> delivered_name(
            attachments,
            object_id,
            index,
        ) == attachments[at].text_at("fileName"@),
        0 <= index < attachments.len() && (forall|j: int|
            0 <= j < attachments.len() ==> (#[trigger] attachments[j]).text_at("objectId"@) != Some(
                object_id,
            ) && attachments[j].text_at("pendingId"@) != Some(object_id) && attachments[j].text_at(
                "id"@,
            ) != Some(object_id)) ==> delivered_name(attachments, object_id, index)
            == attachments[index].text_at("fileName"@),
{
    descriptor_is_first(attachments, object_id, 0);
}

/// The descriptor that is found is the first.
proof fn descriptor_is_first(attachments: Seq<JsonView>, object_id: Seq<char>, i: int)
    requires
        0 <= i,
    ensures
        match descriptor_of(attachments, object_id, i) {
            Some(descriptor) => exists|at: int|
                i <= at < attachments.len() && #[trigger] attachments[at] == descriptor
                    && describes(descriptor, object_id) && forall|j: int|
                    i <= j < at ==> !describes(#[trigger] attachments[j], object_id),
            None => forall|j: int|
                i <= j < attachments.len() ==> !describes(#[trigger] attachments[j], object_id),
        },
    decreases attachments.len() - i,
{
    if i < attachments.len() {
        if describes(attachments[i], object_id) {
            assert(attachments[i] == descriptor_of(attachments, object_id, i)->0);
        } else {
            descriptor_is_first(attachments, object_id, i + 1);
            if descriptor_of(attachments, object_id, i) is Some {
                let descriptor = descriptor_of(attachments, object_id, i)->0;
                let at = choose|at: int|
                    i + 1 <= at < attachments.len() && #[trigger] attachments[at] == descriptor
                        && describes(descriptor, object_id) && forall|j: int|
                        i + 1 <= j < at ==> !describes(#[trigger] attachments[j], object_id);
                assert(attachments[at] == descriptor);
                assert forall|j: int| i <= j < at implies !describes(
                    #[trigger] attachments[j],
                    object_id,
                ) by {
                    if j == i {
                    }
                }
            }
        }
    }
}

/// A file takes the text behind it as its caption only where that text comes last, is
/// Kennedy's, carries no warning, and is neither empty nor longer than 1024 UTF-16 units.
pub proof fn captions_are_the_last_text(
    deliveries: Seq<DeliveryView>,
    index: int,
    file: ResolvedObject,
)
    requires
        0 <= index < deliveries.len(),
    ensures
        match caption_at(deliveries, index, file) {
            Some(words) => {
                &&& index + 2 == deliveries.len()
                &&& deliveries[index + 1] is Text
                &&& deliveries[index + 1]->text == words
                &&& deliveries[index + 1]->captionable
                &&& deliveries[index + 1]->response_warning is Null
                    || deliveries[index + 1]->response_warning == JsonView::Text(Seq::empty())
                &&& 0 < words.len() && text::utf16_units(words) <= 1024
            },
            None => {
                ||| index + 2 != deliveries.len()
                ||| deliveries[index + 1] is Object
                ||| !deliveries[index + 1]->captionable
                ||| !(deliveries[index + 1]->response_warning is Null)
                    && deliveries[index + 1]->response_warning != JsonView::Text(Seq::empty())
                ||| !file.takes_caption(deliveries[index + 1]->text)
            },
        },
{
    delivery::captions_are_bounded(
        file.media_type@,
        file.transport_kind.deep_view(),
        deliveries[index + 1]->text,
    );
}

/// Sending takes up each object of what is delivered once, in order, and marks as the
/// last step only the one that leaves nothing to send.
pub proof fn objects_are_sent_in_order(
    deliveries: Seq<DeliveryView>,
    files: Seq<ResolvedObject>,
    i: int,
)
    requires
        0 <= i < deliveries.len(),
    ensures
        ({
            let sent = sent_from(deliveries, files, i);
            &&& sent.len() > 0
            &&& deliveries[i] is Object ==> sent[0] is Object && sent[0]->object_id
                == deliveries[i]->object_id
            &&& deliveries[i] is Text ==> sent[0] is Reply && sent[0]->text == deliveries[i]->text
                && sent[0]->warning == deliveries[i]->response_warning.as_text()
            &&& deliveries[i] is Object && sent[0]->complete ==> sent.len() == 1
            &&& deliveries[i] is Object && sent[0]->caption is None && i + 1 < deliveries.len()
                ==> !sent[0]->complete && sent.skip(1) == sent_from(deliveries, files, i + 1)
            &&& deliveries[i] is Text ==> sent.skip(1) == sent_from(deliveries, files, i + 1)
        }),
{
    let sent = sent_from(deliveries, files, i);
    match deliveries[i] {
        DeliveryView::Object { object_id, .. } => {
            let caption = caption_at(deliveries, i, files[i]);
            let next = if caption is Some {
                i + 2
            } else {
                i + 1
            };
            assert(sent.skip(1) =~= sent_from(deliveries, files, next));
        },
        DeliveryView::Text { .. } => {
            assert(sent.skip(1) =~= sent_from(deliveries, files, i + 1));
        },
    }
}

/// An object is delivered where it is no larger than what may be sent and the name that it
/// was given can be kept.
pub proof fn objects_are_delivered_within_their_limit(
    object_id: Seq<char>,
    file_name: Option<Seq<char>>,
    size: nat,
    maximum: usize,
    readings: ReadingsView,
)
    ensures
        deliverable_object(object_id, file_name, size, maximum, readings) is None <==> size
            <= maximum && (file_name is None || readings.keeps_name(file_name->0)),
        file_name is None && size > maximum ==> deliverable_object(
            object_id,
            file_name,
            size,
            maximum,
            readings,
        ) == Some(
            "object "@ + object_id + " is "@ + text::digits(size) + " bytes, over the configured "@
                + text::digits(maximum as nat) + "-byte Telegram media limit"@,
        ),
{
}

} // verus!
