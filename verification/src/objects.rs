//! Objects that a session has staged, and what they stand for.

use crate::arguments;
use crate::delivery::ResolvedObject;
use crate::ids::{Readings, ReadingsView};
use crate::json;
use crate::json::{Json, JsonView};
use crate::media;
use crate::text;
use crate::text::Failure;
use crate::transcript::BoxState;
use vstd::prelude::*;

verus! {

/// The most bytes of an object that is handed to a model.
pub const MAX_MEDIA_ENRICHMENT_BYTES: u64 = 20_971_520;

/// The source of objects that are made of box texts.
pub const BOX_TEXT_OBJECT_SOURCE: &'static str = "kennedy-box-text";

/// The media type of objects that are made of box texts.
pub const BOX_TEXT_MEDIA_TYPE: &'static str = "text/plain; charset=utf-8";

/// A staged object, without its bytes.
#[derive(Debug)]
pub struct StagedObject {
    pub pending_id: String,
    pub media_type: String,
    pub file_name: Option<String>,
    pub transport: Json,
    pub payload_len: u64,
}

/// The kind that a description gives, where it is not blank.
pub open spec fn kind_in(descriptor: Option<JsonView>) -> Option<Seq<char>> {
    match descriptor {
        None => None,
        Some(value) => match value.text_at("kind"@) {
            Some(kind) => if text::blank(kind) {
                None
            } else {
                Some(kind)
            },
            None => None,
        },
    }
}

/// The first of `items`, from place `i` on, that names `id` as its staged object.
pub open spec fn described_as(items: Seq<JsonView>, id: Seq<char>, i: int) -> Option<JsonView>
    decreases items.len() - i,
{
    if i < 0 || i >= items.len() {
        None
    } else if items[i].text_at("pendingId"@) == Some(id) {
        Some(items[i])
    } else {
        described_as(items, id, i + 1)
    }
}

/// What a box says of the object that stands at `index` among its objects: the
/// attachment that names it, or else the attachment at the same place, or else the
/// media.
pub open spec fn descriptor_in(metadata: JsonView, id: Seq<char>, index: int) -> Option<JsonView> {
    let listed = match metadata.array_at("attachments"@) {
        Some(items) => match described_as(items, id, 0) {
            Some(item) => Some(item),
            None => if 0 <= index < items.len() {
                Some(items[index])
            } else {
                None
            },
        },
        None => None,
    };
    match listed {
        Some(item) => Some(item),
        None => match metadata.get("media"@) {
            Some(media) => if media is Object {
                Some(media)
            } else {
                None
            },
            None => None,
        },
    }
}

/// The first place of `id` among `objects`, from `i` on.
pub open spec fn place_of(objects: Seq<Seq<char>>, id: Seq<char>, i: int) -> Option<int>
    decreases objects.len() - i,
{
    if i < 0 || i >= objects.len() {
        None
    } else if objects[i] == id {
        Some(i)
    } else {
        place_of(objects, id, i + 1)
    }
}

/// The kind that a box gives for the staged object `id`.
pub open spec fn kind_in_box(state: BoxState, id: Seq<char>) -> Option<Seq<char>> {
    match place_of(state.content.objects.deep_view(), id, 0) {
        None => None,
        Some(index) => kind_in(descriptor_in(state.content.metadata@, id, index)),
    }
}

/// The first kind that a box gives for the staged object `id`, from box `i` on.
pub open spec fn kind_in_boxes(boxes: Seq<BoxState>, id: Seq<char>, i: int) -> Option<Seq<char>>
    decreases boxes.len() - i,
{
    if i < 0 || i >= boxes.len() {
        None
    } else {
        match kind_in_box(boxes[i], id) {
            Some(kind) => Some(kind),
            None => kind_in_boxes(boxes, id, i + 1),
        }
    }
}

/// How the staged object `id` came: as the boxes say, and else as its own transport
/// says.
pub open spec fn transport_kind(
    boxes: Seq<BoxState>,
    transport: Option<JsonView>,
    id: Seq<char>,
) -> Option<Seq<char>> {
    match kind_in_boxes(boxes, id, 0) {
        Some(kind) => Some(kind),
        None => kind_in(transport),
    }
}

fn find_kind(descriptor: Option<&Json>) -> (kind: Option<String>)
    ensures
        kind.deep_view() == kind_in(descriptor.deep_view()),
{
    match descriptor {
        None => None,
        Some(value) => match value.text_at("kind") {
            Some(kind) => {
                if text::is_blank(kind) {
                    None
                } else {
                    Some(kind.to_owned())
                }
            },
            None => None,
        },
    }
}

fn find_descriptor<'a>(metadata: &'a Json, id: &str, index: usize) -> (descriptor: Option<&'a Json>)
    ensures
        descriptor.deep_view() == descriptor_in(metadata@, id@, index as int),
{
    if let Some(items) = metadata.array_at("attachments") {
        let ghost views = json::values_of(items@);
        proof {
            json::values_at(items@);
        }
        let mut i: usize = 0;
        while i < items.len()
            invariant
                i <= items.len(),
                views == json::values_of(items@),
                views.len() == items.len(),
                forall|j: int| 0 <= j < items.len() ==> views[j] == json::value_of(items@[j]),
                metadata@.array_at("attachments"@) == Some(views),
                described_as(views, id@, 0) == described_as(views, id@, i as int),
            decreases items.len() - i,
        {
            let named = match items[i].text_at("pendingId") {
                Some(name) => *name == *id,
                None => false,
            };
            if named {
                return Some(&items[i]);
            }
            i = i + 1;
        }
        if index < items.len() {
            return Some(&items[index]);
        }
    }
    match metadata.get("media") {
        Some(media) => {
            if media.is_object() {
                Some(media)
            } else {
                None
            }
        },
        None => None,
    }
}

fn find_place(objects: &Vec<String>, id: &str) -> (place: Option<usize>)
    ensures
        place is Some == place_of(objects.deep_view(), id@, 0) is Some,
        place is Some ==> place->0 == place_of(objects.deep_view(), id@, 0)->0,
{
    let mut i: usize = 0;
    while i < objects.len()
        invariant
            i <= objects.len(),
            place_of(objects.deep_view(), id@, 0) == place_of(objects.deep_view(), id@, i as int),
        decreases objects.len() - i,
    {
        if *objects[i].as_str() == *id {
            return Some(i);
        }
        i = i + 1;
    }
    None
}

/// How the staged object `id` came: as the boxes say, and else as its own transport
/// says.
pub fn staged_object_transport_kind(
    boxes: &Vec<BoxState>,
    transport: Option<&Json>,
    id: &str,
) -> (kind: Option<String>)
    ensures
        kind.deep_view() == transport_kind(boxes@, transport.deep_view(), id@),
{
    let mut i: usize = 0;
    while i < boxes.len()
        invariant
            i <= boxes.len(),
            kind_in_boxes(boxes@, id@, 0) == kind_in_boxes(boxes@, id@, i as int),
        decreases boxes.len() - i,
    {
        let content = &boxes[i].content;
        if let Some(index) = find_place(&content.objects, id) {
            let kind = find_kind(find_descriptor(&content.metadata, id, index));
            if kind.is_some() {
                return kind;
            }
            assert(kind.deep_view() is None);
        }
        i = i + 1;
    }
    find_kind(transport)
}

/// The file name of a staged object, where it has one that is not blank.
pub open spec fn authoritative_name(object: StagedObject) -> Result<Seq<char>, Seq<char>> {
    let refusal = "staged object "@ + object.pending_id@ + " has no authoritative filename"@;
    match object.file_name {
        Some(name) => if text::blank(name@) {
            Err(refusal)
        } else {
            Ok(name@)
        },
        None => Err(refusal),
    }
}

/// The file name of a staged object, where it has one that is not blank.
pub fn authoritative_object_filename(object: &StagedObject) -> (result: Result<String, Failure>)
    ensures
        text::seen(result) == authoritative_name(*object),
{
    if let Some(name) = &object.file_name {
        if !text::is_blank(name.as_str()) {
            return Ok(name.clone());
        }
    }
    let mut message = "staged object ".to_owned();
    message.append(object.pending_id.as_str());
    message.append(" has no authoritative filename");
    Err(Failure::new(message))
}

/// A message number written in a refusal.
fn numbered(before: &str, number: i64, after: &str) -> (failure: Failure)
    ensures
        failure@ == before@ + text::signed_digits(number as int) + after@,
{
    let mut message = before.to_owned();
    message.append(text::signed_decimal(number).as_str());
    message.append(after);
    Failure::new(message)
}

/// The first of the group's messages, from place `i` on, with this number.
pub open spec fn message_numbered(messages: Seq<JsonView>, number: i64, i: int) -> Option<JsonView>
    decreases messages.len() - i,
{
    if i < 0 || i >= messages.len() {
        None
    } else if messages[i].i64_at("messageId"@) == Some(number) {
        Some(messages[i])
    } else {
        message_numbered(messages, number, i + 1)
    }
}

/// The messages that a group context holds.
pub open spec fn messages_in(context: JsonView) -> Seq<JsonView> {
    match context.array_at("messages"@) {
        Some(items) => items,
        None => Seq::empty(),
    }
}

/// The reference to the media of a group message. It must belong to this group and to
/// that message.
pub open spec fn media_reference(context: JsonView, number: i64) -> Result<JsonView, Seq<char>> {
    let message = "Telegram message "@ + text::signed_digits(number as int);
    match context.i64_at("chatId"@) {
        None => Err("this session has no numeric Telegram group chatId"@),
        Some(chat) => match message_numbered(messages_in(context), number, 0) {
            None => Err(message + " is not present in this session's current group context"@),
            Some(found) => match found.get("mediaRef"@) {
                None => Err(
                    message
                        + " has no retained media in this session's current group context"@,
                ),
                Some(media) => if !(media is Object) {
                    Err(
                        message
                            + " has no retained media in this session's current group context"@,
                    )
                } else if media.text_at("source"@) != Some("telegram-group"@) {
                    Err(message + " has an invalid media source"@)
                } else if media.i64_at("chatId"@) != Some(chat) {
                    Err(message + " belongs to a different group"@)
                } else if media.i64_at("messageId"@) != Some(number) {
                    Err(message + " has inconsistent media identity"@)
                } else {
                    Ok(media)
                },
            },
        },
    }
}

fn find_message<'a>(messages: &'a Vec<Json>, number: i64) -> (found: Option<&'a Json>)
    ensures
        found.deep_view() == message_numbered(json::values_of(messages@), number, 0),
{
    let ghost views = json::values_of(messages@);
    proof {
        json::values_at(messages@);
    }
    let mut i: usize = 0;
    while i < messages.len()
        invariant
            i <= messages.len(),
            views.len() == messages.len(),
            forall|j: int| 0 <= j < messages.len() ==> views[j] == json::value_of(messages@[j]),
            message_numbered(views, number, 0) == message_numbered(views, number, i as int),
            views == json::values_of(messages@),
        decreases messages.len() - i,
    {
        let same = match messages[i].i64_at("messageId") {
            Some(id) => id == number,
            None => false,
        };
        if same {
            return Some(&messages[i]);
        }
        i = i + 1;
    }
    None
}

/// The reference to the media of a group message.
pub fn telegram_group_media_reference(context: &Json, number: i64) -> (result: Result<Json, Failure>)
    ensures
        text::seen(result) == media_reference(context@, number),
{
    let chat = match context.i64_at("chatId") {
        None => return Err(
            Failure::fixed("this session has no numeric Telegram group chatId"),
        ),
        Some(chat) => chat,
    };
    let found = match context.array_at("messages") {
        Some(messages) => find_message(messages, number),
        None => None,
    };
    let message = match found {
        None => return Err(
            numbered(
                "Telegram message ",
                number,
                " is not present in this session's current group context",
            ),
        ),
        Some(message) => message,
    };
    let reference = match message.get("mediaRef") {
        None => return Err(
            numbered(
                "Telegram message ",
                number,
                " has no retained media in this session's current group context",
            ),
        ),
        Some(reference) => reference,
    };
    if !reference.is_object() {
        return Err(
            numbered(
                "Telegram message ",
                number,
                " has no retained media in this session's current group context",
            ),
        );
    }
    let from_group = match reference.text_at("source") {
        Some(source) => *source == *"telegram-group",
        None => false,
    };
    if !from_group {
        return Err(numbered("Telegram message ", number, " has an invalid media source"));
    }
    let same_chat = match reference.i64_at("chatId") {
        Some(id) => id == chat,
        None => false,
    };
    if !same_chat {
        return Err(numbered("Telegram message ", number, " belongs to a different group"));
    }
    let same_message = match reference.i64_at("messageId") {
        Some(id) => id == number,
        None => false,
    };
    if !same_message {
        return Err(numbered("Telegram message ", number, " has inconsistent media identity"));
    }
    Ok(reference.clone())
}

/// A media reference always belongs to the session's own group and to the message
/// that was asked for.
pub proof fn media_references_stay_in_the_group(context: JsonView, number: i64)
    requires
        media_reference(context, number) is Ok,
    ensures
        media_reference(context, number)->Ok_0.i64_at("chatId"@) == context.i64_at("chatId"@),
        media_reference(context, number)->Ok_0.i64_at("messageId"@) == Some(number),
{
}

/// Whether a staged object is the media of this group message.
pub open spec fn is_group_media(transport: JsonView, chat: i64, number: i64) -> bool {
    &&& transport.text_at("source"@) == Some("telegram-group"@)
    &&& transport.i64_at("chatId"@) == Some(chat)
    &&& transport.i64_at("messageId"@) == Some(number)
}

/// The place of the staged object that is the media of a group message.
pub fn staged_telegram_group_media(objects: &Vec<StagedObject>, chat: i64, number: i64) -> (place:
    Option<usize>)
    ensures
        match place {
            Some(i) => {
                &&& i < objects.len()
                &&& is_group_media(objects@[i as int].transport@, chat, number)
                &&& forall|j: int|
                    0 <= j < i ==> !is_group_media(
                        (#[trigger] objects@[j]).transport@,
                        chat,
                        number,
                    )
            },
            None => forall|j: int|
                0 <= j < objects.len() ==> !is_group_media(
                    (#[trigger] objects@[j]).transport@,
                    chat,
                    number,
                ),
        },
{
    let mut i: usize = 0;
    while i < objects.len()
        invariant
            i <= objects.len(),
            forall|j: int|
                0 <= j < i ==> !is_group_media((#[trigger] objects@[j]).transport@, chat, number),
        decreases objects.len() - i,
    {
        let transport = &objects[i].transport;
        let from_group = match transport.text_at("source") {
            Some(source) => *source == *"telegram-group",
            None => false,
        };
        let same_chat = match transport.i64_at("chatId") {
            Some(id) => id == chat,
            None => false,
        };
        let same_message = match transport.i64_at("messageId") {
            Some(id) => id == number,
            None => false,
        };
        if from_group && same_chat && same_message {
            return Some(i);
        }
        i = i + 1;
    }
    None
}

/// The file name of a group message's media: its own, or one made of its kind and
/// number.
pub open spec fn group_media_name(reference: JsonView, media_type: Seq<char>, number: i64) -> Seq<
    char,
> {
    let made = "telegram-group-"@ + media::named_or(reference.text_at("kind"@), "media"@) + "-"@
        + text::signed_digits(number as int) + "."@ + media::extension_of(media_type);
    media::named_or(reference.text_at("fileName"@), made)
}

/// The file name of a group message's media.
pub fn telegram_group_media_filename(reference: &Json, media_type: &str, number: i64) -> (name:
    String)
    ensures
        name@ == group_media_name(reference@, media_type@, number),
{
    let mut made = "telegram-group-".to_owned();
    made.append(media::ingress_object_filename(reference.text_at("kind"), "media").as_str());
    made.append("-");
    made.append(text::signed_decimal(number).as_str());
    made.append(".");
    made.append(media::bare_type_extension(media_type));
    media::ingress_object_filename(reference.text_at("fileName"), made.as_str())
}

/// The report of group media that is staged.
pub open spec fn group_media_report(object: StagedObject, number: i64, reused: bool) -> Result<
    Seq<char>,
    Seq<char>,
> {
    match authoritative_name(object) {
        Err(message) => Err(message),
        Ok(name) => Ok(
            (if reused {
                "Reused already-staged"@
            } else {
                "Staged"@
            }) + " Telegram group media\nMessage ID: "@ + text::signed_digits(number as int)
                + "\nObject: "@ + object.pending_id@ + "\nKind: "@ + (match object.transport@.text_at(
                "kind"@,
            ) {
                Some(kind) => kind,
                None => "media"@,
            }) + "\nOriginal filename: "@ + name + "\nExtension: "@ + media::shown_extension(name)
                + "\nMIME type: "@ + media::bare_type(object.media_type@) + "\nSize: "@
                + text::digits(object.payload_len as nat) + " bytes\n\nUse Object "@
                + object.pending_id@
                + " with AnnotateMedia, GenerateImage (for images), TranscribeAudio, or ExtractDocumentText as appropriate."@,
        ),
    }
}

/// The report of group media that is staged.
pub fn render_staged_telegram_group_media(object: &StagedObject, number: i64, reused: bool) -> (
result: Result<String, Failure>)
    ensures
        text::seen(result) == group_media_report(*object, number, reused),
{
    let name = match authoritative_object_filename(object) {
        Err(failure) => return Err(failure),
        Ok(name) => name,
    };
    let kind = match object.transport.text_at("kind") {
        Some(kind) => kind,
        None => "media",
    };
    let mut result = if reused {
        "Reused already-staged".to_owned()
    } else {
        "Staged".to_owned()
    };
    result.append(" Telegram group media\nMessage ID: ");
    result.append(text::signed_decimal(number).as_str());
    result.append("\nObject: ");
    result.append(object.pending_id.as_str());
    result.append("\nKind: ");
    result.append(kind);
    result.append("\nOriginal filename: ");
    result.append(name.as_str());
    result.append("\nExtension: ");
    result.append(media::file_name_extension(name.as_str()).as_str());
    result.append("\nMIME type: ");
    result.append(media::normalized_media_type(object.media_type.as_str()).as_str());
    result.append("\nSize: ");
    result.append(text::decimal(object.payload_len as u128).as_str());
    result.append(" bytes\n\nUse Object ");
    result.append(object.pending_id.as_str());
    result.append(
        " with AnnotateMedia, GenerateImage (for images), TranscribeAudio, or ExtractDocumentText as appropriate.",
    );
    Ok(result)
}

/// Whether downloaded group media may be staged, or why not.
pub fn check_group_media(size: usize, number: i64) -> (outcome: Result<(), Failure>)
    ensures
        arguments::checked(outcome) == if size == 0 {
            Err::<(), Seq<char>>(
                "Telegram group media message "@ + text::signed_digits(number as int)
                    + " is empty"@,
            )
        } else if size > MAX_MEDIA_ENRICHMENT_BYTES {
            Err::<(), Seq<char>>(
                "Telegram group media message "@ + text::signed_digits(number as int) + " is "@
                    + text::digits(size as nat) + " bytes, over the "@ + text::digits(
                    MAX_MEDIA_ENRICHMENT_BYTES as nat,
                ) + "-byte enrichment limit"@,
            )
        } else {
            Ok::<(), Seq<char>>(())
        },
{
    if size == 0 {
        return Err(numbered("Telegram group media message ", number, " is empty"));
    }
    if size as u64 > MAX_MEDIA_ENRICHMENT_BYTES {
        let mut message = "Telegram group media message ".to_owned();
        message.append(text::signed_decimal(number).as_str());
        message.append(" is ");
        message.append(text::decimal(size as u128).as_str());
        message.append(" bytes, over the ");
        message.append(text::decimal(MAX_MEDIA_ENRICHMENT_BYTES as u128).as_str());
        message.append("-byte enrichment limit");
        return Err(Failure::new(message));
    }
    Ok(())
}

/// Where an object is to be read from.
#[derive(Debug, PartialEq, Eq)]
pub enum ObjectPlace {
    /// Among the objects that the session has staged.
    Staged,
    /// In the object store, which writes its identity like this.
    Stored { object_id: String },
}

/// The mathematical value of an object's place.
pub enum PlaceView {
    Staged,
    Stored { object_id: Seq<char> },
}

impl DeepView for ObjectPlace {
    type V = PlaceView;

    open spec fn deep_view(&self) -> PlaceView {
        match *self {
            ObjectPlace::Staged => PlaceView::Staged,
            ObjectPlace::Stored { object_id } => PlaceView::Stored { object_id: object_id@ },
        }
    }
}

/// Where the object `id` is to be read from.
pub open spec fn object_place_of(id: Seq<char>, readings: ReadingsView) -> Result<
    PlaceView,
    Seq<char>,
> {
    if text::begins(id, "pending:"@) {
        match readings.staged(id) {
            Err(message) => Err(message),
            Ok(_) => Ok(PlaceView::Staged),
        }
    } else {
        match readings.object(id) {
            Some(object_id) => Ok(PlaceView::Stored { object_id }),
            None => Err(text::debug_quoted(id) + " is not an object ID"@),
        }
    }
}

/// Where the object `id` is to be read from.
pub fn object_place(id: &str, readings: &Readings) -> (result: Result<ObjectPlace, Failure>)
    ensures
        text::seen(result) == object_place_of(id@, readings@),
{
    if text::starts_with(id, "pending:") {
        return match readings.staged_id(id) {
            Err(failure) => Err(failure),
            Ok(_) => Ok(ObjectPlace::Staged),
        };
    }
    match readings.object(id) {
        Some(object_id) => Ok(ObjectPlace::Stored { object_id: object_id.to_owned() }),
        None => {
            let mut message = text::quoted(id);
            message.append(" is not an object ID");
            Err(Failure::new(message))
        },
    }
}

/// The refusal of a staged object that the session does not have.
pub fn unknown_staged_object(pending_id: &str) -> (failure: Failure)
    ensures
        failure@ == "staged object "@ + pending_id@ + " does not exist in this session"@,
{
    let mut message = "staged object ".to_owned();
    message.append(pending_id);
    message.append(" does not exist in this session");
    Failure::new(message)
}

/// A staged object with its bytes. `file_name` is its name as the object store keeps
/// names; the bytes must be as many as were declared.
pub fn resolve_staged(
    object: &StagedObject,
    file_name: String,
    kind: Option<String>,
    bytes: Vec<u8>,
) -> (result: Result<ResolvedObject, Failure>)
    ensures
        match result {
            Ok(resolved) => {
                &&& bytes@.len() == object.payload_len
                &&& resolved.object_id@ == object.pending_id@
                &&& resolved.bytes == bytes
                &&& resolved.file_name == file_name
                &&& resolved.media_type@ == object.media_type@
                &&& resolved.transport_kind == kind
            },
            Err(failure) => {
                &&& bytes@.len() != object.payload_len
                &&& failure@ == "staged object "@ + object.pending_id@ + " declared "@
                    + text::digits(object.payload_len as nat) + " bytes but resolved to "@
                    + text::digits(bytes@.len())
            },
        },
{
    if bytes.len() as u64 != object.payload_len {
        let mut message = "staged object ".to_owned();
        message.append(object.pending_id.as_str());
        message.append(" declared ");
        message.append(text::decimal(object.payload_len as u128).as_str());
        message.append(" bytes but resolved to ");
        message.append(text::decimal(bytes.len() as u128).as_str());
        return Err(Failure::new(message));
    }
    Ok(
        ResolvedObject {
            object_id: object.pending_id.clone(),
            bytes,
            file_name,
            media_type: object.media_type.clone(),
            transport_kind: kind,
        },
    )
}

/// A stored object with its bytes. The store must have returned the object that was
/// asked for.
pub fn resolve_stored(requested_id: &str, object: ResolvedObject) -> (result: Result<
    ResolvedObject,
    Failure,
>)
    ensures
        match result {
            Ok(resolved) => resolved == object && object.object_id@ == requested_id@,
            Err(failure) => {
                &&& object.object_id@ != requested_id@
                &&& failure@ == "object store returned "@ + object.object_id@
                    + " while resolving "@ + requested_id@
            },
        },
{
    if *object.object_id.as_str() != *requested_id {
        let mut message = "object store returned ".to_owned();
        message.append(object.object_id.as_str());
        message.append(" while resolving ");
        message.append(requested_id);
        return Err(Failure::new(message));
    }
    Ok(object)
}

/// Why an object may not be handed to a model.
pub open spec fn media_refusal(object_id: Seq<char>, size: nat) -> Option<Seq<char>> {
    if size == 0 {
        Some("media object "@ + object_id + " is empty"@)
    } else if size > MAX_MEDIA_ENRICHMENT_BYTES {
        Some(
            "media object "@ + object_id + " is "@ + text::digits(size) + " bytes, over the "@
                + text::digits(MAX_MEDIA_ENRICHMENT_BYTES as nat) + "-byte enrichment limit"@,
        )
    } else {
        None
    }
}

/// An object to hand to a model: with its bare media type, not empty, and within the
/// size limit.
pub fn media_object(object: ResolvedObject) -> (result: Result<ResolvedObject, Failure>)
    ensures
        match result {
            Ok(resolved) => {
                &&& media_refusal(object.object_id@, object.bytes@.len()) is None
                &&& resolved.media_type@ == media::bare_type(object.media_type@)
                &&& resolved.object_id == object.object_id
                &&& resolved.bytes == object.bytes
                &&& resolved.file_name == object.file_name
                &&& resolved.transport_kind == object.transport_kind
            },
            Err(failure) => media_refusal(object.object_id@, object.bytes@.len()) == Some(
                failure@,
            ),
        },
{
    if object.bytes.len() == 0 {
        let mut message = "media object ".to_owned();
        message.append(object.object_id.as_str());
        message.append(" is empty");
        return Err(Failure::new(message));
    }
    if object.bytes.len() as u64 > MAX_MEDIA_ENRICHMENT_BYTES {
        let mut message = "media object ".to_owned();
        message.append(object.object_id.as_str());
        message.append(" is ");
        message.append(text::decimal(object.bytes.len() as u128).as_str());
        message.append(" bytes, over the ");
        message.append(text::decimal(MAX_MEDIA_ENRICHMENT_BYTES as u128).as_str());
        message.append("-byte enrichment limit");
        return Err(Failure::new(message));
    }
    let media_type = media::normalized_media_type(object.media_type.as_str());
    Ok(
        ResolvedObject {
            object_id: object.object_id,
            bytes: object.bytes,
            file_name: object.file_name,
            media_type,
            transport_kind: object.transport_kind,
        },
    )
}

/// Checks that a reference for image generation is an image.
pub fn check_image_reference(object_id: &str, media_type: &str) -> (outcome: Result<(), Failure>)
    ensures
        arguments::checked(outcome) == if text::begins(media_type@, "image/"@) {
            Ok::<(), Seq<char>>(())
        } else {
            Err::<(), Seq<char>>("GenerateImage reference "@ + object_id@ + " is not an image"@)
        },
{
    if text::starts_with(media_type, "image/") {
        return Ok(());
    }
    let mut message = "GenerateImage reference ".to_owned();
    message.append(object_id);
    message.append(" is not an image");
    Err(Failure::new(message))
}

/// Whether a staged object holds the text that this event gave to this box.
pub open spec fn is_box_text(transport: JsonView, box_id: u64, event_id: u64) -> bool {
    &&& transport.text_at("source"@) == Some(BOX_TEXT_OBJECT_SOURCE@)
    &&& transport.u64_at("boxId"@) == Some(box_id)
    &&& transport.u64_at("canonicalEventId"@) == Some(event_id)
}

/// Whether a transport is that of an object that holds the text that this event gave
/// to this box.
pub fn holds_box_text(transport: &Json, box_id: u64, event_id: u64) -> (yes: bool)
    ensures
        yes == is_box_text(transport@, box_id, event_id),
{
    let from_box = match transport.text_at("source") {
        Some(source) => *source == *BOX_TEXT_OBJECT_SOURCE,
        None => false,
    };
    let same_box = match transport.u64_at("boxId") {
        Some(id) => id == box_id,
        None => false,
    };
    let same_event = match transport.u64_at("canonicalEventId") {
        Some(id) => id == event_id,
        None => false,
    };
    from_box && same_box && same_event
}

/// The place of the first staged object that holds the text that this event gave to
/// this box.
pub fn existing_box_text_object(objects: &Vec<StagedObject>, box_id: u64, event_id: u64) -> (place:
    Option<usize>)
    ensures
        match place {
            Some(i) => {
                &&& i < objects.len()
                &&& is_box_text(objects@[i as int].transport@, box_id, event_id)
                &&& forall|j: int|
                    0 <= j < i ==> !is_box_text(
                        (#[trigger] objects@[j]).transport@,
                        box_id,
                        event_id,
                    )
            },
            None => forall|j: int|
                0 <= j < objects.len() ==> !is_box_text(
                    (#[trigger] objects@[j]).transport@,
                    box_id,
                    event_id,
                ),
        },
{
    let mut i: usize = 0;
    while i < objects.len()
        invariant
            i <= objects.len(),
            forall|j: int|
                0 <= j < i ==> !is_box_text((#[trigger] objects@[j]).transport@, box_id, event_id),
        decreases objects.len() - i,
    {
        if holds_box_text(&objects[i].transport, box_id, event_id) {
            return Some(i);
        }
        i = i + 1;
    }
    None
}

/// The first box called `id`, from place `i` on.
pub open spec fn box_at(boxes: Seq<BoxState>, id: u64, i: int) -> Option<int>
    decreases boxes.len() - i,
{
    if i < 0 || i >= boxes.len() {
        None
    } else if boxes[i].id == id {
        Some(i)
    } else {
        box_at(boxes, id, i + 1)
    }
}

/// The place of a box whose text may become an object, or why not.
pub open spec fn selectable(boxes: Seq<BoxState>, id: u64) -> Result<int, Seq<char>> {
    let named = "box "@ + text::digits(id as nat);
    match box_at(boxes, id, 0) {
        None => Err(named + " does not exist"@),
        Some(at) => if !boxes[at].active {
            Err(named + " is not active"@)
        } else if boxes[at].content.text@.len() == 0 {
            Err(named + " has no text content"@)
        } else {
            Ok(at)
        },
    }
}

/// The places of the selected boxes, in order, or the first refusal.
pub open spec fn selected(boxes: Seq<BoxState>, ids: Seq<u64>) -> Result<Seq<int>, Seq<char>>
    decreases ids.len(),
{
    if ids.len() == 0 {
        Ok(Seq::empty())
    } else {
        match selected(boxes, ids.drop_last()) {
            Err(message) => Err(message),
            Ok(places) => match selectable(boxes, ids.last()) {
                Err(message) => Err(message),
                Ok(place) => Ok(places.push(place)),
            },
        }
    }
}

proof fn selection_refuses(boxes: Seq<BoxState>, ids: Seq<u64>, n: int)
    requires
        0 <= n <= ids.len(),
        selected(boxes, ids.take(n)) is Err,
    ensures
        selected(boxes, ids) == selected(boxes, ids.take(n)),
    decreases ids.len(),
{
    if n < ids.len() {
        assert(ids.drop_last().take(n) =~= ids.take(n));
        selection_refuses(boxes, ids.drop_last(), n);
    } else {
        assert(ids.take(n) =~= ids);
    }
}

fn box_refusal(id: u64, rest: &str) -> (failure: Failure)
    ensures
        failure@ == "box "@ + text::digits(id as nat) + rest@,
{
    let mut message = "box ".to_owned();
    message.append(text::decimal(id as u128).as_str());
    message.append(rest);
    Failure::new(message)
}

fn select_box(boxes: &Vec<BoxState>, id: u64) -> (result: Result<usize, Failure>)
    ensures
        match result {
            Ok(place) => selectable(boxes@, id) == Ok::<int, Seq<char>>(place as int) && place
                < boxes.len(),
            Err(failure) => selectable(boxes@, id) == Err::<int, Seq<char>>(failure@),
        },
{
    let mut i: usize = 0;
    while i < boxes.len()
        invariant
            i <= boxes.len(),
            box_at(boxes@, id, 0) == box_at(boxes@, id, i as int),
        decreases boxes.len() - i,
    {
        if boxes[i].id == id {
            if !boxes[i].active {
                return Err(box_refusal(id, " is not active"));
            }
            if boxes[i].content.text.as_str().is_empty() {
                return Err(box_refusal(id, " has no text content"));
            }
            return Ok(i);
        }
        i = i + 1;
    }
    Err(box_refusal(id, " does not exist"))
}

/// The places of the selected boxes. Nothing is staged before all of them were
/// accepted.
pub fn select_boxes(boxes: &Vec<BoxState>, ids: &Vec<u64>) -> (result: Result<Vec<usize>, Failure>)
    ensures
        match result {
            Ok(places) => {
                &&& selected(boxes@, ids@) is Ok
                &&& selected(boxes@, ids@)->Ok_0 =~= Seq::new(
                    places@.len(),
                    |i: int| places@[i] as int,
                )
                &&& forall|i: int| 0 <= i < places.len() ==> (#[trigger] places@[i]) < boxes.len()
            },
            Err(failure) => selected(boxes@, ids@) == Err::<Seq<int>, Seq<char>>(failure@),
        },
{
    let mut places: Vec<usize> = Vec::new();
    let mut i: usize = 0;
    while i < ids.len()
        invariant
            i <= ids.len(),
            selected(boxes@, ids@.take(i as int)) is Ok,
            selected(boxes@, ids@.take(i as int))->Ok_0 =~= Seq::new(
                places@.len(),
                |i: int| places@[i] as int,
            ),
            forall|j: int| 0 <= j < places.len() ==> (#[trigger] places@[j]) < boxes.len(),
        decreases ids.len() - i,
    {
        assert(ids@.take(i + 1).drop_last() =~= ids@.take(i as int));
        match select_box(boxes, ids[i]) {
            Err(failure) => {
                proof {
                    selection_refuses(boxes@, ids@, i + 1);
                }
                return Err(failure);
            },
            Ok(place) => {
                places.push(place);
            },
        }
        i = i + 1;
    }
    assert(ids@.take(ids.len() as int) =~= ids@);
    Ok(places)
}

/// The transport of the object that holds a box's text.
pub open spec fn text_transport(state: BoxState) -> JsonView {
    JsonView::Object(Map::empty()).with(
        "source"@,
        JsonView::Text(BOX_TEXT_OBJECT_SOURCE@),
    ).with("boxId"@, JsonView::Integer(state.id as int)).with(
        "boxName"@,
        JsonView::Text(state.name@),
    ).with("canonicalEventId"@, JsonView::Integer(state.event_id as int))
}

/// The name and the transport of the object that holds a box's text.
pub fn box_text_object(state: &BoxState) -> (result: (String, Json))
    ensures
        result.0@ == "box-"@ + text::digits(state.id as nat) + ".txt"@,
        result.1@ == text_transport(*state),
        is_box_text(result.1@, state.id, state.event_id),
{
    let mut name = "box-".to_owned();
    name.append(text::decimal(state.id as u128).as_str());
    name.append(".txt");
    let transport = Json::object().with("source", Json::text(BOX_TEXT_OBJECT_SOURCE)).with(
        "boxId",
        Json::unsigned(state.id),
    ).with("boxName", Json::text(state.name.as_str())).with(
        "canonicalEventId",
        Json::unsigned(state.event_id),
    );
    proof {
        reveal_strlit("source");
        reveal_strlit("boxId");
        reveal_strlit("boxName");
        reveal_strlit("canonicalEventId");
        assert("source"@.len() == 6);
        assert("boxId"@.len() == 5);
        assert("boxName"@.len() == 7);
        assert("canonicalEventId"@.len() == 16);
    }
    (name, transport)
}

/// The descriptor of an object is the first that carries its identity, or else the one at
/// its place, or else that of the message's media.
pub proof fn descriptors_are_found(metadata: JsonView, id: Seq<char>, index: int, at: int)
    ensures
        ({
            let items = metadata.array_at("attachments"@);
            let media = metadata.get("media"@);
            let found = descriptor_in(metadata, id, index);
            &&& items is Some && 0 <= at < items->0.len() && items->0[at].text_at("pendingId"@)
                == Some(id) && (forall|i: int|
                0 <= i < at ==> (#[trigger] items->0[i]).text_at("pendingId"@) != Some(id))
                ==> found == Some(items->0[at])
            &&& items is Some && (forall|i: int|
                0 <= i < items->0.len() ==> (#[trigger] items->0[i]).text_at("pendingId"@) != Some(
                    id,
                )) && 0 <= index < items->0.len() ==> found == Some(items->0[index])
            &&& items is None && media is Some && media->0 is Object ==> found == media
            &&& items is None && media is None ==> found is None
        }),
{
    match metadata.array_at("attachments"@) {
        Some(items) => {
            described_first(items, id, 0);
        },
        None => {},
    }
}

/// The descriptor that carries an identity first is found.
proof fn described_first(items: Seq<JsonView>, id: Seq<char>, i: int)
    requires
        0 <= i,
    ensures
        match described_as(items, id, i) {
            Some(item) => exists|at: int|
                i <= at < items.len() && #[trigger] items[at] == item && item.text_at("pendingId"@)
                    == Some(id) && forall|j: int|
                    i <= j < at ==> (#[trigger] items[j]).text_at("pendingId"@) != Some(id),
            None => forall|j: int|
                i <= j < items.len() ==> (#[trigger] items[j]).text_at("pendingId"@) != Some(id),
        },
    decreases items.len() - i,
{
    if i < items.len() {
        if items[i].text_at("pendingId"@) == Some(id) {
            assert(items[i] == described_as(items, id, i)->0);
        } else {
            described_first(items, id, i + 1);
            if described_as(items, id, i) is Some {
                let item = described_as(items, id, i)->0;
                let at = choose|at: int|
                    i + 1 <= at < items.len() && #[trigger] items[at] == item && item.text_at(
                        "pendingId"@,
                    ) == Some(id) && forall|j: int|
                        i + 1 <= j < at ==> (#[trigger] items[j]).text_at("pendingId"@) != Some(id);
                assert(items[at] == item);
                assert forall|j: int| i <= j < at implies (#[trigger] items[j]).text_at(
                    "pendingId"@,
                ) != Some(id) by {
                    if j == i {
                    }
                }
            }
        }
    }
}

/// An object travels as the first box that holds it describes it, or else as it came.
pub proof fn objects_travel_as_described(
    boxes: Seq<BoxState>,
    transport: Option<JsonView>,
    id: Seq<char>,
)
    ensures
        boxes.len() == 0 ==> transport_kind(boxes, transport, id) == kind_in(transport),
        boxes.len() > 0 && kind_in_box(boxes[0], id) is Some ==> transport_kind(
            boxes,
            transport,
            id,
        ) == kind_in_box(boxes[0], id),
        boxes.len() > 0 && kind_in_box(boxes[0], id) is None ==> transport_kind(
            boxes,
            transport,
            id,
        ) == transport_kind(boxes.skip(1), transport, id),
{
    if boxes.len() > 0 {
        kinds_later(boxes, id, 1);
    }
}

/// What follows the first box is looked through alike.
proof fn kinds_later(boxes: Seq<BoxState>, id: Seq<char>, i: int)
    requires
        1 <= i,
        boxes.len() > 0,
    ensures
        kind_in_boxes(boxes, id, i) == kind_in_boxes(boxes.skip(1), id, i - 1),
    decreases boxes.len() - i,
{
    if i < boxes.len() {
        assert(boxes.skip(1)[i - 1] == boxes[i]);
        kinds_later(boxes, id, i + 1);
    }
}

/// A box describes only the objects that it holds: by the kind in their descriptor, where
/// that is not blank.
pub proof fn boxes_describe_their_objects(state: BoxState, id: Seq<char>, kind: Seq<char>)
    ensures
        !state.content.objects.deep_view().contains(id) ==> kind_in_box(state, id) is None,
        kind_in_box(state, id) == Some(kind) ==> !text::blank(kind),
        kind_in(Some(JsonView::Object(Map::empty()).with("kind"@, JsonView::Text(kind)))) == if
            text::blank(kind) {
            None
        } else {
            Some(kind)
        },
        kind_in(None) is None,
{
    places_are_found(state.content.objects.deep_view(), id, 0);
}

/// The first place of an item is found, and nothing where it is missing.
proof fn places_are_found(objects: Seq<Seq<char>>, id: Seq<char>, i: int)
    requires
        0 <= i,
    ensures
        match place_of(objects, id, i) {
            Some(at) => i <= at < objects.len() && objects[at] == id,
            None => forall|j: int| i <= j < objects.len() ==> objects[j] != id,
        },
    decreases objects.len() - i,
{
    if i < objects.len() && objects[i] != id {
        places_are_found(objects, id, i + 1);
    }
}

/// The media of a group message are found by its number, where the message keeps some of
/// this very group and number; a message that is not there, or has none, is refused.
pub proof fn group_media_are_found(context: JsonView, number: i64, chat: i64, at: int)
    requires
        context.i64_at("chatId"@) == Some(chat),
        context.array_at("messages"@) is Some,
    ensures
        ({
            let messages = context.array_at("messages"@)->0;
            let first = 0 <= at < messages.len() && messages[at].i64_at("messageId"@) == Some(
                number,
            ) && forall|i: int|
                0 <= i < at ==> (#[trigger] messages[i]).i64_at("messageId"@) != Some(number);
            let media = messages[at].get("mediaRef"@);
            let found = media_reference(context, number);
            &&& first && media is Some && media->0 is Object && media->0.text_at("source"@) == Some(
                "telegram-group"@,
            ) && media->0.i64_at("chatId"@) == Some(chat) && media->0.i64_at("messageId"@) == Some(
                number,
            ) ==> found == Ok::<JsonView, Seq<char>>(media->0)
            &&& first && media is None ==> found is Err
            &&& (forall|i: int|
                0 <= i < messages.len() ==> (#[trigger] messages[i]).i64_at("messageId"@) != Some(
                    number,
                )) ==> found is Err
            &&& found is Ok ==> found->Ok_0.text_at("source"@) == Some("telegram-group"@)
                && found->Ok_0.i64_at("chatId"@) == Some(chat) && found->Ok_0.i64_at("messageId"@)
                == Some(number)
        }),
{
    numbered_first(context.array_at("messages"@)->0, number, 0);
}

/// The message that carries a number first is found.
proof fn numbered_first(messages: Seq<JsonView>, number: i64, i: int)
    requires
        0 <= i,
    ensures
        match message_numbered(messages, number, i) {
            Some(message) => exists|at: int|
                i <= at < messages.len() && #[trigger] messages[at] == message && message.i64_at(
                    "messageId"@,
                ) == Some(number) && forall|j: int|
                    i <= j < at ==> (#[trigger] messages[j]).i64_at("messageId"@) != Some(number),
            None => forall|j: int|
                i <= j < messages.len() ==> (#[trigger] messages[j]).i64_at("messageId"@) != Some(
                    number,
                ),
        },
    decreases messages.len() - i,
{
    if i < messages.len() {
        if messages[i].i64_at("messageId"@) == Some(number) {
            assert(messages[i] == message_numbered(messages, number, i)->0);
        } else {
            numbered_first(messages, number, i + 1);
            if message_numbered(messages, number, i) is Some {
                let message = message_numbered(messages, number, i)->0;
                let at = choose|at: int|
                    i + 1 <= at < messages.len() && #[trigger] messages[at] == message
                        && message.i64_at("messageId"@) == Some(number) && forall|j: int|
                        i + 1 <= j < at ==> (#[trigger] messages[j]).i64_at("messageId"@) != Some(
                            number,
                        );
                assert(messages[at] == message);
                assert forall|j: int| i <= j < at implies (#[trigger] messages[j]).i64_at(
                    "messageId"@,
                ) != Some(number) by {
                    if j == i {
                    }
                }
            }
        }
    }
}

/// A staged object goes by its own name, and one without is refused.
pub proof fn staged_objects_have_names(object: StagedObject)
    ensures
        authoritative_name(object) is Ok <==> object.file_name is Some && !text::blank(
            object.file_name->0@,
        ),
        authoritative_name(object) is Ok ==> authoritative_name(object)->Ok_0
            == object.file_name->0@,
{
}

/// An identity of something staged is staged, and any other is that of the stored object
/// that it names.
pub proof fn objects_are_staged_or_stored(id: Seq<char>, readings: ReadingsView)
    ensures
        text::begins(id, "pending:"@) && object_place_of(id, readings) is Ok ==> object_place_of(
            id,
            readings,
        )->Ok_0 is Staged,
        !text::begins(id, "pending:"@) && readings.objects.contains_key(id) ==> object_place_of(
            id,
            readings,
        ) == Ok::<PlaceView, Seq<char>>(PlaceView::Stored { object_id: readings.objects[id] }),
        !text::begins(id, "pending:"@) && !readings.objects.contains_key(id) ==> object_place_of(
            id,
            readings,
        ) is Err,
        text::begins(id, "pending:"@) && !readings.refused.contains_key(id) ==> object_place_of(
            id,
            readings,
        ) is Ok,
{
}

/// Media are taken from one byte up to twenty mebibytes.
pub proof fn media_are_bounded(object_id: Seq<char>, size: nat)
    ensures
        media_refusal(object_id, size) is None <==> 0 < size <= 20 * 1024 * 1024,
{
}

/// Boxes are selected one for one and in order: each by its identity, active and with some
/// text; one that is not is refused.
pub proof fn boxes_are_selected_in_order(boxes: Seq<BoxState>, ids: Seq<u64>)
    ensures
        selected(boxes, ids) is Ok ==> {
            let places = selected(boxes, ids)->Ok_0;
            &&& places.len() == ids.len()
            &&& forall|i: int|
                0 <= i < ids.len() ==> {
                    let place = #[trigger] places[i];
                    &&& 0 <= place < boxes.len()
                    &&& boxes[place].id == ids[i]
                    &&& boxes[place].active
                    &&& boxes[place].content.text@.len() > 0
                }
        },
    decreases ids.len(),
{
    if ids.len() > 0 && selected(boxes, ids) is Ok {
        boxes_are_selected_in_order(boxes, ids.drop_last());
        box_is_first(boxes, ids.last(), 0);
        let before = selected(boxes, ids.drop_last())->Ok_0;
        let places = selected(boxes, ids)->Ok_0;
        assert forall|i: int| 0 <= i < ids.len() implies {
            let place = #[trigger] places[i];
            &&& 0 <= place < boxes.len()
            &&& boxes[place].id == ids[i]
            &&& boxes[place].active
            &&& boxes[place].content.text@.len() > 0
        } by {
            if i < before.len() {
                assert(places[i] == before[i]);
                assert(ids.drop_last()[i] == ids[i]);
            }
        }
    }
}

/// The box that carries an identity first is found.
proof fn box_is_first(boxes: Seq<BoxState>, id: u64, i: int)
    requires
        0 <= i,
    ensures
        match box_at(boxes, id, i) {
            Some(at) => i <= at < boxes.len() && boxes[at].id == id && forall|j: int|
                i <= j < at ==> (#[trigger] boxes[j]).id != id,
            None => forall|j: int| i <= j < boxes.len() ==> (#[trigger] boxes[j]).id != id,
        },
    decreases boxes.len() - i,
{
    if i < boxes.len() && boxes[i].id != id {
        box_is_first(boxes, id, i + 1);
    }
}

/// A box is selected where it is the first of its identity, active, and has some text.
pub proof fn selectable_boxes_are_selected(boxes: Seq<BoxState>, id: u64, at: int)
    requires
        0 <= at < boxes.len(),
        boxes[at].id == id,
        forall|i: int| 0 <= i < at ==> (#[trigger] boxes[i]).id != id,
    ensures
        boxes[at].active && boxes[at].content.text@.len() > 0 ==> selectable(boxes, id) == Ok::<
            int,
            Seq<char>,
        >(at),
        !boxes[at].active || boxes[at].content.text@.len() == 0 ==> selectable(boxes, id) is Err,
{
    box_is_first(boxes, id, 0);
}

/// Media of a group are known by their group and their message, and by nothing less.
pub proof fn group_media_are_told_by_chat_and_message(
    transport: JsonView,
    chat: i64,
    number: i64,
    other: i64,
)
    ensures
        is_group_media(transport, chat, number) ==> transport.text_at("source"@) == Some(
            "telegram-group"@,
        ),
        is_group_media(transport, chat, number) && other != chat ==> !is_group_media(
            transport,
            other,
            number,
        ),
        is_group_media(transport, chat, number) && other != number ==> !is_group_media(
            transport,
            chat,
            other,
        ),
        transport.text_at("source"@) == Some("telegram-group"@) && transport.i64_at("chatId"@)
            == Some(chat) && transport.i64_at("messageId"@) == Some(number) ==> is_group_media(
            transport,
            chat,
            number,
        ),
{
}

/// The object made of a box's text is known as that text's again, and as no other's.
pub proof fn box_text_objects_are_known(state: BoxState, box_id: u64, event_id: u64)
    ensures
        is_box_text(text_transport(state), box_id, event_id) <==> state.id == box_id
            && state.event_id == event_id,
        text_transport(state).text_at("boxName"@) == Some(state.name@),
{
    reveal_strlit("source");
    reveal_strlit("boxId");
    reveal_strlit("boxName");
    reveal_strlit("canonicalEventId");
    assert("source"@.len() == 6 && "boxId"@.len() == 5 && "boxName"@.len() == 7
        && "canonicalEventId"@.len() == 16);
}

/// Media of a group keep their name; those without one are named after their kind, their
/// message and their type.
pub proof fn group_media_are_named(reference: JsonView, media_type: Seq<char>, number: i64)
    ensures
        ({
            let name = group_media_name(reference, media_type, number);
            let given = reference.text_at("fileName"@);
            let kind = reference.text_at("kind"@);
            &&& given is Some && !text::blank(given->0) ==> name == given->0
            &&& (given is None || text::blank(given->0)) && kind is Some && !text::blank(kind->0)
                ==> name == "telegram-group-"@ + kind->0 + "-"@ + text::signed_digits(number as int)
                + "."@ + media::extension_of(media_type)
            &&& (given is None || text::blank(given->0)) && kind is None ==> name
                == "telegram-group-"@ + "media"@ + "-"@ + text::signed_digits(number as int) + "."@
                + media::extension_of(media_type)
        }),
{
}

/// The report of staged media begins with whether they were staged before.
pub proof fn staged_media_are_reported(object: StagedObject, number: i64)
    ensures
        group_media_report(object, number, true) is Ok <==> group_media_report(
            object,
            number,
            false,
        ) is Ok,
        group_media_report(object, number, true) is Ok ==> {
            &&& text::begins(
                group_media_report(object, number, true)->Ok_0,
                "Reused already-staged"@ + " Telegram group media\nMessage ID: "@
                    + text::signed_digits(number as int) + "\nObject: "@ + object.pending_id@,
            )
            &&& text::begins(
                group_media_report(object, number, false)->Ok_0,
                "Staged"@ + " Telegram group media\nMessage ID: "@ + text::signed_digits(
                    number as int,
                ) + "\nObject: "@ + object.pending_id@,
            )
        },
{
    if group_media_report(object, number, true) is Ok {
        let again = "Reused already-staged"@ + " Telegram group media\nMessage ID: "@
            + text::signed_digits(number as int) + "\nObject: "@ + object.pending_id@;
        let fresh = "Staged"@ + " Telegram group media\nMessage ID: "@ + text::signed_digits(
            number as int,
        ) + "\nObject: "@ + object.pending_id@;
        assert(group_media_report(object, number, true)->Ok_0.subrange(0, again.len() as int)
            =~= again);
        assert(group_media_report(object, number, false)->Ok_0.subrange(0, fresh.len() as int)
            =~= fresh);
    }
}

} // verus!
