//! Objects and texts on their way to a Telegram chat.

use crate::arguments;
use crate::ids::{Readings, ReadingsView};
use crate::json::{Json, JsonView};
use crate::media;
use crate::text;
use crate::text::Failure;
use vstd::prelude::*;

verus! {

/// The most UTF-16 code units that a caption may have.
pub const TELEGRAM_CAPTION_LIMIT_UTF16: usize = 1_024;

/// The most characters of an unprompted message.
pub const MAX_TELEGRAM_DM_CHARACTERS: usize = 40_000;

/// An object with its bytes and its description.
#[derive(Debug, PartialEq, Eq)]
pub struct ResolvedObject {
    pub object_id: String,
    pub bytes: Vec<u8>,
    pub file_name: String,
    pub media_type: String,
    pub transport_kind: Option<String>,
}

/// A request to deliver one object, under its own name or another.
#[derive(Debug, PartialEq, Eq)]
pub struct ObjectDeliveryRequest {
    pub object_id: String,
    pub file_name: Option<String>,
}

impl DeepView for ObjectDeliveryRequest {
    type V = (Seq<char>, Option<Seq<char>>);

    open spec fn deep_view(&self) -> (Seq<char>, Option<Seq<char>>) {
        (self.object_id@, self.file_name.deep_view())
    }
}

/// An object to deliver, and the name that its recipient sees.
#[derive(Debug, PartialEq, Eq)]
pub struct ResolvedObjectDelivery {
    pub object: ResolvedObject,
    pub file_name: String,
}

/// A transport kind that Telegram delivers natively.
pub open spec fn native_transport(kind: Seq<char>) -> bool {
    ||| kind == "photo"@
    ||| kind == "video"@
    ||| kind == "animation"@
    ||| kind == "audio"@
    ||| kind == "video_note"@
    ||| kind == "sticker"@
}

/// How Telegram shows an object: as it came, and else by its media type.
pub open spec fn native_kind(media_type: Seq<char>, transport_kind: Option<Seq<char>>) -> Option<
    Seq<char>,
> {
    if transport_kind is Some && native_transport(transport_kind->0) {
        transport_kind
    } else if media_type == "image/gif"@ {
        Some("animation"@)
    } else if text::begins(media_type, "image/"@) {
        Some("photo"@)
    } else if text::begins(media_type, "video/"@) {
        Some("video"@)
    } else if text::begins(media_type, "audio/"@) {
        Some("audio"@)
    } else {
        None
    }
}

/// How Telegram shows an object: as it came, and else by its media type.
pub fn telegram_native_kind(media_type: &str, transport_kind: Option<&str>) -> (kind: Option<
    &'static str,
>)
    ensures
        kind.deep_view() == native_kind(media_type@, transport_kind.deep_view()),
{
    if let Some(transport) = transport_kind {
        if *transport == *"photo" {
            return Some("photo");
        }
        if *transport == *"video" {
            return Some("video");
        }
        if *transport == *"animation" {
            return Some("animation");
        }
        if *transport == *"audio" {
            return Some("audio");
        }
        if *transport == *"video_note" {
            return Some("video_note");
        }
        if *transport == *"sticker" {
            return Some("sticker");
        }
    }
    if *media_type == *"image/gif" {
        Some("animation")
    } else if text::starts_with(media_type, "image/") {
        Some("photo")
    } else if text::starts_with(media_type, "video/") {
        Some("video")
    } else if text::starts_with(media_type, "audio/") {
        Some("audio")
    } else {
        None
    }
}

/// Whether Telegram can attach `text` to such an object.
pub open spec fn captionable(
    media_type: Seq<char>,
    transport_kind: Option<Seq<char>>,
    text: Seq<char>,
) -> bool {
    &&& 0 < text.len()
    &&& text::utf16_units(text) <= TELEGRAM_CAPTION_LIMIT_UTF16
    &&& native_kind(media_type, transport_kind) != Some("video_note"@)
    &&& native_kind(media_type, transport_kind) != Some("sticker"@)
}

impl ResolvedObject {
    /// Whether Telegram can attach `text` to this object.
    pub open spec fn takes_caption(self, text: Seq<char>) -> bool {
        captionable(self.media_type@, self.transport_kind.deep_view(), text)
    }
}

/// `text` unchanged, where Telegram can attach it to `file`.
pub fn telegram_caption_for<'a>(file: &ResolvedObject, text: &'a str) -> (caption: Option<&'a str>)
    ensures
        caption.deep_view() == if file.takes_caption(text@) {
            Some(text@)
        } else {
            None
        },
{
    if text.is_empty() || !text::utf16_fits(text, TELEGRAM_CAPTION_LIMIT_UTF16) {
        return None;
    }
    let transport = match &file.transport_kind {
        Some(kind) => Some(kind.as_str()),
        None => None,
    };
    match telegram_native_kind(file.media_type.as_str(), transport) {
        Some(kind) => {
            if *kind == *"video_note" || *kind == *"sticker" {
                None
            } else {
                Some(text)
            }
        },
        None => Some(text),
    }
}

/// An object under the name that was asked for, or else under its own.
pub fn resolved_object_delivery(object: ResolvedObject, file_name: Option<String>) -> (delivery:
    ResolvedObjectDelivery)
    ensures
        delivery.object == object,
        delivery.file_name@ == match file_name {
            Some(name) => name@,
            None => object.file_name@,
        },
{
    let file_name = match file_name {
        Some(name) => name,
        None => object.file_name.clone(),
    };
    ResolvedObjectDelivery { object, file_name }
}

/// The first place from `i` on of an object that takes `message` as its caption.
pub open spec fn captioned_from(
    attachments: Seq<ResolvedObjectDelivery>,
    message: Seq<char>,
    i: int,
) -> Option<int>
    decreases attachments.len() - i,
{
    if i < 0 || i >= attachments.len() {
        None
    } else if attachments[i].object.takes_caption(message) {
        Some(i)
    } else {
        captioned_from(attachments, message, i + 1)
    }
}

/// The first object that takes `message` as its caption.
pub fn telegram_caption_attachment(attachments: &[ResolvedObjectDelivery], message: &str) -> (place:
    Option<usize>)
    ensures
        place is Some == captioned_from(attachments@, message@, 0) is Some,
        place is Some ==> place->0 == captioned_from(attachments@, message@, 0)->0 && place->0
            < attachments@.len(),
{
    let mut i: usize = 0;
    while i < attachments.len()
        invariant
            i <= attachments.len(),
            captioned_from(attachments@, message@, 0) == captioned_from(
                attachments@,
                message@,
                i as int,
            ),
        decreases attachments.len() - i,
    {
        let caption = telegram_caption_for(&attachments[i].object, message);
        if caption.is_some() {
            return Some(i);
        }
        assert(caption.deep_view() is None);
        i = i + 1;
    }
    None
}

/// The refusal of a file name.
pub open spec fn file_name_refusal() -> Seq<char> {
    "fileName must be a nonempty path-free filename of at most 255 UTF-8 bytes without control characters or double quotes"@
}

/// Checks that a recipient may see the file name; `cleaned` is the name under which
/// the object store would keep the file.
pub fn validate_delivery_file_name(file_name: &str, cleaned: &str) -> (outcome: Result<
    (),
    Failure,
>)
    ensures
        arguments::checked(outcome) == if cleaned@ == file_name@ {
            Ok::<(), Seq<char>>(())
        } else {
            Err::<(), Seq<char>>(file_name_refusal())
        },
{
    if *cleaned == *file_name {
        return Ok(());
    }
    Err(refuse_file_name())
}

fn refuse_file_name() -> (failure: Failure)
    ensures
        failure@ == file_name_refusal(),
{
    Failure::fixed(
        "fileName must be a nonempty path-free filename of at most 255 UTF-8 bytes without control characters or double quotes",
    )
}

/// Checks that a recipient may see the file name: the object store would keep the
/// file under it.
pub fn check_file_name(file_name: &str, readings: &Readings) -> (outcome: Result<(), Failure>)
    ensures
        arguments::checked(outcome) == if readings@.keeps_name(file_name@) {
            Ok::<(), Seq<char>>(())
        } else {
            Err::<(), Seq<char>>(file_name_refusal())
        },
{
    match readings.file_name(file_name) {
        Some(cleaned) => validate_delivery_file_name(file_name, cleaned),
        None => Err(refuse_file_name()),
    }
}

/// The member `key`, where it is there: a file name that a recipient may see.
pub open spec fn delivery_name(value: JsonView, key: Seq<char>, readings: ReadingsView) -> Result<
    Option<Seq<char>>,
    Seq<char>,
> {
    match value.get(key) {
        None => Ok(None),
        Some(member) => match member.as_text() {
            None => Err(key + " must be a string"@),
            Some(name) => if readings.keeps_name(name) {
                Ok(Some(name))
            } else {
                Err(file_name_refusal())
            },
        },
    }
}

/// The member `key`, where it is there: a file name that a recipient may see.
pub fn optional_delivery_file_name(value: &Json, key: &str, readings: &Readings) -> (result: Result<
    Option<String>,
    Failure,
>)
    ensures
        text::seen(result) == delivery_name(value@, key@, readings@),
{
    let member = match value.get(key) {
        None => return Ok(None),
        Some(member) => member,
    };
    match member.as_text() {
        None => {
            let mut message = key.to_owned();
            message.append(" must be a string");
            Err(Failure::new(message))
        },
        Some(name) => match check_file_name(name, readings) {
            Err(failure) => Err(failure),
            Ok(_) => Ok(Some(name.to_owned())),
        },
    }
}

/// One entry of a list of attachments: an object identity, or an object with an
/// identity and perhaps a file name.
pub open spec fn attachment_entry(readings: ReadingsView) -> spec_fn(JsonView) -> Result<
    (Seq<char>, Option<Seq<char>>),
    Seq<char>,
> {
    |item: JsonView|
        if item is Text && !text::blank(item->Text_0) {
            Ok((item->Text_0, None))
        } else if !(item is Object) {
            Err("attachments entries must be object ID strings or objects"@)
        } else {
            match arguments::shape(item, seq!["objectId"@], seq!["fileName"@]) {
                Err(message) => Err(message),
                Ok(_) => match arguments::nonempty(item, "objectId"@, 64) {
                    Err(message) => Err(message),
                    Ok(object_id) => match delivery_name(item, "fileName"@, readings) {
                        Err(message) => Err(message),
                        Ok(name) => Ok((object_id, name)),
                    },
                },
            }
        }
}

/// The attachments that a message asks for, in order.
pub open spec fn attachments_of(value: JsonView, readings: ReadingsView) -> Result<
    Seq<(Seq<char>, Option<Seq<char>>)>,
    Seq<char>,
> {
    match value.get("attachments"@) {
        None => Ok(Seq::empty()),
        Some(member) => match member.as_array() {
            None => Err("attachments must be an array"@),
            Some(items) => arguments::collected(items, attachment_entry(readings)),
        },
    }
}

/// The attachments that a message asks for, in order.
pub fn telegram_attachments(value: &Json, readings: &Readings) -> (result: Result<
    Vec<ObjectDeliveryRequest>,
    Failure,
>)
    ensures
        text::seen(result) == attachments_of(value@, readings@),
{
    let member = match value.get("attachments") {
        None => {
            let none: Vec<ObjectDeliveryRequest> = Vec::new();
            assert(none.deep_view() =~= Seq::<(Seq<char>, Option<Seq<char>>)>::empty());
            return Ok(none);
        },
        Some(member) => member,
    };
    let items = match member.as_array() {
        None => return Err(Failure::fixed("attachments must be an array")),
        Some(items) => items,
    };
    let entry = |item: &Json| -> (outcome: Result<ObjectDeliveryRequest, Failure>)
        ensures
            text::seen(outcome) == attachment_entry(readings@)(item@),
    {
        proof {
            assert(text::views((&["objectId"])@) =~= seq!["objectId"@]);
            assert(text::views((&["fileName"])@) =~= seq!["fileName"@]);
        }
        if let Some(object_id) = item.as_text() {
            if !text::is_blank(object_id) {
                return Ok(
                    ObjectDeliveryRequest { object_id: object_id.to_owned(), file_name: None },
                );
            }
        }
        if !item.is_object() {
            return Err(Failure::fixed("attachments entries must be object ID strings or objects"));
        }
        if let Err(failure) = arguments::validate_arguments(item, &["objectId"], &["fileName"]) {
            return Err(failure);
        }
        let object_id = match arguments::nonempty_string(item, "objectId", 64) {
            Err(failure) => return Err(failure),
            Ok(object_id) => object_id,
        };
        match optional_delivery_file_name(item, "fileName", readings) {
            Err(failure) => Err(failure),
            Ok(file_name) => Ok(ObjectDeliveryRequest { object_id, file_name }),
        }
    };
    arguments::collect(items, Ghost(attachment_entry(readings@)), entry)
}

/// The root of the group that a message addresses.
pub open spec fn group_root(value: JsonView, readings: ReadingsView) -> Result<
    Seq<char>,
    Seq<char>,
> {
    match value.get("group"@) {
        None => Err("group must be an object"@),
        Some(group) => if !(group is Object) {
            Err("group must be an object"@)
        } else {
            match arguments::shape(group, seq!["rootNodeId"@], Seq::empty()) {
                Err(message) => Err(message),
                Ok(_) => match arguments::nonempty(group, "rootNodeId"@, 128) {
                    Err(message) => Err(message),
                    Ok(id) => match readings.node(id) {
                        None => Err("group.rootNodeId must be a canonical Kweb node ID"@),
                        Some(identity) => if identity == id {
                            Ok(identity)
                        } else {
                            Err("group.rootNodeId must use the canonical Kweb node ID encoding"@)
                        },
                    },
                },
            }
        },
    }
}

/// The root of the group that a message addresses.
pub fn telegram_group_root(value: &Json, readings: &Readings) -> (result: Result<String, Failure>)
    ensures
        text::seen(result) == group_root(value@, readings@),
{
    proof {
        assert(text::views((&["rootNodeId"])@) =~= seq!["rootNodeId"@]);
        assert(text::views((&[])@) =~= Seq::empty());
    }
    let group = match value.get("group") {
        None => return Err(Failure::fixed("group must be an object")),
        Some(group) => group,
    };
    if !group.is_object() {
        return Err(Failure::fixed("group must be an object"));
    }
    if let Err(failure) = arguments::validate_arguments(group, &["rootNodeId"], &[]) {
        return Err(failure);
    }
    match arguments::nonempty_string(group, "rootNodeId", 128) {
        Err(failure) => Err(failure),
        Ok(id) => {
            match readings.node(id.as_str()) {
                None => Err(Failure::fixed("group.rootNodeId must be a canonical Kweb node ID")),
                Some(identity) => {
                    if *identity == *id.as_str() {
                        Ok(id)
                    } else {
                        Err(
                            Failure::fixed(
                                "group.rootNodeId must use the canonical Kweb node ID encoding",
                            ),
                        )
                    }
                },
            }
        },
    }
}

/// Where an unprompted message goes.
#[derive(Debug, PartialEq, Eq)]
pub enum Recipient {
    User(i64),
    Group(String),
}

/// The mathematical value of a recipient.
pub enum RecipientView {
    User(i64),
    Group(Seq<char>),
}

impl DeepView for Recipient {
    type V = RecipientView;

    open spec fn deep_view(&self) -> RecipientView {
        match *self {
            Recipient::User(id) => RecipientView::User(id),
            Recipient::Group(root) => RecipientView::Group(root@),
        }
    }
}

/// An unprompted message, as a tool call asks for it.
#[derive(Debug, PartialEq, Eq)]
pub struct ColdMessage {
    pub recipient: Recipient,
    pub message: String,
    pub attachments: Vec<ObjectDeliveryRequest>,
}

impl DeepView for ColdMessage {
    type V = (RecipientView, Seq<char>, Seq<(Seq<char>, Option<Seq<char>>)>);

    open spec fn deep_view(&self) -> (
        RecipientView,
        Seq<char>,
        Seq<(Seq<char>, Option<Seq<char>>)>,
    ) {
        (self.recipient.deep_view(), self.message@, self.attachments.deep_view())
    }
}

/// The user that a direct message addresses.
pub open spec fn direct_recipient(arguments: JsonView) -> Result<RecipientView, Seq<char>> {
    match arguments.get("user"@) {
        None => Err("user must be an object"@),
        Some(user) => if !(user is Object) {
            Err("user must be an object"@)
        } else {
            match arguments::shape(user, seq!["telegramUserId"@], Seq::empty()) {
                Err(message) => Err(message),
                Ok(_) => match arguments::positive(user, "telegramUserId"@) {
                    Err(message) => Err(message),
                    Ok(id) => if id <= i64::MAX {
                        Ok(RecipientView::User(id as i64))
                    } else {
                        Err("telegramUserId exceeds Telegram's supported integer range"@)
                    },
                },
            }
        },
    }
}

/// The text of an unprompted message, empty where there is none.
pub open spec fn cold_text(arguments: JsonView) -> Result<Seq<char>, Seq<char>> {
    if arguments.get("message"@) is None {
        Ok(Seq::empty())
    } else {
        arguments::nonempty(arguments, "message"@, MAX_TELEGRAM_DM_CHARACTERS as nat)
    }
}

/// The text and the attachments of an unprompted message; one of them must be there.
pub open spec fn cold_contents(
    arguments: JsonView,
    recipient: RecipientView,
    refusal: Seq<char>,
    readings: ReadingsView,
) -> Result<(RecipientView, Seq<char>, Seq<(Seq<char>, Option<Seq<char>>)>), Seq<char>> {
    match cold_text(arguments) {
        Err(message) => Err(message),
        Ok(message) => match attachments_of(arguments, readings) {
            Err(message) => Err(message),
            Ok(attachments) => if message.len() == 0 && attachments.len() == 0 {
                Err(refusal)
            } else {
                Ok((recipient, message, attachments))
            },
        },
    }
}

/// The direct message that a tool call asks for.
pub open spec fn direct_message_of(arguments: JsonView, readings: ReadingsView) -> Result<
    (RecipientView, Seq<char>, Seq<(Seq<char>, Option<Seq<char>>)>),
    Seq<char>,
> {
    match arguments::shape(arguments, seq!["user"@], seq!["message"@, "attachments"@]) {
        Err(message) => Err(message),
        Ok(_) => match direct_recipient(arguments) {
            Err(message) => Err(message),
            Ok(recipient) => cold_contents(
                arguments,
                recipient,
                "SendTelegramDM requires a nonempty message, at least one attachment, or both"@,
                readings,
            ),
        },
    }
}

/// The group message that a tool call asks for.
pub open spec fn group_message_of(arguments: JsonView, readings: ReadingsView) -> Result<
    (RecipientView, Seq<char>, Seq<(Seq<char>, Option<Seq<char>>)>),
    Seq<char>,
> {
    match arguments::shape(arguments, seq!["group"@], seq!["message"@, "attachments"@]) {
        Err(message) => Err(message),
        Ok(_) => match group_root(arguments, readings) {
            Err(message) => Err(message),
            Ok(root) => cold_contents(
                arguments,
                RecipientView::Group(root),
                "SendTelegramGroupMessage requires a nonempty message, at least one attachment, or both"@,
                readings,
            ),
        },
    }
}

fn cold_message(
    arguments: &Json,
    recipient: Recipient,
    refusal: &str,
    readings: &Readings,
) -> (result: Result<ColdMessage, Failure>)
    ensures
        text::seen(result) == cold_contents(
            arguments@,
            recipient.deep_view(),
            refusal@,
            readings@,
        ),
{
    let message = match arguments.get("message") {
        None => String::new(),
        Some(_) => match arguments::nonempty_string(
            arguments,
            "message",
            MAX_TELEGRAM_DM_CHARACTERS,
        ) {
            Err(failure) => return Err(failure),
            Ok(message) => message,
        },
    };
    let attachments = match telegram_attachments(arguments, readings) {
        Err(failure) => return Err(failure),
        Ok(attachments) => attachments,
    };
    if message.as_str().is_empty() && attachments.len() == 0 {
        return Err(Failure::fixed(refusal));
    }
    Ok(ColdMessage { recipient, message, attachments })
}

/// The direct message that a tool call asks for.
pub fn direct_message(arguments: &Json, readings: &Readings) -> (result: Result<
    ColdMessage,
    Failure,
>)
    ensures
        text::seen(result) == direct_message_of(arguments@, readings@),
{
    proof {
        assert(text::views((&["user"])@) =~= seq!["user"@]);
        assert(text::views((&["message", "attachments"])@) =~= seq!["message"@, "attachments"@]);
        assert(text::views((&["telegramUserId"])@) =~= seq!["telegramUserId"@]);
        assert(text::views((&[])@) =~= Seq::empty());
    }
    if let Err(failure) = arguments::validate_arguments(
        arguments,
        &["user"],
        &["message", "attachments"],
    ) {
        return Err(failure);
    }
    let user = match arguments.get("user") {
        None => return Err(Failure::fixed("user must be an object")),
        Some(user) => user,
    };
    if !user.is_object() {
        return Err(Failure::fixed("user must be an object"));
    }
    if let Err(failure) = arguments::validate_arguments(user, &["telegramUserId"], &[]) {
        return Err(failure);
    }
    let id = match arguments::positive_integer(user, "telegramUserId") {
        Err(failure) => return Err(failure),
        Ok(id) => id,
    };
    if id > i64::MAX as u64 {
        return Err(
            Failure::fixed("telegramUserId exceeds Telegram's supported integer range"),
        );
    }
    cold_message(
        arguments,
        Recipient::User(id as i64),
        "SendTelegramDM requires a nonempty message, at least one attachment, or both",
        readings,
    )
}

/// The group message that a tool call asks for.
pub fn group_message(arguments: &Json, readings: &Readings) -> (result: Result<
    ColdMessage,
    Failure,
>)
    ensures
        text::seen(result) == group_message_of(arguments@, readings@),
{
    proof {
        assert(text::views((&["group"])@) =~= seq!["group"@]);
        assert(text::views((&["message", "attachments"])@) =~= seq!["message"@, "attachments"@]);
    }
    if let Err(failure) = arguments::validate_arguments(
        arguments,
        &["group"],
        &["message", "attachments"],
    ) {
        return Err(failure);
    }
    let root = match telegram_group_root(arguments, readings) {
        Err(failure) => return Err(failure),
        Ok(root) => root,
    };
    cold_message(
        arguments,
        Recipient::Group(root),
        "SendTelegramGroupMessage requires a nonempty message, at least one attachment, or both",
        readings,
    )
}

/// Whether an object that was resolved for a message may go with it, or why not:
/// it must have bytes.
pub open spec fn attachable(object: ResolvedObject, requested_id: Seq<char>) -> Result<
    (),
    Seq<char>,
> {
    if object.bytes@.len() == 0 {
        Err("attachment object "@ + requested_id + " is empty"@)
    } else {
        Ok(())
    }
}

/// Takes an object that was resolved for a message as the message asked for it.
pub fn attach(object: ResolvedObject, request: &ObjectDeliveryRequest) -> (result: Result<
    ResolvedObjectDelivery,
    Failure,
>)
    ensures
        match result {
            Ok(delivery) => {
                &&& attachable(object, request.object_id@) is Ok
                &&& delivery.object == object
                &&& delivery.file_name@ == match request.file_name {
                    Some(name) => name@,
                    None => object.file_name@,
                }
            },
            Err(failure) => attachable(object, request.object_id@) == Err::<(), Seq<char>>(
                failure@,
            ),
        },
{
    if object.bytes.len() == 0 {
        let mut message = "attachment object ".to_owned();
        message.append(request.object_id.as_str());
        message.append(" is empty");
        return Err(Failure::new(message));
    }
    let file_name = match &request.file_name {
        Some(name) => Some(name.clone()),
        None => None,
    };
    Ok(resolved_object_delivery(object, file_name))
}

/// The first attachment of more than `maximum` bytes, as a refusal.
pub open spec fn sizes_fit(attachments: Seq<ResolvedObjectDelivery>, maximum: u64) -> Result<
    (),
    Seq<char>,
>
    decreases attachments.len(),
{
    if attachments.len() == 0 {
        Ok(())
    } else {
        match sizes_fit(attachments.drop_last(), maximum) {
            Err(message) => Err(message),
            Ok(_) => {
                let object = attachments.last().object;
                if object.bytes@.len() <= maximum {
                    Ok(())
                } else {
                    Err(
                        "attachment object "@ + object.object_id@ + " is "@ + text::digits(
                            object.bytes@.len(),
                        ) + " bytes, over Telegram's "@ + text::digits(maximum as nat)
                            + "-byte limit"@,
                    )
                }
            },
        }
    }
}

proof fn sizes_refuse(attachments: Seq<ResolvedObjectDelivery>, maximum: u64, n: int)
    requires
        0 <= n <= attachments.len(),
        sizes_fit(attachments.take(n), maximum) is Err,
    ensures
        sizes_fit(attachments, maximum) == sizes_fit(attachments.take(n), maximum),
    decreases attachments.len(),
{
    if n < attachments.len() {
        assert(attachments.drop_last().take(n) =~= attachments.take(n));
        sizes_refuse(attachments.drop_last(), maximum, n);
    } else {
        assert(attachments.take(n) =~= attachments);
    }
}

/// Checks that no attachment has more than `maximum` bytes.
pub fn check_attachment_sizes(attachments: &Vec<ResolvedObjectDelivery>, maximum: u64) -> (outcome:
    Result<(), Failure>)
    ensures
        arguments::checked(outcome) == sizes_fit(attachments@, maximum),
{
    let mut i: usize = 0;
    while i < attachments.len()
        invariant
            i <= attachments.len(),
            sizes_fit(attachments@.take(i as int), maximum) is Ok,
        decreases attachments.len() - i,
    {
        assert(attachments@.take(i + 1).drop_last() =~= attachments@.take(i as int));
        let object = &attachments[i].object;
        if object.bytes.len() as u64 > maximum {
            let mut message = "attachment object ".to_owned();
            message.append(object.object_id.as_str());
            message.append(" is ");
            message.append(text::decimal(object.bytes.len() as u128).as_str());
            message.append(" bytes, over Telegram's ");
            message.append(text::decimal(maximum as u128).as_str());
            message.append("-byte limit");
            proof {
                sizes_refuse(attachments@, maximum, i + 1);
            }
            return Err(Failure::new(message));
        }
        i = i + 1;
    }
    assert(attachments@.take(attachments.len() as int) =~= attachments@);
    Ok(())
}

/// One step of sending a message.
#[derive(Debug, PartialEq, Eq)]
pub enum SendStep {
    /// Send the whole text as a message of its own.
    Text,
    /// Send the object at this place, with the text as its caption or without.
    Object { index: usize, captioned: bool },
}

/// The mathematical value of a step.
pub enum SendView {
    Text,
    Object { index: int, captioned: bool },
}

impl DeepView for SendStep {
    type V = SendView;

    open spec fn deep_view(&self) -> SendView {
        match *self {
            SendStep::Text => SendView::Text,
            SendStep::Object { index, captioned } => SendView::Object {
                index: index as int,
                captioned,
            },
        }
    }
}

/// The steps that send a message: the text first, unless it is empty or goes as a
/// caption, and then every object in order.
pub open spec fn sending(attachments: Seq<ResolvedObjectDelivery>, message: Seq<char>) -> Seq<
    SendView,
> {
    let caption = captioned_from(attachments, message, 0);
    let text = if message.len() > 0 && caption is None {
        seq![SendView::Text]
    } else {
        Seq::empty()
    };
    text + Seq::new(
        attachments.len(),
        |i: int| SendView::Object { index: i, captioned: caption == Some(i) },
    )
}

/// The steps that send a message.
pub fn send_steps(attachments: &Vec<ResolvedObjectDelivery>, message: &str) -> (steps: Vec<SendStep>)
    ensures
        steps.deep_view() == sending(attachments@, message@),
{
    let caption = telegram_caption_attachment(attachments.as_slice(), message);
    let ghost place = captioned_from(attachments@, message@, 0);
    let mut steps: Vec<SendStep> = Vec::new();
    if !message.is_empty() && caption.is_none() {
        steps.push(SendStep::Text);
    }
    let ghost head = steps.deep_view();
    let ghost objects = Seq::new(
        attachments@.len(),
        |i: int| SendView::Object { index: i, captioned: place == Some(i) },
    );
    proof {
        if message@.len() > 0 && place is None {
            assert(head =~= seq![SendView::Text]);
        } else {
            assert(head =~= Seq::empty());
        }
        assert(objects.take(0) =~= Seq::empty());
        assert(head + objects.take(0) =~= head);
    }
    let mut i: usize = 0;
    while i < attachments.len()
        invariant
            i <= attachments.len(),
            objects == Seq::new(
                attachments@.len(),
                |i: int| SendView::Object { index: i, captioned: place == Some(i) },
            ),
            caption is Some == place is Some,
            caption is Some ==> caption->0 == place->0,
            steps.deep_view() == head + objects.take(i as int),
        decreases attachments.len() - i,
    {
        let captioned = match caption {
            Some(at) => at == i,
            None => false,
        };
        let ghost before = steps.deep_view();
        steps.push(SendStep::Object { index: i, captioned });
        assert(steps.deep_view() =~= before.push(objects[i as int]));
        assert(head + objects.take(i + 1) =~= before.push(objects[i as int]));
        i = i + 1;
    }
    assert(objects.take(objects.len() as int) =~= objects);
    steps
}

/// Whether a step carries the text of the message.
pub open spec fn carries_text(step: SendView) -> bool {
    match step {
        SendView::Text => true,
        SendView::Object { captioned, .. } => captioned,
    }
}

/// A text that is not empty goes out in exactly one step, and an empty one in none.
pub proof fn texts_are_sent_once(
    attachments: Seq<ResolvedObjectDelivery>,
    message: Seq<char>,
    i: int,
    j: int,
)
    ensures
        message.len() > 0 ==> exists|k: int|
            0 <= k < sending(attachments, message).len() && carries_text(
                #[trigger] sending(attachments, message)[k],
            ),
        0 <= i < sending(attachments, message).len() && 0 <= j < sending(
            attachments,
            message,
        ).len() && carries_text(sending(attachments, message)[i]) && carries_text(
            sending(attachments, message)[j],
        ) ==> i == j && message.len() > 0,
{
    let steps = sending(attachments, message);
    captioned_from_takes(attachments, message, 0);
    if message.len() > 0 {
        match captioned_from(attachments, message, 0) {
            Some(at) => {
                assert(carries_text(steps[at]));
            },
            None => {
                assert(carries_text(steps[0]));
            },
        }
    }
}

/// A place that is found holds an object that takes the message as its caption.
pub proof fn captioned_from_takes(
    attachments: Seq<ResolvedObjectDelivery>,
    message: Seq<char>,
    i: int,
)
    requires
        0 <= i,
    ensures
        match captioned_from(attachments, message, i) {
            Some(at) => {
                &&& i <= at < attachments.len()
                &&& attachments[at].object.takes_caption(message)
                &&& forall|j: int|
                    i <= j < at ==> !(#[trigger] attachments[j]).object.takes_caption(message)
            },
            None => forall|j: int|
                i <= j < attachments.len() ==> !(
                #[trigger] attachments[j]).object.takes_caption(message),
        },
    decreases attachments.len() - i,
{
    if i < attachments.len() && !attachments[i].object.takes_caption(message) {
        captioned_from_takes(attachments, message, i + 1);
    }
}

/// How a report counts attachments.
pub open spec fn attachment_summary(count: nat) -> Seq<char> {
    if count == 0 {
        Seq::empty()
    } else if count == 1 {
        " with 1 attachment"@
    } else {
        " with "@ + text::digits(count) + " attachments"@
    }
}

/// The report of a message that was sent.
pub open spec fn sent_report(recipient: RecipientView, count: nat) -> Seq<char> {
    match recipient {
        RecipientView::User(id) => "Sent a cold Telegram direct message"@ + attachment_summary(
            count,
        ) + " to user "@ + text::signed_digits(id as int) + "."@,
        RecipientView::Group(root) => "Sent a Telegram group message"@ + attachment_summary(count)
            + " to group root "@ + root + "."@,
    }
}

/// The report of a message that was sent.
pub fn report_sent(recipient: &Recipient, count: usize) -> (report: String)
    ensures
        report@ == sent_report(recipient.deep_view(), count as nat),
{
    let mut summary = String::new();
    if count == 1 {
        summary.append(" with 1 attachment");
        assert(summary@ =~= attachment_summary(1));
    } else if count > 1 {
        summary = " with ".to_owned();
        summary.append(text::decimal(count as u128).as_str());
        summary.append(" attachments");
    }
    match recipient {
        Recipient::User(id) => {
            let mut report = "Sent a cold Telegram direct message".to_owned();
            report.append(summary.as_str());
            report.append(" to user ");
            report.append(text::signed_decimal(*id).as_str());
            report.append(".");
            report
        },
        Recipient::Group(root) => {
            let mut report = "Sent a Telegram group message".to_owned();
            report.append(summary.as_str());
            report.append(" to group root ");
            report.append(root.as_str());
            report.append(".");
            report
        },
    }
}

/// Whether a session with this type and channel is the direct chat with `user`, and
/// so already holds the lock on it.
pub fn holds_user_lock(session_type: &str, channel: &Json, user: i64) -> (yes: bool)
    ensures
        yes == (session_type@ == "telegram"@ && channel@.i64_at("telegramUserId"@) == Some(user)),
{
    *session_type == *"telegram" && match channel.i64_at("telegramUserId") {
        Some(id) => id == user,
        None => false,
    }
}

/// Whether a group of the directory may be written to under `root`.
pub fn group_is_ready(root_ready: bool, root_node_id: Option<&str>, root: &str) -> (outcome: Result<
    (),
    Failure,
>)
    ensures
        arguments::checked(outcome) == if root_ready && root_node_id.deep_view() == Some(root@) {
            Ok::<(), Seq<char>>(())
        } else {
            Err::<(), Seq<char>>("The Telegram group's Kennedy root is not ready."@)
        },
{
    let same = match root_node_id {
        Some(id) => *id == *root,
        None => false,
    };
    if root_ready && same {
        Ok(())
    } else {
        Err(Failure::fixed("The Telegram group's Kennedy root is not ready."))
    }
}

/// A native transport is kept; without one, pictures, videos and sounds go as such,
/// moving pictures as animations, and everything else as a document.
pub proof fn media_go_by_their_kind(media_type: Seq<char>, transport_kind: Option<Seq<char>>)
    ensures
        transport_kind == Some("photo"@) ==> native_kind(media_type, transport_kind) == Some(
            "photo"@,
        ),
        transport_kind == Some("sticker"@) ==> native_kind(media_type, transport_kind) == Some(
            "sticker"@,
        ),
        transport_kind == Some("video_note"@) ==> native_kind(media_type, transport_kind) == Some(
            "video_note"@,
        ),
        transport_kind == Some("video"@) ==> native_kind(media_type, transport_kind) == Some(
            "video"@,
        ),
        transport_kind == Some("animation"@) ==> native_kind(media_type, transport_kind) == Some(
            "animation"@,
        ),
        transport_kind == Some("audio"@) ==> native_kind(media_type, transport_kind) == Some(
            "audio"@,
        ),
        transport_kind is None && media_type == "image/gif"@ ==> native_kind(
            media_type,
            transport_kind,
        ) == Some("animation"@),
        transport_kind is None && media_type != "image/gif"@ && text::begins(media_type, "image/"@)
            ==> native_kind(media_type, transport_kind) == Some("photo"@),
        transport_kind is None && text::begins(media_type, "video/"@) ==> native_kind(
            media_type,
            transport_kind,
        ) == Some("video"@),
        transport_kind is None && text::begins(media_type, "audio/"@) ==> native_kind(
            media_type,
            transport_kind,
        ) == Some("audio"@),
        transport_kind is None && !text::begins(media_type, "image/"@) && !text::begins(
            media_type,
            "video/"@,
        ) && !text::begins(media_type, "audio/"@) ==> native_kind(media_type, transport_kind)
            is None,
{
    reveal_strlit("image/");
    reveal_strlit("video/");
    reveal_strlit("audio/");
    reveal_strlit("image/gif");
    assert("image/"@[0] == 'i' && "video/"@[0] == 'v' && "audio/"@[0] == 'a');
    assert("image/"@.len() == 6 && "video/"@.len() == 6 && "audio/"@.len() == 6);
    assert("image/gif"@.len() == 9);
    assert("image/gif"@.subrange(0, 6) =~= "image/"@);
    text::parts_stand_by_their_characters(media_type, "image/"@, 0);
    text::parts_stand_by_their_characters(media_type, "video/"@, 0);
    text::parts_stand_by_their_characters(media_type, "audio/"@, 0);
    assert(text::begins(media_type, "image/"@) ==> "image/"@[0] == media_type[0]);
    assert(text::begins(media_type, "video/"@) ==> "video/"@[0] == media_type[0]);
    assert(text::begins(media_type, "audio/"@) ==> "audio/"@[0] == media_type[0]);
}

/// A text fits as a caption where it is neither empty nor longer than 1024 UTF-16 units;
/// a note and a sticker take none.
pub proof fn captions_are_bounded(
    media_type: Seq<char>,
    transport_kind: Option<Seq<char>>,
    text: Seq<char>,
)
    ensures
        captionable(media_type, transport_kind, text) ==> 0 < text.len() && text::utf16_units(text)
            <= 1024,
        transport_kind == Some("sticker"@) || transport_kind == Some("video_note"@)
            ==> !captionable(media_type, transport_kind, text),
        0 < text.len() && text::utf16_units(text) <= 1024 && (transport_kind is None
            || transport_kind == Some("photo"@)) ==> captionable(media_type, transport_kind, text),
{
    media_go_by_their_kind(media_type, transport_kind);
    reveal_strlit("photo");
    reveal_strlit("video");
    reveal_strlit("animation");
    reveal_strlit("audio");
    reveal_strlit("video_note");
    reveal_strlit("sticker");
    assert("photo"@.len() == 5 && "video"@.len() == 5 && "audio"@.len() == 5);
    assert("animation"@.len() == 9 && "video_note"@.len() == 10 && "sticker"@.len() == 7);
}

/// Attachments are taken one for one and in order: a text as the identity of an object,
/// and an object as the identity and the name that it gives.
pub proof fn attachments_are_taken_in_order(value: JsonView, readings: ReadingsView, i: int)
    requires
        attachments_of(value, readings) is Ok,
    ensures
        value.get("attachments"@) is None ==> attachments_of(value, readings)->Ok_0.len() == 0,
        value.get("attachments"@) is Some ==> {
            let items = value.array_at("attachments"@);
            let taken = attachments_of(value, readings)->Ok_0;
            &&& items is Some
            &&& taken.len() == items->0.len()
            &&& 0 <= i < taken.len() ==> {
                &&& items->0[i] is Text ==> JsonView::Text(taken[i].0) == items->0[i]
                    && taken[i].1 is None
                &&& items->0[i] is Object ==> {
                    &&& items->0[i].text_at("objectId"@) is Some
                    &&& taken[i].0 == text::trimmed(items->0[i].text_at("objectId"@)->0)
                    &&& taken[i].1 == items->0[i].text_at("fileName"@)
                    &&& taken[i].1 is Some ==> readings.keeps_name(taken[i].1->0)
                }
                &&& items->0[i] is Text || items->0[i] is Object
            }
        },
{
    if value.get("attachments"@) is Some {
        let items = value.array_at("attachments"@)->0;
        let read = attachment_entry(readings);
        arguments::lists_are_read_item_by_item(items, read);
        let taken = attachments_of(value, readings)->Ok_0;
        if 0 <= i < taken.len() {
            assert(read(items[i]) == Ok::<(Seq<char>, Option<Seq<char>>), Seq<char>>(
                arguments::collected(items, read)->Ok_0[i],
            ));
        }
    }
}

/// A direct message goes to the user that its arguments name, with their text, without
/// the white space around it, and their attachments; one of the two is there.
pub proof fn direct_messages_go_as_asked(arguments: JsonView, readings: ReadingsView)
    requires
        direct_message_of(arguments, readings) is Ok,
    ensures
        match direct_message_of(arguments, readings)->Ok_0 {
            (recipient, message, attachments) => {
                &&& arguments.get("user"@) is Some
                &&& recipient is User
                &&& recipient->User_0 > 0
                &&& arguments.get("user"@)->0.i64_at("telegramUserId"@) == Some(recipient->User_0)
                &&& arguments.get("message"@) is None ==> message.len() == 0
                &&& arguments.get("message"@) is Some ==> arguments.text_at("message"@) is Some
                    && message == text::trimmed(arguments.text_at("message"@)->0) && 0
                    < message.len() <= 40_000
                &&& attachments_of(arguments, readings) == Ok::<
                    Seq<(Seq<char>, Option<Seq<char>>)>,
                    Seq<char>,
                >(attachments)
                &&& message.len() > 0 || attachments.len() > 0
            },
        },
{
}

/// A message to a group goes to the group whose root its arguments name, with their text,
/// without the white space around it, and their attachments; one of the two is there.
pub proof fn group_messages_go_as_asked(arguments: JsonView, readings: ReadingsView)
    requires
        group_message_of(arguments, readings) is Ok,
    ensures
        match group_message_of(arguments, readings)->Ok_0 {
            (recipient, message, attachments) => {
                &&& arguments.get("group"@) is Some
                &&& arguments.get("group"@)->0.text_at("rootNodeId"@) is Some
                &&& recipient == RecipientView::Group(
                    text::trimmed(arguments.get("group"@)->0.text_at("rootNodeId"@)->0),
                )
                &&& readings.nodes.contains_key(recipient->Group_0)
                &&& readings.nodes[recipient->Group_0] == recipient->Group_0
                &&& arguments.get("message"@) is None ==> message.len() == 0
                &&& arguments.get("message"@) is Some ==> arguments.text_at("message"@) is Some
                    && message == text::trimmed(arguments.text_at("message"@)->0) && 0
                    < message.len() <= 40_000
                &&& attachments_of(arguments, readings) == Ok::<
                    Seq<(Seq<char>, Option<Seq<char>>)>,
                    Seq<char>,
                >(attachments)
                &&& message.len() > 0 || attachments.len() > 0
            },
        },
{
}

/// Attachments fit exactly where none of them is larger than allowed.
pub proof fn attachments_fit_one_by_one(attachments: Seq<ResolvedObjectDelivery>, maximum: u64)
    ensures
        sizes_fit(attachments, maximum) is Ok <==> forall|i: int|
            0 <= i < attachments.len() ==> (#[trigger] attachments[i]).object.bytes@.len()
                <= maximum,
    decreases attachments.len(),
{
    if attachments.len() > 0 {
        let rest = attachments.drop_last();
        attachments_fit_one_by_one(rest, maximum);
        if sizes_fit(rest, maximum) is Err {
            let k = choose|i: int|
                0 <= i < rest.len() && (#[trigger] rest[i]).object.bytes@.len() > maximum;
            assert(attachments[k].object.bytes@.len() > maximum);
        } else {
            assert forall|i: int| 0 <= i < rest.len() implies (
            #[trigger] attachments[i]).object.bytes@.len() <= maximum by {
                assert(rest[i].object.bytes@.len() <= maximum);
            }
        }
        assert(attachments[attachments.len() - 1] == attachments.last());
    }
}

/// A cold message sends every attachment once, in order. Its text goes first and by
/// itself, unless an attachment takes it as a caption: then the first that can.
pub proof fn attachments_are_sent_in_order(
    attachments: Seq<ResolvedObjectDelivery>,
    message: Seq<char>,
    i: int,
)
    requires
        0 <= i < attachments.len(),
    ensures
        ({
            let steps = sending(attachments, message);
            let takers = exists|j: int|
                0 <= j < attachments.len() && (#[trigger] attachments[j]).object.takes_caption(
                    message,
                );
            let offset = if message.len() > 0 && !takers {
                1int
            } else {
                0
            };
            let captions = attachments[i].object.takes_caption(message) && forall|j: int|
                0 <= j < i ==> !(#[trigger] attachments[j]).object.takes_caption(message);
            &&& steps.len() == attachments.len() + offset
            &&& offset == 1 ==> steps[0] is Text
            &&& steps[offset + i] == (SendView::Object { index: i, captioned: captions })
        }),
{
    captioned_is_first(attachments, message, 0);
    match captioned_from(attachments, message, 0) {
        Some(at) => {
            assert(attachments[at].object.takes_caption(message));
        },
        None => {},
    }
}

/// The attachment that takes the caption is the first that can.
proof fn captioned_is_first(
    attachments: Seq<ResolvedObjectDelivery>,
    message: Seq<char>,
    i: int,
)
    requires
        0 <= i,
    ensures
        match captioned_from(attachments, message, i) {
            Some(at) => i <= at < attachments.len() && attachments[at].object.takes_caption(message)
                && forall|j: int|
                i <= j < at ==> !(#[trigger] attachments[j]).object.takes_caption(message),
            None => forall|j: int|
                i <= j < attachments.len() ==> !(#[trigger] attachments[j]).object.takes_caption(
                    message,
                ),
        },
    decreases attachments.len() - i,
{
    if i < attachments.len() && !attachments[i].object.takes_caption(message) {
        captioned_is_first(attachments, message, i + 1);
    }
}

/// Only an object that holds something is attached.
pub proof fn empty_objects_are_not_attached(object: ResolvedObject, requested_id: Seq<char>)
    ensures
        attachable(object, requested_id) is Ok <==> object.bytes@.len() > 0,
{
}

/// What was sent is reported with whom it went to and how many files went with it.
pub proof fn deliveries_are_reported(id: i64, root: Seq<char>, count: nat)
    requires
        count > 1,
    ensures
        sent_report(RecipientView::User(id), 0) == "Sent a cold Telegram direct message to user "@
            + text::signed_digits(id as int) + "."@,
        sent_report(RecipientView::User(id), 1)
            == "Sent a cold Telegram direct message with 1 attachment to user "@
            + text::signed_digits(id as int) + "."@,
        sent_report(RecipientView::User(id), count) == "Sent a cold Telegram direct message with "@
            + text::digits(count) + " attachments to user "@ + text::signed_digits(id as int)
            + "."@,
        sent_report(RecipientView::Group(root), 0) == "Sent a Telegram group message to group root "@
            + root + "."@,
        sent_report(RecipientView::Group(root), 1)
            == "Sent a Telegram group message with 1 attachment to group root "@ + root + "."@,
        sent_report(RecipientView::Group(root), count) == "Sent a Telegram group message with "@
            + text::digits(count) + " attachments to group root "@ + root + "."@,
{
    reveal_strlit("Sent a cold Telegram direct message");
    reveal_strlit("Sent a cold Telegram direct message with ");
    reveal_strlit("Sent a cold Telegram direct message to user ");
    reveal_strlit("Sent a cold Telegram direct message with 1 attachment to user ");
    reveal_strlit("Sent a Telegram group message");
    reveal_strlit("Sent a Telegram group message with ");
    reveal_strlit("Sent a Telegram group message to group root ");
    reveal_strlit("Sent a Telegram group message with 1 attachment to group root ");
    reveal_strlit(" with 1 attachment");
    reveal_strlit(" with ");
    reveal_strlit(" attachments");
    reveal_strlit(" to user ");
    reveal_strlit(" to group root ");
    reveal_strlit(" attachments to user ");
    reveal_strlit(" attachments to group root ");
    let user = RecipientView::User(id);
    let group = RecipientView::Group(root);
    assert("Sent a cold Telegram direct message"@ + " to user "@
        =~= "Sent a cold Telegram direct message to user "@);
    assert("Sent a cold Telegram direct message"@ + " with 1 attachment"@ + " to user "@
        =~= "Sent a cold Telegram direct message with 1 attachment to user "@);
    assert("Sent a cold Telegram direct message"@ + " with "@
        =~= "Sent a cold Telegram direct message with "@);
    assert(" attachments"@ + " to user "@ =~= " attachments to user "@);
    assert("Sent a Telegram group message"@ + " to group root "@
        =~= "Sent a Telegram group message to group root "@);
    assert("Sent a Telegram group message"@ + " with 1 attachment"@ + " to group root "@
        =~= "Sent a Telegram group message with 1 attachment to group root "@);
    assert("Sent a Telegram group message"@ + " with "@ =~= "Sent a Telegram group message with "@);
    assert(" attachments"@ + " to group root "@ =~= " attachments to group root "@);
    let told = text::signed_digits(id as int);
    let number = text::digits(count);
    assert("Sent a cold Telegram direct message"@ + Seq::<char>::empty()
        =~= "Sent a cold Telegram direct message"@);
    assert("Sent a Telegram group message"@ + Seq::<char>::empty()
        =~= "Sent a Telegram group message"@);
    assert(sent_report(user, count) =~= "Sent a cold Telegram direct message"@ + " with "@ + number
        + (" attachments"@ + " to user "@) + told + "."@);
    assert(sent_report(group, count) =~= "Sent a Telegram group message"@ + " with "@ + number + (
    " attachments"@ + " to group root "@) + root + "."@);
}

/// A message with words goes to the user or the group that it names, and one without words
/// and files goes to neither.
pub proof fn well_formed_messages_go(
    id: i64,
    root: Seq<char>,
    words: Seq<char>,
    readings: ReadingsView,
)
    requires
        id > 0,
        0 < root.len() <= 128,
        !text::is_space(root[0]) && !text::is_space(root.last()),
        readings.node(root) == Some(root),
        0 < words.len() <= 40_000,
        !text::is_space(words[0]) && !text::is_space(words.last()),
    ensures
        ({
            let none = JsonView::Object(Map::empty());
            let user = none.with(
                "user"@,
                none.with("telegramUserId"@, JsonView::Integer(id as int)),
            );
            let group = none.with("group"@, none.with("rootNodeId"@, JsonView::Text(root)));
            let message = JsonView::Text(words);
            &&& direct_message_of(user.with("message"@, message), readings) == Ok::<
                (RecipientView, Seq<char>, Seq<(Seq<char>, Option<Seq<char>>)>),
                Seq<char>,
            >((RecipientView::User(id), words, Seq::empty()))
            &&& group_message_of(group.with("message"@, message), readings) == Ok::<
                (RecipientView, Seq<char>, Seq<(Seq<char>, Option<Seq<char>>)>),
                Seq<char>,
            >((RecipientView::Group(root), words, Seq::empty()))
            &&& direct_message_of(user, readings) is Err
            &&& group_message_of(group, readings) is Err
        }),
{
    reveal_strlit("user");
    reveal_strlit("group");
    reveal_strlit("message");
    reveal_strlit("attachments");
    reveal_strlit("telegramUserId");
    reveal_strlit("rootNodeId");
    assert("user"@.len() == 4);
    assert("group"@.len() == 5);
    assert("message"@.len() == 7);
    assert("attachments"@.len() == 11);
    assert("telegramUserId"@.len() == 14);
    assert("rootNodeId"@.len() == 10);
    let none = JsonView::Object(Map::empty());
    let nobody = Seq::<char>::empty();
    let inner = none.with("telegramUserId"@, JsonView::Integer(id as int));
    let home = none.with("rootNodeId"@, JsonView::Text(root));
    let user = none.with("user"@, inner);
    let group = none.with("group"@, home);
    let message = JsonView::Text(words);
    let beside = seq!["message"@, "attachments"@];
    assert(beside[0] == "message"@);
    assert(beside.contains("message"@));
    assert(seq!["user"@][0] == "user"@ && seq!["group"@][0] == "group"@);
    assert(seq!["user"@].contains("user"@) && seq!["group"@].contains("group"@));
    assert(seq!["telegramUserId"@][0] == "telegramUserId"@);
    assert(seq!["telegramUserId"@].contains("telegramUserId"@));
    assert(seq!["rootNodeId"@][0] == "rootNodeId"@);
    assert(seq!["rootNodeId"@].contains("rootNodeId"@));
    assert(arguments::shape(inner, seq!["telegramUserId"@], Seq::empty()) is Ok);
    assert(arguments::shape(home, seq!["rootNodeId"@], Seq::empty()) is Ok);
    assert(arguments::shape(user, seq!["user"@], beside) is Ok);
    assert(arguments::shape(group, seq!["group"@], beside) is Ok);
    assert(arguments::shape(user.with("message"@, message), seq!["user"@], beside) is Ok);
    assert(arguments::shape(group.with("message"@, message), seq!["group"@], beside) is Ok);
    text::trimming_takes_outer_space(nobody, words, nobody);
    assert(nobody + words + nobody =~= words);
    text::trimming_takes_outer_space(nobody, root, nobody);
    assert(nobody + root + nobody =~= root);
    assert(user.with("message"@, message).text_at("message"@) == Some(words));
    assert(group.with("message"@, message).text_at("message"@) == Some(words));
    assert(home.text_at("rootNodeId"@) == Some(root));
    assert(inner.u64_at("telegramUserId"@) == Some(id as u64));
}

/// Objects that are listed by name alone are all attached, in order.
pub proof fn listed_objects_are_attached(
    value: JsonView,
    ids: Seq<Seq<char>>,
    readings: ReadingsView,
    i: int,
)
    requires
        value.array_at("attachments"@) == Some(ids.map_values(|id: Seq<char>| JsonView::Text(id))),
        forall|j: int| 0 <= j < ids.len() ==> !text::blank(#[trigger] ids[j]),
    ensures
        attachments_of(value, readings) is Ok,
        attachments_of(value, readings)->Ok_0.len() == ids.len(),
        0 <= i < ids.len() ==> attachments_of(value, readings)->Ok_0[i] == (ids[i], None::<
            Seq<char>,
        >),
{
    let items = value.array_at("attachments"@)->0;
    let read = attachment_entry(readings);
    arguments::lists_are_read_item_by_item(items, read);
    assert forall|j: int| 0 <= j < items.len() implies read(#[trigger] items[j]) == Ok::<
        (Seq<char>, Option<Seq<char>>),
        Seq<char>,
    >((ids[j], None)) by {
        assert(items[j] == JsonView::Text(ids[j]));
        assert(!text::blank(ids[j]));
    }
    if 0 <= i < ids.len() {
        assert(read(items[i]) == Ok::<(Seq<char>, Option<Seq<char>>), Seq<char>>(
            arguments::collected(items, read)->Ok_0[i],
        ));
    }
}

} // verus!
