//! Turning a user's message, with its attachments, into boxes and a transcript
//! entry.
//!
//! The caller walks the attachments: it asks what each one needs of the object
//! store, does it, and hands back the staged file. Composing the message is then a
//! pure function of the message and of what is staged.

use crate::ids::{Readings, ReadingsView};
use crate::json;
use crate::json::{Json, JsonView};
use crate::media;
use crate::text;
use crate::text::Failure;
use crate::transcript::BoxContent;
use vstd::prelude::*;

verus! {

/// A staged object as the object store describes it.
#[derive(Debug)]
pub struct StagedFile {
    pub pending_id: String,
    pub file_name: String,
    pub media_type: String,
    pub size_bytes: u64,
}

/// The name of a staged object that came without one.
pub fn staged_fallback_name(number: u64) -> (name: String)
    ensures
        name@ == "object-"@ + text::digits(number as nat) + ".bin"@,
{
    let mut name = "object-".to_owned();
    name.append(text::decimal(number as u128).as_str());
    name.append(".bin");
    name
}

/// Whether a message holds anything: a text that is not blank, attachments, or
/// media.
pub open spec fn holds_input(text: Seq<char>, metadata: JsonView) -> bool {
    ||| !text::blank(text)
    ||| match metadata.array_at("attachments"@) {
        Some(items) => items.len() > 0,
        None => false,
    }
    ||| metadata.get("media"@) is Some
}

/// Whether a message holds anything.
pub fn has_input(text: &str, metadata: &Json) -> (yes: bool)
    ensures
        yes == holds_input(text@, metadata@),
{
    let attached = match metadata.array_at("attachments") {
        Some(items) => {
            proof {
                json::values_at(items@);
            }
            items.len() > 0
        },
        None => false,
    };
    !text::is_blank(text) || attached || metadata.get("media").is_some()
}

/// An attachment without the bytes and the extracted text that it may carry.
pub open spec fn stripped(value: JsonView) -> JsonView {
    value.without("dataUrl"@).without("text"@)
}

/// An attachment without the bytes and the extracted text that it may carry.
pub fn attachment_metadata_without_payload(value: &Json) -> (result: Json)
    ensures
        result@ == stripped(value@),
{
    value.clone().without("dataUrl").without("text")
}

/// A list of attachments, each without its payload.
pub open spec fn all_stripped(items: Seq<JsonView>) -> Seq<JsonView> {
    Seq::new(items.len(), |i: int| stripped(items[i]))
}

/// The metadata of a message, without the payloads of its attachments and media.
pub open spec fn message_stripped(value: JsonView) -> JsonView {
    let listed = match value.array_at("attachments"@) {
        Some(items) => value.with("attachments"@, JsonView::Array(all_stripped(items))),
        None => value,
    };
    match listed.get("media"@) {
        Some(media) => listed.with("media"@, stripped(media)),
        None => listed,
    }
}

/// The metadata of a message, without the payloads of its attachments and media.
pub fn message_metadata_without_attachment_payloads(value: &Json) -> (result: Json)
    ensures
        result@ == message_stripped(value@),
{
    let mut result = value.clone();
    if let Some(items) = value.array_at("attachments") {
        let ghost views = json::values_of(items@);
        let mut kept: Vec<Json> = Vec::new();
        let mut i: usize = 0;
        proof {
            json::values_at(items@);
        }
        while i < items.len()
            invariant
                i <= items.len(),
                views.len() == items.len(),
                forall|j: int| 0 <= j < items.len() ==> views[j] == json::value_of(items@[j]),
                kept.len() == i,
                forall|j: int|
                    0 <= j < i ==> json::value_of(#[trigger] kept@[j]) == stripped(views[j]),
            decreases items.len() - i,
        {
            kept.push(attachment_metadata_without_payload(&items[i]));
            i = i + 1;
        }
        proof {
            json::values_at(kept@);
            assert(json::values_of(kept@) =~= all_stripped(views));
        }
        result = result.with("attachments", Json::array(kept));
    }
    let media = match result.get("media") {
        Some(media) => Some(attachment_metadata_without_payload(media)),
        None => None,
    };
    if let Some(media) = media {
        result = result.with("media", media);
    }
    result
}

/// What an attachment needs of the object store.
#[derive(Debug)]
pub enum ObjectRequest {
    /// Nothing: it names no object and carries no bytes.
    Nothing,
    /// Look up the object that is already staged under this identity.
    Existing { pending_id: String },
    /// Stage these bytes.
    Stage { media_type: String, file_name: String, descriptor: Json, bytes: Vec<u8> },
}

/// The mathematical value of a request.
pub enum RequestView {
    Nothing,
    Existing { pending_id: Seq<char> },
    Stage {
        media_type: Seq<char>,
        file_name: Seq<char>,
        descriptor: JsonView,
        bytes: Seq<u8>,
    },
}

impl DeepView for ObjectRequest {
    type V = RequestView;

    open spec fn deep_view(&self) -> RequestView {
        match *self {
            ObjectRequest::Nothing => RequestView::Nothing,
            ObjectRequest::Existing { pending_id } => RequestView::Existing {
                pending_id: pending_id@,
            },
            ObjectRequest::Stage { media_type, file_name, descriptor, bytes } => RequestView::Stage {
                media_type: media_type@,
                file_name: file_name@,
                descriptor: descriptor@,
                bytes: bytes@,
            },
        }
    }
}

/// What an attachment needs of the object store. An identity counts before bytes.
pub open spec fn request_of(
    attachment: JsonView,
    fallback: Seq<char>,
    readings: ReadingsView,
) -> Result<RequestView, Seq<char>> {
    match attachment.text_at("pendingId"@) {
        Some(id) => match readings.staged(id) {
            Err(message) => Err(message),
            Ok(pending_id) => Ok(RequestView::Existing { pending_id }),
        },
        None => match attachment.text_at("dataUrl"@) {
            None => Ok(RequestView::Nothing),
            Some(url) => match media::data_url_contents(url) {
                Err(message) => Err(message),
                Ok(contents) => Ok(
                    RequestView::Stage {
                        media_type: contents.0,
                        file_name: media::named_or(attachment.text_at("fileName"@), fallback),
                        descriptor: stripped(attachment),
                        bytes: contents.1,
                    },
                ),
            },
        },
    }
}

/// What an attachment needs of the object store. An identity counts before bytes.
pub fn object_request(attachment: &Json, fallback: &str, readings: &Readings) -> (result: Result<
    ObjectRequest,
    Failure,
>)
    ensures
        text::seen(result) == request_of(attachment@, fallback@, readings@),
{
    if let Some(id) = attachment.text_at("pendingId") {
        return match readings.staged_id(id) {
            Err(failure) => Err(failure),
            Ok(pending_id) => Ok(ObjectRequest::Existing { pending_id }),
        };
    }
    match attachment.text_at("dataUrl") {
        None => Ok(ObjectRequest::Nothing),
        Some(url) => match media::decode_data_url(url) {
            Err(failure) => Err(failure),
            Ok((media_type, bytes)) => {
                let file_name = media::ingress_object_filename(
                    attachment.text_at("fileName"),
                    fallback,
                );
                let descriptor = attachment_metadata_without_payload(attachment);
                Ok(ObjectRequest::Stage { media_type, file_name, descriptor, bytes })
            },
        },
    }
}

/// The refusal of an identity under which nothing is staged; `noun` says what it was
/// for.
pub fn not_staged(noun: &str, pending_id: &str) -> (failure: Failure)
    ensures
        failure@ == noun@ + " object "@ + pending_id@ + " is not staged in this session"@,
{
    let mut message = noun.to_owned();
    message.append(" object ");
    message.append(pending_id);
    message.append(" is not staged in this session");
    Failure::new(message)
}

/// The description of an attachment, with what the object store says of the staged
/// file in place of what the message claimed.
pub open spec fn described(attachment: JsonView, staged: Option<StagedFile>) -> JsonView {
    match staged {
        None => stripped(attachment),
        Some(file) => canonical_descriptor(stripped(attachment), file),
    }
}

/// A description that says what the object store says of the file.
pub open spec fn canonical_descriptor(descriptor: JsonView, file: StagedFile) -> JsonView {
    descriptor.with("pendingId"@, JsonView::Text(file.pending_id@)).with(
        "fileName"@,
        JsonView::Text(file.file_name@),
    ).with("extension"@, JsonView::Text(media::shown_extension(file.file_name@))).with(
        "mimeType"@,
        JsonView::Text(media::bare_type(file.media_type@)),
    ).with("sizeBytes"@, JsonView::Integer(file.size_bytes as int))
}

/// A description that says what the object store says of the file.
pub fn canonicalize_staged_file_descriptor(descriptor: Json, file: &StagedFile) -> (result: Json)
    ensures
        result@ == canonical_descriptor(descriptor@, *file),
{
    descriptor.with("pendingId", Json::text(file.pending_id.as_str())).with(
        "fileName",
        Json::text(file.file_name.as_str()),
    ).with("extension", Json::Text(media::file_name_extension(file.file_name.as_str()))).with(
        "mimeType",
        Json::Text(media::normalized_media_type(file.media_type.as_str())),
    ).with("sizeBytes", Json::unsigned(file.size_bytes))
}

/// The payload of an attachment is never part of its description, and a staged file
/// is described by the object store alone.
pub proof fn descriptions_are_authoritative(attachment: JsonView, staged: Option<StagedFile>)
    ensures
        described(attachment, staged).get("dataUrl"@) is None,
        described(attachment, staged).get("text"@) is None,
        staged is Some ==> {
            let shown = described(attachment, staged);
            let file = staged->0;
            &&& shown.text_at("pendingId"@) == Some(file.pending_id@)
            &&& shown.text_at("fileName"@) == Some(file.file_name@)
            &&& shown.text_at("extension"@) == Some(media::shown_extension(file.file_name@))
            &&& shown.text_at("mimeType"@) == Some(media::bare_type(file.media_type@))
            &&& shown.u64_at("sizeBytes"@) == Some(file.size_bytes)
        },
{
    reveal_strlit("dataUrl");
    reveal_strlit("text");
    reveal_strlit("pendingId");
    reveal_strlit("fileName");
    reveal_strlit("extension");
    reveal_strlit("mimeType");
    reveal_strlit("sizeBytes");
    assert("dataUrl"@[0] == 'd');
    assert("text"@[0] == 't');
    assert("pendingId"@[0] == 'p');
    assert("fileName"@[0] == 'f');
    assert("extension"@[0] == 'e');
    assert("mimeType"@[0] == 'm');
    assert("sizeBytes"@[0] == 's');
}

/// The name under which an attachment is shown.
pub open spec fn attachment_name(attachment: JsonView, staged: Option<StagedFile>) -> Seq<char> {
    match staged {
        Some(file) => file.file_name@,
        None => media::named_or(attachment.text_at("fileName"@), "document"@),
    }
}

/// The files among what the attachments need, in order.
pub open spec fn files_of(staged: Seq<Option<StagedFile>>) -> Seq<StagedFile>
    decreases staged.len(),
{
    if staged.len() == 0 {
        Seq::empty()
    } else {
        match staged.last() {
            Some(file) => files_of(staged.drop_last()).push(file),
            None => files_of(staged.drop_last()),
        }
    }
}

/// The identities of some files.
pub open spec fn identities(files: Seq<StagedFile>) -> Seq<Seq<char>> {
    Seq::new(files.len(), |i: int| files[i].pending_id@)
}

/// A box to create: its name and what it holds.
#[verifier::ext_equal]
pub struct BoxView {
    pub name: Seq<char>,
    pub text: Seq<char>,
    pub objects: Seq<Seq<char>>,
    pub metadata: JsonView,
}

/// A box to create.
#[derive(Debug)]
pub struct NewBox {
    pub name: String,
    pub content: BoxContent,
}

impl DeepView for NewBox {
    type V = BoxView;

    open spec fn deep_view(&self) -> BoxView {
        BoxView {
            name: self.name@,
            text: self.content.text@,
            objects: self.content.objects.deep_view(),
            metadata: self.content.metadata@,
        }
    }
}

/// The box for the text that was extracted from an attachment.
pub open spec fn text_box(attachment: JsonView, staged: Option<StagedFile>) -> BoxView {
    BoxView {
        name: "User attachment text: "@ + attachment_name(attachment, staged),
        text: attachment.text_at("text"@)->0,
        objects: Seq::empty(),
        metadata: JsonView::Object(Map::empty()).with(
            "boxKind"@,
            JsonView::Text("attachmentText"@),
        ).with("attachment"@, described(attachment, staged)),
    }
}

/// Whether an attachment comes with extracted text.
pub open spec fn has_text(attachment: JsonView) -> bool {
    attachment.text_at("text"@) is Some && attachment.text_at("text"@)->0.len() > 0
}

/// The boxes for the texts that were extracted from attachments, in order.
pub open spec fn text_boxes(attachments: Seq<JsonView>, staged: Seq<Option<StagedFile>>) -> Seq<
    BoxView,
>
    decreases attachments.len(),
{
    if attachments.len() == 0 {
        Seq::empty()
    } else {
        let before = text_boxes(attachments.drop_last(), staged);
        let i = attachments.len() - 1;
        if has_text(attachments[i]) {
            before.push(text_box(attachments[i], staged[i]))
        } else {
            before
        }
    }
}

/// Each of `items` behind `prefix`, on a line of its own.
pub open spec fn lines_with(prefix: Seq<char>, items: Seq<Seq<char>>) -> Seq<char> {
    text::joined(Seq::new(items.len(), |i: int| prefix + items[i]), "\n"@)
}

/// The description of the file at place `i`, for the model to read.
pub open spec fn block_of(file: StagedFile, i: int) -> Seq<char> {
    media::user_file(
        (i + 1) as nat,
        file.pending_id@,
        file.file_name@,
        media::bare_type(file.media_type@),
        file.size_bytes as nat,
    )
}

/// A message before its boxes are made.
pub struct Message {
    pub text: Seq<char>,
    pub metadata: JsonView,
    pub attachments: Seq<JsonView>,
    pub staged: Seq<Option<StagedFile>>,
    pub media_file: Option<StagedFile>,
}

impl Message {
    /// The files that come with the message: those of its attachments, and then that
    /// of its media.
    pub open spec fn files(self) -> Seq<StagedFile> {
        let files = files_of(self.staged);
        if self.metadata.get("media"@) is Some && self.media_file is Some {
            files.push(self.media_file->0)
        } else {
            files
        }
    }

    /// The identities of the objects that come with the message.
    pub open spec fn objects(self) -> Seq<Seq<char>> {
        identities(self.files())
    }

    /// The descriptions of the attachments.
    pub open spec fn descriptions(self) -> Seq<JsonView> {
        Seq::new(
            self.attachments.len(),
            |i: int| described(self.attachments[i], self.staged[i]),
        )
    }

    /// The names of the attachments.
    pub open spec fn names(self) -> Seq<Seq<char>> {
        Seq::new(
            self.attachments.len(),
            |i: int| attachment_name(self.attachments[i], self.staged[i]),
        )
    }

    /// The text of the message; where it has neither text nor objects, the names of
    /// its attachments stand in.
    pub open spec fn body(self) -> Seq<char> {
        if text::blank(self.text) && self.objects().len() == 0 && self.attachments.len() > 0 {
            lines_with("Attachment provided: "@, self.names())
        } else {
            self.text
        }
    }

    /// What the conversation shows of the message.
    pub open spec fn visible(self) -> Seq<char> {
        if text::blank(self.body()) {
            lines_with("Object provided: "@, self.objects())
        } else {
            self.body()
        }
    }

    /// The metadata of the message's box.
    pub open spec fn box_metadata(self) -> JsonView {
        let stripped_all = message_stripped(self.metadata);
        let base = if stripped_all is Object {
            stripped_all
        } else {
            JsonView::Object(Map::empty())
        };
        let listed = base.with("attachments"@, JsonView::Array(self.descriptions()));
        let with_media = match self.metadata.get("media"@) {
            Some(media) => listed.with("media"@, described(media, self.media_file)),
            None => listed,
        };
        if self.objects().len() > 0 {
            with_media.with("transcriptText"@, JsonView::Text(self.visible()))
        } else {
            with_media
        }
    }

    /// The descriptions of the files, for the model to read.
    pub open spec fn file_blocks(self) -> Seq<Seq<char>> {
        let files = self.files();
        Seq::new(files.len(), |i: int| block_of(files[i], i))
    }

    /// The text of the message's box: the body, and after it the descriptions of the
    /// files.
    pub open spec fn box_text(self) -> Seq<char> {
        let body = self.body();
        if self.files().len() == 0 {
            body
        } else {
            let gap = if body.len() > 0 && !text::ends(body, "\n"@) {
                body + "\n\n"@
            } else {
                body
            };
            gap + text::joined(self.file_blocks(), "\n\n"@)
        }
    }

    /// The boxes of the message.
    pub open spec fn boxes(self) -> Seq<BoxView> {
        seq![
            BoxView {
                name: "User message"@,
                text: self.box_text(),
                objects: self.objects(),
                metadata: self.box_metadata(),
            },
        ] + text_boxes(self.attachments, self.staged)
    }

    /// What the conversation shows of attachments and media.
    pub open spec fn shown_attachments(self) -> Seq<JsonView> {
        match self.metadata.get("media"@) {
            Some(media) => if described(media, self.media_file) is Object {
                self.descriptions().push(described(media, self.media_file))
            } else {
                self.descriptions()
            },
            None => self.descriptions(),
        }
    }

    /// The transcript entry of the message.
    pub open spec fn entry(self) -> JsonView {
        let start = JsonView::Object(Map::empty()).with("role"@, JsonView::Text("user"@)).with(
            "content"@,
            JsonView::Text(self.visible()),
        );
        let with_objects = if self.objects().len() > 0 {
            start.with("objects"@, json::text_list(self.objects()))
        } else {
            start
        };
        let with_attachments = if self.shown_attachments().len() > 0 {
            with_objects.with("attachments"@, JsonView::Array(self.shown_attachments()))
        } else {
            with_objects
        };
        match self.metadata.text_at("externalEventId"@) {
            Some(id) => with_attachments.with("externalEventId"@, JsonView::Text(id)),
            None => with_attachments,
        }
    }
}

/// The boxes and the transcript entry of a message.
#[derive(Debug)]
pub struct StagedInput {
    pub boxes: Vec<NewBox>,
    pub transcript: Json,
}

fn prefixed_lines(prefix: &str, items: &Vec<String>) -> (result: String)
    ensures
        result@ == lines_with(prefix@, items.deep_view()),
{
    let mut lines: Vec<String> = Vec::new();
    let ghost views = items.deep_view();
    let ghost all = Seq::new(views.len(), |i: int| prefix@ + views[i]);
    let mut i: usize = 0;
    while i < items.len()
        invariant
            i <= items.len(),
            views == items.deep_view(),
            all == Seq::new(views.len(), |i: int| prefix@ + views[i]),
            lines.len() == i,
            forall|j: int| 0 <= j < i ==> (#[trigger] lines@[j])@ == all[j],
        decreases items.len() - i,
    {
        let mut line = prefix.to_owned();
        line.append(items[i].as_str());
        lines.push(line);
        i = i + 1;
    }
    assert(lines.deep_view() =~= all);
    text::join(&lines, "\n")
}

fn describe(attachment: &Json, staged: &Option<StagedFile>) -> (result: Json)
    ensures
        result@ == described(attachment@, *staged),
{
    let descriptor = attachment_metadata_without_payload(attachment);
    match staged {
        None => descriptor,
        Some(file) => canonicalize_staged_file_descriptor(descriptor, file),
    }
}

fn name_of(attachment: &Json, staged: &Option<StagedFile>) -> (name: String)
    ensures
        name@ == attachment_name(attachment@, *staged),
{
    match staged {
        Some(file) => file.file_name.clone(),
        None => media::ingress_object_filename(attachment.text_at("fileName"), "document"),
    }
}

/// The text of a message's box: the body, and after it the descriptions of the files.
pub fn append_user_file_metadata(body: String, blocks: &Vec<String>) -> (result: String)
    ensures
        result@ == if blocks@.len() == 0 {
            body@
        } else {
            (if body@.len() > 0 && !text::ends(body@, "\n"@) {
                body@ + "\n\n"@
            } else {
                body@
            }) + text::joined(blocks.deep_view(), "\n\n"@)
        },
{
    if blocks.len() == 0 {
        return body;
    }
    let mut result = body;
    if !result.as_str().is_empty() && !text::ends_with(result.as_str(), "\n") {
        result.append("\n\n");
    }
    result.append(text::join(blocks, "\n\n").as_str());
    result
}

/// Composes the boxes and the transcript entry of a message; space around its text
/// does not count. `staged` says, for each attachment, which staged file it is;
/// `media_file` says so of the media.
#[verifier::rlimit(60)]
pub fn compose_input(
    text: &str,
    metadata: &Json,
    attachments: &Vec<Json>,
    staged: &Vec<Option<StagedFile>>,
    media_file: &Option<StagedFile>,
) -> (input: StagedInput)
    requires
        attachments.len() == staged.len() < usize::MAX,
    ensures
        ({
            let message = Message {
                text: text::trimmed(text@),
                metadata: metadata@,
                attachments: attachments.deep_view(),
                staged: staged@,
                media_file: *media_file,
            };
            &&& input.boxes.deep_view() == message.boxes()
            &&& input.transcript@ == message.entry()
        }),
{
    let words = text::trim(text);
    let ghost message = Message {
        text: text::trimmed(text@),
        metadata: metadata@,
        attachments: attachments.deep_view(),
        staged: staged@,
        media_file: *media_file,
    };
    let ghost views = attachments.deep_view();
    let mut objects: Vec<String> = Vec::new();
    let mut names: Vec<String> = Vec::new();
    let mut descriptions: Vec<Json> = Vec::new();
    let mut shown: Vec<Json> = Vec::new();
    let mut blocks: Vec<String> = Vec::new();
    let mut extra: Vec<NewBox> = Vec::new();
    let ghost files = files_of(staged@);
    assert(extra.deep_view() =~= Seq::<BoxView>::empty());
    assert(staged@.take(0) =~= Seq::empty());
    assert(views.take(0) =~= Seq::empty());
    let mut i: usize = 0;
    while i < attachments.len()
        invariant
            i <= attachments.len() == staged.len(),
            objects.len() <= i,
            views == attachments.deep_view(),
            message.attachments == views,
            message.staged == staged@,
            objects.deep_view() =~= identities(files_of(staged@.take(i as int))),
            blocks.len() == files_of(staged@.take(i as int)).len(),
            forall|j: int|
                0 <= j < blocks.len() ==> (#[trigger] blocks@[j])@ == block_of(
                    files_of(staged@.take(i as int))[j],
                    j,
                ),
            names.len() == i,
            forall|j: int| 0 <= j < i ==> (#[trigger] names@[j])@ == message.names()[j],
            descriptions.len() == i,
            shown.len() == i,
            forall|j: int|
                0 <= j < i ==> json::value_of(#[trigger] descriptions@[j])
                    == message.descriptions()[j],
            forall|j: int|
                0 <= j < i ==> json::value_of(#[trigger] shown@[j]) == message.descriptions()[j],
            extra.deep_view() == text_boxes(views.take(i as int), staged@),
        decreases attachments.len() - i,
    {
        let attachment = &attachments[i];
        let ghost here = staged@.take(i + 1);
        assert(here.drop_last() =~= staged@.take(i as int));
        assert(views.take(i + 1).drop_last() =~= views.take(i as int));
        let descriptor = describe(attachment, &staged[i]);
        let name = name_of(attachment, &staged[i]);
        if let Some(file) = &staged[i] {
            blocks.push(
                media::render_user_file_metadata(
                    objects.len() + 1,
                    file.pending_id.as_str(),
                    file.file_name.as_str(),
                    media::normalized_media_type(file.media_type.as_str()).as_str(),
                    file.size_bytes,
                ),
            );
            let ghost before = objects.deep_view();
            objects.push(file.pending_id.clone());
            assert(objects.deep_view() =~= before.push(file.pending_id@));
        }
        if let Some(extracted) = attachment.text_at("text") {
            if !extracted.is_empty() {
                let mut box_name = "User attachment text: ".to_owned();
                box_name.append(name.as_str());
                let box_metadata = Json::object().with(
                    "boxKind",
                    Json::text("attachmentText"),
                ).with("attachment", descriptor.clone());
                let ghost before = extra.deep_view();
                let new_box = NewBox {
                    name: box_name,
                    content: BoxContent {
                        text: extracted.to_owned(),
                        objects: Vec::new(),
                        metadata: box_metadata,
                    },
                };
                assert(new_box.deep_view() =~= text_box(views[i as int], staged@[i as int]));
                extra.push(new_box);
                assert(extra.deep_view() =~= before.push(
                    text_box(views[i as int], staged@[i as int]),
                ));
            }
        }
        names.push(name);
        shown.push(descriptor.clone());
        descriptions.push(descriptor);
        i = i + 1;
    }
    proof {
        assert(staged@.take(staged.len() as int) =~= staged@);
        assert(views.take(views.len() as int) =~= views);
        json::values_at(descriptions@);
        json::values_at(shown@);
        assert(json::values_of(descriptions@) =~= message.descriptions());
        assert(json::values_of(shown@) =~= message.descriptions());
        assert(names.deep_view() =~= message.names());
    }
    let mut box_metadata = message_metadata_without_attachment_payloads(metadata);
    if !box_metadata.is_object() {
        box_metadata = Json::object();
    }
    box_metadata = box_metadata.with("attachments", Json::array(descriptions));
    if let Some(media) = metadata.get("media") {
        let descriptor = describe(media, media_file);
        if let Some(file) = media_file {
            blocks.push(
                media::render_user_file_metadata(
                    objects.len() + 1,
                    file.pending_id.as_str(),
                    file.file_name.as_str(),
                    media::normalized_media_type(file.media_type.as_str()).as_str(),
                    file.size_bytes,
                ),
            );
            let ghost before = objects.deep_view();
            objects.push(file.pending_id.clone());
            assert(objects.deep_view() =~= before.push(file.pending_id@));
        }
        if descriptor.is_object() {
            let ghost before = shown@;
            shown.push(descriptor.clone());
            assert(shown@.drop_last() =~= before);
        }
        box_metadata = box_metadata.with("media", descriptor);
    }
    proof {
        assert(objects.deep_view() =~= message.objects());
        assert(blocks.deep_view() =~= message.file_blocks());
        assert(json::values_of(shown@) =~= message.shown_attachments());
        json::values_at(shown@);
    }
    let body = if text::is_blank(words) && objects.len() == 0 && names.len() > 0 {
        prefixed_lines("Attachment provided: ", &names)
    } else {
        words.to_owned()
    };
    let visible = if text::is_blank(body.as_str()) {
        prefixed_lines("Object provided: ", &objects)
    } else {
        body.clone()
    };
    assert(body@ == message.body());
    assert(visible@ == message.visible());
    if objects.len() > 0 {
        box_metadata = box_metadata.with("transcriptText", Json::text(visible.as_str()));
    }
    assert(box_metadata@ == message.box_metadata());
    let mut entry = Json::object().with("role", Json::text("user")).with(
        "content",
        Json::text(visible.as_str()),
    );
    if objects.len() > 0 {
        entry = entry.with("objects", Json::texts(&objects));
    }
    if shown.len() > 0 {
        entry = entry.with("attachments", Json::array(shown));
    }
    if let Some(id) = metadata.text_at("externalEventId") {
        entry = entry.with("externalEventId", Json::text(id));
    }
    assert(entry@ == message.entry());
    let box_text = append_user_file_metadata(body, &blocks);
    assert(box_text@ == message.box_text());
    let first = NewBox {
        name: "User message".to_owned(),
        content: BoxContent { text: box_text, objects, metadata: box_metadata },
    };
    let ghost tail = extra.deep_view();
    let mut boxes = extra;
    boxes.insert(0, first);
    assert(boxes.deep_view() =~= message.boxes());
    StagedInput { boxes, transcript: entry }
}

/// A message holds input where its text is not blank, something is attached to it, or it
/// carries media.
pub proof fn input_is_words_or_files(words: Seq<char>, metadata: JsonView)
    ensures
        holds_input(words, metadata) <==> !text::blank(words) || metadata.get("media"@) is Some || (
        metadata.array_at("attachments"@) is Some && metadata.array_at("attachments"@)->0.len()
            > 0),
{
}

/// What is kept of an attachment holds neither its contents nor its text, and all the
/// rest as it was.
pub proof fn stripped_attachments_hold_no_contents(value: JsonView, key: Seq<char>)
    ensures
        stripped(value).get("dataUrl"@) is None,
        stripped(value).get("text"@) is None,
        key != "dataUrl"@ && key != "text"@ ==> stripped(value).get(key) == value.get(key),
{
}

/// A message without attachments and media is one box: its text without the white space
/// around it, and nothing else. The conversation shows the same text, for the event that
/// the message came with.
pub proof fn plain_messages_are_their_text(message: Message)
    requires
        message.attachments.len() == 0,
        message.staged.len() == 0,
        message.metadata.get("media"@) is None,
        !text::blank(message.text),
    ensures
        message.boxes().len() == 1,
        message.boxes()[0].name == "User message"@,
        message.boxes()[0].text == message.text,
        message.boxes()[0].objects.len() == 0,
        message.entry().text_at("role"@) == Some("user"@),
        message.entry().text_at("content"@) == Some(message.text),
        message.entry().get("externalEventId"@) == match message.metadata.text_at(
            "externalEventId"@,
        ) {
            Some(id) => Some(JsonView::Text(id)),
            None => None,
        },
        message.entry().get("objects"@) is None,
        message.entry().get("attachments"@) is None,
{
    entry_keys_differ();
    assert(files_of(message.staged) =~= Seq::empty());
}

/// The members of a user's entry have different names.
proof fn entry_keys_differ()
    ensures
        "role"@ != "content"@,
        "role"@ != "objects"@,
        "role"@ != "attachments"@,
        "role"@ != "externalEventId"@,
        "content"@ != "objects"@,
        "content"@ != "attachments"@,
        "content"@ != "externalEventId"@,
        "objects"@ != "attachments"@,
        "objects"@ != "externalEventId"@,
        "attachments"@ != "externalEventId"@,
{
    reveal_strlit("role");
    reveal_strlit("content");
    reveal_strlit("objects");
    reveal_strlit("attachments");
    reveal_strlit("externalEventId");
    assert("role"@.len() == 4 && "content"@.len() == 7 && "objects"@.len() == 7);
    assert("content"@[0] == 'c' && "objects"@[0] == 'o');
    assert("attachments"@.len() == 11 && "externalEventId"@.len() == 15);
}

/// The files of a message are those of its attachments that were staged, in order.
pub proof fn staged_files_are_kept_in_order(staged: Seq<Option<StagedFile>>)
    ensures
        files_of(staged) == staged.filter_map(|file: Option<StagedFile>| file),
    decreases staged.len(),
{
    if staged.len() > 0 {
        staged_files_are_kept_in_order(staged.drop_last());
    }
}

/// A message with files names them all, in order, in its box and in the conversation:
/// those of its attachments, then that of its media. Its box begins with its text, and
/// the conversation shows that text, or, without one, a line for each file.
pub proof fn files_are_named_with_their_message(message: Message, i: int)
    requires
        0 <= i < message.files().len(),
    ensures
        ({
            let box_ = message.boxes()[0];
            let files = message.files();
            let entry = message.entry();
            &&& box_.name == "User message"@
            &&& box_.objects.len() == files.len()
            &&& box_.objects[i] == files[i].pending_id@
            &&& entry.array_at("objects"@) is Some
            &&& entry.array_at("objects"@)->0.len() == files.len()
            &&& entry.array_at("objects"@)->0[i] == JsonView::Text(files[i].pending_id@)
            &&& text::begins(box_.text, message.text)
            &&& !text::blank(message.text) ==> entry.text_at("content"@) == Some(message.text)
            &&& text::blank(message.text) ==> entry.text_at("content"@) == Some(
                text::joined(
                    Seq::new(files.len(), |j: int| "Object provided: "@ + files[j].pending_id@),
                    "\n"@,
                ),
            )
            &&& message.metadata.get("media"@) is Some && message.media_file is Some
                ==> files.last() == message.media_file->0
            &&& box_.metadata.text_at("transcriptText"@) == entry.text_at("content"@)
        }),
{
    entry_keys_differ();
    let body = message.body();
    assert(message.objects().len() > 0);
    assert(body == message.text);
    let told = message.box_text();
    assert(told.subrange(0, body.len() as int) =~= body);
    let files = message.files();
    assert(Seq::new(message.objects().len(), |j: int| "Object provided: "@ + message.objects()[j])
        =~= Seq::new(files.len(), |j: int| "Object provided: "@ + files[j].pending_id@));
}

/// Each attachment with a text of its own gets a box that holds this text, named after
/// the attachment's file; the boxes follow the message, in order.
pub proof fn attachment_texts_get_their_boxes(
    attachments: Seq<JsonView>,
    staged: Seq<Option<StagedFile>>,
    attachment: JsonView,
    file: Option<StagedFile>,
)
    requires
        attachments.len() == staged.len(),
    ensures
        ({
            let before = text_boxes(attachments, staged);
            let after = text_boxes(attachments.push(attachment), staged.push(file));
            let words = attachment.text_at("text"@);
            &&& words is None || words->0.len() == 0 ==> after == before
            &&& words is Some && words->0.len() > 0 ==> {
                &&& after.len() == before.len() + 1
                &&& after.drop_last() == before
                &&& after.last().text == words->0
                &&& after.last().objects.len() == 0
                &&& file is Some ==> after.last().name == "User attachment text: "@
                    + file->0.file_name@
                &&& after.last().metadata.text_at("boxKind"@) == Some("attachmentText"@)
            }
        }),
{
    reveal_strlit("boxKind");
    reveal_strlit("attachment");
    assert("boxKind"@.len() == 7 && "attachment"@.len() == 10);
    let more = attachments.push(attachment);
    assert(more.drop_last() =~= attachments);
    boxes_need_only_their_files(attachments, staged, staged.push(file));
    assert(text_boxes(attachments, staged.push(file)) == text_boxes(attachments, staged));
    if has_text(attachment) {
        let before = text_boxes(attachments, staged);
        assert(before.push(text_box(attachment, file)).drop_last() =~= before);
    }
}

/// The boxes of some attachments rest on their own files alone.
proof fn boxes_need_only_their_files(
    attachments: Seq<JsonView>,
    one: Seq<Option<StagedFile>>,
    other: Seq<Option<StagedFile>>,
)
    requires
        forall|i: int| 0 <= i < attachments.len() ==> #[trigger] one[i] == other[i],
    ensures
        text_boxes(attachments, one) == text_boxes(attachments, other),
    decreases attachments.len(),
{
    if attachments.len() > 0 {
        boxes_need_only_their_files(attachments.drop_last(), one, other);
        assert(one[attachments.len() - 1] == other[attachments.len() - 1]);
    }
}

/// An attachment that names a staged object refers to that object; one that brings its
/// contents is staged, under its own name where it has one; any other asks for nothing.
pub proof fn attachments_ask_for_their_object(
    attachment: JsonView,
    fallback: Seq<char>,
    readings: ReadingsView,
    id: Seq<char>,
)
    ensures
        attachment.text_at("pendingId"@) == Some(id) && !readings.refused.contains_key(id)
            ==> request_of(attachment, fallback, readings) == Ok::<RequestView, Seq<char>>(
            RequestView::Existing { pending_id: id },
        ),
        attachment.text_at("pendingId"@) is None && attachment.text_at("dataUrl"@) is None
            ==> request_of(attachment, fallback, readings) == Ok::<RequestView, Seq<char>>(
            RequestView::Nothing,
        ),
        attachment.text_at("pendingId"@) is None && attachment.text_at("dataUrl"@) is Some
            && request_of(attachment, fallback, readings) is Ok ==> request_of(
            attachment,
            fallback,
            readings,
        )->Ok_0 is Stage && request_of(attachment, fallback, readings)->Ok_0->descriptor.get(
            "dataUrl"@,
        ) is None,
{
}

/// A staged file is described by its object, its name, its extension, its type and its
/// size.
pub proof fn staged_files_are_described(descriptor: JsonView, file: StagedFile)
    ensures
        ({
            let shown = canonical_descriptor(descriptor, file);
            &&& shown.text_at("pendingId"@) == Some(file.pending_id@)
            &&& shown.text_at("fileName"@) == Some(file.file_name@)
            &&& shown.text_at("extension"@) == Some(media::shown_extension(file.file_name@))
            &&& shown.text_at("mimeType"@) == Some(media::bare_type(file.media_type@))
            &&& shown.u64_at("sizeBytes"@) == Some(file.size_bytes as u64)
        }),
{
    reveal_strlit("pendingId");
    reveal_strlit("fileName");
    reveal_strlit("extension");
    reveal_strlit("mimeType");
    reveal_strlit("sizeBytes");
    assert("pendingId"@.len() == 9 && "pendingId"@[0] == 'p');
    assert("fileName"@.len() == 8 && "fileName"@[0] == 'f');
    assert("extension"@.len() == 9 && "extension"@[0] == 'e');
    assert("mimeType"@.len() == 8 && "mimeType"@[0] == 'm');
    assert("sizeBytes"@.len() == 9 && "sizeBytes"@[0] == 's');
}

/// A message without words and without objects names its attachments, and one with
/// words keeps them.
pub proof fn wordless_messages_name_their_attachment(message: Message, name: Seq<char>)
    requires
        message.attachments.len() == 1,
        message.staged.len() == 1,
        message.staged[0] is None,
        message.metadata.get("media"@) is None,
    ensures
        !text::blank(message.text) ==> message.body() == message.text && message.visible()
            == message.text,
        text::blank(message.text) && message.attachments[0].text_at("fileName"@) == Some(name)
            && !text::blank(name) ==> message.body() == "Attachment provided: "@ + name,
        text::blank(message.text) && message.attachments[0].text_at("fileName"@) is None
            ==> message.body() == "Attachment provided: "@ + "document"@,
{
    assert(message.staged.drop_last() =~= Seq::empty());
    reveal_with_fuel(files_of, 2);
    assert(message.files() =~= Seq::empty());
    assert(message.objects() =~= Seq::empty());
    let names = message.names();
    assert(names.len() == 1);
    let lines = Seq::new(names.len(), |i: int| "Attachment provided: "@ + names[i]);
    assert(lines =~= seq!["Attachment provided: "@ + names[0]]);
    reveal_with_fuel(text::joined, 2);
}

/// The files of a message are told behind its words, a blank line below them unless the
/// words end their line.
pub proof fn files_are_told_below_the_words(message: Message)
    ensures
        message.files().len() == 0 ==> message.box_text() == message.body(),
        message.files().len() > 0 && message.body().len() == 0 ==> message.box_text()
            == text::joined(message.file_blocks(), "\n\n"@),
        message.files().len() > 0 && message.body().len() > 0 && message.body().last() == '\n'
            ==> message.box_text() == message.body() + text::joined(
            message.file_blocks(),
            "\n\n"@,
        ),
        message.files().len() > 0 && message.body().len() > 0 && message.body().last() != '\n'
            ==> message.box_text() == message.body() + "\n\n"@ + text::joined(
            message.file_blocks(),
            "\n\n"@,
        ),
        message.file_blocks().len() == message.files().len(),
{
    reveal_strlit("\n");
    let body = message.body();
    assert("\n"@.len() == 1 && "\n"@[0] == '\n');
    if message.files().len() > 0 && body.len() == 0 {
        assert(body + text::joined(message.file_blocks(), "\n\n"@) =~= text::joined(
            message.file_blocks(),
            "\n\n"@,
        ));
    }
    if body.len() > 0 {
        let end = body.subrange(body.len() - 1, body.len() as int);
        assert(end[0] == body.last());
        if body.last() == '\n' {
            assert(end =~= "\n"@);
        }
    }
}

/// What is kept of a message's metadata holds no file's contents, neither in its list nor
/// in its medium, and everything else as it was.
pub proof fn messages_are_kept_without_contents(value: JsonView, i: int, key: Seq<char>)
    requires
        value is Object,
    ensures
        ({
            let kept = message_stripped(value);
            let items = value.array_at("attachments"@);
            &&& items is Some ==> kept.array_at("attachments"@) is Some && kept.array_at(
                "attachments"@,
            )->0.len() == items->0.len()
            &&& items is Some && 0 <= i < items->0.len() ==> kept.array_at("attachments"@)->0[i].get(
                "dataUrl"@,
            ) is None && kept.array_at("attachments"@)->0[i].get("text"@) is None
            &&& items is Some && 0 <= i < items->0.len() ==> kept.array_at("attachments"@)->0[i].get(
                "fileName"@,
            ) == items->0[i].get("fileName"@)
            &&& value.get("media"@) is Some ==> kept.get("media"@) is Some && kept.get(
                "media"@,
            )->0.get("dataUrl"@) is None && kept.get("media"@)->0.get("fileName"@) == value.get(
                "media"@,
            )->0.get("fileName"@)
            &&& value.get("media"@) is None ==> kept.get("media"@) is None
            &&& key != "attachments"@ && key != "media"@ ==> kept.get(key) == value.get(key)
        }),
{
    reveal_strlit("attachments");
    reveal_strlit("media");
    reveal_strlit("dataUrl");
    reveal_strlit("text");
    reveal_strlit("fileName");
    assert("attachments"@.len() == 11);
    assert("media"@.len() == 5);
    assert("dataUrl"@.len() == 7);
    assert("text"@.len() == 4);
    assert("fileName"@.len() == 8);
}

/// The box of a message lists its attachments as they are described, and its medium
/// beside them.
pub proof fn boxes_list_their_attachments(message: Message, i: int)
    ensures
        ({
            let metadata = message.box_metadata();
            let medium = message.metadata.get("media"@);
            &&& metadata.array_at("attachments"@) == Some(message.descriptions())
            &&& message.descriptions().len() == message.attachments.len()
            &&& 0 <= i < message.attachments.len() ==> message.descriptions()[i] == described(
                message.attachments[i],
                message.staged[i],
            )
            &&& medium is Some ==> metadata.get("media"@) == Some(
                described(medium->0, message.media_file),
            )
            &&& medium is None ==> metadata.get("media"@) is None
            &&& message.objects().len() == 0 && message.metadata.get("transcriptText"@) is None
                ==> metadata.get("transcriptText"@) is None
        }),
{
    reveal_strlit("attachments");
    reveal_strlit("media");
    reveal_strlit("transcriptText");
    assert("attachments"@.len() == 11);
    assert("media"@.len() == 5);
    assert("transcriptText"@.len() == 14);
}

/// What a staged file is described by is what its attachment said, without its contents,
/// under the name and the object that it was staged as.
pub proof fn descriptions_name_the_staged_file(attachment: JsonView, file: StagedFile)
    ensures
        described(attachment, None) == stripped(attachment),
        described(attachment, Some(file)).text_at("pendingId"@) == Some(file.pending_id@),
        described(attachment, Some(file)).text_at("fileName"@) == Some(file.file_name@),
        described(attachment, Some(file)).get("dataUrl"@) is None,
        described(attachment, Some(file)).get("text"@) is None,
{
    reveal_strlit("pendingId");
    reveal_strlit("fileName");
    reveal_strlit("extension");
    reveal_strlit("mimeType");
    reveal_strlit("sizeBytes");
    reveal_strlit("dataUrl");
    reveal_strlit("text");
    assert("pendingId"@.len() == 9 && "pendingId"@[0] == 'p');
    assert("fileName"@.len() == 8 && "fileName"@[0] == 'f');
    assert("extension"@.len() == 9 && "extension"@[0] == 'e');
    assert("mimeType"@.len() == 8 && "mimeType"@[0] == 'm');
    assert("sizeBytes"@.len() == 9 && "sizeBytes"@[0] == 's');
    assert("dataUrl"@.len() == 7);
    assert("text"@.len() == 4);
}

} // verus!
