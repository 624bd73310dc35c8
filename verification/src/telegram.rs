//! Telegram's events: which session they belong to, what they say, and how they are
//! answered.

use crate::commands;
use crate::groups;
use crate::json::{Json, JsonView};
use crate::launch;
use crate::media;
use crate::records;
use crate::records::SessionRecord;
use crate::session::SessionOptions;
use crate::text;
use crate::text::Failure;
use crate::turns;
use vstd::prelude::*;

verus! {

/// Whether an event is one of a group's.
pub open spec fn is_group(event: JsonView) -> bool {
    event.text_at("sessionKind"@) == Some("group"@)
}

/// Whether an event is one of a group's.
pub fn is_group_event(event: &Json) -> (yes: bool)
    ensures
        yes == is_group(event@),
{
    match event.text_at("sessionKind") {
        Some(kind) => *kind == *"group",
        None => false,
    }
}

/// The user whose lock a private event takes; none for a group's event.
pub fn private_user(event: &Json) -> (result: Result<Option<i64>, Failure>)
    ensures
        match result {
            Ok(None) => is_group(event@),
            Ok(Some(user)) => !is_group(event@) && event@.i64_at("telegramUserId"@) == Some(user),
            Err(failure) => {
                &&& !is_group(event@)
                &&& event@.i64_at("telegramUserId"@) is None
                &&& failure@ == "private Telegram event is missing its numeric user identity"@
            },
        },
{
    if is_group_event(event) {
        return Ok(None);
    }
    match event.i64_at("telegramUserId") {
        Some(user) => Ok(Some(user)),
        None => Err(
            Failure::fixed("private Telegram event is missing its numeric user identity"),
        ),
    }
}

/// Whether a session is the one that an event goes on with: it is active, and of the
/// same user, and of the same group where the event is a group's.
pub open spec fn continues(record: SessionRecord, event: JsonView) -> bool {
    &&& record.phase@ == "active"@
    &&& records::user_of(record) == records::name_at(event, "telegramUserId"@)
    &&& if is_group(event) {
        records::type_of(record) == "telegram-group"@ && records::group_of(record) == event.text_at(
            "groupId"@,
        )
    } else {
        records::type_of(record) == "telegram"@
    }
}

/// The first session, from place `i` on, that is called `id`.
pub open spec fn record_called(histories: Seq<SessionRecord>, id: Seq<char>, i: int) -> Option<int>
    decreases histories.len() - i,
{
    if i < 0 || i >= histories.len() {
        None
    } else if histories[i].id@ == id {
        Some(i)
    } else {
        record_called(histories, id, i + 1)
    }
}

/// The first session, from place `i` on, with which an event goes on.
pub open spec fn first_continued(histories: Seq<SessionRecord>, event: JsonView, i: int) -> Option<
    int,
>
    decreases histories.len() - i,
{
    if i < 0 || i >= histories.len() {
        None
    } else if continues(histories[i], event) {
        Some(i)
    } else {
        first_continued(histories, event, i + 1)
    }
}

/// The session that an event belongs to: the one that it is bound to, and else the one
/// with which it goes on. A session that is not active any more is not taken up.
pub open spec fn session_for(histories: Seq<SessionRecord>, event: JsonView) -> Option<int> {
    let bound = match event.text_at("conversationId"@) {
        Some(id) => record_called(histories, id, 0),
        None => None,
    };
    let found = match bound {
        Some(i) => Some(i),
        None => first_continued(histories, event, 0),
    };
    match found {
        Some(i) => if histories[i].phase@ == "active"@ {
            Some(i)
        } else {
            None
        },
        None => None,
    }
}

fn find_called(histories: &Vec<SessionRecord>, id: &str) -> (place: Option<usize>)
    ensures
        match place {
            Some(i) => record_called(histories@, id@, 0) == Some(i as int) && i < histories.len(),
            None => record_called(histories@, id@, 0) is None,
        },
{
    let mut i: usize = 0;
    while i < histories.len()
        invariant
            i <= histories.len(),
            record_called(histories@, id@, 0) == record_called(histories@, id@, i as int),
        decreases histories.len() - i,
    {
        if *histories[i].id.as_str() == *id {
            return Some(i);
        }
        i = i + 1;
    }
    None
}

fn goes_on(record: &SessionRecord, event: &Json) -> (yes: bool)
    ensures
        yes == continues(*record, event@),
{
    if *record.phase.as_str() != *"active" {
        return false;
    }
    let user = records::member_name(event, "telegramUserId");
    if *user.as_str() != *records::record_user_id(record).as_str() {
        return false;
    }
    if !is_group_event(event) {
        return *records::session_type(record) == *"telegram";
    }
    let same_group = match (records::record_group_id(record), event.text_at("groupId")) {
        (Some(own), Some(group)) => *own == *group,
        (None, None) => true,
        _ => false,
    };
    *records::session_type(record) == *"telegram-group" && same_group
}

fn find_continued(histories: &Vec<SessionRecord>, event: &Json) -> (place: Option<usize>)
    ensures
        match place {
            Some(i) => first_continued(histories@, event@, 0) == Some(i as int) && i
                < histories.len(),
            None => first_continued(histories@, event@, 0) is None,
        },
{
    let mut i: usize = 0;
    while i < histories.len()
        invariant
            i <= histories.len(),
            first_continued(histories@, event@, 0) == first_continued(histories@, event@, i as int),
        decreases histories.len() - i,
    {
        if goes_on(&histories[i], event) {
            return Some(i);
        }
        i = i + 1;
    }
    None
}

/// The session that an event belongs to; none where a new one is made.
pub fn telegram_session(histories: &Vec<SessionRecord>, event: &Json) -> (place: Option<usize>)
    ensures
        match place {
            Some(i) => session_for(histories@, event@) == Some(i as int) && i < histories.len(),
            None => session_for(histories@, event@) is None,
        },
{
    let bound = match event.text_at("conversationId") {
        Some(id) => find_called(histories, id),
        None => None,
    };
    let found = match bound {
        Some(i) => Some(i),
        None => find_continued(histories, event),
    };
    match found {
        Some(i) => {
            if *histories[i].phase.as_str() == *"active" {
                Some(i)
            } else {
                None
            }
        },
        None => None,
    }
}

/// An event that is not bound never goes to the session of another user.
pub proof fn events_stay_with_their_user(histories: Seq<SessionRecord>, event: JsonView)
    requires
        event.text_at("conversationId"@) is None,
    ensures
        match session_for(histories, event) {
            Some(i) => 0 <= i < histories.len() && continues(histories[i], event),
            None => true,
        },
{
    first_continued_continues(histories, event, 0);
}

proof fn first_continued_continues(histories: Seq<SessionRecord>, event: JsonView, i: int)
    ensures
        match first_continued(histories, event, i) {
            Some(k) => 0 <= k < histories.len() && continues(histories[k], event),
            None => true,
        },
    decreases histories.len() - i,
{
    if 0 <= i < histories.len() && !continues(histories[i], event) {
        first_continued_continues(histories, event, i + 1);
    }
}

/// Whether an event is still to be bound to its session.
pub fn needs_binding(event: &Json, id: &str) -> (yes: bool)
    ensures
        yes == (event@.text_at("conversationId"@) != Some(id@) || event@.get(
            "processingStartedAt"@,
        ) is None),
{
    let bound = match event.text_at("conversationId") {
        Some(own) => *own == *id,
        None => false,
    };
    !bound || event.get("processingStartedAt").is_none()
}

/// The channel of a new Telegram session.
pub open spec fn channel_of(event: JsonView, max_media_bytes: u64) -> JsonView {
    JsonView::Object(Map::empty()).with(
        "kind"@,
        JsonView::Text(
            if is_group(event) {
                "telegram-group"@
            } else {
                "telegram"@
            },
        ),
    ).with("telegramUserId"@, launch::member(event, "telegramUserId"@)).with(
        "chatId"@,
        launch::member(event, "chatId"@),
    ).with("groupId"@, launch::member(event, "groupId"@)).with(
        "username"@,
        launch::member(event, "username"@),
    ).with("displayName"@, launch::member(event, "displayName"@)).with(
        "maxObjectBytes"@,
        JsonView::Integer(max_media_bytes as int),
    )
}

/// The group that a new session is for: its root, and its context where the event
/// brings one.
#[derive(Debug)]
pub struct GroupPart {
    pub root: String,
    pub context: Option<Json>,
}

/// Sets up a new Telegram session.
pub fn telegram_setup(
    event: &Json,
    user_root: &str,
    group: Option<&GroupPart>,
    kennedy_root: &str,
    max_media_bytes: u64,
) -> (options: SessionOptions)
    requires
        is_group(event@) == group is Some,
    ensures
        options.session_type@ == if is_group(event@) {
            "telegram-group"@
        } else {
            "telegram"@
        },
        options.root_node_ids.deep_view() == match group {
            Some(part) => seq![user_root@, part.root@, kennedy_root@],
            None => seq![user_root@, kennedy_root@],
        },
        options.channel@ == match group {
            Some(part) => match part.context {
                Some(context) => channel_of(event@, max_media_bytes).with(
                    "groupContext"@,
                    context@,
                ).with("groupRootNodeId"@, JsonView::Text(part.root@)),
                None => channel_of(event@, max_media_bytes),
            },
            None => channel_of(event@, max_media_bytes),
        },
        match group {
            Some(part) => match part.context {
                Some(context) => {
                    &&& crate::order::ascending(options.reference_root_node_ids.deep_view())
                    &&& forall|id: Seq<char>| #[trigger]
                        options.reference_root_node_ids.deep_view().contains(id)
                            <==> records::participant_roots(context@).contains(id)
                            && !options.root_node_ids.deep_view().contains(id)
                },
                None => options.reference_root_node_ids@.len() == 0,
            },
            None => options.reference_root_node_ids@.len() == 0,
        },
        options.mode is Conversation,
        options.orchestration@ == commands::owned("idle"@),
        options.free_time@ is Null,
        options.provenance_id is None,
        options.source_session_type is None,
        options.group_context@ is Null,
        options.rust_lib_session_id is None,
{
    let mut roots: Vec<String> = Vec::new();
    roots.push(user_root.to_owned());
    let kind = if is_group_event(event) {
        "telegram-group"
    } else {
        "telegram"
    };
    let mut channel = Json::object().with("kind", Json::text(kind)).with(
        "telegramUserId",
        launch::member_of(event, "telegramUserId"),
    ).with("chatId", launch::member_of(event, "chatId")).with(
        "groupId",
        launch::member_of(event, "groupId"),
    ).with("username", launch::member_of(event, "username")).with(
        "displayName",
        launch::member_of(event, "displayName"),
    ).with("maxObjectBytes", Json::unsigned(max_media_bytes));
    let mut references: Vec<String> = Vec::new();
    if let Some(part) = group {
        roots.push(part.root.clone());
        if let Some(context) = &part.context {
            channel = channel.with("groupContext", context.clone()).with(
                "groupRootNodeId",
                Json::text(part.root.as_str()),
            );
        }
    }
    roots.push(kennedy_root.to_owned());
    assert(roots.deep_view() =~= match group {
        Some(part) => seq![user_root@, part.root@, kennedy_root@],
        None => seq![user_root@, kennedy_root@],
    });
    if let Some(part) = group {
        if let Some(context) = &part.context {
            references = records::participant_references(context, &roots);
            proof {
                text::excluding_keeps(
                    records::participant_roots(context@),
                    roots.deep_view(),
                );
            }
        }
    }
    let mut options = SessionOptions::conversation(kind, roots);
    options.channel = channel;
    options.reference_root_node_ids = references;
    options
}

/// What an event's file is called, by its kind, where it has no name.
pub open spec fn kind_extension(kind: Seq<char>) -> Seq<char> {
    if kind == "photo"@ {
        "jpg"@
    } else if kind == "video"@ || kind == "video_note"@ {
        "mp4"@
    } else if kind == "animation"@ {
        "gif"@
    } else if kind == "audio"@ {
        "mp3"@
    } else if kind == "sticker"@ {
        "webp"@
    } else {
        "bin"@
    }
}

fn extension_for_kind(kind: &str) -> (extension: &'static str)
    ensures
        extension@ == kind_extension(kind@),
{
    if *kind == *"photo" {
        "jpg"
    } else if *kind == *"video" || *kind == *"video_note" {
        "mp4"
    } else if *kind == *"animation" {
        "gif"
    } else if *kind == *"audio" {
        "mp3"
    } else if *kind == *"sticker" {
        "webp"
    } else {
        "bin"
    }
}

/// The kind of an event.
pub open spec fn event_kind(event: JsonView) -> Seq<char> {
    match event.text_at("kind"@) {
        Some(kind) => kind,
        None => "text"@,
    }
}

/// Whether an event of this kind carries a picture, a sound or a film.
pub open spec fn shows_media(kind: Seq<char>) -> bool {
    seq!["photo"@, "video"@, "animation"@, "audio"@, "video_note"@, "sticker"@].contains(kind)
}

/// The text that an event carries.
pub open spec fn event_text(event: JsonView) -> Seq<char> {
    match event.text_at("text"@) {
        Some(words) => words,
        None => ""@,
    }
}

/// What is needed to read an event.
#[derive(Clone, Copy, Debug, PartialEq, Eq)]
pub enum InputNeed {
    /// Its text alone.
    Text,
    /// Its file.
    File,
    /// Its file, and the text in it.
    Document,
}

/// What is needed to read an event.
pub fn input_need(event: &Json) -> (need: InputNeed)
    ensures
        need == need_of(event@),
{
    let kind = match event.text_at("kind") {
        Some(kind) => kind,
        None => "text",
    };
    proof {
        assert(text::views(
            (&["photo", "video", "animation", "audio", "video_note", "sticker"])@,
        ) =~= seq!["photo"@, "video"@, "animation"@, "audio"@, "video_note"@, "sticker"@]);
    }
    if *kind == *"document" {
        InputNeed::Document
    } else if *kind == *"voice" || text::listed(
        &["photo", "video", "animation", "audio", "video_note", "sticker"],
        kind,
    ) {
        InputNeed::File
    } else {
        InputNeed::Text
    }
}

/// The file of an event, as it was downloaded.
#[derive(Debug)]
pub struct EventFile {
    pub mime: String,
    pub bytes: Vec<u8>,
}

/// What was read out of a document, or why it could not be.
#[derive(Debug)]
pub enum DocumentText {
    Read { format: String, text: String, characters: u64, truncated: bool },
    Failed { message: String },
}

/// The type of the picture, the sound or the film of an event: the one that the event
/// gives, and else the one that it came with.
pub open spec fn event_mime(event: JsonView, downloaded: Seq<char>) -> Seq<char> {
    match groups::filled(event, "mimeType"@) {
        Some(mime) => mime,
        None => downloaded,
    }
}

/// The type of the picture, the sound or the film of an event.
fn event_mime_type(event: &Json, downloaded: &str) -> (mime: String)
    ensures
        mime@ == event_mime(event@, downloaded@),
{
    match groups::filled_text(event, "mimeType") {
        Some(mime) => mime.to_owned(),
        None => downloaded.to_owned(),
    }
}

/// The metadata of a voice message.
pub open spec fn voice_metadata(event: JsonView, id: Seq<char>, file: EventFile) -> JsonView {
    let name = match groups::filled(event, "fileName"@) {
        Some(name) => name,
        None => "telegram-voice.ogg"@,
    };
    let voice = JsonView::Object(Map::empty()).with("id"@, JsonView::Text("telegram:"@ + id)).with(
        "kind"@,
        JsonView::Text("voice"@),
    ).with("source"@, JsonView::Text("telegram"@)).with("mimeType"@, JsonView::Text(file.mime@)).with(
        "fileName"@,
        JsonView::Text(name),
    ).with("dataUrl"@, JsonView::Text(media::data_url_of(file.mime@, file.bytes@))).with(
        "sizeBytes"@,
        JsonView::Integer(file.bytes@.len() as int),
    ).with("durationSeconds"@, launch::member(event, "durationSeconds"@));
    input_metadata(id, "voice"@).with("media"@, voice)
}

/// What every message says of itself.
pub open spec fn input_metadata(id: Seq<char>, kind: Seq<char>) -> JsonView {
    JsonView::Object(Map::empty()).with("externalEventId"@, JsonView::Text(id)).with(
        "inputKind"@,
        JsonView::Text(kind),
    )
}

/// What is said of a file in an attachment.
pub open spec fn file_attachment(
    id: Seq<char>,
    kind: Seq<char>,
    name: Seq<char>,
    mime: Seq<char>,
    bytes: Seq<u8>,
) -> JsonView {
    JsonView::Object(Map::empty()).with("id"@, JsonView::Text("telegram:"@ + id)).with(
        "kind"@,
        JsonView::Text(kind),
    ).with("source"@, JsonView::Text("telegram"@)).with("fileName"@, JsonView::Text(name)).with(
        "mimeType"@,
        JsonView::Text(mime),
    ).with("sizeBytes"@, JsonView::Integer(bytes.len() as int)).with(
        "dataUrl"@,
        JsonView::Text(media::data_url_of(mime, bytes)),
    )
}

/// The metadata of a document.
pub open spec fn document_metadata(
    event: JsonView,
    id: Seq<char>,
    file: EventFile,
    contents: DocumentText,
) -> JsonView {
    let name = match event.text_at("fileName"@) {
        Some(name) => name,
        None => "telegram-document"@,
    };
    let plain = file_attachment(id, "document"@, name, file.mime@, file.bytes@);
    let attachment = match contents {
        DocumentText::Read { format, text, characters, truncated } => plain.with(
            "format"@,
            JsonView::Text(format@),
        ).with("text"@, JsonView::Text(text@)).with(
            "characters"@,
            JsonView::Integer(characters as int),
        ).with("truncated"@, JsonView::Bool(truncated)),
        DocumentText::Failed { message } => plain.with(
            "extractionError"@,
            JsonView::Text(message@),
        ),
    };
    input_metadata(id, "document"@).with("attachments"@, JsonView::Array(seq![attachment]))
}

/// The metadata of a picture, a sound or a film.
pub open spec fn media_metadata(event: JsonView, id: Seq<char>, file: EventFile) -> JsonView {
    let kind = event_kind(event);
    let name = match groups::filled(event, "fileName"@) {
        Some(name) => name,
        None => "telegram-"@ + kind + "."@ + kind_extension(kind),
    };
    let plain = file_attachment(
        id,
        kind,
        name,
        event_mime(event, file.mime@),
        file.bytes@,
    );
    let attachment = match event.get("durationSeconds"@) {
        Some(duration) => plain.with("durationSeconds"@, duration),
        None => plain,
    };
    input_metadata(id, kind).with("attachments"@, JsonView::Array(seq![attachment]))
}

fn telegram_id(id: &str) -> (value: Json)
    ensures
        value@ == JsonView::Text("telegram:"@ + id@),
{
    let mut name = "telegram:".to_owned();
    name.append(id);
    Json::text(name.as_str())
}

fn attach_file(id: &str, kind: &str, name: &str, mime: &str, bytes: &Vec<u8>) -> (value: Json)
    ensures
        value@ == file_attachment(id@, kind@, name@, mime@, bytes@),
{
    let url = media::data_url(mime, bytes.as_slice());
    Json::object().with("id", telegram_id(id)).with("kind", Json::text(kind)).with(
        "source",
        Json::text("telegram"),
    ).with("fileName", Json::text(name)).with("mimeType", Json::text(mime)).with(
        "sizeBytes",
        Json::unsigned(bytes.len() as u64),
    ).with("dataUrl", Json::text(url.as_str()))
}

fn describe_input(id: &str, kind: &str) -> (value: Json)
    ensures
        value@ == input_metadata(id@, kind@),
{
    Json::object().with("externalEventId", Json::text(id)).with("inputKind", Json::text(kind))
}

fn read_text(event: &Json) -> (words: String)
    ensures
        words@ == event_text(event@),
{
    match event.text_at("text") {
        Some(words) => words.to_owned(),
        None => "".to_owned(),
    }
}

/// The message that an event without a file carries.
fn text_input(event: &Json, id: &str) -> (input: (String, Json))
    ensures
        input.0@ == event_text(event@),
        input.1@ == input_metadata(id@, "text"@),
{
    (read_text(event), describe_input(id, "text"))
}

/// The message that a voice note carries.
fn voice_input(event: &Json, id: &str, file: &EventFile) -> (input: (String, Json))
    ensures
        input.0@ == event_text(event@),
        input.1@ == voice_metadata(event@, id@, *file),
{
    let name = match groups::filled_text(event, "fileName") {
        Some(name) => name,
        None => "telegram-voice.ogg",
    };
    let url = media::data_url(file.mime.as_str(), file.bytes.as_slice());
    let voice = Json::object().with("id", telegram_id(id)).with("kind", Json::text("voice")).with(
        "source",
        Json::text("telegram"),
    ).with("mimeType", Json::text(file.mime.as_str())).with("fileName", Json::text(name)).with(
        "dataUrl",
        Json::text(url.as_str()),
    ).with("sizeBytes", Json::unsigned(file.bytes.len() as u64)).with(
        "durationSeconds",
        launch::member_of(event, "durationSeconds"),
    );
    (read_text(event), describe_input(id, "voice").with("media", voice))
}

/// The message that a document carries.
fn document_input(event: &Json, id: &str, file: &EventFile, contents: &DocumentText) -> (input:
    (String, Json))
    ensures
        input.0@ == event_text(event@),
        input.1@ == document_metadata(event@, id@, *file, *contents),
{
    let name = match event.text_at("fileName") {
        Some(name) => name,
        None => "telegram-document",
    };
    let plain = attach_file(
        id,
        "document",
        name,
        file.mime.as_str(),
        &file.bytes,
    );
    let attachment = match contents {
        DocumentText::Read { format, text, characters, truncated } => plain.with(
            "format",
            Json::text(format.as_str()),
        ).with("text", Json::text(text.as_str())).with(
            "characters",
            Json::unsigned(*characters),
        ).with("truncated", Json::Bool(*truncated)),
        DocumentText::Failed { message } => plain.with(
            "extractionError",
            Json::text(message.as_str()),
        ),
    };
    (
        read_text(event),
        describe_input(id, "document").with("attachments", Json::single(attachment)),
    )
}

/// The message that a picture, a sound or a film carries.
fn media_input(event: &Json, id: &str, file: &EventFile) -> (input: (String, Json))
    ensures
        input.0@ == event_text(event@),
        input.1@ == media_metadata(event@, id@, *file),
{
    let kind = match event.text_at("kind") {
        Some(kind) => kind,
        None => "text",
    };
    let name = match groups::filled_text(event, "fileName") {
        Some(name) => name.to_owned(),
        None => {
            let mut made = "telegram-".to_owned();
            made.append(kind);
            made.append(".");
            made.append(extension_for_kind(kind));
            made
        },
    };
    let mime = event_mime_type(event, file.mime.as_str());
    let plain = attach_file(
        id,
        kind,
        name.as_str(),
        mime.as_str(),
        &file.bytes,
    );
    let attachment = match event.get("durationSeconds") {
        Some(duration) => plain.with("durationSeconds", duration.clone()),
        None => plain,
    };
    (read_text(event), describe_input(id, kind).with("attachments", Json::single(attachment)))
}

/// What is needed to read an event.
pub open spec fn need_of(event: JsonView) -> InputNeed {
    if event_kind(event) == "document"@ {
        InputNeed::Document
    } else if event_kind(event) == "voice"@ || shows_media(event_kind(event)) {
        InputNeed::File
    } else {
        InputNeed::Text
    }
}

/// The message that an event carries: its text, and what it says of itself.
pub open spec fn input_of(
    event: JsonView,
    file: Option<EventFile>,
    contents: Option<DocumentText>,
) -> Result<(Seq<char>, JsonView), Seq<char>> {
    match records::required_text(event, "id"@) {
        Err(message) => Err(message),
        Ok(id) => Ok(
            (
                event_text(event),
                match need_of(event) {
                    InputNeed::Text => input_metadata(id, "text"@),
                    InputNeed::Document => document_metadata(event, id, file->0, contents->0),
                    InputNeed::File => if event_kind(event) == "voice"@ {
                        voice_metadata(event, id, file->0)
                    } else {
                        media_metadata(event, id, file->0)
                    },
                },
            ),
        ),
    }
}

/// The message that an event carries: its text, and what it says of itself. The file,
/// and what was read out of it, are given where the event needs them.
pub fn telegram_input(event: &Json, file: Option<&EventFile>, contents: Option<&DocumentText>) -> (
result: Result<(String, Json), Failure>)
    requires
        need_of(event@) is Text || file is Some,
        need_of(event@) is Document ==> contents is Some,
    ensures
        match result {
            Ok((words, metadata)) => input_of(
                event@,
                match file {
                    Some(file) => Some(*file),
                    None => None,
                },
                match contents {
                    Some(contents) => Some(*contents),
                    None => None,
                },
            ) == Ok::<(Seq<char>, JsonView), Seq<char>>((words@, metadata@)),
            Err(failure) => records::required_text(event@, "id"@) == Err::<Seq<char>, Seq<char>>(
                failure@,
            ),
        },
{
    let id = match records::required_string(event, "id") {
        Err(failure) => return Err(failure),
        Ok(id) => id,
    };
    let is_voice = match event.text_at("kind") {
        Some(kind) => *kind == *"voice",
        None => {
            proof {
                reveal_strlit("text");
                reveal_strlit("voice");
                assert("text"@.len() == 4 && "voice"@.len() == 5);
            }
            false
        },
    };
    match (input_need(event), file, contents) {
        (InputNeed::Document, Some(file), Some(contents)) => Ok(
            document_input(event, id.as_str(), file, contents),
        ),
        (InputNeed::File, Some(file), _) => {
            if is_voice {
                Ok(voice_input(event, id.as_str(), file))
            } else {
                Ok(media_input(event, id.as_str(), file))
            }
        },
        _ => Ok(text_input(event, id.as_str())),
    }
}

/// Whether an event has to wait for an earlier one of its session.
pub open spec fn must_wait(pending_turn: bool, pending_event: Option<Seq<char>>, id: Seq<char>) -> bool {
    pending_turn && pending_event != Some(id)
}

/// What is done for an event, once its session is loaded.
#[derive(Debug, PartialEq, Eq)]
pub enum EventStep {
    /// Its responses are delivered.
    Deliver,
    /// It is read, and opens a turn, which then runs.
    Begin,
    /// Its open turn runs on.
    Resume,
}

/// What is done for an event, once its session is loaded.
pub fn event_step(
    answered: bool,
    pending_turn: bool,
    pending_event: Option<&str>,
    id: &str,
) -> (result: Result<EventStep, Failure>)
    ensures
        match result {
            Ok(EventStep::Deliver) => answered,
            Ok(EventStep::Begin) => !answered && !pending_turn,
            Ok(EventStep::Resume) => !answered && pending_turn && pending_event.deep_view() == Some(
                id@,
            ),
            Err(failure) => {
                &&& !answered
                &&& must_wait(pending_turn, pending_event.deep_view(), id@)
                &&& failure@ == "This Telegram session has an earlier saved query to finish."@
            },
        },
{
    if answered {
        return Ok(EventStep::Deliver);
    }
    if !pending_turn {
        return Ok(EventStep::Begin);
    }
    let own = match pending_event {
        Some(event) => *event == *id,
        None => false,
    };
    if own {
        Ok(EventStep::Resume)
    } else {
        Err(Failure::fixed("This Telegram session has an earlier saved query to finish."))
    }
}

/// What the user is told of a document that could not be read.
pub fn unreadable_document(event: &Json, reason: &str) -> (reply: Option<String>)
    ensures
        reply.deep_view() == if event@.text_at("kind"@) == Some("document"@) {
            Some(
                "I couldn't read "@ + (match event@.text_at("fileName"@) {
                    Some(name) => name,
                    None => "that document"@,
                }) + ": "@ + reason@ + " Please try sending it again."@,
            )
        } else {
            None::<Seq<char>>
        },
{
    let is_document = match event.text_at("kind") {
        Some(kind) => *kind == *"document",
        None => false,
    };
    if !is_document {
        return None;
    }
    let name = match event.text_at("fileName") {
        Some(name) => name,
        None => "that document",
    };
    let mut reply = "I couldn't read ".to_owned();
    reply.append(name);
    reply.append(": ");
    reply.append(reason);
    reply.append(" Please try sending it again.");
    Some(reply)
}

/// The state of a session that is queued for the history because it is over.
pub fn queued_state(state: &Json, reason: &str) -> (queued: Json)
    requires
        turns::takes_members(state@),
    ensures
        queued@ == state@.with(
            "orchestration"@,
            commands::owned("stopped"@).with("reason"@, JsonView::Text(reason@)),
        ),
{
    state.clone().with(
        "orchestration",
        commands::orchestration("stopped").with("reason", Json::text(reason)),
    )
}

/// Whether a private session is queued for the history: no user is bound to it any
/// more.
pub fn is_detached(record: &SessionRecord, bound: &Vec<String>) -> (yes: bool)
    ensures
        yes == (record.phase@ == "active"@ && records::type_of(*record) == "telegram"@
            && !bound.deep_view().contains(record.id@)),
{
    *record.phase.as_str() == *"active" && *records::session_type(record) == *"telegram"
        && !text::among(bound, record.id.as_str())
}

/// What answers a reset of a session that there is not, or not any more.
pub const NOTHING_TO_RESET: &'static str =
    "There is no active Telegram session to reset. Your next message will begin one.";

/// What answers a reset.
pub const RESET_DONE: &'static str =
    "Conversation reset. The Telegram session has been queued for memory ingress; your next message will begin a new session.";

/// What answers a reset: a session is reset where it is there and active. `phase` is
/// the phase of the session that the event is bound to, where the history has it.
pub fn reset_answer(phase: Option<&str>) -> (answer: (&'static str, bool))
    ensures
        answer.1 == (phase.deep_view() == Some("active"@)),
        answer.0@ == if answer.1 {
            RESET_DONE@
        } else {
            NOTHING_TO_RESET@
        },
{
    let active = match phase {
        Some(phase) => *phase == *"active",
        None => false,
    };
    if active {
        (RESET_DONE, true)
    } else {
        (NOTHING_TO_RESET, false)
    }
}

/// An event that names its conversation goes to the first session of that name, where it
/// is active, and to none where it is not.
pub proof fn bound_events_keep_their_session(
    histories: Seq<SessionRecord>,
    event: JsonView,
    id: Seq<char>,
    at: int,
)
    requires
        event.text_at("conversationId"@) == Some(id),
        0 <= at < histories.len(),
        histories[at].id@ == id,
        forall|i: int| 0 <= i < at ==> (#[trigger] histories[i]).id@ != id,
    ensures
        histories[at].phase@ == "active"@ ==> session_for(histories, event) == Some(at),
        histories[at].phase@ != "active"@ ==> session_for(histories, event) is None,
{
    called_first(histories, id, 0, at);
}

/// The first session of a name is found.
proof fn called_first(histories: Seq<SessionRecord>, id: Seq<char>, i: int, at: int)
    requires
        0 <= i <= at < histories.len(),
        histories[at].id@ == id,
        forall|j: int| i <= j < at ==> (#[trigger] histories[j]).id@ != id,
    ensures
        record_called(histories, id, i) == Some(at),
    decreases at - i,
{
    if i < at {
        assert(histories[i].id@ != id);
        called_first(histories, id, i + 1, at);
    }
}

/// An event that names no conversation goes to the first active session of its user: a
/// private one for a private event, one of the same group for an event of a group.
pub proof fn unbound_events_continue_their_users_session(
    histories: Seq<SessionRecord>,
    event: JsonView,
    i: int,
)
    requires
        event.text_at("conversationId"@) is None,
        0 <= i < histories.len(),
        histories[i].phase@ == "active"@,
        records::user_of(histories[i]) == records::name_at(event, "telegramUserId"@),
        event.text_at("sessionKind"@) == Some("group"@) ==> records::type_of(histories[i])
            == "telegram-group"@ && records::group_of(histories[i]) == event.text_at("groupId"@),
        event.text_at("sessionKind"@) != Some("group"@) ==> records::type_of(histories[i])
            == "telegram"@,
    ensures
        ({
            let place = session_for(histories, event);
            &&& place is Some
            &&& 0 <= place->0 <= i
            &&& histories[place->0].phase@ == "active"@
            &&& records::user_of(histories[place->0]) == records::name_at(
                event,
                "telegramUserId"@,
            )
            &&& event.text_at("sessionKind"@) == Some("group"@) ==> records::type_of(
                histories[place->0],
            ) == "telegram-group"@ && records::group_of(histories[place->0]) == event.text_at(
                "groupId"@,
            )
            &&& event.text_at("sessionKind"@) != Some("group"@) ==> records::type_of(
                histories[place->0],
            ) == "telegram"@
        }),
{
    continued_by(histories, event, 0, i);
    first_continued_continues(histories, event, 0);
}

/// A session that continues an event is found, or one before it.
proof fn continued_by(histories: Seq<SessionRecord>, event: JsonView, i: int, at: int)
    requires
        0 <= i <= at < histories.len(),
        continues(histories[at], event),
    ensures
        first_continued(histories, event, i) is Some,
        i <= first_continued(histories, event, i)->0 <= at,
    decreases at - i,
{
    if i < at && !continues(histories[i], event) {
        continued_by(histories, event, i + 1, at);
    }
}

/// A text event is handed on with its text, under its own identity and as a text.
pub proof fn text_events_are_their_text(
    event: JsonView,
    file: Option<EventFile>,
    contents: Option<DocumentText>,
    id: Seq<char>,
)
    requires
        event.text_at("id"@) == Some(id),
        id.len() > 0,
        event.text_at("kind"@) is None || event.text_at("kind"@) == Some("text"@),
    ensures
        need_of(event) is Text,
        input_of(event, file, contents) is Ok,
        match input_of(event, file, contents)->Ok_0 {
            (words, metadata) => {
                &&& event.text_at("text"@) is Some ==> Some(words) == event.text_at("text"@)
                &&& metadata.text_at("externalEventId"@) == Some(id)
                &&& metadata.text_at("inputKind"@) == Some("text"@)
                &&& metadata.get("attachments"@) is None
                &&& metadata.get("media"@) is None
            },
        },
{
    event_words_differ();
    let shown = seq!["photo"@, "video"@, "animation"@, "audio"@, "video_note"@, "sticker"@];
    assert(!shown.contains("text"@)) by {
        if shown.contains("text"@) {
            let k = shown.index_of("text"@);
            assert(shown[k] == "text"@);
        }
    }
}

/// The words of an event's input differ.
proof fn event_words_differ()
    ensures
        "text"@ != "document"@,
        "text"@ != "voice"@,
        "text"@ != "photo"@,
        "text"@ != "video"@,
        "text"@ != "animation"@,
        "text"@ != "audio"@,
        "text"@ != "video_note"@,
        "text"@ != "sticker"@,
        "voice"@ != "document"@,
        "photo"@ != "document"@,
        "photo"@ != "voice"@,
        "externalEventId"@ != "inputKind"@,
        "externalEventId"@ != "attachments"@,
        "externalEventId"@ != "media"@,
        "inputKind"@ != "attachments"@,
        "inputKind"@ != "media"@,
{
    reveal_strlit("text");
    reveal_strlit("document");
    reveal_strlit("voice");
    reveal_strlit("photo");
    reveal_strlit("video");
    reveal_strlit("animation");
    reveal_strlit("audio");
    reveal_strlit("video_note");
    reveal_strlit("sticker");
    reveal_strlit("externalEventId");
    reveal_strlit("inputKind");
    reveal_strlit("attachments");
    reveal_strlit("media");
    assert("text"@.len() == 4 && "document"@.len() == 8 && "voice"@.len() == 5);
    assert("photo"@.len() == 5 && "photo"@[0] == 'p' && "voice"@[0] == 'v');
    assert("video"@.len() == 5 && "animation"@.len() == 9 && "audio"@.len() == 5);
    assert("video_note"@.len() == 10 && "sticker"@.len() == 7);
    assert("externalEventId"@.len() == 15 && "inputKind"@.len() == 9);
    assert("attachments"@.len() == 11 && "media"@.len() == 5);
}

/// The members of an attachment have different names.
proof fn attachment_keys_differ()
    ensures
        "dataUrl"@ != "sizeBytes"@,
        "dataUrl"@ != "mimeType"@,
        "dataUrl"@ != "fileName"@,
        "dataUrl"@ != "kind"@,
        "dataUrl"@ != "durationSeconds"@,
        "dataUrl"@ != "format"@,
        "dataUrl"@ != "text"@,
        "dataUrl"@ != "characters"@,
        "dataUrl"@ != "truncated"@,
        "dataUrl"@ != "extractionError"@,
        "kind"@ != "source"@,
        "kind"@ != "fileName"@,
        "kind"@ != "mimeType"@,
        "kind"@ != "sizeBytes"@,
        "kind"@ != "durationSeconds"@,
        "text"@ != "characters"@,
        "text"@ != "truncated"@,
        "kind"@ != "format"@,
        "kind"@ != "text"@,
        "kind"@ != "characters"@,
        "kind"@ != "truncated"@,
        "kind"@ != "extractionError"@,
{
    reveal_strlit("dataUrl");
    reveal_strlit("sizeBytes");
    reveal_strlit("mimeType");
    reveal_strlit("fileName");
    reveal_strlit("kind");
    reveal_strlit("source");
    reveal_strlit("durationSeconds");
    reveal_strlit("format");
    reveal_strlit("text");
    reveal_strlit("characters");
    reveal_strlit("truncated");
    reveal_strlit("extractionError");
    assert("dataUrl"@.len() == 7 && "sizeBytes"@.len() == 9 && "mimeType"@.len() == 8);
    assert("fileName"@.len() == 8 && "kind"@.len() == 4 && "source"@.len() == 6);
    assert("durationSeconds"@.len() == 15 && "format"@.len() == 6 && "text"@.len() == 4);
    assert("characters"@.len() == 10 && "truncated"@.len() == 9 && "extractionError"@.len() == 15);
    assert("kind"@[0] == 'k' && "text"@[0] == 't');
}

/// A voice message is handed on as media that holds the sound, a document as an
/// attachment that holds its bytes and what was read of it, and a picture as one that
/// holds its bytes, each under the identity of its event.
pub proof fn files_are_handed_on_with_their_event(
    event: JsonView,
    file: EventFile,
    contents: Option<DocumentText>,
    id: Seq<char>,
)
    requires
        event.text_at("id"@) == Some(id),
        id.len() > 0,
    ensures
        ({
            let input = input_of(event, Some(file), contents);
            let url = media::data_url_of(file.mime@, file.bytes@);
            let kind = event.text_at("kind"@);
            &&& input is Ok
            &&& match input->Ok_0 {
                (words, metadata) => {
                    &&& metadata.text_at("externalEventId"@) == Some(id)
                    &&& kind == Some("voice"@) ==> {
                        &&& need_of(event) is File
                        &&& metadata.get("media"@) is Some
                        &&& metadata.get("media"@)->0.text_at("dataUrl"@) == Some(url)
                        &&& metadata.get("media"@)->0.text_at("kind"@) == Some("voice"@)
                        &&& metadata.text_at("inputKind"@) == Some("voice"@)
                    }
                    &&& kind == Some("document"@) && contents is Some ==> {
                        let listed = metadata.array_at("attachments"@);
                        &&& need_of(event) is Document
                        &&& listed is Some && listed->0.len() == 1
                        &&& listed->0[0].text_at("dataUrl"@) == Some(url)
                        &&& contents->0 is Read ==> listed->0[0].text_at("text"@) == Some(
                            contents->0->text@,
                        )
                        &&& contents->0 is Failed ==> listed->0[0].text_at("extractionError"@)
                            == Some(contents->0->message@)
                    }
                    &&& kind == Some("photo"@) && event.text_at("mimeType"@) is None ==> {
                        let listed = metadata.array_at("attachments"@);
                        &&& need_of(event) is File
                        &&& listed is Some && listed->0.len() == 1
                        &&& listed->0[0].text_at("dataUrl"@) == Some(url)
                        &&& listed->0[0].text_at("kind"@) == Some("photo"@)
                    }
                },
            }
        }),
{
    event_words_differ();
    attachment_keys_differ();
    let shown = seq!["photo"@, "video"@, "animation"@, "audio"@, "video_note"@, "sticker"@];
    assert(shown[0] == "photo"@);
    assert(shown.contains("photo"@));
}

/// An event waits exactly while the turn of another one is pending.
pub proof fn events_wait_for_other_turns(
    pending_turn: bool,
    pending_event: Option<Seq<char>>,
    id: Seq<char>,
)
    ensures
        pending_event == Some(id) ==> !must_wait(pending_turn, pending_event, id),
        !pending_turn ==> !must_wait(pending_turn, pending_event, id),
        pending_turn && pending_event is None ==> must_wait(pending_turn, pending_event, id),
        pending_turn && pending_event is Some && pending_event->0 != id ==> must_wait(
            pending_turn,
            pending_event,
            id,
        ),
{
}

/// A session's channel names the event's user, chat and group, and what may be sent.
pub proof fn channels_name_their_chat(event: JsonView, max_media_bytes: u64)
    ensures
        ({
            let channel = channel_of(event, max_media_bytes);
            &&& is_group(event) ==> channel.text_at("kind"@) == Some("telegram-group"@)
            &&& !is_group(event) ==> channel.text_at("kind"@) == Some("telegram"@)
            &&& event.i64_at("telegramUserId"@) is Some ==> channel.i64_at("telegramUserId"@)
                == event.i64_at("telegramUserId"@)
            &&& event.i64_at("chatId"@) is Some ==> channel.i64_at("chatId"@) == event.i64_at(
                "chatId"@,
            )
            &&& event.i64_at("groupId"@) is Some ==> channel.i64_at("groupId"@) == event.i64_at(
                "groupId"@,
            )
            &&& event.text_at("username"@) is Some ==> channel.text_at("username"@)
                == event.text_at("username"@)
            &&& event.text_at("displayName"@) is Some ==> channel.text_at("displayName"@)
                == event.text_at("displayName"@)
            &&& channel.u64_at("maxObjectBytes"@) == Some(max_media_bytes)
        }),
{
    reveal_strlit("kind");
    reveal_strlit("telegramUserId");
    reveal_strlit("chatId");
    reveal_strlit("groupId");
    reveal_strlit("username");
    reveal_strlit("displayName");
    reveal_strlit("maxObjectBytes");
    assert("kind"@.len() == 4 && "chatId"@.len() == 6 && "groupId"@.len() == 7 && "username"@.len()
        == 8 && "displayName"@.len() == 11 && "telegramUserId"@.len() == 14
        && "maxObjectBytes"@.len() == 14);
    assert("telegramUserId"@[0] == 't' && "maxObjectBytes"@[0] == 'm');
}

/// A medium that comes without a name is named after its kind.
pub proof fn kinds_have_their_extension()
    ensures
        kind_extension("photo"@) == "jpg"@,
        kind_extension("video"@) == "mp4"@,
        kind_extension("video_note"@) == "mp4"@,
        kind_extension("animation"@) == "gif"@,
        kind_extension("audio"@) == "mp3"@,
        kind_extension("sticker"@) == "webp"@,
        kind_extension("document"@) == "bin"@,
{
    reveal_strlit("photo");
    reveal_strlit("video");
    reveal_strlit("video_note");
    reveal_strlit("animation");
    reveal_strlit("audio");
    reveal_strlit("sticker");
    reveal_strlit("document");
    assert("photo"@.len() == 5 && "photo"@[0] == 'p');
    assert("video"@.len() == 5 && "video"@[0] == 'v');
    assert("audio"@.len() == 5 && "audio"@[0] == 'a');
    assert("video_note"@.len() == 10 && "animation"@.len() == 9 && "sticker"@.len() == 7
        && "document"@.len() == 8);
}

/// A file's attachment tells its event, its kind, its name, its type and its size.
pub proof fn attachments_tell_their_file(
    id: Seq<char>,
    kind: Seq<char>,
    name: Seq<char>,
    mime: Seq<char>,
    bytes: Seq<u8>,
)
    ensures
        ({
            let attachment = file_attachment(id, kind, name, mime, bytes);
            &&& attachment.text_at("id"@) == Some("telegram:"@ + id)
            &&& attachment.text_at("kind"@) == Some(kind)
            &&& attachment.text_at("source"@) == Some("telegram"@)
            &&& attachment.text_at("fileName"@) == Some(name)
            &&& attachment.text_at("mimeType"@) == Some(mime)
            &&& attachment.get("sizeBytes"@) == Some(JsonView::Integer(bytes.len() as int))
            &&& attachment.text_at("dataUrl"@) == Some(media::data_url_of(mime, bytes))
        }),
{
    reveal_strlit("id");
    reveal_strlit("kind");
    reveal_strlit("source");
    reveal_strlit("fileName");
    reveal_strlit("mimeType");
    reveal_strlit("sizeBytes");
    reveal_strlit("dataUrl");
    assert("id"@.len() == 2);
    assert("kind"@.len() == 4);
    assert("source"@.len() == 6);
    assert("fileName"@.len() == 8 && "fileName"@[0] == 'f');
    assert("mimeType"@.len() == 8 && "mimeType"@[0] == 'm');
    assert("sizeBytes"@.len() == 9);
    assert("dataUrl"@.len() == 7);
}

/// A voice message tells its event, its name, its type, its size and how long it is.
pub proof fn voices_tell_their_recording(event: JsonView, id: Seq<char>, file: EventFile)
    ensures
        ({
            let metadata = voice_metadata(event, id, file);
            let voice = metadata.get("media"@)->0;
            let name = event.text_at("fileName"@);
            &&& metadata.get("media"@) is Some
            &&& voice.text_at("id"@) == Some("telegram:"@ + id)
            &&& voice.text_at("source"@) == Some("telegram"@)
            &&& voice.text_at("mimeType"@) == Some(file.mime@)
            &&& voice.get("sizeBytes"@) == Some(JsonView::Integer(file.bytes@.len() as int))
            &&& name is None ==> voice.text_at("fileName"@) == Some("telegram-voice.ogg"@)
            &&& name is Some && !text::blank(name->0) ==> voice.text_at("fileName"@) == name
            &&& event.get("durationSeconds"@) is Some ==> voice.get("durationSeconds"@)
                == event.get("durationSeconds"@)
        }),
{
    reveal_strlit("id");
    reveal_strlit("kind");
    reveal_strlit("source");
    reveal_strlit("fileName");
    reveal_strlit("mimeType");
    reveal_strlit("sizeBytes");
    reveal_strlit("dataUrl");
    reveal_strlit("durationSeconds");
    reveal_strlit("format");
    reveal_strlit("text");
    reveal_strlit("characters");
    reveal_strlit("truncated");
    reveal_strlit("extractionError");
    reveal_strlit("externalEventId");
    reveal_strlit("inputKind");
    reveal_strlit("media");
    reveal_strlit("attachments");
    assert("id"@.len() == 2);
    assert("kind"@.len() == 4 && "kind"@[0] == 'k');
    assert("source"@.len() == 6 && "source"@[0] == 's');
    assert("fileName"@.len() == 8 && "fileName"@[0] == 'f');
    assert("mimeType"@.len() == 8 && "mimeType"@[0] == 'm');
    assert("sizeBytes"@.len() == 9 && "sizeBytes"@[0] == 's');
    assert("dataUrl"@.len() == 7);
    assert("durationSeconds"@.len() == 15 && "durationSeconds"@[0] == 'd');
    assert("format"@.len() == 6 && "format"@[0] == 'f');
    assert("text"@.len() == 4 && "text"@[0] == 't');
    assert("characters"@.len() == 10);
    assert("truncated"@.len() == 9 && "truncated"@[0] == 't');
    assert("extractionError"@.len() == 15 && "extractionError"@[0] == 'e' && "extractionError"@[3] == 'r');
    assert("externalEventId"@.len() == 15 && "externalEventId"@[0] == 'e' && "externalEventId"@[3] == 'e');
    assert("inputKind"@.len() == 9 && "inputKind"@[0] == 'i');
    assert("media"@.len() == 5);
    assert("attachments"@.len() == 11);
}

/// A document tells its name and what was read of it; another file its name, or one made
/// of its kind, and how long it is where it lasts.
pub proof fn files_tell_their_name(
    event: JsonView,
    id: Seq<char>,
    file: EventFile,
    contents: DocumentText,
)
    ensures
        ({
            let name = event.text_at("fileName"@);
            let kind = event.text_at("kind"@);
            let document = document_metadata(event, id, file, contents).array_at("attachments"@);
            let medium = media_metadata(event, id, file).array_at("attachments"@);
            &&& document is Some && document->0.len() == 1
            &&& medium is Some && medium->0.len() == 1
            &&& document->0[0].text_at("fileName"@) == match name {
                Some(name) => Some(name),
                None => Some("telegram-document"@),
            }
            &&& contents matches DocumentText::Read { format, text, characters, truncated } ==> {
                &&& document->0[0].text_at("format"@) == Some(format@)
                &&& document->0[0].text_at("text"@) == Some(text@)
                &&& document->0[0].get("characters"@) == Some(JsonView::Integer(characters as int))
                &&& document->0[0].bool_at("truncated"@) == Some(truncated)
            }
            &&& name is Some && !text::blank(name->0) ==> medium->0[0].text_at("fileName"@) == name
            &&& name is None && kind is Some ==> medium->0[0].text_at("fileName"@) == Some(
                "telegram-"@ + kind->0 + "."@ + kind_extension(kind->0),
            )
            &&& event.get("durationSeconds"@) is Some ==> medium->0[0].get("durationSeconds"@)
                == event.get("durationSeconds"@)
            &&& event.get("durationSeconds"@) is None ==> medium->0[0].get("durationSeconds"@)
                is None
        }),
{
    reveal_strlit("id");
    reveal_strlit("kind");
    reveal_strlit("source");
    reveal_strlit("fileName");
    reveal_strlit("mimeType");
    reveal_strlit("sizeBytes");
    reveal_strlit("dataUrl");
    reveal_strlit("durationSeconds");
    reveal_strlit("format");
    reveal_strlit("text");
    reveal_strlit("characters");
    reveal_strlit("truncated");
    reveal_strlit("extractionError");
    reveal_strlit("externalEventId");
    reveal_strlit("inputKind");
    reveal_strlit("media");
    reveal_strlit("attachments");
    assert("id"@.len() == 2);
    assert("kind"@.len() == 4 && "kind"@[0] == 'k');
    assert("source"@.len() == 6 && "source"@[0] == 's');
    assert("fileName"@.len() == 8 && "fileName"@[0] == 'f');
    assert("mimeType"@.len() == 8 && "mimeType"@[0] == 'm');
    assert("sizeBytes"@.len() == 9 && "sizeBytes"@[0] == 's');
    assert("dataUrl"@.len() == 7);
    assert("durationSeconds"@.len() == 15 && "durationSeconds"@[0] == 'd');
    assert("format"@.len() == 6 && "format"@[0] == 'f');
    assert("text"@.len() == 4 && "text"@[0] == 't');
    assert("characters"@.len() == 10);
    assert("truncated"@.len() == 9 && "truncated"@[0] == 't');
    assert("extractionError"@.len() == 15 && "extractionError"@[0] == 'e' && "extractionError"@[3] == 'r');
    assert("externalEventId"@.len() == 15 && "externalEventId"@[0] == 'e' && "externalEventId"@[3] == 'e');
    assert("inputKind"@.len() == 9 && "inputKind"@[0] == 'i');
    assert("media"@.len() == 5);
    assert("attachments"@.len() == 11);
}

} // verus!
