//! The context of a Telegram group: its messages with their files, and its
//! participants with their roots.

use crate::commands;
use crate::groups;
use crate::json;
use crate::json::{Json, JsonView};
use crate::launch;
use crate::media;
use crate::records;
use crate::session::SessionOptions;
use crate::text;
use crate::text::Failure;
use crate::turns;
use vstd::prelude::*;

verus! {

/// The name of a file that came without one.
pub open spec fn synthesized_name(
    kind: Seq<char>,
    mime_type: Seq<char>,
    message_id: Seq<char>,
) -> Seq<char> {
    "telegram-group-"@ + kind + "-"@ + message_id + "."@ + media::extension_of(
        media::file_type(mime_type),
    )
}

/// The name of a file that came without one: of its kind, its message and its type.
pub fn telegram_group_context_file_name(kind: &str, mime_type: &str, message_id: &str) -> (name:
    String)
    ensures
        name@ == synthesized_name(kind@, mime_type@, message_id@),
{
    let mut name = "telegram-group-".to_owned();
    name.append(kind);
    name.append("-");
    name.append(message_id);
    name.append(".");
    name.append(media::file_extension_for_mime_type(mime_type));
    name
}

/// What the model is told of a file in a group.
pub open spec fn file_description(message: JsonView) -> Seq<char> {
    let name = match message.text_at("fileName"@) {
        Some(name) => name,
        None => "telegram-file"@,
    };
    let note = if message.text_at("fileNameSource"@) == Some("synthesized"@) {
        " (synthesized because Telegram supplied no filename)"@
    } else {
        ""@
    };
    let mime_type = media::file_type(
        match message.text_at("mimeType"@) {
            Some(mime_type) => mime_type,
            None => "application/octet-stream"@,
        },
    );
    let size = match message.u64_at("sizeBytes"@) {
        Some(size) => size,
        None => 0,
    };
    "User-provided file\nOriginal filename: "@ + name + note + "\nExtension: "@
        + media::shown_extension(name) + "\nMIME type: "@ + mime_type + "\nSize: "@ + text::digits(
        size as nat,
    ) + " bytes"@
}

/// What the model is told of a file in a group.
pub fn telegram_group_context_file_metadata(message: &Json) -> (description: String)
    ensures
        description@ == file_description(message@),
{
    let name = match message.text_at("fileName") {
        Some(name) => name,
        None => "telegram-file",
    };
    let synthesized = match message.text_at("fileNameSource") {
        Some(source) => *source == *"synthesized",
        None => false,
    };
    let note = if synthesized {
        " (synthesized because Telegram supplied no filename)"
    } else {
        ""
    };
    let mime_type = match message.text_at("mimeType") {
        Some(mime_type) => media::normalized_file_mime_type(mime_type),
        None => media::normalized_file_mime_type("application/octet-stream"),
    };
    let size: u64 = match message.u64_at("sizeBytes") {
        Some(size) => size,
        None => 0,
    };
    let mut description = "User-provided file\nOriginal filename: ".to_owned();
    description.append(name);
    description.append(note);
    description.append("\nExtension: ");
    description.append(media::file_name_extension(name).as_str());
    description.append("\nMIME type: ");
    description.append(mime_type.as_str());
    description.append("\nSize: ");
    description.append(text::decimal(size as u128).as_str());
    description.append(" bytes");
    description
}

/// The kind of a message.
pub open spec fn kind_of(message: JsonView) -> Seq<char> {
    match message.text_at("kind"@) {
        Some(kind) => kind,
        None => "text"@,
    }
}

fn find_kind(message: &Json) -> (kind: String)
    ensures
        kind@ == kind_of(message@),
{
    match message.text_at("kind") {
        Some(kind) => kind.to_owned(),
        None => "text".to_owned(),
    }
}

/// Whether a message of this kind carries a file.
pub open spec fn carries_file(kind: Seq<char>) -> bool {
    seq![
        "voice"@,
        "document"@,
        "photo"@,
        "video"@,
        "animation"@,
        "audio"@,
        "video_note"@,
        "sticker"@,
    ].contains(kind)
}

/// Whether a message says that its file is kept.
pub open spec fn keeps_file(message: JsonView) -> bool {
    message.bool_at("hasMedia"@) == Some(true)
}

/// Whether a message is the one that is left as it is.
pub open spec fn is_excluded(message: JsonView, excluded: Option<Seq<char>>) -> bool {
    excluded == Some(records::name_at(message, "messageId"@))
}

/// Whether the text of a message's document is still to be read.
pub open spec fn unread_document(message: JsonView, excluded: Option<Seq<char>>) -> bool {
    &&& !is_excluded(message, excluded)
    &&& message.bool_at("sentByKennedy"@) != Some(true)
    &&& kind_of(message) == "document"@
    &&& message.text_at("preparedText"@) is None
    &&& keeps_file(message)
}

/// What has to be done for a message before it can be told.
#[derive(Debug)]
pub struct MessageNeeds {
    pub number: i64,
    /// The text of its document is read.
    pub extract: bool,
    /// It is told with its file.
    pub describe: bool,
    /// Its file is kept.
    pub has_media: bool,
}

/// What has to be done for a message before it can be told.
pub fn message_needs(message: &Json, excluded: Option<&str>) -> (result: Result<
    MessageNeeds,
    Failure,
>)
    ensures
        match message@.i64_at("messageId"@) {
            None => result is Err && result->Err_0@
                == "Telegram group context message omitted its numeric message ID"@,
            Some(number) => {
                &&& result is Ok
                &&& result->Ok_0.number == number
                &&& result->Ok_0.extract == unread_document(message@, excluded.deep_view())
                &&& result->Ok_0.describe == (!is_excluded(message@, excluded.deep_view())
                    && carries_file(kind_of(message@)))
                &&& result->Ok_0.has_media == keeps_file(message@)
            },
        },
{
    let number = match message.i64_at("messageId") {
        None => return Err(
            Failure::fixed("Telegram group context message omitted its numeric message ID"),
        ),
        Some(number) => number,
    };
    let is_excluded = match excluded {
        Some(excluded) => *excluded == *records::member_name(message, "messageId").as_str(),
        None => false,
    };
    let kind = find_kind(message);
    let has_media = match message.bool_at("hasMedia") {
        Some(flag) => flag,
        None => false,
    };
    let by_kennedy = match message.bool_at("sentByKennedy") {
        Some(flag) => flag,
        None => false,
    };
    proof {
        assert(text::views(
            (&[
                "voice",
                "document",
                "photo",
                "video",
                "animation",
                "audio",
                "video_note",
                "sticker",
            ])@,
        ) =~= seq![
            "voice"@,
            "document"@,
            "photo"@,
            "video"@,
            "animation"@,
            "audio"@,
            "video_note"@,
            "sticker"@,
        ]);
    }
    let carries = text::listed(
        &["voice", "document", "photo", "video", "animation", "audio", "video_note", "sticker"],
        kind.as_str(),
    );
    Ok(
        MessageNeeds {
            number,
            extract: !is_excluded && !by_kennedy && *kind.as_str() == *"document"
                && message.text_at("preparedText").is_none() && has_media,
            describe: !is_excluded && carries,
            has_media,
        },
    )
}

/// What was read out of a group's document, or why it could not be.
#[derive(Debug)]
pub enum Preparation {
    Read { text: String, format: String, truncated: bool },
    Failed { message: String },
}

/// The text, the model, the format and whether it is cut, of a prepared document.
pub open spec fn prepared_parts(preparation: Preparation) -> (
    Seq<char>,
    Option<Seq<char>>,
    Option<Seq<char>>,
    bool,
) {
    match preparation {
        Preparation::Read { text, format, truncated } => (text@, None, Some(format@), truncated),
        Preparation::Failed { message } => (
            "Document extraction failed: "@ + message@,
            Some("preparation-error"@),
            None,
            false,
        ),
    }
}

/// What is kept of a prepared document.
#[derive(Debug)]
pub struct PreparedDocument {
    pub text: String,
    pub model: Option<String>,
    pub format: Option<String>,
    pub truncated: bool,
}

/// What is kept of a prepared document.
pub fn prepare_document(preparation: Preparation) -> (prepared: PreparedDocument)
    ensures
        (
            prepared.text@,
            prepared.model.deep_view(),
            prepared.format.deep_view(),
            prepared.truncated,
        ) == prepared_parts(preparation),
{
    match preparation {
        Preparation::Read { text, format, truncated } => PreparedDocument {
            text,
            model: None,
            format: Some(format),
            truncated,
        },
        Preparation::Failed { message } => {
            let mut words = "Document extraction failed: ".to_owned();
            words.append(message.as_str());
            PreparedDocument {
                text: words,
                model: Some("preparation-error".to_owned()),
                format: None,
                truncated: false,
            }
        },
    }
}

fn optional_value(value: &Option<String>) -> (result: Json)
    ensures
        result@ == match value.deep_view() {
            Some(found) => JsonView::Text(found),
            None => JsonView::Null,
        },
{
    match value {
        Some(found) => Json::text(found.as_str()),
        None => Json::Null,
    }
}

/// A message with what was read out of its document.
pub fn note_document(message: Json, prepared: &PreparedDocument) -> (noted: Json)
    requires
        turns::takes_members(message@),
    ensures
        noted@ == message@.with("preparedText"@, JsonView::Text(prepared.text@)).with(
            "preparationModel"@,
            match prepared.model {
                Some(model) => JsonView::Text(model@),
                None => JsonView::Null,
            },
        ).with(
            "documentFormat"@,
            match prepared.format {
                Some(format) => JsonView::Text(format@),
                None => JsonView::Null,
            },
        ).with("preparationTruncated"@, JsonView::Bool(prepared.truncated)),
{
    message.with("preparedText", Json::text(prepared.text.as_str())).with(
        "preparationModel",
        optional_value(&prepared.model),
    ).with("documentFormat", optional_value(&prepared.format)).with(
        "preparationTruncated",
        Json::Bool(prepared.truncated),
    )
}

/// The type of a message's file: the one that the message gives, and else the one that
/// the file came with.
pub open spec fn message_mime(message: JsonView, downloaded: Seq<char>) -> Seq<char> {
    media::file_type(
        match message.text_at("mimeType"@) {
            Some(mime) => mime,
            None => downloaded,
        },
    )
}

/// What is known of a message's file.
#[derive(Debug)]
pub struct FileFacts {
    pub size: u64,
    pub mime_type: String,
    /// The name under which the file is kept.
    pub file_name: String,
    /// Whether the message gave a name.
    pub named: bool,
}

/// The name that a message gives its file, the name that it gets otherwise, and its
/// type.
pub fn file_names(message: &Json, downloaded: &str) -> (names: (Option<String>, String, String))
    ensures
        names.0.deep_view() == groups::filled(message@, "fileName"@),
        names.2@ == message_mime(message@, downloaded@),
        names.1@ == synthesized_name(
            kind_of(message@),
            names.2@,
            records::name_at(message@, "messageId"@),
        ),
{
    let mime_type = match message.text_at("mimeType") {
        Some(mime) => media::normalized_file_mime_type(mime),
        None => media::normalized_file_mime_type(downloaded),
    };
    let supplied = match groups::filled_text(message, "fileName") {
        Some(name) => Some(name.to_owned()),
        None => None,
    };
    let message_id = records::member_name(message, "messageId");
    let fallback = telegram_group_context_file_name(
        find_kind(message).as_str(),
        mime_type.as_str(),
        message_id.as_str(),
    );
    (supplied, fallback, mime_type)
}

/// Where a file's name comes from.
pub open spec fn name_source(named: bool) -> Seq<char> {
    if named {
        "transport"@
    } else {
        "synthesized"@
    }
}

/// A message with its file.
pub open spec fn with_file(message: JsonView, chat: JsonView, facts: FileFacts) -> JsonView {
    let described = message.with("fileName"@, JsonView::Text(facts.file_name@)).with(
        "fileNameSource"@,
        JsonView::Text(name_source(facts.named)),
    ).with("mimeType"@, JsonView::Text(facts.mime_type@)).with(
        "sizeBytes"@,
        JsonView::Integer(facts.size as int),
    );
    let reference = JsonView::Object(Map::empty()).with("kind"@, JsonView::Text(kind_of(message))).with(
        "source"@,
        JsonView::Text("telegram-group"@),
    ).with("chatId"@, chat).with("messageId"@, launch::member(described, "messageId"@)).with(
        "fileName"@,
        JsonView::Text(facts.file_name@),
    ).with("fileNameSource"@, launch::member(described, "fileNameSource"@)).with(
        "mimeType"@,
        JsonView::Text(facts.mime_type@),
    ).with("sizeBytes"@, JsonView::Integer(facts.size as int)).with(
        "durationSeconds"@,
        launch::member(described, "durationSeconds"@),
    );
    described.with("mediaRef"@, reference)
}

/// The text of a message that carries a file, as it is told.
pub open spec fn told_text(message: JsonView, has_media: bool) -> Seq<char> {
    let base = match message.text_at("text"@) {
        Some(words) => words,
        None => ""@,
    };
    let prepared = match message.text_at("preparedText"@) {
        Some(words) => words,
        None => "Document text extraction unavailable."@,
    };
    let kind = kind_of(message);
    if !has_media {
        base + "\n\n[The Telegram "@ + kind + " file is unavailable.]"@
    } else if kind == "voice"@ {
        base + "\n\n"@ + file_description(message)
            + "\nThe voice note was not automatically transcribed."@
    } else if kind == "document"@ {
        base + "\n\n"@ + file_description(message) + "\n\n"@ + prepared
    } else {
        base + "\n\n"@ + file_description(message)
    }
}

/// A message that carries a file, as it is told.
pub open spec fn described(message: JsonView, chat: JsonView, facts: Option<FileFacts>) -> JsonView {
    match facts {
        Some(facts) => {
            let filed = with_file(message, chat, facts);
            filed.with("text"@, JsonView::Text(told_text(filed, true)))
        },
        None => message.with("text"@, JsonView::Text(told_text(message, false))),
    }
}

fn tell_text(message: &Json, has_media: bool) -> (told: String)
    ensures
        told@ == told_text(message@, has_media),
{
    let mut told = match message.text_at("text") {
        Some(words) => words.to_owned(),
        None => "".to_owned(),
    };
    let kind = find_kind(message);
    if !has_media {
        told.append("\n\n[The Telegram ");
        told.append(kind.as_str());
        told.append(" file is unavailable.]");
        return told;
    }
    told.append("\n\n");
    told.append(telegram_group_context_file_metadata(message).as_str());
    if *kind.as_str() == *"voice" {
        told.append("\nThe voice note was not automatically transcribed.");
    } else if *kind.as_str() == *"document" {
        let prepared = match message.text_at("preparedText") {
            Some(words) => words,
            None => "Document text extraction unavailable.",
        };
        told.append("\n\n");
        told.append(prepared);
    }
    told
}

/// A message that carries a file, as it is told: with its file where that is kept, and
/// with a reference under which it can be asked for.
pub fn describe_message(message: Json, chat: &Json, facts: Option<FileFacts>) -> (told: Json)
    requires
        turns::takes_members(message@),
    ensures
        told@ == described(message@, chat@, facts),
{
    let kind = find_kind(&message);
    let (filed, has_media) = match facts {
        Some(facts) => {
            let source = if facts.named {
                "transport"
            } else {
                "synthesized"
            };
            let described = message.with("fileName", Json::text(facts.file_name.as_str())).with(
                "fileNameSource",
                Json::text(source),
            ).with("mimeType", Json::text(facts.mime_type.as_str())).with(
                "sizeBytes",
                Json::unsigned(facts.size),
            );
            let reference = Json::object().with("kind", Json::text(kind.as_str())).with(
                "source",
                Json::text("telegram-group"),
            ).with("chatId", chat.clone()).with(
                "messageId",
                launch::member_of(&described, "messageId"),
            ).with("fileName", Json::text(facts.file_name.as_str())).with(
                "fileNameSource",
                launch::member_of(&described, "fileNameSource"),
            ).with("mimeType", Json::text(facts.mime_type.as_str())).with(
                "sizeBytes",
                Json::unsigned(facts.size),
            ).with("durationSeconds", launch::member_of(&described, "durationSeconds"));
            (described.with("mediaRef", reference), true)
        },
        None => (message, false),
    };
    let words = tell_text(&filed, has_media);
    filed.with("text", Json::text(words.as_str()))
}

/// A file that a group's message is told with can be asked for under that message: its
/// reference names the group's chat and the message itself.
pub proof fn told_files_can_be_asked_for(
    message: JsonView,
    chat: JsonView,
    facts: FileFacts,
    chat_id: i64,
    number: i64,
)
    requires
        message.i64_at("messageId"@) == Some(number),
        chat == JsonView::Integer(chat_id as int),
    ensures
        ({
            let reference = described(message, chat, Some(facts)).get("mediaRef"@);
            &&& reference is Some
            &&& reference->0 is Object
            &&& reference->0.text_at("source"@) == Some("telegram-group"@)
            &&& reference->0.i64_at("chatId"@) == Some(chat_id)
            &&& reference->0.i64_at("messageId"@) == Some(number)
        }),
{
    reveal_strlit("text");
    reveal_strlit("mediaRef");
    reveal_strlit("kind");
    reveal_strlit("source");
    reveal_strlit("chatId");
    reveal_strlit("messageId");
    reveal_strlit("fileName");
    reveal_strlit("fileNameSource");
    reveal_strlit("mimeType");
    reveal_strlit("sizeBytes");
    reveal_strlit("durationSeconds");
    assert("text"@.len() == 4);
    assert("mediaRef"@.len() == 8 && "mediaRef"@[1] == 'e');
    assert("kind"@.len() == 4);
    assert("source"@.len() == 6 && "source"@[0] == 's');
    assert("chatId"@.len() == 6 && "chatId"@[0] == 'c');
    assert("messageId"@.len() == 9 && "messageId"@[0] == 'm');
    assert("fileName"@.len() == 8 && "fileName"@[0] == 'f');
    assert("fileNameSource"@.len() == 14);
    assert("mimeType"@.len() == 8 && "mimeType"@[1] == 'i');
    assert("sizeBytes"@.len() == 9 && "sizeBytes"@[0] == 's');
    assert("durationSeconds"@.len() == 15);
}

/// The number of the chat that a group's context is of.
pub fn context_chat(context: &Json) -> (result: Result<i64, Failure>)
    ensures
        match result {
            Ok(chat) => context@.i64_at("chatId"@) == Some(chat),
            Err(failure) => context@.i64_at("chatId"@) is None && failure@
                == "Telegram group context omitted its numeric chat ID"@,
        },
{
    match context.i64_at("chatId") {
        Some(chat) => Ok(chat),
        None => Err(Failure::fixed("Telegram group context omitted its numeric chat ID")),
    }
}

/// What the directory knows of a user or a group.
#[derive(Debug)]
pub struct DirectoryEntry {
    pub root: Option<String>,
    pub ready: bool,
}

/// An optional root as a document.
pub open spec fn root_value(entry: DirectoryEntry) -> JsonView {
    match entry.root {
        Some(root) => JsonView::Text(root@),
        None => JsonView::Null,
    }
}

/// A participant with their root.
pub open spec fn rooted(participant: JsonView, entry: DirectoryEntry) -> JsonView {
    participant.with("rootNodeId"@, root_value(entry)).with(
        "rootReady"@,
        JsonView::Bool(entry.ready),
    )
}

/// The participants with their roots.
pub open spec fn all_rooted(participants: Seq<JsonView>, entries: Seq<DirectoryEntry>) -> Seq<
    JsonView,
> {
    Seq::new(participants.len(), |i: int| rooted(participants[i], entries[i]))
}

/// A group's context with its messages as they are told, with its root, and with the
/// roots of its participants.
pub fn decorate_group_context(
    context: Json,
    messages: Vec<Json>,
    group_id: &str,
    group: &DirectoryEntry,
    participants: &Vec<Json>,
    entries: &Vec<DirectoryEntry>,
) -> (decorated: Json)
    requires
        turns::takes_members(context@),
        participants.len() == entries.len(),
        forall|i: int| 0 <= i < participants.len() ==> turns::takes_members(
            json::value_of(#[trigger] participants@[i]),
        ),
    ensures
        decorated@ == context@.with(
            "messages"@,
            JsonView::Array(json::values_of(messages@)),
        ).with("groupId"@, JsonView::Text(group_id@)).with(
            "groupRootNodeId"@,
            root_value(*group),
        ).with("groupRootReady"@, JsonView::Bool(group.ready)).with(
            "participants"@,
            JsonView::Array(all_rooted(json::values_of(participants@), entries@)),
        ),
{
    let mut all: Vec<Json> = Vec::new();
    proof {
        json::values_at(participants@);
    }
    let mut i: usize = 0;
    while i < participants.len()
        invariant
            i <= participants.len(),
            all.len() == i,
            participants.len() == entries.len(),
            forall|j: int| 0 <= j < participants.len() ==> turns::takes_members(
                json::value_of(#[trigger] participants@[j]),
            ),
            forall|j: int|
                0 <= j < i ==> json::value_of(#[trigger] all@[j]) == rooted(
                    json::value_of(participants@[j]),
                    entries@[j],
                ),
        decreases participants.len() - i,
    {
        let entry = &entries[i];
        all.push(
            participants[i].clone().with("rootNodeId", optional_value(&entry.root)).with(
                "rootReady",
                Json::Bool(entry.ready),
            ),
        );
        i = i + 1;
    }
    proof {
        json::values_at(all@);
        assert(json::values_of(all@) =~= all_rooted(json::values_of(participants@), entries@));
    }
    context.with("messages", Json::array(messages)).with("groupId", Json::text(group_id)).with(
        "groupRootNodeId",
        optional_value(&group.root),
    ).with("groupRootReady", Json::Bool(group.ready)).with("participants", Json::array(all))
}

/// A member, or else another value.
pub open spec fn given_or(value: JsonView, key: Seq<char>, otherwise: JsonView) -> JsonView {
    match value.get(key) {
        Some(inner) => inner,
        None => otherwise,
    }
}

fn take_or(value: &Json, key: &str, otherwise: Json) -> (inner: Json)
    ensures
        inner@ == given_or(value@, key@, otherwise@),
{
    match value.get(key) {
        Some(inner) => inner.clone(),
        None => otherwise,
    }
}

/// The context that a batch of a group's messages brings.
pub fn batch_context(batch: &Json) -> (context: Json)
    ensures
        context@ == JsonView::Object(Map::empty()).with(
            "groupTitle"@,
            given_or(batch@, "groupTitle"@, JsonView::Text("Telegram group"@)),
        ).with("chatId"@, launch::member(batch@, "chatId"@)).with(
            "participants"@,
            given_or(batch@, "participants"@, JsonView::Array(Seq::empty())),
        ).with("messages"@, given_or(batch@, "messages"@, JsonView::Array(Seq::empty()))),
{
    let none: Vec<Json> = Vec::new();
    proof {
        json::values_at(none@);
        assert(json::values_of(none@) =~= Seq::empty());
    }
    Json::object().with(
        "groupTitle",
        take_or(batch, "groupTitle", Json::text("Telegram group")),
    ).with("chatId", launch::member_of(batch, "chatId")).with(
        "participants",
        take_or(batch, "participants", Json::array(Vec::new())),
    ).with("messages", take_or(batch, "messages", Json::array(Vec::new())))
}

/// Sets up the session that takes in a batch of a group's messages.
pub fn batch_setup(
    batch: &Json,
    id: &str,
    group_id: &str,
    group_root: &str,
    kennedy_root: &str,
    context: &Json,
) -> (options: SessionOptions)
    ensures
        options.session_type@ == "telegram-group"@,
        options.root_node_ids.deep_view() == seq![group_root@, kennedy_root@],
        crate::order::ascending(options.reference_root_node_ids.deep_view()),
        crate::order::same_items(
            options.reference_root_node_ids.deep_view(),
            text::excluding(
                records::participant_roots(context@),
                options.root_node_ids.deep_view(),
            ),
        ),
        options.channel@ == JsonView::Object(Map::empty()).with(
            "kind"@,
            JsonView::Text("telegram-group"@),
        ).with("chatId"@, launch::member(batch@, "chatId"@)).with(
            "groupId"@,
            JsonView::Text(group_id@),
        ).with("groupRootNodeId"@, JsonView::Text(group_root@)).with(
            "groupIngressBatchId"@,
            JsonView::Text(id@),
        ).with("backgroundIngress"@, JsonView::Bool(true)).with("groupContext"@, context@),
        options.source_session_type.deep_view() == Some("telegram-group"@),
        options.mode is Conversation,
        options.orchestration@ == commands::owned("idle"@),
        options.free_time@ is Null,
        options.provenance_id is None,
        options.group_context@ is Null,
        options.rust_lib_session_id is None,
{
    let mut roots: Vec<String> = Vec::new();
    roots.push(group_root.to_owned());
    roots.push(kennedy_root.to_owned());
    assert(roots.deep_view() =~= seq![group_root@, kennedy_root@]);
    let references = records::participant_references(context, &roots);
    let mut options = SessionOptions::conversation("telegram-group", roots);
    options.channel = Json::object().with("kind", Json::text("telegram-group")).with(
        "chatId",
        launch::member_of(batch, "chatId"),
    ).with("groupId", Json::text(group_id)).with("groupRootNodeId", Json::text(group_root)).with(
        "groupIngressBatchId",
        Json::text(id),
    ).with("backgroundIngress", Json::Bool(true)).with("groupContext", context.clone());
    options.reference_root_node_ids = references;
    options.source_session_type = Some("telegram-group".to_owned());
    options
}

/// What is done with a batch that a session already takes in, by the phase of that
/// session.
#[derive(Clone, Copy, Debug, PartialEq, Eq)]
pub enum BatchStep {
    /// The batch is complete.
    Complete,
    /// The session is queued for the history.
    Queue,
    /// The session goes on by itself.
    Wait,
}

/// What is done with a batch that a session already takes in.
pub fn batch_step(phase: &str) -> (step: BatchStep)
    ensures
        step == if phase@ == "complete"@ {
            BatchStep::Complete
        } else if phase@ == "active"@ {
            BatchStep::Queue
        } else {
            BatchStep::Wait
        },
{
    if *phase == *"complete" {
        BatchStep::Complete
    } else if *phase == *"active" {
        BatchStep::Queue
    } else {
        BatchStep::Wait
    }
}

/// What is done for an update of a group, by its session.
#[derive(Clone, Copy, Debug, PartialEq, Eq)]
pub enum UpdateStep {
    /// The session is closed already; a reset that the update asks for is complete.
    Closed { reset: bool },
    /// The session has a turn to run first.
    Wait,
    /// The session takes in the update, and is closed where the update asks for a
    /// reset.
    TakeIn { reset: bool },
}

/// What is done for an update of a group.
pub fn update_step(phase: &str, pending_turn: bool, update: &Json) -> (step: UpdateStep)
    ensures
        ({
            let reset = update@.bool_at("resetRequired"@) == Some(true);
            step == if phase@ != "active"@ {
                UpdateStep::Closed { reset }
            } else if pending_turn {
                UpdateStep::Wait
            } else {
                UpdateStep::TakeIn { reset }
            }
        }),
{
    let reset = match update.bool_at("resetRequired") {
        Some(flag) => flag,
        None => false,
    };
    if *phase != *"active" {
        UpdateStep::Closed { reset }
    } else if pending_turn {
        UpdateStep::Wait
    } else {
        UpdateStep::TakeIn { reset }
    }
}

/// Up to which message an update has been taken in.
pub fn acknowledged_message(update: &Json) -> (number: i64)
    ensures
        number == match update@.i64_at("throughMessageId"@) {
            Some(number) => number,
            None => 0,
        },
{
    match update.i64_at("throughMessageId") {
        Some(number) => number,
        None => 0,
    }
}

/// A document of the group is read where it was not read yet, its file is kept, and it is
/// neither Kennedy's own nor the message that is being answered.
pub proof fn documents_are_read_once(message: JsonView, excluded: Option<Seq<char>>)
    ensures
        unread_document(message, excluded) <==> {
            &&& excluded is None || excluded->0 != records::name_at(message, "messageId"@)
            &&& message.bool_at("sentByKennedy"@) != Some(true)
            &&& message.text_at("kind"@) == Some("document"@)
            &&& message.text_at("preparedText"@) is None
            &&& message.bool_at("hasMedia"@) == Some(true)
        },
{
    reveal_strlit("text");
    reveal_strlit("document");
    assert("text"@.len() == 4 && "document"@.len() == 8);
}

/// The kinds of messages that carry a file.
pub proof fn file_kinds_carry_files(kind: Seq<char>)
    ensures
        carries_file(kind) <==> kind == "voice"@ || kind == "document"@ || kind == "photo"@ || kind
            == "video"@ || kind == "animation"@ || kind == "audio"@ || kind == "video_note"@ || kind
            == "sticker"@,
{
    let kinds = seq![
        "voice"@,
        "document"@,
        "photo"@,
        "video"@,
        "animation"@,
        "audio"@,
        "video_note"@,
        "sticker"@,
    ];
    assert(kinds[0] == "voice"@ && kinds[1] == "document"@ && kinds[2] == "photo"@ && kinds[3]
        == "video"@);
    assert(kinds[4] == "animation"@ && kinds[5] == "audio"@ && kinds[6] == "video_note"@ && kinds[7]
        == "sticker"@);
    if kinds.contains(kind) {
        let k = kinds.index_of(kind);
        assert(kinds[k] == kind);
    }
}

/// A message with a file is told with the words that it came with, then with its file, and
/// a document with what was read of it; a file that is not kept is said to be unavailable.
pub proof fn files_are_told_behind_the_words(message: JsonView, has_media: bool)
    ensures
        ({
            let told = told_text(message, has_media);
            let words = message.text_at("text"@);
            let read = message.text_at("preparedText"@);
            &&& words is Some ==> text::begins(told, words->0)
            &&& !has_media ==> text::ends(told, " file is unavailable.]"@)
            &&& has_media && message.text_at("kind"@) == Some("voice"@) ==> text::ends(
                told,
                "\nThe voice note was not automatically transcribed."@,
            )
            &&& has_media && message.text_at("kind"@) == Some("document"@) && read is Some
                ==> text::ends(told, read->0)
            &&& has_media && message.text_at("kind"@) == Some("photo"@) ==> text::ends(
                told,
                file_description(message),
            )
        }),
{
    reveal_strlit("voice");
    reveal_strlit("document");
    reveal_strlit("photo");
    assert("voice"@.len() == 5 && "document"@.len() == 8 && "photo"@.len() == 5);
    assert("voice"@[0] == 'v' && "photo"@[0] == 'p');
    let told = told_text(message, has_media);
    let base = match message.text_at("text"@) {
        Some(words) => words,
        None => ""@,
    };
    let prepared = match message.text_at("preparedText"@) {
        Some(words) => words,
        None => "Document text extraction unavailable."@,
    };
    let file = file_description(message);
    let note = "\nThe voice note was not automatically transcribed."@;
    let missing = " file is unavailable.]"@;
    assert(told.subrange(0, base.len() as int) =~= base);
    if !has_media {
        assert(told.subrange(told.len() - missing.len(), told.len() as int) =~= missing);
    } else if kind_of(message) == "voice"@ {
        assert(told.subrange(told.len() - note.len(), told.len() as int) =~= note);
    } else if kind_of(message) == "document"@ {
        assert(told.subrange(told.len() - prepared.len(), told.len() as int) =~= prepared);
    } else {
        assert(told.subrange(told.len() - file.len(), told.len() as int) =~= file);
    }
}

/// A message whose file is known carries the file's name, its type and its size, says
/// whether the name was made up, and keeps all the rest.
pub proof fn files_are_noted_in_their_message(
    message: JsonView,
    chat: JsonView,
    facts: FileFacts,
    key: Seq<char>,
)
    requires
        message is Object,
    ensures
        ({
            let noted = with_file(message, chat, facts);
            &&& noted.text_at("fileName"@) == Some(facts.file_name@)
            &&& noted.text_at("mimeType"@) == Some(facts.mime_type@)
            &&& noted.u64_at("sizeBytes"@) == Some(facts.size)
            &&& facts.named ==> noted.text_at("fileNameSource"@) == Some("transport"@)
            &&& !facts.named ==> noted.text_at("fileNameSource"@) == Some("synthesized"@)
            &&& key != "fileName"@ && key != "mimeType"@ && key != "sizeBytes"@ && key
                != "fileNameSource"@ && key != "mediaRef"@ ==> noted.get(key) == message.get(key)
        }),
{
    reveal_strlit("fileName");
    reveal_strlit("mimeType");
    reveal_strlit("sizeBytes");
    reveal_strlit("fileNameSource");
    reveal_strlit("mediaRef");
    assert("fileName"@.len() == 8 && "mimeType"@.len() == 8 && "mediaRef"@.len() == 8);
    assert("fileName"@[0] == 'f' && "mimeType"@[1] == 'i' && "mediaRef"@[1] == 'e');
    assert("mimeType"@[0] == 'm' && "mediaRef"@[0] == 'm');
    assert("sizeBytes"@.len() == 9 && "fileNameSource"@.len() == 14);
}

/// What was read of a document is noted with its format, and what could not be read with
/// the reason.
pub proof fn readings_are_noted(preparation: Preparation)
    ensures
        match prepared_parts(preparation) {
            (words, model, format, truncated) => {
                &&& preparation is Read ==> words == preparation->text@ && format == Some(
                    preparation->format@,
                ) && truncated == preparation->truncated && model is None
                &&& preparation is Failed ==> text::ends(words, preparation->message@) && model
                    == Some("preparation-error"@) && format is None && !truncated
            },
        },
{
    match preparation {
        Preparation::Failed { message } => {
            let words = "Document extraction failed: "@ + message@;
            assert(words.subrange(words.len() - message@.len(), words.len() as int) =~= message@);
        },
        _ => {},
    }
}

/// A participant is given the root of the directory, and whether it is ready.
pub proof fn participants_get_their_root(participant: JsonView, entry: DirectoryEntry)
    ensures
        entry.root is Some ==> rooted(participant, entry).text_at("rootNodeId"@) == Some(
            entry.root->0@,
        ),
        entry.root is None ==> rooted(participant, entry).get("rootNodeId"@) == Some(
            JsonView::Null,
        ),
        rooted(participant, entry).bool_at("rootReady"@) == Some(entry.ready),
{
    reveal_strlit("rootNodeId");
    reveal_strlit("rootReady");
    assert("rootNodeId"@.len() == 10 && "rootReady"@.len() == 9);
}

/// A file that came without a name is named after its kind, its message and its type; its
/// type is what its message says, or else what was downloaded.
pub proof fn unnamed_files_are_named_by_their_message(
    kind: Seq<char>,
    mime_type: Seq<char>,
    message_id: Seq<char>,
    message: JsonView,
    downloaded: Seq<char>,
)
    ensures
        text::begins(
            synthesized_name(kind, mime_type, message_id),
            "telegram-group-"@ + kind + "-"@ + message_id + "."@,
        ),
        media::file_type(mime_type) == "application/pdf"@ ==> synthesized_name(
            kind,
            mime_type,
            message_id,
        ) == "telegram-group-"@ + kind + "-"@ + message_id + "."@ + "pdf"@,
        message.text_at("mimeType"@) is Some ==> message_mime(message, downloaded)
            == media::file_type(message.text_at("mimeType"@)->0),
        message.text_at("mimeType"@) is None ==> message_mime(message, downloaded)
            == media::file_type(downloaded),
        name_source(true) == "transport"@,
        name_source(false) == "synthesized"@,
{
    let start = "telegram-group-"@ + kind + "-"@ + message_id + "."@;
    assert(synthesized_name(kind, mime_type, message_id).subrange(0, start.len() as int) =~= start);
    media::extensions_follow_their_type();
}

/// A group's file is described by its name, and whether that was made for it, and by its
/// type and its size at the end.
pub proof fn group_files_are_described(message: JsonView, name: Seq<char>, mime: Seq<char>, size: u64)
    requires
        message.text_at("fileName"@) == Some(name),
        message.text_at("mimeType"@) == Some(mime),
        message.u64_at("sizeBytes"@) == Some(size),
    ensures
        message.text_at("fileNameSource"@) == Some("synthesized"@) ==> text::begins(
            file_description(message),
            "User-provided file\nOriginal filename: "@ + name
                + " (synthesized because Telegram supplied no filename)"@ + "\nExtension: "@,
        ),
        message.text_at("fileNameSource"@) != Some("synthesized"@) ==> text::begins(
            file_description(message),
            "User-provided file\nOriginal filename: "@ + name + "\nExtension: "@
                + media::shown_extension(name),
        ),
        text::ends(
            file_description(message),
            "\nMIME type: "@ + media::file_type(mime) + "\nSize: "@ + text::digits(size as nat)
                + " bytes"@,
        ),
{
    reveal_strlit("");
    let whole = file_description(message);
    let made = "User-provided file\nOriginal filename: "@ + name
        + " (synthesized because Telegram supplied no filename)"@ + "\nExtension: "@;
    let given = "User-provided file\nOriginal filename: "@ + name + "\nExtension: "@
        + media::shown_extension(name);
    let end = "\nMIME type: "@ + media::file_type(mime) + "\nSize: "@ + text::digits(size as nat)
        + " bytes"@;
    if message.text_at("fileNameSource"@) == Some("synthesized"@) {
        assert(whole.subrange(0, made.len() as int) =~= made);
    } else {
        assert(whole.subrange(0, given.len() as int) =~= given);
    }
    assert(whole.subrange(whole.len() - end.len(), whole.len() as int) =~= end);
}

} // verus!
