//! The services around the orchestrator: what they are sent, and how their failures are
//! answered.

use crate::delivery;
use crate::delivery::ResolvedObject;
use crate::json::{Json, JsonView};
use crate::media;
use crate::text;
use vstd::prelude::*;

verus! {

/// A service's failure: the status of its answer where there was one, a code and a message.
#[derive(Debug, PartialEq, Eq)]
pub struct ApiError {
    pub status: Option<u16>,
    pub code: String,
    pub message: String,
}

/// The mathematical value of a failure: its status, its code and its message.
pub type ApiView = (Option<u16>, Seq<char>, Seq<char>);

impl View for ApiError {
    type V = (Option<u16>, Seq<char>, Seq<char>);

    open spec fn view(&self) -> (Option<u16>, Seq<char>, Seq<char>) {
        (self.status, self.code@, self.message@)
    }
}

impl ApiError {
    /// A failure with this status, code and message.
    pub fn new(status: Option<u16>, code: &str, message: &str) -> (error: ApiError)
        ensures
            error@ == (status, code@, message@),
    {
        ApiError { status, code: code.to_owned(), message: message.to_owned() }
    }
}

/// What kind of failure the graph's store reports.
#[derive(Clone, Copy, Debug, PartialEq, Eq)]
pub enum KmapErrorKind {
    InvalidInput,
    NotFound,
    Conflict,
    Other,
}

/// The failure of the graph's store; what is unexpected is not told.
pub fn kmap_error(kind: KmapErrorKind, message: &str) -> (error: ApiError)
    ensures
        error@ == match kind {
            KmapErrorKind::InvalidInput => (Some(400u16), "invalid_request"@, message@),
            KmapErrorKind::NotFound => (Some(404u16), "not_found"@, message@),
            KmapErrorKind::Conflict => (Some(409u16), "conflict"@, message@),
            KmapErrorKind::Other => (
                Some(500u16),
                "internal_error"@,
                "An unexpected Kmap database error occurred."@,
            ),
        },
{
    match kind {
        KmapErrorKind::InvalidInput => ApiError::new(Some(400), "invalid_request", message),
        KmapErrorKind::NotFound => ApiError::new(Some(404), "not_found", message),
        KmapErrorKind::Conflict => ApiError::new(Some(409), "conflict", message),
        KmapErrorKind::Other => ApiError::new(
            Some(500),
            "internal_error",
            "An unexpected Kmap database error occurred.",
        ),
    }
}

/// What kind of failure the models report.
#[derive(Clone, Copy, Debug, PartialEq, Eq)]
pub enum IntelligenceErrorKind {
    InvalidInput,
    Unavailable,
    Conflict,
    Cancelled,
    Provider,
    Internal,
}

/// The failure of a model, with the code and the message that it was reported with.
pub fn intelligence_error(kind: IntelligenceErrorKind, code: &str, message: &str) -> (error:
    ApiError)
    ensures
        error@ == (
            Some(
                match kind {
                    IntelligenceErrorKind::InvalidInput => 400u16,
                    IntelligenceErrorKind::Unavailable => 503u16,
                    IntelligenceErrorKind::Conflict => 409u16,
                    IntelligenceErrorKind::Cancelled => 409u16,
                    IntelligenceErrorKind::Provider => 502u16,
                    IntelligenceErrorKind::Internal => 500u16,
                },
            ),
            code@,
            message@,
        ),
{
    let status: u16 = match kind {
        IntelligenceErrorKind::InvalidInput => 400,
        IntelligenceErrorKind::Unavailable => 503,
        IntelligenceErrorKind::Conflict => 409,
        IntelligenceErrorKind::Cancelled => 409,
        IntelligenceErrorKind::Provider => 502,
        IntelligenceErrorKind::Internal => 500,
    };
    ApiError::new(Some(status), code, message)
}

/// What kind of failure a store of records reports.
#[derive(Clone, Copy, Debug, PartialEq, Eq)]
pub enum StoreErrorKind {
    InvalidInput,
    NotFound,
    Conflict,
    Storage,
}

/// The status that a store's failure is answered with.
pub open spec fn store_status(kind: StoreErrorKind) -> u16 {
    match kind {
        StoreErrorKind::InvalidInput => 400,
        StoreErrorKind::NotFound => 404,
        StoreErrorKind::Conflict => 409,
        StoreErrorKind::Storage => 500,
    }
}

/// The code of a store's failure.
pub open spec fn store_code(kind: StoreErrorKind) -> Seq<char> {
    match kind {
        StoreErrorKind::InvalidInput => "invalid_request"@,
        StoreErrorKind::NotFound => "not_found"@,
        StoreErrorKind::Conflict => "state_conflict"@,
        StoreErrorKind::Storage => "internal_error"@,
    }
}

/// The status that a failure of the session history is answered with.
pub fn history_status(kind: StoreErrorKind) -> (status: u16)
    ensures
        status == store_status(kind),
{
    match kind {
        StoreErrorKind::InvalidInput => 400,
        StoreErrorKind::NotFound => 404,
        StoreErrorKind::Conflict => 409,
        StoreErrorKind::Storage => 500,
    }
}

fn code_of(kind: StoreErrorKind) -> (code: &'static str)
    ensures
        code@ == store_code(kind),
{
    match kind {
        StoreErrorKind::InvalidInput => "invalid_request",
        StoreErrorKind::NotFound => "not_found",
        StoreErrorKind::Conflict => "state_conflict",
        StoreErrorKind::Storage => "internal_error",
    }
}

/// The failure of the session history.
pub fn history_error(kind: StoreErrorKind, message: &str) -> (error: ApiError)
    ensures
        error@ == (Some(store_status(kind)), store_code(kind), message@),
{
    ApiError::new(Some(history_status(kind)), code_of(kind), message)
}

/// The failure of the directory of users and groups.
pub fn directory_error(kind: StoreErrorKind, message: &str) -> (error: ApiError)
    ensures
        error@ == (Some(store_status(kind)), store_code(kind), message@),
{
    ApiError::new(Some(history_status(kind)), code_of(kind), message)
}

/// The failure of the audio service; what is unexpected is not told.
pub fn audio_error(kind: StoreErrorKind, message: &str) -> (error: ApiError)
    ensures
        error@ == (
            Some(store_status(kind)),
            store_code(kind),
            if kind is Storage {
                "An unexpected Kennedy audio error occurred."@
            } else {
                message@
            },
        ),
{
    let told = match kind {
        StoreErrorKind::Storage => "An unexpected Kennedy audio error occurred.",
        _ => message,
    };
    ApiError::new(Some(history_status(kind)), code_of(kind), told)
}

/// Why a tool of the speech classifier failed.
#[derive(Clone, Copy, Debug, PartialEq, Eq)]
pub enum SpeechFailure {
    /// The call was not understood.
    Call,
    Validation,
    Conflict,
    UnsupportedSchema,
    Storage,
    CorruptStorage,
}

/// Whether a failure is the classifier's own, which is not told.
pub open spec fn hidden_failure(failure: SpeechFailure) -> bool {
    failure is UnsupportedSchema || failure is Storage || failure is CorruptStorage
}

/// The failure of a tool of the speech classifier.
pub fn speech_ktool_error(failure: SpeechFailure, message: &str) -> (error: ApiError)
    ensures
        error@ == if hidden_failure(failure) {
            (
                None::<u16>,
                "internal_error"@,
                "An unexpected Kennedy speaker-classification error occurred."@,
            )
        } else if failure is Conflict {
            (None::<u16>, "state_conflict"@, message@)
        } else {
            (None::<u16>, "invalid_request"@, message@)
        },
{
    match failure {
        SpeechFailure::Call => ApiError::new(None, "invalid_request", message),
        SpeechFailure::Validation => ApiError::new(None, "invalid_request", message),
        SpeechFailure::Conflict => ApiError::new(None, "state_conflict", message),
        _ => speech_task_error(),
    }
}

/// The failure of a task of the speech classifier that stopped unexpectedly.
pub fn speech_task_error() -> (error: ApiError)
    ensures
        error@ == (
            None::<u16>,
            "internal_error"@,
            "An unexpected Kennedy speaker-classification error occurred."@,
        ),
{
    ApiError::new(
        None,
        "internal_error",
        "An unexpected Kennedy speaker-classification error occurred.",
    )
}

/// A request that was not understood.
pub fn local_api_error(message: &str) -> (error: ApiError)
    ensures
        error@ == (None::<u16>, "invalid_request"@, message@),
{
    ApiError::new(None, "invalid_request", message)
}

/// A service that was not reached.
pub fn network_error(base: &str) -> (error: ApiError)
    ensures
        error@ == (None::<u16>, "network_error"@, "Could not reach "@ + base@ + "."@),
{
    let mut message = "Could not reach ".to_owned();
    message.append(base);
    message.append(".");
    ApiError::new(None, "network_error", message.as_str())
}

/// The failure that a service answered with: `error.code` and `error.message` of its
/// answer, where they are there.
pub open spec fn remote_failure(
    status: u16,
    status_text: Seq<char>,
    payload: JsonView,
) -> ApiView {
    let remote = match payload.get("error"@) {
        Some(error) => error,
        None => JsonView::Null,
    };
    (
        Some(status),
        match remote.text_at("code"@) {
            Some(code) => code,
            None => "request_failed"@,
        },
        match remote.text_at("message"@) {
            Some(message) => message,
            None => "Request failed ("@ + status_text + ")."@,
        },
    )
}

/// The failure that a service answered with.
pub fn decode_error(status: u16, status_text: &str, payload: &Json) -> (error: ApiError)
    ensures
        error@ == remote_failure(status, status_text@, payload@),
{
    let missing = Json::Null;
    let remote = match payload.get("error") {
        Some(error) => error,
        None => &missing,
    };
    let code = match remote.text_at("code") {
        Some(code) => code,
        None => "request_failed",
    };
    match remote.text_at("message") {
        Some(message) => ApiError::new(Some(status), code, message),
        None => {
            let mut message = "Request failed (".to_owned();
            message.append(status_text);
            message.append(").");
            ApiError::new(Some(status), code, message.as_str())
        },
    }
}

/// Whether an answer with this status is a success.
pub open spec fn succeeded(status: u16) -> bool {
    200 <= status < 300
}

/// What a service answered.
#[derive(Debug)]
pub enum Answer {
    /// Nothing.
    Empty,
    /// A document.
    Document(Json),
    /// Something that is not a document, for this reason.
    Unreadable(String),
}

/// The mathematical value of an answer.
pub enum AnswerView {
    Empty,
    Document(JsonView),
    Unreadable(Seq<char>),
}

impl View for Answer {
    type V = AnswerView;

    open spec fn view(&self) -> AnswerView {
        match *self {
            Answer::Empty => AnswerView::Empty,
            Answer::Document(document) => AnswerView::Document(document@),
            Answer::Unreadable(reason) => AnswerView::Unreadable(reason@),
        }
    }
}

/// What is made of a service's answer: nothing stands for `null`, and what is not a
/// document is a failure. A failed answer that holds no document tells nothing more.
pub open spec fn decoded(
    status: u16,
    status_text: Seq<char>,
    answer: AnswerView,
) -> Result<JsonView, ApiView> {
    if succeeded(status) {
        match answer {
            AnswerView::Empty => Ok(JsonView::Null),
            AnswerView::Document(document) => Ok(document),
            AnswerView::Unreadable(reason) => Err(
                (
                    Some(status),
                    "invalid_response"@,
                    "Backend returned invalid JSON: "@ + reason,
                ),
            ),
        }
    } else {
        match answer {
            AnswerView::Document(document) => Err(remote_failure(status, status_text, document)),
            _ => Err(remote_failure(status, status_text, JsonView::Null)),
        }
    }
}

/// What is made of a service's answer.
pub fn decode_response(status: u16, status_text: &str, answer: Answer) -> (result: Result<
    Json,
    ApiError,
>)
    ensures
        match result {
            Ok(document) => decoded(status, status_text@, answer@) == Ok::<JsonView, ApiView>(
                document@,
            ),
            Err(error) => decoded(status, status_text@, answer@) == Err::<JsonView, ApiView>(
                error@,
            ),
        },
{
    if 200 <= status && status < 300 {
        match answer {
            Answer::Empty => Ok(Json::Null),
            Answer::Document(document) => Ok(document),
            Answer::Unreadable(reason) => {
                let mut message = "Backend returned invalid JSON: ".to_owned();
                message.append(reason.as_str());
                Err(ApiError::new(Some(status), "invalid_response", message.as_str()))
            },
        }
    } else {
        match answer {
            Answer::Document(document) => Err(decode_error(status, status_text, &document)),
            _ => Err(decode_error(status, status_text, &Json::Null)),
        }
    }
}

/// The name and the descriptions of a root that is provisioned for a user, for a group or
/// under another name.
pub fn bootstrap_root_metadata<'a>(short_name: Option<&'a str>) -> (metadata: (
    &'a str,
    &'static str,
    &'static str,
))
    ensures
        match short_name {
            None => metadata.0@ == "User Root"@ && metadata.1@
                == "The root of this Telegram user's Kmap knowledge."@ && metadata.2@
                == "This root anchors durable knowledge associated with this Telegram user."@,
            Some(name) => metadata.0@ == name@ && if name@ == "Group Root"@ {
                metadata.1@ == "The root of this Telegram group's shared Kmap knowledge."@
                    && metadata.2@
                    == "This root anchors durable knowledge shared in this Telegram group."@
            } else {
                metadata.1@ == "An automatically provisioned Kmap root."@ && metadata.2@
                    == "This root anchors durable Kmap knowledge."@
            },
        },
{
    match short_name {
        None => (
            "User Root",
            "The root of this Telegram user's Kmap knowledge.",
            "This root anchors durable knowledge associated with this Telegram user.",
        ),
        Some(name) => {
            if *name == *"Group Root" {
                (
                    "Group Root",
                    "The root of this Telegram group's shared Kmap knowledge.",
                    "This root anchors durable knowledge shared in this Telegram group.",
                )
            } else {
                (
                    name,
                    "An automatically provisioned Kmap root.",
                    "This root anchors durable Kmap knowledge.",
                )
            }
        },
    }
}

/// A text without the slashes at its end.
pub open spec fn without_slashes(value: Seq<char>) -> Seq<char>
    decreases value.len(),
{
    if value.len() > 0 && value.last() == '/' {
        without_slashes(value.drop_last())
    } else {
        value
    }
}

/// The address of a service without the slashes at its end.
pub fn trim_base(value: &str) -> (base: String)
    ensures
        base@ == without_slashes(value@),
{
    let chars = text::chars_of(value);
    let mut end: usize = chars.len();
    assert(value@.take(end as int) =~= value@);
    while end > 0 && chars[end - 1] == '/'
        invariant
            end <= chars.len(),
            chars@ == value@,
            without_slashes(value@.take(end as int)) == without_slashes(value@),
        decreases end,
    {
        assert(value@.take(end as int).drop_last() =~= value@.take(end - 1));
        end = end - 1;
    }
    let base = value.substring_char(0, end);
    assert(base@ =~= value@.take(end as int));
    base.to_owned()
}

/// A trimmed address ends in no slash, and only slashes are gone.
pub proof fn trimmed_bases_end_in_no_slash(value: Seq<char>)
    ensures
        without_slashes(value).len() > 0 ==> without_slashes(value).last() != '/',
        text::begins(value, without_slashes(value)),
        forall|i: int|
            without_slashes(value).len() <= i < value.len() ==> #[trigger] value[i] == '/',
    decreases value.len(),
{
    if value.len() > 0 && value.last() == '/' {
        trimmed_bases_end_in_no_slash(value.drop_last());
        let kept = without_slashes(value);
        assert(value.subrange(0, kept.len() as int) =~= value.drop_last().subrange(
            0,
            kept.len() as int,
        ));
        assert forall|i: int| kept.len() <= i < value.len() implies #[trigger] value[i] == '/' by {
            if i < value.len() - 1 {
                assert(value.drop_last()[i] == '/');
            }
        }
    } else {
        assert(value.subrange(0, value.len() as int) =~= value);
    }
}

/// Whether a byte stands for itself in an address.
pub open spec fn unreserved(byte: u8) -> bool {
    ||| 48 <= byte <= 57
    ||| 65 <= byte <= 90
    ||| 97 <= byte <= 122
    ||| byte == 45
    ||| byte == 46
    ||| byte == 95
    ||| byte == 126
}

/// A hexadecimal digit, in capitals.
pub open spec fn hex_digit(digit: u8) -> char {
    if digit < 10 {
        (48 + digit) as char
    } else {
        (55 + digit) as char
    }
}

/// Bytes as they stand in an address: every byte but letters, digits, `-`, `.`, `_` and
/// `~` as a percent sign and two hexadecimal digits.
pub open spec fn percent_encoded(bytes: Seq<u8>) -> Seq<char>
    decreases bytes.len(),
{
    if bytes.len() == 0 {
        Seq::empty()
    } else {
        let byte = bytes.last();
        percent_encoded(bytes.drop_last()) + if unreserved(byte) {
            seq![byte as char]
        } else {
            seq!['%', hex_digit(byte / 16), hex_digit(byte % 16)]
        }
    }
}

/// `urlencoding::encode`: percent-encodes every byte of the UTF-8 text except letters,
/// digits and `-`, `.`, `_`, `~`.
#[verifier::external_body]
fn url_encode(value: &str) -> (result: String)
    ensures
        result@ == percent_encoded(vstd::utf8::encode_utf8(value@)),
{
    urlencoding::encode(value).into_owned()
}

/// A text as a part of an address.
pub fn encode_path(value: &str) -> (result: String)
    ensures
        result@ == percent_encoded(vstd::utf8::encode_utf8(value@)),
{
    url_encode(value)
}

/// The address of a record, or of an action on it.
pub fn record_path(collection: &str, id: &str, action: Option<&str>) -> (path: String)
    ensures
        path@ == match action {
            Some(action) => collection@ + "/"@ + percent_encoded(vstd::utf8::encode_utf8(id@))
                + "/"@ + action@,
            None => collection@ + "/"@ + percent_encoded(vstd::utf8::encode_utf8(id@)),
        },
{
    let mut path = collection.to_owned();
    path.append("/");
    path.append(encode_path(id).as_str());
    if let Some(action) = action {
        path.append("/");
        path.append(action);
    }
    path
}

/// The kind of a medium.
#[derive(Clone, Copy, Debug, PartialEq, Eq)]
pub enum MediaKind {
    Image,
    Audio,
    Video,
}

/// A medium that a model is given.
#[derive(Debug, PartialEq, Eq)]
pub struct Media {
    pub kind: MediaKind,
    pub bytes: Vec<u8>,
    pub file_name: String,
    pub content_type: String,
}

/// The mathematical value of a medium.
pub struct MediaView {
    pub kind: MediaKind,
    pub bytes: Seq<u8>,
    pub file_name: Seq<char>,
    pub content_type: Seq<char>,
}

impl DeepView for Media {
    type V = MediaView;

    open spec fn deep_view(&self) -> MediaView {
        MediaView {
            kind: self.kind,
            bytes: self.bytes@,
            file_name: self.file_name@,
            content_type: self.content_type@,
        }
    }
}

/// The part of a file name behind its last dot, in small letters.
pub open spec fn extension_of(file_name: Seq<char>) -> Option<Seq<char>> {
    match text::found_last(file_name, "."@) {
        Some(at) => Some(text::lowered(file_name.skip(at + 1))),
        None => None,
    }
}

/// Whether a file's name says that it is Ogg audio.
pub open spec fn named_ogg(file_name: Seq<char>) -> bool {
    let extension = extension_of(file_name);
    extension == Some("ogg"@) || extension == Some("oga"@) || extension == Some("opus"@)
}

fn is_named_ogg(file_name: &str) -> (yes: bool)
    ensures
        yes == named_ogg(file_name@),
{
    proof {
        reveal_strlit(".");
        text::find_back_occurs(file_name@, "."@, file_name@.len() - 1);
    }
    match text::rfind(file_name, ".") {
        Some(at) => {
            let length: usize = file_name.unicode_len();
            let part = file_name.substring_char(at + 1, length);
            assert(part@ =~= file_name@.skip(at + 1));
            let extension = text::lower(part);
            *extension.as_str() == *"ogg" || *extension.as_str() == *"oga" || *extension.as_str()
                == *"opus"
        },
        None => false,
    }
}

/// A medium of a kind: its type comes without parameters, and Ogg audio has one type.
pub open spec fn medium(
    kind: MediaKind,
    bytes: Seq<u8>,
    file_name: Seq<char>,
    content_type: Seq<char>,
) -> MediaView {
    let bare = media::bare_type(content_type);
    MediaView {
        kind,
        bytes,
        file_name,
        content_type: if kind == MediaKind::Audio && (bare == "audio/ogg"@ || bare == "video/ogg"@
            || bare == "application/ogg"@ || named_ogg(file_name)) {
            "audio/ogg"@
        } else {
            bare
        },
    }
}

impl Media {
    /// A medium of a kind.
    pub fn new(kind: MediaKind, bytes: Vec<u8>, file_name: String, content_type: &str) -> (made:
        Media)
        ensures
            made.deep_view() == medium(kind, bytes@, file_name@, content_type@),
    {
        let bare = media::normalized_media_type(content_type);
        let audio = match kind {
            MediaKind::Audio => true,
            _ => false,
        };
        let ogg = audio && (*bare.as_str() == *"audio/ogg" || *bare.as_str() == *"video/ogg"
            || *bare.as_str() == *"application/ogg" || is_named_ogg(file_name.as_str()));
        let content_type = if ogg {
            "audio/ogg".to_owned()
        } else {
            bare
        };
        Media { kind, bytes, file_name, content_type }
    }
}

/// The medium that is annotated: an image, audio or video.
pub open spec fn annotated_medium(
    bytes: Seq<u8>,
    file_name: Seq<char>,
    mime: Seq<char>,
) -> Result<MediaView, Seq<char>> {
    let bare = media::bare_type(mime);
    if text::begins(bare, "image/"@) {
        Ok(medium(MediaKind::Image, bytes, file_name, bare))
    } else if text::begins(bare, "audio/"@) || bare == "application/ogg"@ || bare == "video/ogg"@
        || named_ogg(file_name) {
        Ok(medium(MediaKind::Audio, bytes, file_name, bare))
    } else if text::begins(bare, "video/"@) {
        Ok(medium(MediaKind::Video, bytes, file_name, bare))
    } else {
        Err("annotation requires image, audio, or video media"@)
    }
}

/// The medium that is annotated. What is known to be Ogg audio is audio, whatever its
/// type says.
pub fn media_for_annotation(bytes: Vec<u8>, filename: String, mime: &str) -> (result: Result<
    Media,
    text::Failure,
>)
    ensures
        text::seen(result) == annotated_medium(bytes@, filename@, mime@),
{
    let bare = media::normalized_media_type(mime);
    if text::starts_with(bare.as_str(), "image/") {
        Ok(Media::new(MediaKind::Image, bytes, filename, bare.as_str()))
    } else if text::starts_with(bare.as_str(), "audio/") || *bare.as_str() == *"application/ogg"
        || *bare.as_str() == *"video/ogg" || is_named_ogg(filename.as_str()) {
        Ok(Media::new(MediaKind::Audio, bytes, filename, bare.as_str()))
    } else if text::starts_with(bare.as_str(), "video/") {
        Ok(Media::new(MediaKind::Video, bytes, filename, bare.as_str()))
    } else {
        Err(text::Failure::fixed("annotation requires image, audio, or video media"))
    }
}

/// The medium that an image is made from: an image.
pub open spec fn reference_medium(
    bytes: Seq<u8>,
    file_name: Seq<char>,
    mime: Seq<char>,
) -> Result<MediaView, Seq<char>> {
    let bare = media::bare_type(mime);
    if text::begins(bare, "image/"@) {
        Ok(medium(MediaKind::Image, bytes, file_name, bare))
    } else {
        Err("image references must use an image content type"@)
    }
}

/// The medium that an image is made from.
pub fn media_for_image(bytes: Vec<u8>, filename: String, mime: &str) -> (result: Result<
    Media,
    text::Failure,
>)
    ensures
        text::seen(result) == reference_medium(bytes@, filename@, mime@),
{
    let bare = media::normalized_media_type(mime);
    if !text::starts_with(bare.as_str(), "image/") {
        return Err(text::Failure::fixed("image references must use an image content type"));
    }
    Ok(Media::new(MediaKind::Image, bytes, filename, bare.as_str()))
}

/// A file that Telegram sends.
#[derive(Debug)]
pub struct Attachment {
    pub bytes: Vec<u8>,
    pub file_name: String,
    pub media_type: String,
    pub kind: Option<&'static str>,
    pub caption: Option<String>,
}

/// An object as Telegram sends it: as it came, with a caption where there is one.
pub fn telegram_attachment(file: ResolvedObject, caption: Option<&str>) -> (attachment: Attachment)
    ensures
        attachment.bytes@ == file.bytes@,
        attachment.file_name@ == file.file_name@,
        attachment.media_type@ == file.media_type@,
        attachment.kind.deep_view() == delivery::native_kind(
            file.media_type@,
            file.transport_kind.deep_view(),
        ),
        attachment.caption.deep_view() == caption.deep_view(),
{
    let kind = match &file.transport_kind {
        Some(transport) => delivery::telegram_native_kind(
            file.media_type.as_str(),
            Some(transport.as_str()),
        ),
        None => delivery::telegram_native_kind(file.media_type.as_str(), None),
    };
    let caption = match caption {
        Some(caption) => Some(caption.to_owned()),
        None => None,
    };
    Attachment {
        bytes: file.bytes,
        file_name: file.file_name,
        media_type: file.media_type,
        kind,
        caption,
    }
}

/// A field of a form.
#[derive(Debug)]
pub struct FormField {
    pub name: &'static str,
    pub value: String,
}

impl DeepView for FormField {
    type V = (Seq<char>, Seq<char>);

    open spec fn deep_view(&self) -> (Seq<char>, Seq<char>) {
        (self.name@, self.value@)
    }
}

/// The fields of the form that an object is sent with in answer to an event.
pub open spec fn file_fields(
    conversation_id: Seq<char>,
    file_name: Seq<char>,
    complete: bool,
    kind: Option<Seq<char>>,
) -> Seq<(Seq<char>, Seq<char>)> {
    let fields = seq![
        ("conversationId"@, conversation_id),
        ("fileName"@, file_name),
        (
            "complete"@,
            if complete {
                "true"@
            } else {
                "false"@
            },
        ),
    ];
    match kind {
        Some(kind) => fields.push(("kind"@, kind)),
        None => fields,
    }
}

/// The fields of the form that an object is sent with in answer to an event.
pub fn telegram_file_form(
    conversation_id: &str,
    file_name: &str,
    complete: bool,
    kind: Option<&str>,
) -> (fields: Vec<FormField>)
    ensures
        fields.deep_view() == file_fields(
            conversation_id@,
            file_name@,
            complete,
            kind.deep_view(),
        ),
{
    let mut fields: Vec<FormField> = Vec::new();
    fields.push(FormField { name: "conversationId", value: conversation_id.to_owned() });
    fields.push(FormField { name: "fileName", value: file_name.to_owned() });
    let said = if complete {
        "true"
    } else {
        "false"
    };
    fields.push(FormField { name: "complete", value: said.to_owned() });
    if let Some(kind) = kind {
        fields.push(FormField { name: "kind", value: kind.to_owned() });
    }
    assert(fields.deep_view() =~= file_fields(
        conversation_id@,
        file_name@,
        complete,
        kind.deep_view(),
    ));
    fields
}

/// The fields of the form that an object is sent to a user with.
pub open spec fn private_file_fields(
    conversation_id: Seq<char>,
    expected_conversation_id: Option<Seq<char>>,
    file_name: Seq<char>,
    kind: Option<Seq<char>>,
) -> Seq<(Seq<char>, Seq<char>)> {
    let fields = seq![("conversationId"@, conversation_id), ("fileName"@, file_name)];
    let expected = match expected_conversation_id {
        Some(expected) => fields.push(("expectedConversationId"@, expected)),
        None => fields,
    };
    match kind {
        Some(kind) => expected.push(("kind"@, kind)),
        None => expected,
    }
}

/// The fields of the form that an object is sent to a user with.
pub fn telegram_private_file_form(
    conversation_id: &str,
    expected_conversation_id: Option<&str>,
    file_name: &str,
    kind: Option<&str>,
) -> (fields: Vec<FormField>)
    ensures
        fields.deep_view() == private_file_fields(
            conversation_id@,
            expected_conversation_id.deep_view(),
            file_name@,
            kind.deep_view(),
        ),
{
    let mut fields: Vec<FormField> = Vec::new();
    fields.push(FormField { name: "conversationId", value: conversation_id.to_owned() });
    fields.push(FormField { name: "fileName", value: file_name.to_owned() });
    if let Some(expected) = expected_conversation_id {
        fields.push(FormField { name: "expectedConversationId", value: expected.to_owned() });
    }
    if let Some(kind) = kind {
        fields.push(FormField { name: "kind", value: kind.to_owned() });
    }
    assert(fields.deep_view() =~= private_file_fields(
        conversation_id@,
        expected_conversation_id.deep_view(),
        file_name@,
        kind.deep_view(),
    ));
    fields
}

/// A success gives the document that came with it, or nothing where none came, and is
/// refused where that could not be read; anything else is a failure.
pub proof fn answers_are_read_by_their_status(
    status: u16,
    status_text: Seq<char>,
    answer: AnswerView,
)
    ensures
        ({
            let read = decoded(status, status_text, answer);
            let good = status / 100 == 2;
            &&& good && answer is Document ==> read == Ok::<JsonView, ApiView>(
                answer->Document_0,
            )
            &&& good && answer is Empty ==> read == Ok::<JsonView, ApiView>(JsonView::Null)
            &&& good && answer is Unreadable ==> read is Err && read->Err_0.1
                == "invalid_response"@ && text::ends(read->Err_0.2, answer->Unreadable_0)
            &&& !good ==> read is Err
            &&& read is Err ==> read->Err_0.0 == Some(status)
        }),
{
    match answer {
        AnswerView::Unreadable(reason) => {
            let told = "Backend returned invalid JSON: "@ + reason;
            assert(told.subrange(told.len() - reason.len(), told.len() as int) =~= reason);
        },
        _ => {},
    }
}

/// A failure is told by the code and the message that came with it.
pub proof fn failures_tell_their_code(
    status: u16,
    status_text: Seq<char>,
    payload: JsonView,
    error: JsonView,
)
    ensures
        ({
            let told = remote_failure(status, status_text, payload);
            &&& told.0 == Some(status)
            &&& payload.get("error"@) == Some(error) && error.text_at("code"@) is Some ==> Some(
                told.1,
            ) == error.text_at("code"@)
            &&& payload.get("error"@) == Some(error) && error.text_at("message"@) is Some ==> Some(
                told.2,
            ) == error.text_at("message"@)
            &&& payload.get("error"@) is None ==> told.1 == "request_failed"@ && told.2
                == "Request failed ("@ + status_text + ")."@
        }),
{
}

/// A path is encoded byte by byte, in order: letters, digits and four marks as they are,
/// and every other byte by its two hexadecimal digits.
pub proof fn paths_are_encoded_byte_by_byte(first: Seq<u8>, second: Seq<u8>, byte: u8)
    ensures
        percent_encoded(first + second) == percent_encoded(first) + percent_encoded(second),
        'a' as u8 <= byte <= 'z' as u8 || 'A' as u8 <= byte <= 'Z' as u8 || '0' as u8 <= byte
            <= '9' as u8 || byte == '-' as u8 || byte == '.' as u8 || byte == '_' as u8 || byte
            == '~' as u8 ==> percent_encoded(seq![byte]) == seq![byte as char],
        byte == '/' as u8 ==> percent_encoded(seq![byte]) == seq!['%', '2', 'F'],
        byte == ' ' as u8 ==> percent_encoded(seq![byte]) == seq!['%', '2', '0'],
        byte == ':' as u8 ==> percent_encoded(seq![byte]) == seq!['%', '3', 'A'],
        byte >= 0x80 ==> percent_encoded(seq![byte]).len() == 3 && percent_encoded(seq![byte])[0]
            == '%',
    decreases second.len(),
{
    let one = seq![byte];
    assert(one.drop_last() =~= Seq::empty());
    assert(percent_encoded(one.drop_last()) =~= Seq::empty());
    let own = if unreserved(byte) {
        seq![byte as char]
    } else {
        seq!['%', hex_digit(byte / 16), hex_digit(byte % 16)]
    };
    assert(Seq::<char>::empty() + own =~= own);
    assert(percent_encoded(one) == own);
    if second.len() > 0 {
        paths_are_encoded_byte_by_byte(first, second.drop_last(), byte);
        assert((first + second).drop_last() =~= first + second.drop_last());
        assert((first + second).last() == second.last());
        assert(percent_encoded(first + second) =~= percent_encoded(first) + percent_encoded(
            second,
        ));
    } else {
        assert(first + second =~= first);
        assert(percent_encoded(first) =~= percent_encoded(first) + percent_encoded(second));
    }
}

/// A base loses the slashes at its end and nothing else.
pub proof fn bases_lose_only_their_slashes(value: Seq<char>)
    ensures
        without_slashes(value.push('/')) == without_slashes(value),
        value.len() > 0 && value.last() != '/' ==> without_slashes(value) == value,
        without_slashes(Seq::empty()) == Seq::<char>::empty(),
{
    assert(value.push('/').drop_last() =~= value);
}

/// Media are annotated as pictures, sounds or videos by their type, and as sounds where
/// they are named like one; anything else is refused. Their bytes and their name stay.
pub proof fn media_are_annotated_by_their_type(
    bytes: Seq<u8>,
    file_name: Seq<char>,
    mime: Seq<char>,
)
    ensures
        ({
            let bare = media::bare_type(mime);
            let made = annotated_medium(bytes, file_name, mime);
            &&& made is Ok ==> made->Ok_0.bytes == bytes && made->Ok_0.file_name == file_name
            &&& text::begins(bare, "image/"@) ==> made is Ok && made->Ok_0.kind is Image
            &&& text::begins(bare, "audio/"@) ==> made is Ok && made->Ok_0.kind is Audio
            &&& bare == "application/ogg"@ ==> made is Ok && made->Ok_0.kind is Audio
            &&& text::begins(bare, "video/"@) && bare != "video/ogg"@ && !named_ogg(file_name)
                ==> made is Ok && made->Ok_0.kind is Video
            &&& !text::begins(bare, "image/"@) && !text::begins(bare, "audio/"@) && !text::begins(
                bare,
                "video/"@,
            ) && bare != "application/ogg"@ && !named_ogg(file_name) ==> made is Err
            &&& made is Ok && made->Ok_0.kind is Image ==> reference_medium(bytes, file_name, mime)
                is Ok
            &&& reference_medium(bytes, file_name, mime) is Ok <==> text::begins(bare, "image/"@)
        }),
{
    reveal_strlit("image/");
    reveal_strlit("audio/");
    reveal_strlit("video/");
    reveal_strlit("application/ogg");
    reveal_strlit("video/ogg");
    assert("image/"@[0] == 'i' && "audio/"@[0] == 'a' && "video/"@[0] == 'v');
    assert("image/"@.len() == 6 && "audio/"@.len() == 6 && "video/"@.len() == 6);
    assert("audio/"@[1] == 'u' && "application/ogg"@[1] == 'p');
    assert("application/ogg"@[0] == 'a' && "video/ogg"@[0] == 'v' && "video/ogg"@.len() == 9);
    let bare = media::bare_type(mime);
    text::parts_stand_by_their_characters(bare, "image/"@, 0);
    text::parts_stand_by_their_characters(bare, "audio/"@, 0);
    text::parts_stand_by_their_characters(bare, "video/"@, 0);
    assert(text::begins(bare, "image/"@) ==> "image/"@[0] == bare[0]);
    assert(text::begins(bare, "audio/"@) ==> "audio/"@[0] == bare[0]);
    assert(text::begins(bare, "video/"@) ==> "video/"@[0] == bare[0]);
    assert("video/ogg"@.subrange(0, 6) =~= "video/"@);
}

/// A sound in an Ogg file goes as one, however it was labelled; everything else goes by its
/// own type.
pub proof fn ogg_sounds_go_as_ogg(
    kind: MediaKind,
    bytes: Seq<u8>,
    file_name: Seq<char>,
    content_type: Seq<char>,
)
    ensures
        ({
            let bare = media::bare_type(content_type);
            let made = medium(kind, bytes, file_name, content_type);
            &&& made.kind == kind && made.bytes == bytes && made.file_name == file_name
            &&& kind is Audio && (bare == "video/ogg"@ || bare == "application/ogg"@) ==> made
                .content_type == "audio/ogg"@
            &&& kind is Audio && named_ogg(file_name) ==> made.content_type == "audio/ogg"@
            &&& !(kind is Audio) ==> made.content_type == bare
            &&& bare == "audio/mpeg"@ && !named_ogg(file_name) ==> made.content_type == bare
        }),
{
    reveal_strlit("audio/ogg");
    reveal_strlit("video/ogg");
    reveal_strlit("application/ogg");
    reveal_strlit("audio/mpeg");
    assert("audio/ogg"@.len() == 9 && "video/ogg"@.len() == 9 && "application/ogg"@.len() == 15);
    assert("audio/mpeg"@.len() == 10);
}

/// A file is sent with its conversation, its name, whether it is the last, and its kind
/// where it has one.
pub proof fn file_forms_hold_their_fields(
    conversation_id: Seq<char>,
    file_name: Seq<char>,
    complete: bool,
    kind: Seq<char>,
    expected: Seq<char>,
)
    ensures
        file_fields(conversation_id, file_name, complete, Some(kind)) == file_fields(
            conversation_id,
            file_name,
            complete,
            None,
        ).push(("kind"@, kind)),
        file_fields(conversation_id, file_name, true, None) == seq![
            ("conversationId"@, conversation_id),
            ("fileName"@, file_name),
            ("complete"@, "true"@),
        ],
        file_fields(conversation_id, file_name, false, None)[2] == ("complete"@, "false"@),
        private_file_fields(conversation_id, None, file_name, None) == seq![
            ("conversationId"@, conversation_id),
            ("fileName"@, file_name),
        ],
        private_file_fields(conversation_id, Some(expected), file_name, Some(kind)) == seq![
            ("conversationId"@, conversation_id),
            ("fileName"@, file_name),
            ("expectedConversationId"@, expected),
            ("kind"@, kind),
        ],
{
    assert(file_fields(conversation_id, file_name, true, None) =~= seq![
        ("conversationId"@, conversation_id),
        ("fileName"@, file_name),
        ("complete"@, "true"@),
    ]);
    assert(private_file_fields(conversation_id, Some(expected), file_name, Some(kind)) =~= seq![
        ("conversationId"@, conversation_id),
        ("fileName"@, file_name),
        ("expectedConversationId"@, expected),
        ("kind"@, kind),
    ]);
}

/// What went wrong in the store has a status and a code.
pub proof fn store_failures_have_their_status()
    ensures
        store_status(StoreErrorKind::InvalidInput) == 400,
        store_status(StoreErrorKind::NotFound) == 404,
        store_status(StoreErrorKind::Conflict) == 409,
        store_status(StoreErrorKind::Storage) == 500,
        store_code(StoreErrorKind::InvalidInput) == "invalid_request"@,
        store_code(StoreErrorKind::NotFound) == "not_found"@,
        store_code(StoreErrorKind::Conflict) == "state_conflict"@,
        store_code(StoreErrorKind::Storage) == "internal_error"@,
{
}

/// These extensions are those of an ogg sound, and no others are.
pub proof fn ogg_extensions_are_known(file_name: Seq<char>)
    ensures
        extension_of(file_name) == Some("ogg"@) ==> named_ogg(file_name),
        extension_of(file_name) == Some("oga"@) ==> named_ogg(file_name),
        extension_of(file_name) == Some("opus"@) ==> named_ogg(file_name),
        extension_of(file_name) is None ==> !named_ogg(file_name),
        extension_of(file_name) is Some && extension_of(file_name)->0 != "ogg"@ && extension_of(
            file_name,
        )->0 != "oga"@ && extension_of(file_name)->0 != "opus"@ ==> !named_ogg(file_name),
{
}

} // verus!
