//! Media types, file names, and which model takes which media.

use crate::text;
use crate::text::Failure;
use base64::Engine;
use vstd::prelude::*;

verus! {

/// The part of `text` before the first `mark`, or all of it.
pub open spec fn before(text: Seq<char>, mark: Seq<char>) -> Seq<char> {
    match text::found(text, mark) {
        Some(at) => text.take(at),
        None => text,
    }
}

fn part_before<'a>(text: &'a str, mark: &str) -> (part: &'a str)
    ensures
        part@ == before(text@, mark@),
{
    match text::find(text, mark) {
        Some(at) => text.substring_char(0, at),
        None => text,
    }
}

/// A media type without its parameters, in small letters.
pub open spec fn bare_type(value: Seq<char>) -> Seq<char> {
    text::lowered(text::trimmed(before(value, ";"@)))
}

/// A media type without its parameters, in small letters.
pub fn normalized_media_type(value: &str) -> (result: String)
    ensures
        result@ == bare_type(value@),
{
    text::lower(text::trim(part_before(value, ";")))
}

/// A control character (Unicode `Cc`).
pub open spec fn is_control(c: char) -> bool {
    c as u32 <= 0x1f || 0x7f <= c as u32 <= 0x9f
}

/// Whether `c` is a control character.
pub fn control(c: char) -> (yes: bool)
    ensures
        yes == is_control(c),
{
    let code: u32 = c as u32;
    code <= 0x1f || (0x7f <= code && code <= 0x9f)
}

/// A type with a slash, and without white space or control characters.
pub open spec fn plain_type(value: Seq<char>) -> bool {
    &&& text::found(value, "/"@) is Some
    &&& forall|i: int|
        0 <= i < value.len() ==> !text::is_space(#[trigger] value[i]) && !is_control(value[i])
}

/// The bare media type, where it is one; else the type of arbitrary bytes.
pub open spec fn file_type(value: Seq<char>) -> Seq<char> {
    if plain_type(bare_type(value)) {
        bare_type(value)
    } else {
        "application/octet-stream"@
    }
}

/// The bare media type, where it is one; else the type of arbitrary bytes.
pub fn normalized_file_mime_type(value: &str) -> (result: String)
    ensures
        result@ == file_type(value@),
{
    let bare = normalized_media_type(value);
    let chars = text::chars_of(bare.as_str());
    let mut i: usize = 0;
    while i < chars.len()
        invariant
            i <= chars.len(),
            chars@ == bare@,
            bare@ == bare_type(value@),
            forall|j: int|
                0 <= j < i ==> !text::is_space(#[trigger] bare@[j]) && !is_control(bare@[j]),
        decreases chars.len() - i,
    {
        if text::space(chars[i]) || control(chars[i]) {
            assert(!plain_type(bare@)) by {
                assert(text::is_space(bare@[i as int]) || is_control(bare@[i as int]));
            }
            return "application/octet-stream".to_owned();
        }
        i = i + 1;
    }
    if text::contains(bare.as_str(), "/") {
        bare
    } else {
        "application/octet-stream".to_owned()
    }
}

/// The file extension for a bare media type.
pub open spec fn extension_of(bare: Seq<char>) -> Seq<char> {
    if bare == "image/jpeg"@ {
        "jpg"@
    } else if bare == "image/png"@ {
        "png"@
    } else if bare == "image/webp"@ {
        "webp"@
    } else if bare == "image/gif"@ {
        "gif"@
    } else if bare == "audio/ogg"@ || bare == "audio/opus"@ || bare == "application/ogg"@ {
        "ogg"@
    } else if bare == "audio/mpeg"@ || bare == "audio/mp3"@ {
        "mp3"@
    } else if bare == "audio/mp4"@ || bare == "video/mp4"@ {
        "mp4"@
    } else if bare == "audio/webm"@ || bare == "video/webm"@ {
        "webm"@
    } else if bare == "audio/wav"@ || bare == "audio/x-wav"@ {
        "wav"@
    } else if bare == "application/pdf"@ {
        "pdf"@
    } else {
        "bin"@
    }
}

/// The file extension for a bare media type.
pub fn bare_type_extension(bare: &str) -> (extension: &'static str)
    ensures
        extension@ == extension_of(bare@),
{
    if *bare == *"image/jpeg" {
        "jpg"
    } else if *bare == *"image/png" {
        "png"
    } else if *bare == *"image/webp" {
        "webp"
    } else if *bare == *"image/gif" {
        "gif"
    } else if *bare == *"audio/ogg" || *bare == *"audio/opus" || *bare == *"application/ogg" {
        "ogg"
    } else if *bare == *"audio/mpeg" || *bare == *"audio/mp3" {
        "mp3"
    } else if *bare == *"audio/mp4" || *bare == *"video/mp4" {
        "mp4"
    } else if *bare == *"audio/webm" || *bare == *"video/webm" {
        "webm"
    } else if *bare == *"audio/wav" || *bare == *"audio/x-wav" {
        "wav"
    } else if *bare == *"application/pdf" {
        "pdf"
    } else {
        "bin"
    }
}

/// The file extension for a media type as a transport gave it.
pub fn file_extension_for_mime_type(mime_type: &str) -> (extension: &'static str)
    ensures
        extension@ == extension_of(file_type(mime_type@)),
{
    bare_type_extension(normalized_file_mime_type(mime_type).as_str())
}

/// The part of a file name behind its last dot.
pub open spec fn suffix(file_name: Seq<char>) -> Option<Seq<char>> {
    match text::found_last(file_name, "."@) {
        Some(at) => Some(file_name.skip(at + 1)),
        None => None,
    }
}

fn name_suffix<'a>(file_name: &'a str) -> (part: Option<&'a str>)
    ensures
        match part {
            Some(part) => suffix(file_name@) == Some(part@),
            None => suffix(file_name@) is None,
        },
{
    proof {
        reveal_strlit(".");
    }
    match text::rfind(file_name, ".") {
        Some(at) => {
            let length: usize = file_name.unicode_len();
            let part = file_name.substring_char(at + 1, length);
            assert(part@ =~= file_name@.skip(at + 1));
            Some(part)
        },
        None => None,
    }
}

/// The extension of a file name with its dot, or `(none)`: both the part before
/// the last dot and the part behind it must be there.
pub open spec fn shown_extension(file_name: Seq<char>) -> Seq<char> {
    match text::found_last(file_name, "."@) {
        Some(at) => if at > 0 && at + 1 < file_name.len() {
            "."@ + file_name.skip(at + 1)
        } else {
            "(none)"@
        },
        None => "(none)"@,
    }
}

/// The extension of a file name with its dot, or `(none)`.
pub fn file_name_extension(file_name: &str) -> (extension: String)
    ensures
        extension@ == shown_extension(file_name@),
{
    proof {
        reveal_strlit(".");
    }
    match text::rfind(file_name, ".") {
        Some(at) => {
            let length: usize = file_name.unicode_len();
            if at > 0 && at + 1 < length {
                let part = file_name.substring_char(at + 1, length);
                assert(part@ =~= file_name@.skip(at + 1));
                let mut extension = ".".to_owned();
                extension.append(part);
                extension
            } else {
                "(none)".to_owned()
            }
        },
        None => "(none)".to_owned(),
    }
}

/// The description of a file that a user provided.
pub open spec fn user_file(
    ordinal: nat,
    object_id: Seq<char>,
    file_name: Seq<char>,
    media_type: Seq<char>,
    size_bytes: nat,
) -> Seq<char> {
    "User-provided file "@ + text::digits(ordinal) + "\nObject reference: "@ + object_id
        + "\nOriginal filename: "@ + file_name + "\nExtension: "@ + shown_extension(file_name)
        + "\nMIME type: "@ + bare_type(media_type) + "\nSize: "@ + text::digits(size_bytes)
        + " bytes"@
}

/// The description of a file that a user provided.
pub fn render_user_file_metadata(
    ordinal: usize,
    object_id: &str,
    file_name: &str,
    media_type: &str,
    size_bytes: u64,
) -> (result: String)
    ensures
        result@ == user_file(
            ordinal as nat,
            object_id@,
            file_name@,
            media_type@,
            size_bytes as nat,
        ),
{
    let mut result = "User-provided file ".to_owned();
    result.append(text::decimal(ordinal as u128).as_str());
    result.append("\nObject reference: ");
    result.append(object_id);
    result.append("\nOriginal filename: ");
    result.append(file_name);
    result.append("\nExtension: ");
    result.append(file_name_extension(file_name).as_str());
    result.append("\nMIME type: ");
    result.append(normalized_media_type(media_type).as_str());
    result.append("\nSize: ");
    result.append(text::decimal(size_bytes as u128).as_str());
    result.append(" bytes");
    result
}

/// `value`, or `fallback` where there is none or it is blank.
pub open spec fn named_or(value: Option<Seq<char>>, fallback: Seq<char>) -> Seq<char> {
    match value {
        Some(name) => if text::blank(name) {
            fallback
        } else {
            name
        },
        None => fallback,
    }
}

/// The file name of an incoming object, or `fallback` where it has none.
pub fn ingress_object_filename(value: Option<&str>, fallback: &str) -> (result: String)
    ensures
        result@ == named_or(
            match value {
                Some(name) => Some(name@),
                None => None,
            },
            fallback@,
        ),
{
    match value {
        Some(name) => {
            if text::is_blank(name) {
                fallback.to_owned()
            } else {
                name.to_owned()
            }
        },
        None => fallback.to_owned(),
    }
}

/// Whether `media_type` is of the family `image/`, `audio/` or the like.
pub open spec fn family(media_type: Seq<char>, prefix: Seq<char>) -> bool {
    text::begins(media_type, prefix)
}

/// The models that annotate images only.
pub open spec fn image_annotators() -> Seq<Seq<char>> {
    seq!["gpt-5.6"@, "gpt-5.6-sol"@, "gpt-5.6-terra"@, "gpt-5.6-luna"@]
}

/// The models that annotate images, audio and video.
pub open spec fn media_annotators() -> Seq<Seq<char>> {
    seq!["gemini-2.5-flash"@, "gemini-3.1-flash-lite"@, "gemini-3.1-pro-preview"@]
}

/// Whether `model` annotates media of this type, or why not.
pub open spec fn annotatable(model: Seq<char>, media_type: Seq<char>) -> Result<(), Seq<char>> {
    if image_annotators().contains(model) {
        if family(media_type, "image/"@) {
            Ok(())
        } else {
            Err(model + " annotations accept images only"@)
        }
    } else if media_annotators().contains(model) {
        if family(media_type, "image/"@) || family(media_type, "audio/"@) || family(
            media_type,
            "video/"@,
        ) || media_type == "application/ogg"@ {
            Ok(())
        } else {
            Err(model + " annotations accept images, audio, or video only"@)
        }
    } else {
        Err("unsupported exact annotation model "@ + model)
    }
}

fn suffixed(subject: &str, rest: &str) -> (failure: Failure)
    ensures
        failure@ == subject@ + rest@,
{
    let mut message = subject.to_owned();
    message.append(rest);
    Failure::new(message)
}

/// Checks that `model` annotates media of this type.
pub fn validate_annotation_media(model: &str, media_type: &str) -> (outcome: Result<(), Failure>)
    ensures
        crate::arguments::checked(outcome) == annotatable(model@, media_type@),
{
    proof {
        assert(text::views(
            (&["gpt-5.6", "gpt-5.6-sol", "gpt-5.6-terra", "gpt-5.6-luna"])@,
        ) =~= image_annotators());
        assert(text::views(
            (&["gemini-2.5-flash", "gemini-3.1-flash-lite", "gemini-3.1-pro-preview"])@,
        ) =~= media_annotators());
    }
    if text::listed(&["gpt-5.6", "gpt-5.6-sol", "gpt-5.6-terra", "gpt-5.6-luna"], model) {
        if text::starts_with(media_type, "image/") {
            Ok(())
        } else {
            Err(suffixed(model, " annotations accept images only"))
        }
    } else if text::listed(
        &["gemini-2.5-flash", "gemini-3.1-flash-lite", "gemini-3.1-pro-preview"],
        model,
    ) {
        if text::starts_with(media_type, "image/") || text::starts_with(media_type, "audio/")
            || text::starts_with(media_type, "video/") || *media_type == *"application/ogg" {
            Ok(())
        } else {
            Err(suffixed(model, " annotations accept images, audio, or video only"))
        }
    } else {
        Err(suffixed("unsupported exact annotation model ", model))
    }
}

/// Whether `model` generates images, or why not.
pub open spec fn image_model(model: Seq<char>) -> Result<(), Seq<char>> {
    if model == "gpt-image-2"@ || model == "gemini-3-pro-image"@ {
        Ok(())
    } else {
        Err(
            "unsupported exact image model "@ + model
                + "; use gpt-image-2 or gemini-3-pro-image"@,
        )
    }
}

/// Checks that `model` generates images.
pub fn validate_image_model(model: &str) -> (outcome: Result<(), Failure>)
    ensures
        crate::arguments::checked(outcome) == image_model(model@),
{
    if *model == *"gpt-image-2" || *model == *"gemini-3-pro-image" {
        Ok(())
    } else {
        let mut message = "unsupported exact image model ".to_owned();
        message.append(model);
        message.append("; use gpt-image-2 or gemini-3-pro-image");
        Err(Failure::new(message))
    }
}

/// The file extension of a generated image.
pub open spec fn picture_extension(media_type: Seq<char>) -> Seq<char> {
    if bare_type(media_type) == "image/jpeg"@ {
        "jpg"@
    } else if bare_type(media_type) == "image/webp"@ {
        "webp"@
    } else {
        "png"@
    }
}

/// The file extension of a generated image.
pub fn image_extension(media_type: &str) -> (extension: &'static str)
    ensures
        extension@ == picture_extension(media_type@),
{
    let bare = normalized_media_type(media_type);
    if *bare.as_str() == *"image/jpeg" {
        "jpg"
    } else if *bare.as_str() == *"image/webp" {
        "webp"
    } else {
        "png"
    }
}

/// Whether `model` transcribes audio, or why not.
pub open spec fn transcription_model(model: Seq<char>) -> Result<(), Seq<char>> {
    if model == "gpt-4o-transcribe"@ || media_annotators().contains(model) {
        Ok(())
    } else {
        Err("unsupported exact transcription model "@ + model)
    }
}

/// Checks that `model` transcribes audio.
pub fn validate_transcription_model(model: &str) -> (outcome: Result<(), Failure>)
    ensures
        crate::arguments::checked(outcome) == transcription_model(model@),
{
    proof {
        assert(text::views(
            (&["gemini-2.5-flash", "gemini-3.1-flash-lite", "gemini-3.1-pro-preview"])@,
        ) =~= media_annotators());
    }
    if *model == *"gpt-4o-transcribe" || text::listed(
        &["gemini-2.5-flash", "gemini-3.1-flash-lite", "gemini-3.1-pro-preview"],
        model,
    ) {
        Ok(())
    } else {
        Err(suffixed("unsupported exact transcription model ", model))
    }
}

/// The audio types that can be transcribed.
pub open spec fn transcribable_types() -> Seq<Seq<char>> {
    seq![
        "audio/flac"@,
        "audio/x-flac"@,
        "audio/m4a"@,
        "audio/mp3"@,
        "audio/mp4"@,
        "audio/mpeg"@,
        "audio/mpga"@,
        "audio/ogg"@,
        "audio/opus"@,
        "audio/wav"@,
        "audio/x-wav"@,
        "audio/webm"@,
        "application/ogg"@,
    ]
}

/// Whether audio of this type can be transcribed, or why not.
pub open spec fn transcribable(media_type: Seq<char>) -> Result<(), Seq<char>> {
    if transcribable_types().contains(media_type) {
        Ok(())
    } else {
        Err(
            "TranscribeAudio accepts a supported FLAC, MP3, MP4, M4A, OGG, WAV, or WebM audio object only"@,
        )
    }
}

/// Checks that audio of this type can be transcribed.
pub fn validate_transcribable_audio(media_type: &str) -> (outcome: Result<(), Failure>)
    ensures
        crate::arguments::checked(outcome) == transcribable(media_type@),
{
    proof {
        assert(text::views(
            (&[
                "audio/flac",
                "audio/x-flac",
                "audio/m4a",
                "audio/mp3",
                "audio/mp4",
                "audio/mpeg",
                "audio/mpga",
                "audio/ogg",
                "audio/opus",
                "audio/wav",
                "audio/x-wav",
                "audio/webm",
                "application/ogg",
            ])@,
        ) =~= transcribable_types());
    }
    if text::listed(
        &[
            "audio/flac",
            "audio/x-flac",
            "audio/m4a",
            "audio/mp3",
            "audio/mp4",
            "audio/mpeg",
            "audio/mpga",
            "audio/ogg",
            "audio/opus",
            "audio/wav",
            "audio/x-wav",
            "audio/webm",
            "application/ogg",
        ],
        media_type,
    ) {
        Ok(())
    } else {
        Err(
            Failure::fixed(
                "TranscribeAudio accepts a supported FLAC, MP3, MP4, M4A, OGG, WAV, or WebM audio object only",
            ),
        )
    }
}

/// The document types whose text can be extracted, beside the `text/` family.
pub open spec fn document_types() -> Seq<Seq<char>> {
    seq![
        "application/pdf"@,
        "application/msword"@,
        "application/vnd.openxmlformats-officedocument.wordprocessingml.document"@,
        "application/vnd.openxmlformats-officedocument.spreadsheetml.sheet"@,
        "application/vnd.ms-excel"@,
        "application/vnd.ms-excel.sheet.binary.macroenabled.12"@,
        "application/vnd.oasis.opendocument.spreadsheet"@,
        "application/json"@,
        "application/xml"@,
        "application/yaml"@,
        "application/x-yaml"@,
    ]
}

/// The file extensions, in small letters, whose text can be extracted.
pub open spec fn document_extensions() -> Seq<Seq<char>> {
    seq![
        "pdf"@,
        "doc"@,
        "docx"@,
        "xlsx"@,
        "xls"@,
        "xlsb"@,
        "ods"@,
        "csv"@,
        "tsv"@,
        "txt"@,
        "md"@,
        "json"@,
        "yaml"@,
        "yml"@,
        "xml"@,
    ]
}

/// Whether the text of a document can be extracted, or why not.
pub open spec fn extractable(media_type: Seq<char>, file_name: Seq<char>) -> Result<(), Seq<char>> {
    let bare = bare_type(media_type);
    let by_type = text::begins(bare, "text/"@) || document_types().contains(bare);
    let by_name = match suffix(file_name) {
        Some(part) => document_extensions().contains(text::lowered(part)),
        None => false,
    };
    if by_type || by_name {
        Ok(())
    } else {
        Err(
            "ExtractDocumentText accepts supported PDF, Word, spreadsheet, and text-family objects only"@,
        )
    }
}

/// Checks that the text of a document can be extracted: by its type, or else by the
/// extension of its file name.
pub fn validate_extractable_document(media_type: &str, file_name: &str) -> (outcome: Result<
    (),
    Failure,
>)
    ensures
        crate::arguments::checked(outcome) == extractable(media_type@, file_name@),
{
    proof {
        assert(text::views(
            (&[
                "application/pdf",
                "application/msword",
                "application/vnd.openxmlformats-officedocument.wordprocessingml.document",
                "application/vnd.openxmlformats-officedocument.spreadsheetml.sheet",
                "application/vnd.ms-excel",
                "application/vnd.ms-excel.sheet.binary.macroenabled.12",
                "application/vnd.oasis.opendocument.spreadsheet",
                "application/json",
                "application/xml",
                "application/yaml",
                "application/x-yaml",
            ])@,
        ) =~= document_types());
        assert(text::views(
            (&[
                "pdf",
                "doc",
                "docx",
                "xlsx",
                "xls",
                "xlsb",
                "ods",
                "csv",
                "tsv",
                "txt",
                "md",
                "json",
                "yaml",
                "yml",
                "xml",
            ])@,
        ) =~= document_extensions());
    }
    let bare = normalized_media_type(media_type);
    let by_type = text::starts_with(bare.as_str(), "text/") || text::listed(
        &[
            "application/pdf",
            "application/msword",
            "application/vnd.openxmlformats-officedocument.wordprocessingml.document",
            "application/vnd.openxmlformats-officedocument.spreadsheetml.sheet",
            "application/vnd.ms-excel",
            "application/vnd.ms-excel.sheet.binary.macroenabled.12",
            "application/vnd.oasis.opendocument.spreadsheet",
            "application/json",
            "application/xml",
            "application/yaml",
            "application/x-yaml",
        ],
        bare.as_str(),
    );
    let by_name = match name_suffix(file_name) {
        Some(part) => text::listed(
            &[
                "pdf",
                "doc",
                "docx",
                "xlsx",
                "xls",
                "xlsb",
                "ods",
                "csv",
                "tsv",
                "txt",
                "md",
                "json",
                "yaml",
                "yml",
                "xml",
            ],
            text::lower(part).as_str(),
        ),
        None => false,
    };
    if by_type || by_name {
        Ok(())
    } else {
        Err(
            Failure::fixed(
                "ExtractDocumentText accepts supported PDF, Word, spreadsheet, and text-family objects only",
            ),
        )
    }
}

/// The bytes that standard Base64 with padding decodes to, or what is wrong with it.
pub uninterp spec fn base64_bytes(encoded: Seq<char>) -> Result<Seq<u8>, Seq<char>>;

/// `base64::engine::general_purpose::STANDARD.decode`: the decoded bytes, or the
/// text of the decoding error.
#[verifier::external_body]
fn decode_base64(encoded: &str) -> (result: Result<Vec<u8>, String>)
    ensures
        match result {
            Ok(bytes) => base64_bytes(encoded@) is Ok && base64_bytes(encoded@)->Ok_0 == bytes@,
            Err(message) => base64_bytes(encoded@) is Err && base64_bytes(encoded@)->Err_0
                == message@,
        },
{
    base64::engine::general_purpose::STANDARD.decode(encoded).map_err(|error| error.to_string())
}

/// Standard Base64, with padding, of some bytes.
pub uninterp spec fn base64_text(bytes: Seq<u8>) -> Seq<char>;

/// `base64::engine::general_purpose::STANDARD.encode`. What it writes, standard
/// decoding reads back.
#[verifier::external_body]
fn encode_base64(bytes: &[u8]) -> (encoded: String)
    ensures
        encoded@ == base64_text(bytes@),
        base64_bytes(encoded@) is Ok && base64_bytes(encoded@)->Ok_0 == bytes@,
{
    base64::engine::general_purpose::STANDARD.encode(bytes)
}

/// The media type and the Base64 text of a data URL.
pub open spec fn data_url_parts(value: Seq<char>) -> Result<(Seq<char>, Seq<char>), Seq<char>> {
    if !text::begins(value, "data:"@) {
        Err("object data URL must begin with data:"@)
    } else {
        let rest = value.skip("data:"@.len() as int);
        match text::found(rest, ","@) {
            None => Err("invalid object data URL"@),
            Some(at) => {
                let header = rest.take(at);
                if !text::ends(header, ";base64"@) {
                    Err("object data URL must use Base64"@)
                } else {
                    Ok((header.take(header.len() - ";base64"@.len()), rest.skip(at + 1)))
                }
            },
        }
    }
}

/// The media type and the bytes of a data URL.
pub open spec fn data_url_contents(value: Seq<char>) -> Result<(Seq<char>, Seq<u8>), Seq<char>> {
    match data_url_parts(value) {
        Err(message) => Err(message),
        Ok(parts) => match base64_bytes(parts.1) {
            Err(message) => Err(message),
            Ok(bytes) => Ok((parts.0, bytes)),
        },
    }
}

/// The media type and the bytes of a data URL.
pub fn decode_data_url(value: &str) -> (result: Result<(String, Vec<u8>), Failure>)
    ensures
        match result {
            Ok(contents) => data_url_contents(value@) == Ok::<(Seq<char>, Seq<u8>), Seq<char>>(
                (contents.0@, contents.1@),
            ),
            Err(failure) => data_url_contents(value@) == Err::<(Seq<char>, Seq<u8>), Seq<char>>(
                failure@,
            ),
        },
{
    proof {
        reveal_strlit(",");
    }
    if !text::starts_with(value, "data:") {
        return Err(Failure::fixed("object data URL must begin with data:"));
    }
    let rest = value.substring_char("data:".unicode_len(), value.unicode_len());
    assert(rest@ =~= value@.skip("data:"@.len() as int));
    let at = match text::find(rest, ",") {
        None => return Err(Failure::fixed("invalid object data URL")),
        Some(at) => at,
    };
    let header = rest.substring_char(0, at);
    if !text::ends_with(header, ";base64") {
        return Err(Failure::fixed("object data URL must use Base64"));
    }
    let media_type = header.substring_char(0, header.unicode_len() - ";base64".unicode_len());
    let length: usize = rest.unicode_len();
    let data = rest.substring_char(at + 1, length);
    assert(data@ =~= rest@.skip(at + 1));
    match decode_base64(data) {
        Ok(bytes) => Ok((media_type.to_owned(), bytes)),
        Err(message) => Err(Failure::new(message)),
    }
}

/// A data URL that carries some bytes.
pub open spec fn data_url_of(mime: Seq<char>, bytes: Seq<u8>) -> Seq<char> {
    "data:"@ + mime + ";base64,"@ + base64_text(bytes)
}

/// A data URL that carries some bytes.
pub fn data_url(mime: &str, bytes: &[u8]) -> (url: String)
    ensures
        url@ == data_url_of(mime@, bytes@),
        text::found(mime@, ","@) is None ==> data_url_contents(url@) == Ok::<
            (Seq<char>, Seq<u8>),
            Seq<char>,
        >((mime@, bytes@)),
{
    let mut url = "data:".to_owned();
    url.append(mime);
    url.append(";base64,");
    let encoded = encode_base64(bytes);
    url.append(encoded.as_str());
    proof {
        if text::found(mime@, ","@) is None {
            data_urls_split(mime@, encoded@);
        }
    }
    url
}

/// A data URL whose media type has no comma splits into what it was made of.
proof fn data_urls_split(mime: Seq<char>, encoded: Seq<char>)
    requires
        text::found(mime, ","@) is None,
    ensures
        data_url_parts("data:"@ + mime + ";base64,"@ + encoded) == Ok::<
            (Seq<char>, Seq<char>),
            Seq<char>,
        >((mime, encoded)),
{
    reveal_strlit("data:");
    reveal_strlit(";base64,");
    reveal_strlit(";base64");
    reveal_strlit(",");
    let url = "data:"@ + mime + ";base64,"@ + encoded;
    assert(url.subrange(0, 5) =~= "data:"@);
    let rest = url.skip(5);
    assert(rest =~= mime + ";base64,"@ + encoded);
    text::find_from_is_first(mime, ","@, 0);
    text::find_from_is_first(rest, ","@, 0);
    let comma: int = mime.len() + 7int;
    assert(rest[comma] == ',');
    assert(rest.subrange(comma, comma + 1) =~= ","@);
    assert(text::occurs_at(rest, ","@, comma));
    assert forall|j: int| 0 <= j < comma implies !text::occurs_at(rest, ","@, j) by {
        if text::occurs_at(rest, ","@, j) {
            assert(rest.subrange(j, j + 1)[0] == ',');
            assert(rest[j] == ',');
            if j < mime.len() {
                assert(mime.subrange(j, j + 1) =~= ","@);
                assert(text::occurs_at(mime, ","@, j));
            } else {
                assert(rest[j] == ";base64,"@[j - mime.len()]);
            }
        }
    }
    assert(text::found(rest, ","@) == Some(comma));
    let header = rest.take(comma);
    assert(header =~= mime + ";base64"@);
    assert(header.subrange(header.len() - 7, header.len() as int) =~= ";base64"@);
    assert(header.take(header.len() - 7) =~= mime);
    assert(rest.skip(comma + 1) =~= encoded);
}

/// The type of a file is what stands before its parameters, in small letters and without
/// the white space around it.
pub proof fn media_types_drop_their_parameters(value: Seq<char>, parameters: Seq<char>)
    requires
        !value.contains(';'),
    ensures
        bare_type(value) == text::lowered(text::trimmed(value)),
        bare_type(value + ";"@ + parameters) == text::lowered(text::trimmed(value)),
{
    reveal_strlit(";");
    assert(";"@ =~= seq![';']);
    no_mark(value, ';');
    let whole = value + ";"@ + parameters;
    first_mark(value, ';', parameters);
    assert(whole =~= value.push(';') + parameters);
    assert(whole.take(value.len() as int) =~= value);
}

/// A mark that a text does not hold is not found.
proof fn no_mark(value: Seq<char>, mark: char)
    requires
        !value.contains(mark),
    ensures
        text::found(value, seq![mark]) is None,
        text::found_last(value, seq![mark]) is None,
{
    assert forall|i: int| !#[trigger] text::occurs_at(value, seq![mark], i) by {
        if text::occurs_at(value, seq![mark], i) {
            assert(value.subrange(i, i + 1)[0] == value[i]);
            assert(seq![mark][0] == mark);
            assert(value.contains(value[i]));
        }
    }
    text::find_from_is_first(value, seq![mark], 0);
    text::find_back_occurs(value, seq![mark], value.len() - 1);
}

/// A mark is found at its first place.
proof fn first_mark(value: Seq<char>, mark: char, rest: Seq<char>)
    requires
        !value.contains(mark),
    ensures
        text::found(value.push(mark) + rest, seq![mark]) == Some(value.len() as int),
{
    let whole = value.push(mark) + rest;
    let at = value.len() as int;
    assert(whole.subrange(at, at + 1) =~= seq![mark]);
    assert forall|i: int| 0 <= i < at implies !#[trigger] text::occurs_at(
        whole,
        seq![mark],
        i,
    ) by {
        if text::occurs_at(whole, seq![mark], i) {
            assert(whole.subrange(i, i + 1)[0] == whole[i]);
            assert(whole[i] == value[i]);
            assert(value.contains(value[i]));
        }
    }
    text::find_from_is_first(whole, seq![mark], 0);
    assert(text::occurs_at(whole, seq![mark], at));
}

/// The extension of a file name is shown with its dot, and what has no name before the
/// last dot, or nothing behind it, or no dot, has none.
pub proof fn extensions_follow_the_last_dot(stem: Seq<char>, extension: Seq<char>)
    requires
        !extension.contains('.'),
    ensures
        stem.len() > 0 && extension.len() > 0 ==> shown_extension(stem + "."@ + extension) == "."@
            + extension,
        stem.len() == 0 || extension.len() == 0 ==> shown_extension(stem + "."@ + extension)
            == "(none)"@,
        shown_extension(extension) == "(none)"@,
        suffix(stem + "."@ + extension) == Some(extension),
        suffix(extension) is None,
{
    reveal_strlit(".");
    assert("."@ =~= seq!['.']);
    no_mark(extension, '.');
    let whole = stem + "."@ + extension;
    let at = stem.len() as int;
    assert(whole.subrange(at, at + 1) =~= "."@);
    assert(text::occurs_at(whole, "."@, at));
    assert forall|i: int| at < i implies !#[trigger] text::occurs_at(whole, "."@, i) by {
        if text::occurs_at(whole, "."@, i) {
            assert(whole.subrange(i, i + 1)[0] == whole[i]);
            assert("."@[0] == '.');
            assert(whole[i] == extension[i - at - 1]);
            assert(extension.contains(extension[i - at - 1]));
        }
    }
    text::searches_find_the_outermost(whole, "."@, at);
    text::find_back_occurs(whole, "."@, whole.len() - 1);
    assert(text::found_last(whole, "."@) == Some(at));
    assert(whole.skip(at + 1) =~= extension);
}

/// A file without a name, or with a blank one, gets the name at hand; any other keeps its
/// own.
pub proof fn names_are_kept(name: Seq<char>, fallback: Seq<char>)
    ensures
        !text::blank(name) ==> named_or(Some(name), fallback) == name,
        text::blank(name) ==> named_or(Some(name), fallback) == fallback,
        named_or(None, fallback) == fallback,
{
}

/// A data URL is a type and the bytes that are written behind it: one that was written
/// for a type without a comma splits into that type and what stands for the bytes.
pub proof fn data_urls_hold_type_and_bytes(mime: Seq<char>, encoded: Seq<char>)
    requires
        text::found(mime, ","@) is None,
    ensures
        data_url_parts("data:"@ + mime + ";base64,"@ + encoded) == Ok::<
            (Seq<char>, Seq<char>),
            Seq<char>,
        >((mime, encoded)),
{
    data_urls_split(mime, encoded);
}

/// The exact models that annotate: four take pictures only, and three take pictures,
/// sounds and videos.
pub proof fn annotators_take_their_media(model: Seq<char>, media_type: Seq<char>)
    ensures
        ({
            let picture = text::begins(media_type, "image/"@);
            let sound = text::begins(media_type, "audio/"@) || media_type == "application/ogg"@;
            let video = text::begins(media_type, "video/"@);
            let pictures_only = model == "gpt-5.6"@ || model == "gpt-5.6-sol"@ || model
                == "gpt-5.6-terra"@ || model == "gpt-5.6-luna"@;
            let all_media = model == "gemini-2.5-flash"@ || model == "gemini-3.1-flash-lite"@
                || model == "gemini-3.1-pro-preview"@;
            &&& pictures_only ==> (annotatable(model, media_type) is Ok <==> picture)
            &&& all_media ==> (annotatable(model, media_type) is Ok <==> picture || sound || video)
            &&& !pictures_only && !all_media ==> annotatable(model, media_type) is Err
            &&& transcription_model(model) is Ok <==> model == "gpt-4o-transcribe"@ || all_media
        }),
{
    reveal_strlit("gpt-5.6");
    reveal_strlit("gpt-5.6-sol");
    reveal_strlit("gpt-5.6-terra");
    reveal_strlit("gpt-5.6-luna");
    reveal_strlit("gemini-2.5-flash");
    reveal_strlit("gemini-3.1-flash-lite");
    reveal_strlit("gemini-3.1-pro-preview");
    let images = image_annotators();
    let media = media_annotators();
    assert(images[0] == "gpt-5.6"@ && images[1] == "gpt-5.6-sol"@ && images[2]
        == "gpt-5.6-terra"@ && images[3] == "gpt-5.6-luna"@);
    assert(media[0] == "gemini-2.5-flash"@ && media[1] == "gemini-3.1-flash-lite"@ && media[2]
        == "gemini-3.1-pro-preview"@);
    assert("gpt-5.6"@[1] == 'p' && "gpt-5.6-sol"@[1] == 'p' && "gpt-5.6-terra"@[1] == 'p'
        && "gpt-5.6-luna"@[1] == 'p');
    assert("gemini-2.5-flash"@[1] == 'e' && "gemini-3.1-flash-lite"@[1] == 'e'
        && "gemini-3.1-pro-preview"@[1] == 'e');
    assert(images.contains(model) <==> model == images[0] || model == images[1] || model
        == images[2] || model == images[3]) by {
        if images.contains(model) {
            let k = images.index_of(model);
            assert(images[k] == model);
        }
    }
    assert(media.contains(model) <==> model == media[0] || model == media[1] || model == media[2])
        by {
        if media.contains(model) {
            let k = media.index_of(model);
            assert(media[k] == model);
        }
    }
}

/// A file is named after its type.
pub proof fn extensions_follow_their_type()
    ensures
        extension_of("image/jpeg"@) == "jpg"@,
        extension_of("image/png"@) == "png"@,
        extension_of("image/webp"@) == "webp"@,
        extension_of("image/gif"@) == "gif"@,
        extension_of("audio/ogg"@) == "ogg"@,
        extension_of("audio/opus"@) == "ogg"@,
        extension_of("application/ogg"@) == "ogg"@,
        extension_of("audio/mpeg"@) == "mp3"@,
        extension_of("audio/mp3"@) == "mp3"@,
        extension_of("audio/mp4"@) == "mp4"@,
        extension_of("video/mp4"@) == "mp4"@,
        extension_of("audio/webm"@) == "webm"@,
        extension_of("video/webm"@) == "webm"@,
        extension_of("audio/wav"@) == "wav"@,
        extension_of("audio/x-wav"@) == "wav"@,
        extension_of("application/pdf"@) == "pdf"@,
        extension_of("application/octet-stream"@) == "bin"@,
{
    media_names_differ();
}

/// The names of the types that files are named after differ.
proof fn media_names_differ()
    ensures
        seq![
            "image/jpeg"@,
            "image/png"@,
            "image/webp"@,
            "image/gif"@,
            "audio/ogg"@,
            "audio/opus"@,
            "application/ogg"@,
            "audio/mpeg"@,
            "audio/mp3"@,
            "audio/mp4"@,
            "video/mp4"@,
            "audio/webm"@,
            "video/webm"@,
            "audio/wav"@,
            "audio/x-wav"@,
            "application/pdf"@,
            "application/octet-stream"@,
        ].no_duplicates(),
        "image/jpeg"@ != "image/webp"@,
        "image/jpeg"@ != "image/png"@,
        "image/jpeg"@ != "image/gif"@,
{
    reveal_strlit("image/jpeg");
    reveal_strlit("image/png");
    reveal_strlit("image/webp");
    reveal_strlit("image/gif");
    reveal_strlit("audio/ogg");
    reveal_strlit("audio/opus");
    reveal_strlit("application/ogg");
    reveal_strlit("audio/mpeg");
    reveal_strlit("audio/mp3");
    reveal_strlit("audio/mp4");
    reveal_strlit("video/mp4");
    reveal_strlit("audio/webm");
    reveal_strlit("video/webm");
    reveal_strlit("audio/wav");
    reveal_strlit("audio/x-wav");
    reveal_strlit("application/pdf");
    reveal_strlit("application/octet-stream");
    assert("image/jpeg"@.len() == 10 && "image/jpeg"@[0] == 'i' && "image/jpeg"@[6] == 'j');
    assert("image/webp"@.len() == 10 && "image/webp"@[0] == 'i' && "image/webp"@[6] == 'w');
    assert("audio/opus"@.len() == 10 && "audio/opus"@[0] == 'a' && "audio/opus"@[6] == 'o');
    assert("audio/mpeg"@.len() == 10 && "audio/mpeg"@[0] == 'a' && "audio/mpeg"@[6] == 'm');
    assert("audio/webm"@.len() == 10 && "audio/webm"@[0] == 'a' && "audio/webm"@[6] == 'w');
    assert("video/webm"@.len() == 10 && "video/webm"@[0] == 'v' && "video/webm"@[6] == 'w');
    assert("image/png"@.len() == 9 && "image/png"@[0] == 'i' && "image/png"@[6] == 'p');
    assert("image/gif"@.len() == 9 && "image/gif"@[0] == 'i' && "image/gif"@[6] == 'g');
    assert("audio/ogg"@.len() == 9 && "audio/ogg"@[0] == 'a' && "audio/ogg"@[6] == 'o');
    assert("audio/mp3"@.len() == 9 && "audio/mp3"@[0] == 'a' && "audio/mp3"@[6] == 'm'
        && "audio/mp3"@[8] == '3');
    assert("audio/mp4"@.len() == 9 && "audio/mp4"@[0] == 'a' && "audio/mp4"@[6] == 'm'
        && "audio/mp4"@[8] == '4');
    assert("video/mp4"@.len() == 9 && "video/mp4"@[0] == 'v');
    assert("audio/wav"@.len() == 9 && "audio/wav"@[0] == 'a' && "audio/wav"@[6] == 'w');
    assert("audio/x-wav"@.len() == 11);
    assert("application/ogg"@.len() == 15 && "application/ogg"@[12] == 'o');
    assert("application/pdf"@.len() == 15 && "application/pdf"@[12] == 'p');
    assert("application/octet-stream"@.len() == 24);
}

/// A type that is written as one is kept, and what is none is a type of its own.
pub proof fn files_keep_a_plain_type(value: Seq<char>)
    ensures
        text::found(bare_type(value), "/"@) is None ==> file_type(value)
            == "application/octet-stream"@,
        text::found(bare_type(value), "/"@) is Some && (forall|i: int|
            0 <= i < bare_type(value).len() ==> !text::is_space(#[trigger] bare_type(value)[i])
                && !(bare_type(value)[i] as u32 <= 31) && !(127 <= bare_type(value)[i] as u32
                <= 159)) ==> file_type(value) == bare_type(value),
        (exists|i: int|
            0 <= i < bare_type(value).len() && text::is_space(#[trigger] bare_type(value)[i]))
            ==> file_type(value) == "application/octet-stream"@,
{
}

/// A picture is written as what it is, and as a png where that is not known.
pub proof fn pictures_are_named_by_their_type(media_type: Seq<char>)
    ensures
        bare_type(media_type) == "image/jpeg"@ ==> picture_extension(media_type) == "jpg"@,
        bare_type(media_type) == "image/webp"@ ==> picture_extension(media_type) == "webp"@,
        bare_type(media_type) != "image/jpeg"@ && bare_type(media_type) != "image/webp"@
            ==> picture_extension(media_type) == "png"@,
{
    media_names_differ();
}

/// Sounds of these types are transcribed, and no pictures, films or other files are.
pub proof fn sounds_are_transcribed(media_type: Seq<char>)
    ensures
        transcribable("audio/flac"@) is Ok,
        transcribable("audio/x-flac"@) is Ok,
        transcribable("audio/m4a"@) is Ok,
        transcribable("audio/mp3"@) is Ok,
        transcribable("audio/mp4"@) is Ok,
        transcribable("audio/mpeg"@) is Ok,
        transcribable("audio/mpga"@) is Ok,
        transcribable("audio/ogg"@) is Ok,
        transcribable("audio/opus"@) is Ok,
        transcribable("audio/wav"@) is Ok,
        transcribable("audio/x-wav"@) is Ok,
        transcribable("audio/webm"@) is Ok,
        transcribable("application/ogg"@) is Ok,
        media_type.len() == 0 || media_type[0] != 'a' ==> transcribable(media_type) is Err,
        transcribable(media_type) is Ok && media_type != "application/ogg"@ ==> text::begins(
            media_type,
            "audio/"@,
        ),
{
    let types = transcribable_types();
    assert(types[0] == "audio/flac"@ && types[1] == "audio/x-flac"@ && types[2] == "audio/m4a"@);
    assert(types[3] == "audio/mp3"@ && types[4] == "audio/mp4"@ && types[5] == "audio/mpeg"@);
    assert(types[6] == "audio/mpga"@ && types[7] == "audio/ogg"@ && types[8] == "audio/opus"@);
    assert(types[9] == "audio/wav"@ && types[10] == "audio/x-wav"@ && types[11] == "audio/webm"@);
    assert(types[12] == "application/ogg"@);
    reveal_strlit("audio/");
    reveal_strlit("audio/flac");
    reveal_strlit("audio/x-flac");
    reveal_strlit("audio/m4a");
    reveal_strlit("audio/mp3");
    reveal_strlit("audio/mp4");
    reveal_strlit("audio/mpeg");
    reveal_strlit("audio/mpga");
    reveal_strlit("audio/ogg");
    reveal_strlit("audio/opus");
    reveal_strlit("audio/wav");
    reveal_strlit("audio/x-wav");
    reveal_strlit("audio/webm");
    reveal_strlit("application/ogg");
    assert("application/ogg"@[0] == 'a');
    assert forall|i: int| 0 <= i < 12 implies text::begins(#[trigger] types[i], "audio/"@)
        && types[i].len() > 0 && types[i][0] == 'a' by {
        assert(types[i].subrange(0, 6) =~= "audio/"@);
        assert(types[i].subrange(0, 6)[0] == types[i][0]);
    }
    if types.contains(media_type) {
        let i = types.index_of(media_type);
        assert(types[i] == media_type);
    }
}

/// The text of a file is taken out where its type is a text's or its name ends as a
/// document's, in whatever case, and not where neither holds.
pub proof fn documents_are_known_by_type_or_name(
    kind: Seq<char>,
    media_type: Seq<char>,
    stem: Seq<char>,
    extension: Seq<char>,
)
    requires
        !extension.contains('.'),
    ensures
        bare_type(media_type) == "text/"@ + kind ==> extractable(media_type, stem) is Ok,
        bare_type(media_type) == "application/pdf"@ ==> extractable(media_type, stem) is Ok,
        bare_type(media_type) == "application/json"@ ==> extractable(media_type, stem) is Ok,
        text::lowered(extension) == "pdf"@ ==> extractable(media_type, stem + "."@ + extension)
            is Ok,
        text::lowered(extension) == "docx"@ ==> extractable(media_type, stem + "."@ + extension)
            is Ok,
        text::lowered(extension) == "xlsx"@ ==> extractable(media_type, stem + "."@ + extension)
            is Ok,
        text::lowered(extension) == "txt"@ ==> extractable(media_type, stem + "."@ + extension)
            is Ok,
        text::lowered(extension) == "md"@ ==> extractable(media_type, stem + "."@ + extension)
            is Ok,
        text::lowered(extension) == "csv"@ ==> extractable(media_type, stem + "."@ + extension)
            is Ok,
        bare_type(media_type).len() > 0 && bare_type(media_type)[0] != 't' && bare_type(
            media_type,
        )[0] != 'a' && (extension.len() == 0 || extension.len() > 4) ==> extractable(
            media_type,
            stem + "."@ + extension,
        ) is Err,
{
    extensions_follow_the_last_dot(stem, extension);
    let bare = bare_type(media_type);
    assert(("text/"@ + kind).subrange(0, "text/"@.len() as int) =~= "text/"@);
    let types = document_types();
    assert(types[0] == "application/pdf"@ && types[7] == "application/json"@);
    let extensions = document_extensions();
    assert(extensions[0] == "pdf"@ && extensions[2] == "docx"@ && extensions[3] == "xlsx"@);
    assert(extensions[9] == "txt"@ && extensions[10] == "md"@ && extensions[7] == "csv"@);
    if bare.len() > 0 && bare[0] != 't' && bare[0] != 'a' && (extension.len() == 0
        || extension.len() > 4) {
        reveal_strlit("text/");
        if text::begins(bare, "text/"@) {
            assert(bare.subrange(0, 5)[0] == bare[0]);
            assert("text/"@[0] == 't');
        }
        document_names_begin_alike();
        if types.contains(bare) {
            let i = types.index_of(bare);
            assert(types[i] == bare);
        }
        if extensions.contains(text::lowered(extension)) {
            let i = extensions.index_of(text::lowered(extension));
            assert(extensions[i] == text::lowered(extension));
            assert(text::lowered(extension).len() == extension.len());
        }
    }
}

/// The documents' types begin alike, and their extensions have two to four characters.
proof fn document_names_begin_alike()
    ensures
        forall|i: int|
            0 <= i < document_types().len() ==> (#[trigger] document_types()[i]).len() > 0
                && document_types()[i][0] == 'a',
        forall|i: int|
            0 <= i < document_extensions().len() ==> 2 <= (#[trigger] document_extensions()[i]).len()
                <= 4,
{
    reveal_strlit("application/pdf");
    reveal_strlit("application/msword");
    reveal_strlit("application/vnd.openxmlformats-officedocument.wordprocessingml.document");
    reveal_strlit("application/vnd.openxmlformats-officedocument.spreadsheetml.sheet");
    reveal_strlit("application/vnd.ms-excel");
    reveal_strlit("application/vnd.ms-excel.sheet.binary.macroenabled.12");
    reveal_strlit("application/vnd.oasis.opendocument.spreadsheet");
    reveal_strlit("application/json");
    reveal_strlit("application/xml");
    reveal_strlit("application/yaml");
    reveal_strlit("application/x-yaml");
    reveal_strlit("pdf");
    reveal_strlit("doc");
    reveal_strlit("docx");
    reveal_strlit("xlsx");
    reveal_strlit("xls");
    reveal_strlit("xlsb");
    reveal_strlit("ods");
    reveal_strlit("csv");
    reveal_strlit("tsv");
    reveal_strlit("txt");
    reveal_strlit("md");
    reveal_strlit("json");
    reveal_strlit("yaml");
    reveal_strlit("yml");
    reveal_strlit("xml");
}

/// Pictures are made by these two models and no other.
pub proof fn pictures_are_made_by_their_models(model: Seq<char>)
    ensures
        image_model("gpt-image-2"@) is Ok,
        image_model("gemini-3-pro-image"@) is Ok,
        model != "gpt-image-2"@ && model != "gemini-3-pro-image"@ ==> image_model(model) is Err,
{
}

/// A user's file is told by its place, its object and its name, and by its type and its
/// size at the end.
pub proof fn user_files_are_told(
    ordinal: nat,
    object_id: Seq<char>,
    file_name: Seq<char>,
    media_type: Seq<char>,
    size_bytes: nat,
)
    ensures
        text::begins(
            user_file(ordinal, object_id, file_name, media_type, size_bytes),
            "User-provided file "@ + text::digits(ordinal) + "\nObject reference: "@ + object_id
                + "\nOriginal filename: "@ + file_name + "\nExtension: "@ + shown_extension(
                file_name,
            ),
        ),
        text::ends(
            user_file(ordinal, object_id, file_name, media_type, size_bytes),
            "\nMIME type: "@ + bare_type(media_type) + "\nSize: "@ + text::digits(size_bytes)
                + " bytes"@,
        ),
{
    let whole = user_file(ordinal, object_id, file_name, media_type, size_bytes);
    let start = "User-provided file "@ + text::digits(ordinal) + "\nObject reference: "@ + object_id
        + "\nOriginal filename: "@ + file_name + "\nExtension: "@ + shown_extension(file_name);
    let end = "\nMIME type: "@ + bare_type(media_type) + "\nSize: "@ + text::digits(size_bytes)
        + " bytes"@;
    assert(whole.subrange(0, start.len() as int) =~= start);
    assert(whole.subrange(whole.len() - end.len(), whole.len() as int) =~= end);
}

} // verus!
