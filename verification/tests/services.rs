use kennedy_orchestration::delivery::{telegram_caption_for, telegram_native_kind, ResolvedObject};
use kennedy_orchestration::delivery::TELEGRAM_CAPTION_LIMIT_UTF16;
use kennedy_orchestration::digest::{hash_text, stable_idempotency_id};
use kennedy_orchestration::json::Json;
use kennedy_orchestration::media::{data_url, decode_data_url};
use kennedy_orchestration::render::append_object_ids;
use kennedy_orchestration::services::{
    audio_error, bootstrap_root_metadata, decode_error, decode_response, directory_error,
    encode_path, history_error, history_status, intelligence_error, kmap_error, local_api_error,
    media_for_annotation, media_for_image, network_error, record_path, speech_ktool_error,
    telegram_attachment, telegram_file_form, telegram_private_file_form, trim_base, Answer,
    FormField, IntelligenceErrorKind, KmapErrorKind, Media, MediaKind, SpeechFailure,
    StoreErrorKind,
};
use kennedy_orchestration::uploads::{
    adapter_error, created_status, error_body, object_headers, staged_upload, upload_answer,
    UploadField, UploadedFile,
};

fn convert(value: serde_json::Value) -> Json {
    match value {
        serde_json::Value::Null => Json::Null,
        serde_json::Value::Bool(flag) => Json::Bool(flag),
        serde_json::Value::Number(number) => match (number.as_i64(), number.as_u64()) {
            (Some(n), _) => Json::Integer(n as i128),
            (_, Some(n)) => Json::Integer(n as i128),
            _ => Json::Real(number.to_string()),
        },
        serde_json::Value::String(text) => Json::Text(text),
        serde_json::Value::Array(items) => Json::Array(items.into_iter().map(convert).collect()),
        serde_json::Value::Object(members) => {
            Json::Object(members.into_iter().map(|(key, value)| (key, convert(value))).collect())
        }
    }
}

fn json(text: &str) -> Json {
    convert(serde_json::from_str(text).unwrap())
}

fn value(text: &str) -> serde_json::Value {
    serde_json::from_str(text).unwrap()
}

fn plain(json: &Json) -> serde_json::Value {
    match json {
        Json::Null => serde_json::Value::Null,
        Json::Bool(flag) => serde_json::Value::Bool(*flag),
        Json::Integer(number) => match (i64::try_from(*number), u64::try_from(*number)) {
            (Ok(n), _) => serde_json::Value::from(n),
            (_, Ok(n)) => serde_json::Value::from(n),
            _ => unreachable!(),
        },
        Json::Real(text) => serde_json::from_str(text).unwrap(),
        Json::Text(text) => serde_json::Value::String(text.clone()),
        Json::Array(items) => serde_json::Value::Array(items.iter().map(plain).collect()),
        Json::Object(members) => serde_json::Value::Object(
            members.iter().map(|(key, value)| (key.clone(), plain(value))).collect(),
        ),
    }
}

#[test]
fn http_binary_output_ids_preserve_exact_guest_text() {
    let mut text = "plain text".to_owned();
    append_object_ids(&mut text, &vec![]);
    assert_eq!(text, "plain text");

    append_object_ids(&mut text, &vec!["object-1".into()]);
    assert_eq!(text, "plain text\nobject-1");

    let mut text = "already terminated\n".to_owned();
    append_object_ids(&mut text, &vec!["one".into(), "two".into()]);
    assert_eq!(text, "already terminated\none\ntwo");
}

#[test]
fn services_binary_output_ids_preserve_exact_guest_text() {
    let mut text = "plain text".to_owned();
    append_object_ids(&mut text, &vec![]);
    assert_eq!(text, "plain text");

    append_object_ids(&mut text, &vec!["object-1".into()]);
    assert_eq!(text, "plain text\nobject-1");

    let mut text = "already terminated\n".to_owned();
    append_object_ids(&mut text, &vec!["one".into(), "two".into()]);
    assert_eq!(text, "already terminated\none\ntwo");
}

#[test]
fn http_known_ogg_audio_is_not_misclassified_as_video() {
    let media = media_for_annotation(vec![1], "voice.ogg".into(), "video/ogg").unwrap();
    assert_eq!(media.kind, MediaKind::Audio);
    assert_eq!(media.content_type, "audio/ogg");
}

#[test]
fn services_known_ogg_audio_is_not_misclassified_as_video() {
    let media = media_for_annotation(vec![1], "voice.ogg".into(), "video/ogg").unwrap();
    assert_eq!(media.kind, MediaKind::Audio);
    assert_eq!(media.content_type, "audio/ogg");
}

#[test]
fn http_image_generation_references_require_image_media() {
    let media =
        media_for_image(vec![1], "reference.png".into(), "image/png; charset=binary").unwrap();
    assert_eq!(media.kind, MediaKind::Image);
    assert_eq!(media.content_type, "image/png");
    assert!(media_for_image(vec![1], "notes.txt".into(), "text/plain").is_err());
}

#[test]
fn services_image_generation_references_require_image_media() {
    let media =
        media_for_image(vec![1], "reference.png".into(), "image/png; charset=binary").unwrap();
    assert_eq!(media.kind, MediaKind::Image);
    assert_eq!(media.content_type, "image/png");
    assert!(media_for_image(vec![1], "notes.txt".into(), "text/plain").is_err());
}

#[test]
fn http_durable_work_uses_stable_valid_idempotency_ids() {
    let first = stable_idempotency_id("audio-ingress", "piece-1");
    assert_eq!(first, stable_idempotency_id("audio-ingress", "piece-1"));
    assert_ne!(first, stable_idempotency_id("conversation-ingress", "piece-1"));
    assert_eq!(first.len(), 32);
    assert!(first.bytes().all(|byte| byte.is_ascii_hexdigit()));
}

#[test]
fn services_durable_work_uses_stable_valid_idempotency_ids() {
    let first = stable_idempotency_id("audio-ingress", "piece-1");
    assert_eq!(first, stable_idempotency_id("audio-ingress", "piece-1"));
    assert_ne!(first, stable_idempotency_id("conversation-ingress", "piece-1"));
    assert_eq!(first.len(), 32);
    assert!(first.bytes().all(|byte| byte.is_ascii_hexdigit()));
}

#[test]
fn http_provisioned_roots_have_complete_context_summaries() {
    let (user_name, user_description, user_long_description) = bootstrap_root_metadata(None);
    assert_eq!(user_name, "User Root");
    assert!(!user_description.trim().is_empty());
    assert!(!user_long_description.trim().is_empty());

    let (group_name, group_description, group_long_description) =
        bootstrap_root_metadata(Some("Group Root"));
    assert_eq!(group_name, "Group Root");
    assert!(!group_description.trim().is_empty());
    assert!(!group_long_description.trim().is_empty());

    let (custom_name, custom_description, custom_long_description) =
        bootstrap_root_metadata(Some("Custom Root"));
    assert_eq!(custom_name, "Custom Root");
    assert!(!custom_description.trim().is_empty());
    assert!(!custom_long_description.trim().is_empty());
}

#[test]
fn services_provisioned_roots_have_complete_context_summaries() {
    let (user_name, user_description, user_long_description) = bootstrap_root_metadata(None);
    assert_eq!(user_name, "User Root");
    assert!(!user_description.trim().is_empty());
    assert!(!user_long_description.trim().is_empty());

    let (group_name, group_description, group_long_description) =
        bootstrap_root_metadata(Some("Group Root"));
    assert_eq!(group_name, "Group Root");
    assert!(!group_description.trim().is_empty());
    assert!(!group_long_description.trim().is_empty());

    let (custom_name, custom_description, custom_long_description) =
        bootstrap_root_metadata(Some("Custom Root"));
    assert_eq!(custom_name, "Custom Root");
    assert!(!custom_description.trim().is_empty());
    assert!(!custom_long_description.trim().is_empty());
}

#[test]
fn http_telegram_native_delivery_prefers_preserved_transport_kind() {
    assert_eq!(telegram_native_kind("image/webp", Some("sticker")), Some("sticker"));
    assert_eq!(telegram_native_kind("video/mp4", Some("video_note")), Some("video_note"));
    assert_eq!(telegram_native_kind("image/gif", None), Some("animation"));
    assert_eq!(telegram_native_kind("application/pdf", Some("document")), None);
}

#[test]
fn services_telegram_native_delivery_prefers_preserved_transport_kind() {
    assert_eq!(telegram_native_kind("image/webp", Some("sticker")), Some("sticker"));
    assert_eq!(telegram_native_kind("video/mp4", Some("video_note")), Some("video_note"));
    assert_eq!(telegram_native_kind("image/gif", None), Some("animation"));
    assert_eq!(telegram_native_kind("application/pdf", Some("document")), None);
}

#[test]
fn speech_ktool_errors_keep_the_existing_public_failure_boundary() {
    let malformed = speech_ktool_error(
        SpeechFailure::Call,
        "decoding kcode-speech-classification/identify arguments",
    );
    assert_eq!(malformed.code, "invalid_request");
    assert_eq!(
        malformed.message,
        "decoding kcode-speech-classification/identify arguments"
    );

    let validation =
        speech_ktool_error(SpeechFailure::Validation, "row.perceived_age: must be positive");
    assert_eq!(validation.code, "invalid_request");
    assert_eq!(validation.message, "row.perceived_age: must be positive");

    let storage = speech_ktool_error(SpeechFailure::Storage, "private detail");
    assert_eq!(storage.code, "internal_error");
    assert_eq!(
        storage.message,
        "An unexpected Kennedy speaker-classification error occurred."
    );
}

fn file(media_type: &str, transport_kind: Option<&str>) -> ResolvedObject {
    ResolvedObject {
        object_id: "object".into(),
        bytes: vec![1],
        file_name: "object.bin".into(),
        media_type: media_type.into(),
        transport_kind: transport_kind.map(ToOwned::to_owned),
    }
}

#[test]
fn telegram_captions_are_exact_and_fall_back_when_telegram_cannot_attach_them() {
    let exact = "  exact caption\n";
    assert_eq!(
        telegram_caption_for(&file("image/jpeg", Some("photo")), exact),
        Some(exact)
    );
    assert_eq!(
        telegram_caption_for(&file("application/pdf", Some("document")), exact),
        Some(exact)
    );
    assert_eq!(telegram_caption_for(&file("image/webp", Some("sticker")), exact), None);
    assert_eq!(telegram_caption_for(&file("video/mp4", Some("video_note")), exact), None);
    assert_eq!(
        telegram_caption_for(
            &file("image/jpeg", Some("photo")),
            &"x".repeat(TELEGRAM_CAPTION_LIMIT_UTF16 + 1),
        ),
        None
    );
}

#[test]
fn captions_are_counted_in_utf16_units() {
    let photo = file("image/jpeg", Some("photo"));
    let fits = "🦀".repeat(512);
    assert_eq!(telegram_caption_for(&photo, &fits), Some(fits.as_str()));
    let over = format!("{fits}x");
    assert_eq!(telegram_caption_for(&photo, &over), None);
    assert_eq!(telegram_caption_for(&photo, ""), None);
}

#[test]
fn digests_are_those_of_sha256() {
    assert_eq!(
        hash_text("abc"),
        "ba7816bf8f01cfea414140de5dae2223b00361a396177a9cb410ff61f20015ad"
    );
    assert_eq!(
        stable_idempotency_id("audio-ingress", "piece-1"),
        hash_text("audio-ingress\0piece-1")[..32].to_owned()
    );
}

#[test]
fn data_urls_are_read_back() {
    let url = data_url("text/plain", b"hello");
    assert_eq!(url, "data:text/plain;base64,aGVsbG8=");
    assert_eq!(decode_data_url(&url).unwrap(), ("text/plain".to_owned(), b"hello".to_vec()));
    assert!(decode_data_url("data:text/plain,hello").is_err());
    assert!(decode_data_url("data:text/plain;base64,***").is_err());
}

#[test]
fn media_have_bare_types_and_ogg_has_one() {
    let image = Media::new(MediaKind::Image, vec![], "a.png".into(), "Image/PNG; x=1");
    assert_eq!(image.content_type, "image/png");
    assert!(image.bytes.is_empty());
    let audio = Media::new(MediaKind::Audio, vec![1], "a.oga".into(), "audio/mpeg");
    assert_eq!((audio.content_type.as_str(), audio.file_name.as_str()), ("audio/ogg", "a.oga"));
    let video = Media::new(MediaKind::Video, vec![1], "a.ogg".into(), "video/ogg");
    assert_eq!(video.content_type, "video/ogg");
}

#[test]
fn annotated_media_are_images_audio_or_video() {
    let image = media_for_annotation(vec![1], "a".into(), " Image/PNG ; x=y").unwrap();
    assert_eq!(image.kind, MediaKind::Image);
    assert_eq!(image.content_type, "image/png");
    let opus = media_for_annotation(vec![1], "a.OPUS".into(), "application/octet-stream").unwrap();
    assert_eq!(opus.kind, MediaKind::Audio);
    assert_eq!(opus.content_type, "audio/ogg");
    let video = media_for_annotation(vec![1], "a.mp4".into(), "video/mp4").unwrap();
    assert_eq!(video.kind, MediaKind::Video);
    let refused = media_for_annotation(vec![1], "a.txt".into(), "text/plain").unwrap_err();
    assert_eq!(refused.message, "annotation requires image, audio, or video media");
    let reference = media_for_image(vec![1], "a.txt".into(), "text/plain").unwrap_err();
    assert_eq!(reference.message, "image references must use an image content type");
}

#[test]
fn addresses_are_percent_encoded() {
    assert_eq!(encode_path("abc-._~XYZ019"), "abc-._~XYZ019");
    assert_eq!(encode_path("a b/ü?"), "a%20b%2F%C3%BC%3F");
    assert_eq!(
        record_path("/api/v1/conversations", "a/b", Some("complete")),
        "/api/v1/conversations/a%2Fb/complete"
    );
    assert_eq!(record_path("/api/v1/conversations", "a", None), "/api/v1/conversations/a");
}

#[test]
fn bases_lose_their_trailing_slashes() {
    assert_eq!(trim_base("http://localhost:1//"), "http://localhost:1");
    assert_eq!(trim_base("http://localhost:1"), "http://localhost:1");
    assert_eq!(trim_base("///"), "");
}

#[test]
fn service_failures_keep_their_codes() {
    let conflict = kmap_error(KmapErrorKind::Conflict, "taken");
    assert_eq!((conflict.status, conflict.code.as_str()), (Some(409), "conflict"));
    let hidden = kmap_error(KmapErrorKind::Other, "disk");
    assert_eq!(hidden.message, "An unexpected Kmap database error occurred.");
    assert_eq!(kmap_error(KmapErrorKind::InvalidInput, "x").code, "invalid_request");
    assert_eq!(kmap_error(KmapErrorKind::NotFound, "x").status, Some(404));

    let cancelled =
        intelligence_error(IntelligenceErrorKind::Cancelled, "operation_cancelled", "stopped");
    assert_eq!(cancelled.status, Some(409));
    assert_eq!(cancelled.code, "operation_cancelled");
    assert_eq!(intelligence_error(IntelligenceErrorKind::Provider, "p", "m").status, Some(502));
    assert_eq!(intelligence_error(IntelligenceErrorKind::Unavailable, "p", "m").status, Some(503));

    assert_eq!(directory_error(StoreErrorKind::Conflict, "x").code, "state_conflict");
    assert_eq!(history_error(StoreErrorKind::NotFound, "x").code, "not_found");
    assert_eq!(history_status(StoreErrorKind::Storage), 500);
    assert_eq!(
        audio_error(StoreErrorKind::Storage, "private").message,
        "An unexpected Kennedy audio error occurred."
    );
    assert_eq!(audio_error(StoreErrorKind::NotFound, "gone").message, "gone");
    assert_eq!(local_api_error("bad").code, "invalid_request");
    assert_eq!(network_error("http://x").message, "Could not reach http://x.");
    assert_eq!(speech_ktool_error(SpeechFailure::Conflict, "c").code, "state_conflict");
}

#[test]
fn remote_failures_are_told_as_the_service_told_them() {
    let told = decode_error(
        404,
        "404 Not Found",
        &json(r#"{"error":{"code":"not_found","message":"No such session."}}"#),
    );
    assert_eq!(told.code, "not_found");
    assert_eq!(told.message, "No such session.");
    let silent = decode_error(500, "500 Internal Server Error", &Json::Null);
    assert_eq!(silent.code, "request_failed");
    assert_eq!(silent.message, "Request failed (500 Internal Server Error).");

    assert_eq!(decode_response(200, "200 OK", Answer::Empty).unwrap(), Json::Null);
    assert_eq!(
        decode_response(201, "201 Created", Answer::Document(Json::Bool(true))).unwrap(),
        Json::Bool(true)
    );
    let unreadable =
        decode_response(200, "200 OK", Answer::Unreadable("eof".into())).unwrap_err();
    assert_eq!(unreadable.code, "invalid_response");
    assert_eq!(unreadable.message, "Backend returned invalid JSON: eof");
    assert_eq!(
        decode_response(503, "503", Answer::Unreadable("x".into())).unwrap_err().code,
        "request_failed"
    );
}

fn pairs(fields: Vec<FormField>) -> Vec<(String, String)> {
    fields.into_iter().map(|field| (field.name.to_owned(), field.value)).collect()
}

#[test]
fn forms_name_what_telegram_needs() {
    assert_eq!(
        pairs(telegram_file_form("c", "a.png", true, Some("photo"))),
        vec![
            ("conversationId".to_owned(), "c".to_owned()),
            ("fileName".to_owned(), "a.png".to_owned()),
            ("complete".to_owned(), "true".to_owned()),
            ("kind".to_owned(), "photo".to_owned()),
        ]
    );
    assert_eq!(
        pairs(telegram_private_file_form("c", Some("old"), "a.png", None)),
        vec![
            ("conversationId".to_owned(), "c".to_owned()),
            ("fileName".to_owned(), "a.png".to_owned()),
            ("expectedConversationId".to_owned(), "old".to_owned()),
        ]
    );
    let attachment = telegram_attachment(file("image/gif", None), Some("look"));
    assert_eq!(attachment.kind, Some("animation"));
    assert_eq!(attachment.caption.as_deref(), Some("look"));
    assert_eq!(attachment.bytes, vec![1]);
}

fn field(name: &str, bytes: &[u8]) -> UploadField {
    UploadField {
        name: Some(name.into()),
        file: UploadedFile { file_name: None, media_type: None, bytes: bytes.to_vec() },
    }
}

#[test]
fn uploads_hold_exactly_one_file() {
    let object = staged_upload(vec![field("note", b"x"), field("file", b"abc")]).unwrap();
    assert_eq!(object.bytes, b"abc");
    assert_eq!(object.media_type, "application/octet-stream");
    let missing = staged_upload(vec![field("note", b"x")]).err().unwrap();
    assert_eq!(missing.message, "Multipart upload omitted the file field.");
    let twice = staged_upload(vec![field("file", b"a"), field("file", b"b")]).err().unwrap();
    assert_eq!(twice.message, "Upload exactly one object per request.");
    assert_eq!(twice.status, Some(400));
    assert_eq!(
        plain(&upload_answer("pending:1", 3)),
        value(r#"{"pendingId":"pending:1","bytes":3}"#)
    );
    assert_eq!((created_status(true), created_status(false)), (201, 200));
}

#[test]
fn objects_are_served_with_safe_headers() {
    let headers = object_headers("image/png", "photo.png", 42).unwrap();
    assert_eq!(headers.content_disposition, "inline; filename=\"photo.png\"");
    assert_eq!(headers.content_length, "42");
    assert_eq!(headers.cache_control, "private, no-store, max-age=0");
    assert_eq!(headers.content_type_options, "nosniff");
    assert_eq!(object_headers("image/png", "a\nb", 1).unwrap_err(), adapter_error());
    assert!(object_headers("image/png", "résumé.png", 1).is_ok());
    assert_eq!(
        plain(&error_body(&adapter_error())),
        value(
            r#"{"error":{"code":"internal_error","message":"An unexpected Session History adapter error occurred."}}"#
        )
    );
}
