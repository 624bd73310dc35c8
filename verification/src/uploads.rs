//! The session history as browsers see it: uploads, statuses and headers.

use crate::json::{Json, JsonView};
use crate::providers;
use crate::services;
use crate::services::ApiError;
use crate::text;
use vstd::prelude::*;

verus! {

/// The most bytes of a request.
pub const MAX_OBJECT_BYTES: u64 = 34_359_738_368;

/// A file that was uploaded.
#[derive(Debug)]
pub struct UploadedFile {
    pub file_name: Option<String>,
    pub media_type: Option<String>,
    pub bytes: Vec<u8>,
}

/// A field of an upload.
#[derive(Debug)]
pub struct UploadField {
    pub name: Option<String>,
    pub file: UploadedFile,
}

/// An object that is staged.
#[derive(Debug)]
pub struct NewObject {
    pub file_name: Option<String>,
    pub media_type: String,
    pub bytes: Vec<u8>,
}

/// The mathematical value of an object: its name, its type and its bytes.
pub type ObjectView = (Option<Seq<char>>, Seq<char>, Seq<u8>);

impl DeepView for UploadField {
    type V = (Option<Seq<char>>, (Option<Seq<char>>, Seq<char>, Seq<u8>));

    open spec fn deep_view(&self) -> (
        Option<Seq<char>>,
        (Option<Seq<char>>, Seq<char>, Seq<u8>),
    ) {
        (
            self.name.deep_view(),
            (
                self.file.file_name.deep_view(),
                match self.file.media_type {
                    Some(media_type) => media_type@,
                    None => "application/octet-stream"@,
                },
                self.file.bytes@,
            ),
        )
    }
}

/// Whether a field of an upload is its file.
pub fn is_file_field(name: Option<&str>) -> (yes: bool)
    ensures
        yes == (name.deep_view() == Some("file"@)),
{
    match name {
        Some(name) => *name == *"file",
        None => false,
    }
}

/// The files among the fields of an upload.
pub open spec fn files_in(fields: Seq<(Option<Seq<char>>, ObjectView)>) -> Seq<ObjectView>
    decreases fields.len(),
{
    if fields.len() == 0 {
        Seq::empty()
    } else {
        let files = files_in(fields.drop_last());
        if fields.last().0 == Some("file"@) {
            files.push(fields.last().1)
        } else {
            files
        }
    }
}

/// A refusal of a request.
pub open spec fn bad_request(message: Seq<char>) -> services::ApiView {
    (Some(400), "invalid_request"@, message)
}

/// The object of an upload: an upload has exactly one file.
pub open spec fn uploaded(fields: Seq<(Option<Seq<char>>, ObjectView)>) -> Result<
    ObjectView,
    services::ApiView,
> {
    let files = files_in(fields);
    if files.len() == 0 {
        Err(bad_request("Multipart upload omitted the file field."@))
    } else if files.len() == 1 {
        Ok(files[0])
    } else {
        Err(bad_request("Upload exactly one object per request."@))
    }
}

/// The files of a longer upload are at least as many.
proof fn files_add_up(fields: Seq<(Option<Seq<char>>, ObjectView)>, n: int)
    requires
        0 <= n <= fields.len(),
    ensures
        files_in(fields.take(n)).len() <= files_in(fields).len(),
    decreases fields.len(),
{
    if n == fields.len() {
        assert(fields.take(n) =~= fields);
    } else {
        files_add_up(fields.drop_last(), n);
        assert(fields.drop_last().take(n) =~= fields.take(n));
    }
}

/// The object of an upload.
pub fn staged_upload(fields: Vec<UploadField>) -> (result: Result<NewObject, ApiError>)
    ensures
        match result {
            Ok(object) => uploaded(fields.deep_view()) == Ok::<ObjectView, services::ApiView>(
                (object.file_name.deep_view(), object.media_type@, object.bytes@),
            ),
            Err(error) => uploaded(fields.deep_view()) == Err::<ObjectView, services::ApiView>(
                error@,
            ),
        },
{
    let ghost views = fields.deep_view();
    let count: usize = fields.len();
    let mut rest = fields;
    let mut object: Option<NewObject> = None;
    let ghost total = views.len();
    let mut i: usize = 0;
    assert(rest.deep_view() =~= views.skip(0));
    assert(files_in(views.take(0)) =~= Seq::empty());
    while i < count
        invariant
            i <= count,
            count == views.len(),
            views == fields.deep_view(),
            rest.deep_view() == views.skip(i as int),
            match object {
                Some(object) => files_in(views.take(i as int)) == seq![
                    (object.file_name.deep_view(), object.media_type@, object.bytes@),
                ],
                None => files_in(views.take(i as int)) == Seq::<ObjectView>::empty(),
            },
        decreases count - i,
    {
        assert(rest.deep_view().len() == rest.len());
        assert(rest.deep_view()[0] == views[i as int]);
        let ghost before = rest;
        let field = rest.remove(0);
        assert forall|j: int| 0 <= j < rest.len() implies #[trigger] rest.deep_view()[j]
            == views.skip(i + 1)[j] by {
            assert(rest@[j] == before@[j + 1]);
            assert(before.deep_view()[j + 1] == views.skip(i as int)[j + 1]);
        }
        assert(rest.deep_view() =~= views.skip(i + 1));
        assert(views.take(i + 1).drop_last() =~= views.take(i as int));
        let named = match &field.name {
            Some(name) => *name.as_str() == *"file",
            None => false,
        };
        if named {
            let media_type = match field.file.media_type {
                Some(media_type) => media_type,
                None => "application/octet-stream".to_owned(),
            };
            if object.is_some() {
                proof {
                    files_add_up(views, i + 1);
                }
                return Err(
                    ApiError::new(
                        Some(400),
                        "invalid_request",
                        "Upload exactly one object per request.",
                    ),
                );
            }
            object = Some(
                NewObject {
                    file_name: field.file.file_name,
                    media_type,
                    bytes: field.file.bytes,
                },
            );
            assert(files_in(views.take(i + 1)) =~= seq![views[i as int].1]);
        }
        i = i + 1;
    }
    assert(views.take(total as int) =~= views);
    match object {
        Some(object) => Ok(object),
        None => Err(
            ApiError::new(
                Some(400),
                "invalid_request",
                "Multipart upload omitted the file field.",
            ),
        ),
    }
}

/// The answer to an upload.
pub fn upload_answer(pending_id: &str, bytes: usize) -> (answer: Json)
    ensures
        answer@ == JsonView::Object(Map::empty()).with("pendingId"@, JsonView::Text(pending_id@)).with(
            "bytes"@,
            JsonView::Integer(bytes as int),
        ),
{
    Json::object().with("pendingId", Json::text(pending_id)).with(
        "bytes",
        Json::unsigned(bytes as u64),
    )
}

/// The status of the answer to a request that may create something: a repeated one
/// creates nothing.
pub fn created_status(created: bool) -> (status: u16)
    ensures
        status == if created {
            201u16
        } else {
            200u16
        },
{
    if created {
        201
    } else {
        200
    }
}

/// An adapter's own failure, which is not told.
pub fn adapter_error() -> (error: ApiError)
    ensures
        error@ == (
            Some(500u16),
            "internal_error"@,
            "An unexpected Session History adapter error occurred."@,
        ),
{
    ApiError::new(
        Some(500),
        "internal_error",
        "An unexpected Session History adapter error occurred.",
    )
}

/// A failure as it is answered.
pub fn error_body(error: &ApiError) -> (body: Json)
    ensures
        body@ == JsonView::Object(Map::empty()).with(
            "error"@,
            JsonView::Object(Map::empty()).with("code"@, JsonView::Text(error.code@)).with(
                "message"@,
                JsonView::Text(error.message@),
            ),
        ),
{
    Json::object().with(
        "error",
        Json::object().with("code", Json::text(error.code.as_str())).with(
            "message",
            Json::text(error.message.as_str()),
        ),
    )
}

/// The headers that an object is served with.
#[derive(Debug, PartialEq, Eq)]
pub struct ObjectHeaders {
    pub content_type: String,
    pub content_disposition: String,
    pub content_length: String,
    pub cache_control: &'static str,
    pub content_type_options: &'static str,
}

/// How the name of a served object is told.
pub open spec fn disposition(file_name: Seq<char>) -> Seq<char> {
    "inline; filename=\""@ + file_name + "\""@
}

/// The headers that an object is served with. An object whose type or name no header can
/// hold is not served.
pub fn object_headers(media_type: &str, file_name: &str, bytes: usize) -> (result: Result<
    ObjectHeaders,
    ApiError,
>)
    ensures
        result is Ok == (providers::header_value(media_type@) && providers::header_value(
            disposition(file_name@),
        ) && providers::header_value(text::digits(bytes as nat))),
        result is Ok ==> result->Ok_0.content_type@ == media_type@
            && result->Ok_0.content_disposition@ == disposition(file_name@)
            && result->Ok_0.content_length@ == text::digits(bytes as nat)
            && result->Ok_0.cache_control@ == "private, no-store, max-age=0"@
            && result->Ok_0.content_type_options@ == "nosniff"@,
        result is Err ==> result->Err_0@ == (
            Some(500u16),
            "internal_error"@,
            "An unexpected Session History adapter error occurred."@,
        ),
{
    let mut content_disposition = "inline; filename=\"".to_owned();
    content_disposition.append(file_name);
    content_disposition.append("\"");
    let content_length = text::decimal(bytes as u128);
    if providers::is_header_value(media_type) && providers::is_header_value(
        content_disposition.as_str(),
    ) && providers::is_header_value(content_length.as_str()) {
        Ok(
            ObjectHeaders {
                content_type: media_type.to_owned(),
                content_disposition,
                content_length,
                cache_control: "private, no-store, max-age=0",
                content_type_options: "nosniff",
            },
        )
    } else {
        Err(adapter_error())
    }
}

/// The files of an upload are its fields of that name, in order, and an upload is taken
/// where it has exactly one.
pub proof fn uploads_have_one_file(fields: Seq<(Option<Seq<char>>, ObjectView)>)
    ensures
        ({
            let files = fields.filter_map(
                |field: (Option<Seq<char>>, ObjectView)|
                    if field.0 == Some("file"@) {
                        Some(field.1)
                    } else {
                        None
                    },
            );
            &&& uploaded(fields) is Ok <==> files.len() == 1
            &&& uploaded(fields) is Ok ==> uploaded(fields)->Ok_0 == files[0]
        }),
{
    files_are_picked(fields);
}

/// The fields that hold files are picked in order.
proof fn files_are_picked(fields: Seq<(Option<Seq<char>>, ObjectView)>)
    ensures
        files_in(fields) == fields.filter_map(
            |field: (Option<Seq<char>>, ObjectView)|
                if field.0 == Some("file"@) {
                    Some(field.1)
                } else {
                    None
                },
        ),
    decreases fields.len(),
{
    if fields.len() > 0 {
        files_are_picked(fields.drop_last());
    }
}

} // verus!
