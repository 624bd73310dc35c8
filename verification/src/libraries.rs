//! What the tools that work on Rust libraries answer.

use crate::json;
use crate::json::{Json, JsonView};
use crate::registry;
use crate::registry::ToolError;
use crate::text;
use crate::text::Failure;
use vstd::prelude::*;

verus! {

/// A file of a library.
#[derive(Debug, PartialEq, Eq)]
pub struct SourceFile {
    pub path: String,
    pub contents: String,
}

impl View for SourceFile {
    type V = (Seq<char>, Seq<char>);

    open spec fn view(&self) -> (Seq<char>, Seq<char>) {
        (self.path@, self.contents@)
    }
}

impl DeepView for SourceFile {
    type V = (Seq<char>, Seq<char>);

    open spec fn deep_view(&self) -> (Seq<char>, Seq<char>) {
        self@
    }
}

/// A file as it is shown.
pub open spec fn shown_file(file: (Seq<char>, Seq<char>)) -> JsonView {
    JsonView::Object(Map::empty()).with("path"@, JsonView::Text(file.0)).with(
        "contents"@,
        JsonView::Text(file.1),
    )
}

/// A library as it is shown when it is opened.
pub open spec fn snapshot_of(name: Seq<char>, files: Seq<(Seq<char>, Seq<char>)>) -> JsonView {
    JsonView::Object(Map::empty()).with("name"@, JsonView::Text(name)).with(
        "files"@,
        JsonView::Array(files.map_values(|file: (Seq<char>, Seq<char>)| shown_file(file))),
    )
}

/// A library as it is shown when it is opened.
pub fn library_snapshot(name: &str, files: &Vec<SourceFile>) -> (shown: Json)
    ensures
        shown@ == snapshot_of(name@, files.deep_view()),
{
    let ghost shown_files = files.deep_view().map_values(
        |file: (Seq<char>, Seq<char>)| shown_file(file),
    );
    let mut items: Vec<Json> = Vec::new();
    let mut i: usize = 0;
    while i < files.len()
        invariant
            i <= files.len(),
            items.len() == i,
            shown_files == files.deep_view().map_values(
                |file: (Seq<char>, Seq<char>)| shown_file(file),
            ),
            forall|j: int| 0 <= j < i ==> (#[trigger] items@[j])@ == shown_files[j],
        decreases files.len() - i,
    {
        let file = &files[i];
        let item = Json::object().with("path", Json::text(file.path.as_str())).with(
            "contents",
            Json::text(file.contents.as_str()),
        );
        items.push(item);
        i = i + 1;
    }
    proof {
        json::values_at(items@);
        assert(json::values_of(items@) =~= shown_files);
    }
    Json::object().with("name", Json::text(name)).with("files", Json::array(items))
}

/// The documentation of a library as it is shown.
pub fn documented(name: &str, version: &str, documentation: &str) -> (shown: Json)
    ensures
        shown@ == JsonView::Object(Map::empty()).with("name"@, JsonView::Text(name@)).with(
            "version"@,
            JsonView::Text(version@),
        ).with("documentation"@, JsonView::Text(documentation@)),
{
    Json::object().with("name", Json::text(name)).with("version", Json::text(version)).with(
        "documentation",
        Json::text(documentation),
    )
}

/// The paths of files.
pub open spec fn paths_of(files: Seq<(Seq<char>, Seq<char>)>) -> Seq<Seq<char>> {
    files.map_values(|file: (Seq<char>, Seq<char>)| file.0)
}

/// The answer to a write of a library: how many files it has now, and which.
pub fn written(name: &str, files: &Vec<SourceFile>) -> (shown: Json)
    ensures
        shown@ == JsonView::Object(Map::empty()).with("name"@, JsonView::Text(name@)).with(
            "written"@,
            JsonView::Bool(true),
        ).with("file_count"@, JsonView::Integer(files.len() as int)).with(
            "paths"@,
            json::text_list(paths_of(files.deep_view())),
        ),
{
    let mut paths: Vec<String> = Vec::new();
    let mut i: usize = 0;
    while i < files.len()
        invariant
            i <= files.len(),
            paths.len() == i,
            forall|j: int| 0 <= j < i ==> (#[trigger] paths@[j])@ == files@[j].path@,
        decreases files.len() - i,
    {
        paths.push(files[i].path.as_str().to_owned());
        i = i + 1;
    }
    assert(paths.deep_view() =~= paths_of(files.deep_view()));
    Json::object().with("name", Json::text(name)).with("written", Json::Bool(true)).with(
        "file_count",
        Json::unsigned(files.len() as u64),
    ).with("paths", Json::texts(&paths))
}

/// The answer to a check that a library passed.
pub fn check_passed(name: &str) -> (shown: Json)
    ensures
        shown@ == JsonView::Object(Map::empty()).with("name"@, JsonView::Text(name@)).with(
            "passed"@,
            JsonView::Bool(true),
        ),
{
    Json::object().with("name", Json::text(name)).with("passed", Json::Bool(true))
}

/// The answer to the publication of a library.
pub fn published(name: &str) -> (shown: Json)
    ensures
        shown@ == JsonView::Object(Map::empty()).with("name"@, JsonView::Text(name@)).with(
            "published"@,
            JsonView::Bool(true),
        ),
{
    Json::object().with("name", Json::text(name)).with("published", Json::Bool(true))
}

/// The token of the registry, or that there is none.
pub open spec fn token_of(text: Seq<char>) -> Result<Seq<char>, Seq<char>> {
    if text::blank(text) {
        Err("the crates.io registry token is empty"@)
    } else {
        Ok(text::trimmed(text))
    }
}

/// The token of the registry: the text without the white space around it.
pub fn registry_token(token: &str) -> (result: Result<String, Failure>)
    ensures
        text::seen(result) == token_of(token@),
{
    if text::is_blank(token) {
        return Err(Failure::fixed("the crates.io registry token is empty"));
    }
    Ok(text::trim(token).to_owned())
}

/// The category that an error's text begins with.
pub open spec fn category(rendered: Seq<char>) -> Seq<char> {
    match text::found(rendered, ":"@) {
        Some(i) => rendered.take(i),
        None => "unknown"@,
    }
}

/// An error's text without the directory of the libraries.
pub open spec fn safe_text(rendered: Seq<char>, root: Seq<char>) -> Seq<char> {
    text::substituted_from(rendered, root, registry::HIDDEN_ROOT@, 0)
}

/// How an error of a library is answered.
pub open spec fn library_error(rendered: Seq<char>, root: Seq<char>) -> registry::ErrorView {
    let kind = category(rendered);
    let safe = safe_text(rendered, root);
    if kind == "invalid_name"@ || kind == "unsafe_path"@ || kind == "invalid_source"@ || kind
        == "invalid_metadata"@ {
        registry::invalid(safe)
    } else if kind == "already_exists"@ {
        (409, "rust_lib_exists"@, safe)
    } else if kind == "not_found"@ {
        (404, "rust_lib_not_found"@, safe)
    } else if kind == "stale_snapshot"@ {
        (409, "rust_lib_stale_snapshot"@, safe)
    } else if kind == "invalid_repository"@ || kind == "unsafe_source"@ {
        (422, "rust_lib_invalid_repository"@, safe)
    } else if kind == "migration"@ {
        (503, "rust_lib_migration_failure"@, safe)
    } else if kind == "invalid_token"@ {
        (
            503,
            "registry_token_unavailable"@,
            "Rust library publication is unavailable because the operator-provisioned crates.io token is missing or invalid."@,
        )
    } else if text::begins(kind, "check."@) {
        (422, "rust_lib_check_failed"@, safe)
    } else if kind == "publish"@ {
        (503, "rust_lib_publish_failed"@, safe)
    } else if text::begins(kind, "sandbox."@) || kind == "io"@ {
        (
            503,
            "rust_lib_infrastructure_failure"@,
            "The Rust library operation failed in local validation or publication infrastructure."@,
        )
    } else {
        (
            503,
            "rust_lib_infrastructure_failure"@,
            "The Rust library operation failed unexpectedly."@,
        )
    }
}

fn category_in(rendered: &str) -> (kind: String)
    ensures
        kind@ == category(rendered@),
{
    match text::find(rendered, ":") {
        Some(place) => {
            let chars = text::chars_of(rendered);
            let mut kind = String::new();
            let mut i: usize = 0;
            while i < place
                invariant
                    i <= place <= chars.len(),
                    chars@ == rendered@,
                    kind@ == rendered@.take(i as int),
                decreases place - i,
            {
                kind.push(chars[i]);
                assert(rendered@.take(i + 1) =~= rendered@.take(i as int).push(chars@[i as int]));
                i = i + 1;
            }
            kind
        },
        None => "unknown".to_owned(),
    }
}

/// How an error of a library is answered: by the category that its text begins with, and
/// without telling where the libraries are kept.
pub fn map_library_error(rendered: &str, root: &str) -> (error: ToolError)
    requires
        root@.len() > 0,
    ensures
        error@ == library_error(rendered@, root@),
{
    let category = category_in(rendered);
    let kind = category.as_str();
    let safe_message = text::substitute(rendered, root, registry::HIDDEN_ROOT);
    let safe = safe_message.as_str();
    if *kind == *"invalid_name" || *kind == *"unsafe_path" || *kind == *"invalid_source" || *kind
        == *"invalid_metadata" {
        ToolError::new(400, "invalid_arguments", safe)
    } else if *kind == *"already_exists" {
        ToolError::new(409, "rust_lib_exists", safe)
    } else if *kind == *"not_found" {
        ToolError::new(404, "rust_lib_not_found", safe)
    } else if *kind == *"stale_snapshot" {
        ToolError::new(409, "rust_lib_stale_snapshot", safe)
    } else if *kind == *"invalid_repository" || *kind == *"unsafe_source" {
        ToolError::new(422, "rust_lib_invalid_repository", safe)
    } else if *kind == *"migration" {
        ToolError::new(503, "rust_lib_migration_failure", safe)
    } else if *kind == *"invalid_token" {
        ToolError::new(
            503,
            "registry_token_unavailable",
            "Rust library publication is unavailable because the operator-provisioned crates.io token is missing or invalid.",
        )
    } else if text::starts_with(kind, "check.") {
        ToolError::new(422, "rust_lib_check_failed", safe)
    } else if *kind == *"publish" {
        ToolError::new(503, "rust_lib_publish_failed", safe)
    } else if text::starts_with(kind, "sandbox.") || *kind == *"io" {
        ToolError::new(
            503,
            "rust_lib_infrastructure_failure",
            "The Rust library operation failed in local validation or publication infrastructure.",
        )
    } else {
        ToolError::new(
            503,
            "rust_lib_infrastructure_failure",
            "The Rust library operation failed unexpectedly.",
        )
    }
}

/// The category of an error is what stands before its first colon; an error without one
/// has none.
pub proof fn errors_begin_with_their_category(kind: Seq<char>, rest: Seq<char>)
    requires
        !kind.contains(':'),
    ensures
        category(kind + ":"@ + rest) == kind,
        category(kind) == "unknown"@,
{
    reveal_strlit(":");
    assert(":"@ =~= seq![':']);
    let whole = kind + ":"@ + rest;
    let at = kind.len() as int;
    assert(whole.subrange(at, at + 1) =~= ":"@);
    assert(text::occurs_at(whole, ":"@, at));
    assert forall|i: int| 0 <= i < at implies !#[trigger] text::occurs_at(whole, ":"@, i) by {
        if text::occurs_at(whole, ":"@, i) {
            assert(whole.subrange(i, i + 1)[0] == whole[i]);
            assert(":"@[0] == ':');
            assert(whole[i] == kind[i]);
            assert(kind.contains(kind[i]));
        }
    }
    text::find_from_is_first(whole, ":"@, 0);
    assert(whole.take(at) =~= kind);
    assert forall|i: int| !#[trigger] text::occurs_at(kind, ":"@, i) by {
        if text::occurs_at(kind, ":"@, i) {
            assert(kind.subrange(i, i + 1)[0] == kind[i]);
            assert(":"@[0] == ':');
            assert(kind.contains(kind[i]));
        }
    }
    text::find_from_is_first(kind, ":"@, 0);
}

/// What a library cannot do is told by the category of its error: a bad name is the
/// caller's, a missing library is not found, one that exists or that was changed is in
/// conflict, and a check that failed could not be processed.
pub proof fn library_errors_have_their_status(rendered: Seq<char>, root: Seq<char>)
    ensures
        ({
            let kind = category(rendered);
            let status = library_error(rendered, root).0;
            let code = library_error(rendered, root).1;
            &&& kind == "invalid_name"@ ==> status == 400 && code == "invalid_arguments"@
            &&& kind == "not_found"@ ==> status == 404 && code == "rust_lib_not_found"@
            &&& kind == "already_exists"@ ==> status == 409 && code == "rust_lib_exists"@
            &&& kind == "stale_snapshot"@ ==> status == 409 && code == "rust_lib_stale_snapshot"@
            &&& kind == "publish"@ ==> status == 503 && code == "rust_lib_publish_failed"@
            &&& kind == "io"@ ==> status == 503 && code == "rust_lib_infrastructure_failure"@
            &&& kind == "check."@ + "test"@ ==> status == 422 && code == "rust_lib_check_failed"@
        }),
{
    reveal_strlit("invalid_name");
    reveal_strlit("unsafe_path");
    reveal_strlit("invalid_source");
    reveal_strlit("invalid_metadata");
    reveal_strlit("already_exists");
    reveal_strlit("not_found");
    reveal_strlit("stale_snapshot");
    reveal_strlit("invalid_repository");
    reveal_strlit("unsafe_source");
    reveal_strlit("migration");
    reveal_strlit("invalid_token");
    reveal_strlit("publish");
    reveal_strlit("io");
    reveal_strlit("check.");
    reveal_strlit("test");
    reveal_strlit("sandbox.");
    assert("invalid_name"@.len() == 12 && "unsafe_path"@.len() == 11);
    assert("invalid_source"@.len() == 14 && "invalid_source"@[0] == 'i');
    assert("invalid_metadata"@.len() == 16);
    assert("already_exists"@.len() == 14 && "already_exists"@[0] == 'a');
    assert("stale_snapshot"@.len() == 14 && "stale_snapshot"@[0] == 's');
    assert("not_found"@.len() == 9 && "not_found"@[0] == 'n');
    assert("migration"@.len() == 9 && "migration"@[0] == 'm');
    assert("invalid_repository"@.len() == 18 && "unsafe_source"@.len() == 13);
    assert("invalid_token"@.len() == 13 && "publish"@.len() == 7 && "io"@.len() == 2);
    assert("check."@.len() == 6 && "sandbox."@.len() == 8 && "check."@[0] == 'c');
    text::parts_stand_by_their_characters("publish"@, "check."@, 0);
    assert("publish"@[0] == 'p');
    let failed = "check."@ + "test"@;
    assert(failed.len() == 10 && failed[0] == 'c');
    assert(failed.subrange(0, 6) =~= "check."@);
}

/// The token for publishing is used without the white space around it, and refused where
/// it is blank.
pub proof fn tokens_are_trimmed(words: Seq<char>)
    ensures
        text::blank(words) ==> token_of(words) is Err,
        !text::blank(words) ==> token_of(words) == Ok::<Seq<char>, Seq<char>>(
            text::trimmed(words),
        ),
{
}

/// A library is shown with its name and all of its files, in order.
pub proof fn libraries_show_their_files(
    name: Seq<char>,
    files: Seq<(Seq<char>, Seq<char>)>,
    i: int,
)
    ensures
        ({
            let shown = snapshot_of(name, files);
            &&& shown.text_at("name"@) == Some(name)
            &&& shown.array_at("files"@) is Some && shown.array_at("files"@)->0.len() == files.len()
            &&& 0 <= i < files.len() ==> shown.array_at("files"@)->0[i].text_at("path"@) == Some(
                files[i].0,
            ) && shown.array_at("files"@)->0[i].text_at("contents"@) == Some(files[i].1)
        }),
{
    reveal_strlit("name");
    reveal_strlit("files");
    reveal_strlit("path");
    reveal_strlit("contents");
    assert("name"@.len() == 4 && "files"@.len() == 5 && "path"@.len() == 4);
    assert("contents"@.len() == 8);
}

} // verus!
