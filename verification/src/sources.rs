//! Managed sources: which kind a tool works on, and what its answer shows of a source.

use crate::json::{Json, JsonView};
use crate::services;
use crate::services::ApiError;
use crate::text;
use vstd::prelude::*;

verus! {

/// A kind of managed source.
#[derive(Clone, Copy, Debug, PartialEq, Eq)]
pub enum SourceKind {
    RustLibrary,
    WebLibrary,
    RustBinary,
}

/// The tools that work on managed sources, by name.
#[derive(Debug)]
pub struct SourceCatalog {
    pub rust_libraries: Vec<String>,
    pub preview_rust_library: String,
    pub web_libraries: Vec<String>,
    pub preview_web_library: String,
    pub rust_binaries: Vec<String>,
    pub preview_rust_binary: String,
    /// Those that create or open a source.
    pub openings: Vec<String>,
}

/// What a source looks like after a call.
#[derive(Debug, PartialEq, Eq)]
pub struct SourceSnapshot {
    pub kind: SourceKind,
    pub name: String,
    pub text: String,
}

impl DeepView for SourceSnapshot {
    type V = (SourceKind, Seq<char>, Seq<char>);

    open spec fn deep_view(&self) -> (SourceKind, Seq<char>, Seq<char>) {
        (self.kind, self.name@, self.text@)
    }
}

/// The kind of source that a tool works on.
pub open spec fn kind_named(name: Seq<char>, catalog: SourceCatalog) -> Option<SourceKind> {
    if catalog.rust_libraries.deep_view().contains(name) || name == catalog.preview_rust_library@ {
        Some(SourceKind::RustLibrary)
    } else if catalog.web_libraries.deep_view().contains(name) || name
        == catalog.preview_web_library@ {
        Some(SourceKind::WebLibrary)
    } else if catalog.rust_binaries.deep_view().contains(name) || name
        == catalog.preview_rust_binary@ {
        Some(SourceKind::RustBinary)
    } else {
        None
    }
}

/// The kind of source that a tool works on.
pub fn managed_source_kind(name: &str, catalog: &SourceCatalog) -> (kind: Option<SourceKind>)
    ensures
        kind == kind_named(name@, *catalog),
{
    if text::among(&catalog.rust_libraries, name) || *name
        == *catalog.preview_rust_library.as_str() {
        Some(SourceKind::RustLibrary)
    } else if text::among(&catalog.web_libraries, name) || *name
        == *catalog.preview_web_library.as_str() {
        Some(SourceKind::WebLibrary)
    } else if text::among(&catalog.rust_binaries, name) || *name
        == *catalog.preview_rust_binary.as_str() {
        Some(SourceKind::RustBinary)
    } else {
        None
    }
}

/// The address at which the tools of a kind are run.
pub fn execute_path(kind: SourceKind) -> (path: &'static str)
    ensures
        path@ == match kind {
            SourceKind::RustLibrary => "/api/v1/rust-libs/execute"@,
            SourceKind::WebLibrary => "/api/v1/web-libs/execute"@,
            SourceKind::RustBinary => "/api/v1/rust-bins/execute"@,
        },
{
    match kind {
        SourceKind::RustLibrary => "/api/v1/rust-libs/execute",
        SourceKind::WebLibrary => "/api/v1/web-libs/execute",
        SourceKind::RustBinary => "/api/v1/rust-bins/execute",
    }
}

/// Whether a tool can be run by a remote service, and on which kind of source.
pub open spec fn remote_call(name: Seq<char>, objects: nat, catalog: SourceCatalog) -> Result<
    SourceKind,
    services::ApiView,
> {
    if objects > 0 {
        Err(
            (
                None,
                "local_service_unavailable"@,
                "Managed-source object calls require the in-process Kweb service."@,
            ),
        )
    } else {
        match kind_named(name, catalog) {
            Some(kind) => Ok(kind),
            None => Err(
                (
                    None,
                    "unknown_managed_source_tool"@,
                    "Unknown managed-source tool "@ + name + "."@,
                ),
            ),
        }
    }
}

/// Whether a tool can be run by a remote service, and on which kind of source.
pub fn check_remote_call(name: &str, objects: usize, catalog: &SourceCatalog) -> (result: Result<
    SourceKind,
    ApiError,
>)
    ensures
        match result {
            Ok(kind) => remote_call(name@, objects as nat, *catalog) == Ok::<
                SourceKind,
                services::ApiView,
            >(kind),
            Err(error) => remote_call(name@, objects as nat, *catalog) == Err::<
                SourceKind,
                services::ApiView,
            >(error@),
        },
{
    if objects > 0 {
        return Err(
            ApiError::new(
                None,
                "local_service_unavailable",
                "Managed-source object calls require the in-process Kweb service.",
            ),
        );
    }
    match managed_source_kind(name, catalog) {
        Some(kind) => Ok(kind),
        None => {
            let mut message = "Unknown managed-source tool ".to_owned();
            message.append(name);
            message.append(".");
            Err(ApiError::new(None, "unknown_managed_source_tool", message.as_str()))
        },
    }
}

/// The body of a remote call.
pub fn remote_body(session_id: &str, name: &str, arguments: Json) -> (body: Json)
    ensures
        body@ == JsonView::Object(Map::empty()).with(
            "session_id"@,
            JsonView::Text(session_id@),
        ).with("name"@, JsonView::Text(name@)).with("arguments"@, arguments@),
{
    Json::object().with("session_id", Json::text(session_id)).with("name", Json::text(name)).with(
        "arguments",
        arguments,
    )
}

/// The name among a call's arguments; empty where there is none.
pub open spec fn name_in(arguments: JsonView) -> Seq<char> {
    match arguments.text_at("name"@) {
        Some(name) => name,
        None => Seq::empty(),
    }
}

/// Whether a tool previews a write.
pub open spec fn previews(name: Seq<char>, catalog: SourceCatalog) -> bool {
    name == catalog.preview_rust_library@ || name == catalog.preview_web_library@ || name
        == catalog.preview_rust_binary@
}

/// What a source looks like after a call: the snapshot of the answer; else the one that a
/// complete write proposed; else, of a preview, of a creation or of an opening, the answer
/// itself.
pub open spec fn shown_source(
    kind: SourceKind,
    name: Seq<char>,
    arguments: JsonView,
    payload: JsonView,
    text: Seq<char>,
    proposed: Option<(SourceKind, Seq<char>, Seq<char>)>,
    catalog: SourceCatalog,
) -> Option<(SourceKind, Seq<char>, Seq<char>)> {
    match payload.text_at("snapshot"@) {
        Some(snapshot) => Some((kind, name_in(arguments), snapshot)),
        None => match proposed {
            Some(proposed) => Some(proposed),
            None => if previews(name, catalog) {
                Some((kind, name_in(arguments), text))
            } else if catalog.openings.deep_view().contains(name) && arguments.text_at("name"@)
                is Some {
                Some((kind, name_in(arguments), text))
            } else {
                None
            },
        },
    }
}

/// What a remote call gave: its text and, of some calls, the source.
#[derive(Debug, PartialEq, Eq)]
pub struct Execution {
    pub text: String,
    pub snapshot: Option<SourceSnapshot>,
}

/// What a remote call gave, or that its answer holds no text.
pub open spec fn remote_result(
    kind: SourceKind,
    name: Seq<char>,
    arguments: JsonView,
    payload: JsonView,
    proposed: Option<(SourceKind, Seq<char>, Seq<char>)>,
    catalog: SourceCatalog,
) -> Result<(Seq<char>, Option<(SourceKind, Seq<char>, Seq<char>)>), services::ApiView> {
    match payload.text_at("result"@) {
        Some(text) => Ok(
            (text, shown_source(kind, name, arguments, payload, text, proposed, catalog)),
        ),
        None => Err(
            (
                None,
                "invalid_tool_result"@,
                "Managed-source tool returned a non-text result."@,
            ),
        ),
    }
}

fn read_name(arguments: &Json) -> (name: String)
    ensures
        name@ == name_in(arguments@),
{
    match arguments.text_at("name") {
        Some(name) => name.to_owned(),
        None => String::new(),
    }
}

/// What a remote call gave, or that its answer holds no text.
pub fn managed_source_result(
    kind: SourceKind,
    name: &str,
    arguments: &Json,
    payload: &Json,
    proposed: Option<SourceSnapshot>,
    catalog: &SourceCatalog,
) -> (result: Result<Execution, ApiError>)
    ensures
        match result {
            Ok(execution) => remote_result(
                kind,
                name@,
                arguments@,
                payload@,
                proposed.deep_view(),
                *catalog,
            ) == Ok::<
                (Seq<char>, Option<(SourceKind, Seq<char>, Seq<char>)>),
                services::ApiView,
            >((execution.text@, execution.snapshot.deep_view())),
            Err(error) => remote_result(
                kind,
                name@,
                arguments@,
                payload@,
                proposed.deep_view(),
                *catalog,
            ) == Err::<
                (Seq<char>, Option<(SourceKind, Seq<char>, Seq<char>)>),
                services::ApiView,
            >(error@),
        },
{
    let answered = match payload.text_at("result") {
        Some(answered) => answered.to_owned(),
        None => {
            return Err(
                ApiError::new(
                    None,
                    "invalid_tool_result",
                    "Managed-source tool returned a non-text result.",
                ),
            );
        },
    };
    let snapshot = match payload.text_at("snapshot") {
        Some(shown) => Some(
            SourceSnapshot { kind, name: read_name(arguments), text: shown.to_owned() },
        ),
        None => match proposed {
            Some(proposed) => Some(proposed),
            None => {
                let preview = *name == *catalog.preview_rust_library.as_str() || *name
                    == *catalog.preview_web_library.as_str() || *name
                    == *catalog.preview_rust_binary.as_str();
                if preview || (text::among(&catalog.openings, name) && arguments.text_at(
                    "name",
                ).is_some()) {
                    Some(
                        SourceSnapshot {
                            kind,
                            name: read_name(arguments),
                            text: answered.as_str().to_owned(),
                        },
                    )
                } else {
                    None
                }
            },
        },
    };
    Ok(Execution { text: answered, snapshot })
}

/// A tool belongs to the kind of source that lists it, or whose preview it is: libraries
/// before web libraries, and these before binaries; a tool that nobody lists to none.
pub proof fn source_tools_belong_to_their_kind(name: Seq<char>, catalog: SourceCatalog)
    ensures
        ({
            let rust = catalog.rust_libraries.deep_view().contains(name) || name
                == catalog.preview_rust_library@;
            let web = catalog.web_libraries.deep_view().contains(name) || name
                == catalog.preview_web_library@;
            let binary = catalog.rust_binaries.deep_view().contains(name) || name
                == catalog.preview_rust_binary@;
            &&& rust ==> kind_named(name, catalog) == Some(SourceKind::RustLibrary)
            &&& !rust && web ==> kind_named(name, catalog) == Some(SourceKind::WebLibrary)
            &&& !rust && !web && binary ==> kind_named(name, catalog) == Some(
                SourceKind::RustBinary,
            )
            &&& !rust && !web && !binary ==> kind_named(name, catalog) is None
        }),
{
}

/// A call goes to the remote service where its tool is known and it hands over no objects.
pub proof fn remote_calls_hand_over_nothing(name: Seq<char>, objects: nat, catalog: SourceCatalog)
    ensures
        remote_call(name, objects, catalog) is Ok <==> objects == 0 && kind_named(name, catalog)
            is Some,
        remote_call(name, objects, catalog) is Ok ==> Some(remote_call(name, objects, catalog)->Ok_0)
            == kind_named(name, catalog),
{
}

/// A source is shown as the service left it, or else as it was proposed, or else, for a
/// preview and for an opening that names a source, as it was told; every other call shows
/// none.
pub proof fn sources_are_shown_as_left(
    kind: SourceKind,
    name: Seq<char>,
    arguments: JsonView,
    payload: JsonView,
    words: Seq<char>,
    proposed: Option<(SourceKind, Seq<char>, Seq<char>)>,
    catalog: SourceCatalog,
    source: Seq<char>,
)
    ensures
        ({
            let shown = shown_source(kind, name, arguments, payload, words, proposed, catalog);
            let left = payload.text_at("snapshot"@);
            let preview = name == catalog.preview_rust_library@ || name
                == catalog.preview_web_library@ || name == catalog.preview_rust_binary@;
            let opening = catalog.openings.deep_view().contains(name);
            &&& left is Some && arguments.text_at("name"@) == Some(source) ==> shown == Some(
                (kind, source, left->0),
            )
            &&& left is None && proposed is Some ==> shown == proposed
            &&& left is None && proposed is None && (preview || opening) && arguments.text_at(
                "name"@,
            ) == Some(source) ==> shown == Some((kind, source, words))
            &&& left is None && proposed is None && !preview && !opening ==> shown is None
            &&& left is None && proposed is None && !preview && arguments.text_at("name"@) is None
                ==> shown is None
        }),
{
}

/// What a tool on a source answers is the text of its result, and an answer without one is
/// refused.
pub proof fn source_tools_answer_with_text(
    kind: SourceKind,
    name: Seq<char>,
    arguments: JsonView,
    payload: JsonView,
    proposed: Option<(SourceKind, Seq<char>, Seq<char>)>,
    catalog: SourceCatalog,
)
    ensures
        ({
            let result = remote_result(kind, name, arguments, payload, proposed, catalog);
            &&& result is Ok <==> payload.text_at("result"@) is Some
            &&& match result {
                Ok((words, _)) => Some(words) == payload.text_at("result"@),
                Err(_) => true,
            }
        }),
{
}

} // verus!
