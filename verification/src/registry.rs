//! The Rust libraries that sessions have open, and the tools that work on them.

use crate::text;
use vstd::prelude::*;

verus! {

pub const CREATE_RUST_LIB_TOOL: &'static str = "kcode-rust-libs-v2/create";

pub const OPEN_RUST_LIB_TOOL: &'static str = "kcode-rust-libs-v2/open";

pub const DOCS_RUST_LIB_TOOL: &'static str = "kcode-rust-libs-v2/docs";

pub const WRITE_RUST_LIB_TOOL: &'static str = "kcode-rust-libs-v2/write";

pub const CHECK_RUST_LIB_TOOL: &'static str = "kcode-rust-libs-v2/check";

pub const PUBLISH_RUST_LIB_TOOL: &'static str = "kcode-rust-libs-v2/publish";

/// How long an unused library stays open, in nanoseconds.
pub const SESSION_LEASE: u128 = 86_400_000_000_000;

/// The most bytes of a session's name.
pub const MAX_SESSION_ID_BYTES: usize = 128;

/// What stands for the directory of the libraries in a message.
pub const HIDDEN_ROOT: &'static str = "<managed-rust-libraries>";

/// A refusal of a tool, with the status that it is answered with.
#[derive(Debug, PartialEq, Eq)]
pub struct ToolError {
    pub status: u16,
    pub code: String,
    pub message: String,
}

/// The mathematical value of a refusal: its status, its code and its message.
pub type ErrorView = (u16, Seq<char>, Seq<char>);

impl View for ToolError {
    type V = (u16, Seq<char>, Seq<char>);

    open spec fn view(&self) -> (u16, Seq<char>, Seq<char>) {
        (self.status, self.code@, self.message@)
    }
}

impl ToolError {
    /// A refusal with this status, code and message.
    pub fn new(status: u16, code: &str, message: &str) -> (error: ToolError)
        ensures
            error@ == (status, code@, message@),
    {
        ToolError { status, code: code.to_owned(), message: message.to_owned() }
    }
}

/// A refusal of arguments.
pub open spec fn invalid(message: Seq<char>) -> ErrorView {
    (400, "invalid_arguments"@, message)
}

/// A check that passed, or its refusal.
pub open spec fn outcome_of(outcome: Result<(), ToolError>) -> Result<(), ErrorView> {
    match outcome {
        Ok(_) => Ok(()),
        Err(error) => Err(error@),
    }
}

/// A library that a session has open.
#[derive(Debug, PartialEq, Eq)]
pub struct HandleKey {
    pub session_id: String,
    pub library_name: String,
}

impl View for HandleKey {
    type V = (Seq<char>, Seq<char>);

    open spec fn view(&self) -> (Seq<char>, Seq<char>) {
        (self.session_id@, self.library_name@)
    }
}

impl HandleKey {
    /// The key of a library in a session.
    pub fn new(session_id: &str, library_name: &str) -> (key: HandleKey)
        ensures
            key@ == (session_id@, library_name@),
    {
        HandleKey { session_id: session_id.to_owned(), library_name: library_name.to_owned() }
    }

    fn copy(&self) -> (key: HandleKey)
        ensures
            key@ == self@,
    {
        HandleKey::new(self.session_id.as_str(), self.library_name.as_str())
    }

    fn same(&self, other: &HandleKey) -> (yes: bool)
        ensures
            yes == (self@ == other@),
    {
        *self.session_id.as_str() == *other.session_id.as_str() && *self.library_name.as_str()
            == *other.library_name.as_str()
    }
}

/// Whether a character is an ASCII letter or digit.
pub open spec fn alphanumeric(c: char) -> bool {
    'a' <= c <= 'z' || 'A' <= c <= 'Z' || '0' <= c <= '9'
}

fn is_alphanumeric(c: char) -> (yes: bool)
    ensures
        yes == alphanumeric(c),
{
    ('a' <= c && c <= 'z') || ('A' <= c && c <= 'Z') || ('0' <= c && c <= '9')
}

/// Whether a character may stand in the name of a session.
pub open spec fn names_session(c: char) -> bool {
    alphanumeric(c) || c == '-' || c == '_' || c == ':'
}

/// Whether a name can be that of a session, or why not.
pub open spec fn session_name(id: Seq<char>) -> Result<(), ErrorView> {
    if id.len() > 0 && text::utf8_length(id) <= MAX_SESSION_ID_BYTES && (forall|i: int|
        0 <= i < id.len() ==> names_session(#[trigger] id[i])) {
        Ok(())
    } else {
        Err(invalid("The hidden Kennedy tool session ID is invalid."@))
    }
}

fn refuse_arguments(message: &str) -> (error: ToolError)
    ensures
        error@ == invalid(message@),
{
    ToolError::new(400, "invalid_arguments", message)
}

/// Checks that a name can be that of a session.
pub fn validate_session_id(session_id: &str) -> (outcome: Result<(), ToolError>)
    ensures
        outcome_of(outcome) == session_name(session_id@),
{
    let refusal = "The hidden Kennedy tool session ID is invalid.";
    let chars = text::chars_of(session_id);
    if chars.len() == 0 || text::byte_length(session_id) > MAX_SESSION_ID_BYTES {
        return Err(refuse_arguments(refusal));
    }
    let mut i: usize = 0;
    while i < chars.len()
        invariant
            i <= chars.len(),
            chars@ == session_id@,
            refusal@ == "The hidden Kennedy tool session ID is invalid."@,
            forall|j: int| 0 <= j < i ==> names_session(#[trigger] session_id@[j]),
        decreases chars.len() - i,
    {
        let c = chars[i];
        if !(is_alphanumeric(c) || c == '-' || c == '_' || c == ':') {
            assert(!names_session(session_id@[i as int]));
            return Err(refuse_arguments(refusal));
        }
        i = i + 1;
    }
    Ok(())
}

/// Whether a name can be that of a library, or why not.
pub open spec fn library_name(name: Seq<char>) -> Result<(), ErrorView> {
    if name.len() > 0 && text::utf8_length(name) <= 255 && alphanumeric(name[0]) && (forall|i: int|
        0 <= i < name.len() ==> alphanumeric(#[trigger] name[i]) || name[i] == '-' || name[i]
            == '_') {
        Ok(())
    } else {
        Err(
            invalid(
                "name must begin with an ASCII letter or digit and contain only ASCII letters, digits, '-' or '_'."@,
            ),
        )
    }
}

/// Checks that a name can be that of a library.
pub fn validate_library_name(name: &str) -> (outcome: Result<(), ToolError>)
    ensures
        outcome_of(outcome) == library_name(name@),
{
    let refusal = "name must begin with an ASCII letter or digit and contain only ASCII letters, digits, '-' or '_'.";
    let chars = text::chars_of(name);
    if chars.len() == 0 || text::byte_length(name) > 255 || !is_alphanumeric(chars[0]) {
        return Err(refuse_arguments(refusal));
    }
    let mut i: usize = 0;
    while i < chars.len()
        invariant
            i <= chars.len(),
            chars@ == name@,
            refusal@
                == "name must begin with an ASCII letter or digit and contain only ASCII letters, digits, '-' or '_'."@,
            forall|j: int|
                0 <= j < i ==> alphanumeric(#[trigger] name@[j]) || name@[j] == '-' || name@[j]
                    == '_',
        decreases chars.len() - i,
    {
        let c = chars[i];
        if !(is_alphanumeric(c) || c == '-' || c == '_') {
            assert(!alphanumeric(name@[i as int]));
            return Err(refuse_arguments(refusal));
        }
        i = i + 1;
    }
    Ok(())
}

/// One of the tools that work on Rust libraries.
#[derive(Clone, Copy, Debug, PartialEq, Eq)]
pub enum RustLibTool {
    Create,
    Open,
    Docs,
    Write,
    Check,
    Publish,
}

/// The tool of this name.
pub open spec fn tool_named(name: Seq<char>) -> Result<RustLibTool, ErrorView> {
    if name == CREATE_RUST_LIB_TOOL@ {
        Ok(RustLibTool::Create)
    } else if name == OPEN_RUST_LIB_TOOL@ {
        Ok(RustLibTool::Open)
    } else if name == DOCS_RUST_LIB_TOOL@ {
        Ok(RustLibTool::Docs)
    } else if name == WRITE_RUST_LIB_TOOL@ {
        Ok(RustLibTool::Write)
    } else if name == CHECK_RUST_LIB_TOOL@ {
        Ok(RustLibTool::Check)
    } else if name == PUBLISH_RUST_LIB_TOOL@ {
        Ok(RustLibTool::Publish)
    } else {
        Err(invalid("Tool "@ + name + " is not a Rust library tool."@))
    }
}

/// The tool of this name.
pub fn rust_lib_tool(name: &str) -> (result: Result<RustLibTool, ToolError>)
    ensures
        match result {
            Ok(tool) => tool_named(name@) == Ok::<RustLibTool, ErrorView>(tool),
            Err(error) => tool_named(name@) == Err::<RustLibTool, ErrorView>(error@),
        },
{
    if *name == *CREATE_RUST_LIB_TOOL {
        Ok(RustLibTool::Create)
    } else if *name == *OPEN_RUST_LIB_TOOL {
        Ok(RustLibTool::Open)
    } else if *name == *DOCS_RUST_LIB_TOOL {
        Ok(RustLibTool::Docs)
    } else if *name == *WRITE_RUST_LIB_TOOL {
        Ok(RustLibTool::Write)
    } else if *name == *CHECK_RUST_LIB_TOOL {
        Ok(RustLibTool::Check)
    } else if *name == *PUBLISH_RUST_LIB_TOOL {
        Ok(RustLibTool::Publish)
    } else {
        let mut message = "Tool ".to_owned();
        message.append(name);
        message.append(" is not a Rust library tool.");
        Err(refuse_arguments(message.as_str()))
    }
}

/// What is known of an open library.
#[derive(Clone, Copy, Debug, PartialEq, Eq)]
pub struct OpenLibrary {
    pub active_operations: usize,
    pub closing: bool,
    /// When it was last used, in nanoseconds.
    pub last_used: u128,
}

/// The libraries that sessions have open.
#[derive(Debug)]
pub struct Registry {
    pub libraries: Vec<(HandleKey, OpenLibrary)>,
}

/// The map that a list of open libraries stands for.
pub open spec fn libraries_of(libraries: Seq<(HandleKey, OpenLibrary)>) -> Map<
    (Seq<char>, Seq<char>),
    OpenLibrary,
>
    decreases libraries.len(),
{
    if libraries.len() == 0 {
        Map::empty()
    } else {
        libraries_of(libraries.drop_last()).insert(libraries.last().0@, libraries.last().1)
    }
}

/// Whether no library is listed twice.
pub open spec fn listed_once(libraries: Seq<(HandleKey, OpenLibrary)>) -> bool {
    forall|i: int, j: int|
        0 <= i < j < libraries.len() ==> (#[trigger] libraries[i]).0@ != (#[trigger] libraries[j]).0@
}

impl View for Registry {
    type V = Map<(Seq<char>, Seq<char>), OpenLibrary>;

    open spec fn view(&self) -> Map<(Seq<char>, Seq<char>), OpenLibrary> {
        libraries_of(self.libraries@)
    }
}

/// A library that is listed is in the map, as it is listed.
proof fn listed_libraries(libraries: Seq<(HandleKey, OpenLibrary)>, key: (Seq<char>, Seq<char>))
    requires
        listed_once(libraries),
    ensures
        libraries_of(libraries).contains_key(key) <==> exists|i: int|
            0 <= i < libraries.len() && (#[trigger] libraries[i]).0@ == key,
        forall|i: int|
            0 <= i < libraries.len() && (#[trigger] libraries[i]).0@ == key ==> libraries_of(
                libraries,
            )[key] == libraries[i].1,
    decreases libraries.len(),
{
    if libraries.len() > 0 {
        let rest = libraries.drop_last();
        assert(listed_once(rest)) by {
            assert forall|i: int, j: int| 0 <= i < j < rest.len() implies (#[trigger] rest[i]).0@
                != (#[trigger] rest[j]).0@ by {
                assert(libraries[i].0@ != libraries[j].0@);
            }
        }
        listed_libraries(rest, key);
        let last = libraries.len() - 1;
        if libraries[last].0@ == key {
            assert forall|i: int|
                0 <= i < libraries.len() && (#[trigger] libraries[i]).0@ == key implies i == last by {
                if i < last {
                    assert(libraries[i].0@ != libraries[last].0@);
                }
            }
        } else {
            if libraries_of(rest).contains_key(key) {
                let k = choose|i: int| 0 <= i < rest.len() && (#[trigger] rest[i]).0@ == key;
                assert(libraries[k].0@ == key);
            }
            assert forall|i: int|
                0 <= i < libraries.len() && (#[trigger] libraries[i]).0@ == key implies libraries_of(
                libraries,
            )[key] == libraries[i].1 && libraries_of(rest).contains_key(key) by {
                assert(rest[i].0@ == key);
            }
        }
    }
}

/// Putting another state at a library's place puts it into the map.
proof fn updated_libraries(
    libraries: Seq<(HandleKey, OpenLibrary)>,
    i: int,
    entry: (HandleKey, OpenLibrary),
)
    requires
        listed_once(libraries),
        0 <= i < libraries.len(),
        libraries[i].0@ == entry.0@,
    ensures
        listed_once(libraries.update(i, entry)),
        libraries_of(libraries.update(i, entry)) == libraries_of(libraries).insert(
            entry.0@,
            entry.1,
        ),
    decreases libraries.len(),
{
    let after = libraries.update(i, entry);
    assert forall|a: int, b: int| 0 <= a < b < after.len() implies (#[trigger] after[a]).0@ != (
    #[trigger] after[b]).0@ by {
        assert(libraries[a].0@ != libraries[b].0@);
    }
    let rest = libraries.drop_last();
    let last = libraries.len() - 1;
    if i == last {
        assert(after.drop_last() =~= rest);
        assert(libraries_of(after) =~= libraries_of(libraries).insert(entry.0@, entry.1));
    } else {
        assert(listed_once(rest)) by {
            assert forall|a: int, b: int| 0 <= a < b < rest.len() implies (#[trigger] rest[a]).0@
                != (#[trigger] rest[b]).0@ by {
                assert(libraries[a].0@ != libraries[b].0@);
            }
        }
        assert(libraries[i].0@ != libraries[last].0@);
        updated_libraries(rest, i, entry);
        assert(after.drop_last() =~= rest.update(i, entry));
        assert(libraries_of(after) =~= libraries_of(libraries).insert(entry.0@, entry.1));
    }
}

/// Adding a library that is not listed puts it into the map.
proof fn added_library(libraries: Seq<(HandleKey, OpenLibrary)>, entry: (HandleKey, OpenLibrary))
    requires
        listed_once(libraries),
        !libraries_of(libraries).contains_key(entry.0@),
    ensures
        listed_once(libraries.push(entry)),
        libraries_of(libraries.push(entry)) == libraries_of(libraries).insert(entry.0@, entry.1),
{
    let after = libraries.push(entry);
    listed_libraries(libraries, entry.0@);
    assert forall|a: int, b: int| 0 <= a < b < after.len() implies (#[trigger] after[a]).0@ != (
    #[trigger] after[b]).0@ by {
        if b == libraries.len() {
            assert(libraries[a].0@ != entry.0@);
        } else {
            assert(libraries[a].0@ != libraries[b].0@);
        }
    }
    assert(after.drop_last() =~= libraries);
}

/// The libraries that satisfy a condition.
pub open spec fn kept_libraries(
    libraries: Map<(Seq<char>, Seq<char>), OpenLibrary>,
    keep: spec_fn((Seq<char>, Seq<char>), OpenLibrary) -> bool,
) -> Map<(Seq<char>, Seq<char>), OpenLibrary> {
    Map::new(
        |key: (Seq<char>, Seq<char>)| libraries.contains_key(key) && keep(key, libraries[key]),
        |key: (Seq<char>, Seq<char>)| libraries[key],
    )
}

/// Whether a library stays open: it is in use, or has been used within the lease.
pub open spec fn stays_open(library: OpenLibrary, now: u128) -> bool {
    library.active_operations > 0 || now < library.last_used || now - library.last_used
        < SESSION_LEASE
}

/// The libraries that are still open when those are closed whose lease is over and on
/// which no operation runs.
pub open spec fn unexpired(
    libraries: Map<(Seq<char>, Seq<char>), OpenLibrary>,
    now: u128,
) -> Map<(Seq<char>, Seq<char>), OpenLibrary> {
    kept_libraries(
        libraries,
        |key: (Seq<char>, Seq<char>), library: OpenLibrary| stays_open(library, now),
    )
}

/// Whether an operation may begin on a library, or why not.
pub open spec fn may_begin(
    libraries: Map<(Seq<char>, Seq<char>), OpenLibrary>,
    key: (Seq<char>, Seq<char>),
) -> Result<(), ErrorView> {
    if !libraries.contains_key(key) {
        Err(not_open(key.1))
    } else if libraries[key].closing {
        Err(ending())
    } else {
        Ok(())
    }
}

/// The libraries once an operation has begun on one.
pub open spec fn begun(
    libraries: Map<(Seq<char>, Seq<char>), OpenLibrary>,
    key: (Seq<char>, Seq<char>),
    now: u128,
) -> Map<(Seq<char>, Seq<char>), OpenLibrary> {
    libraries.insert(
        key,
        OpenLibrary {
            active_operations: (libraries[key].active_operations + 1) as usize,
            last_used: now,
            ..libraries[key]
        },
    )
}

/// The libraries once an operation has ended on one.
pub open spec fn finished(
    libraries: Map<(Seq<char>, Seq<char>), OpenLibrary>,
    key: (Seq<char>, Seq<char>),
) -> Map<(Seq<char>, Seq<char>), OpenLibrary> {
    if libraries.contains_key(key) && libraries[key].active_operations > 0 {
        libraries.insert(
            key,
            OpenLibrary {
                active_operations: (libraries[key].active_operations - 1) as usize,
                ..libraries[key]
            },
        )
    } else {
        libraries
    }
}

/// The refusal of a library that is not open.
pub open spec fn not_open(name: Seq<char>) -> ErrorView {
    (
        409,
        "rust_lib_not_open"@,
        "Rust library "@ + text::debug_quoted(name)
            + " is not open in this Kennedy session. Call "@ + OPEN_RUST_LIB_TOOL@ + " first."@,
    )
}

/// The refusal of a library that is open already.
pub open spec fn already_open(name: Seq<char>) -> ErrorView {
    (
        409,
        "rust_lib_already_open"@,
        "Rust library "@ + text::debug_quoted(name) + " is already open in this Kennedy session."@,
    )
}

/// The refusal of a library whose session is ending.
pub open spec fn ending() -> ErrorView {
    (
        409,
        "rust_lib_session_ending"@,
        "The Kennedy session is releasing its Rust library snapshots."@,
    )
}

impl Registry {
    /// No library is listed twice.
    pub open spec fn well_formed(self) -> bool {
        listed_once(self.libraries@)
    }

    /// No library is open.
    pub fn new() -> (registry: Registry)
        ensures
            registry.well_formed(),
            registry@ == Map::<(Seq<char>, Seq<char>), OpenLibrary>::empty(),
    {
        Registry { libraries: Vec::new() }
    }

    fn place(&self, key: &HandleKey) -> (place: Option<usize>)
        requires
            self.well_formed(),
        ensures
            match place {
                Some(i) => {
                    &&& i < self.libraries.len()
                    &&& self.libraries@[i as int].0@ == key@
                    &&& self@.contains_key(key@)
                    &&& self@[key@] == self.libraries@[i as int].1
                },
                None => !self@.contains_key(key@),
            },
    {
        proof {
            listed_libraries(self.libraries@, key@);
        }
        let mut i: usize = 0;
        while i < self.libraries.len()
            invariant
                i <= self.libraries.len(),
                forall|j: int| 0 <= j < i ==> (#[trigger] self.libraries@[j]).0@ != key@,
                self@.contains_key(key@) <==> exists|j: int|
                    0 <= j < self.libraries.len() && (#[trigger] self.libraries@[j]).0@ == key@,
                forall|j: int|
                    0 <= j < self.libraries.len() && (#[trigger] self.libraries@[j]).0@ == key@
                        ==> self@[key@] == self.libraries@[j].1,
            decreases self.libraries.len() - i,
        {
            if self.libraries[i].0.same(key) {
                return Some(i);
            }
            i = i + 1;
        }
        None
    }

    fn put(&mut self, i: usize, library: OpenLibrary)
        requires
            old(self).well_formed(),
            i < old(self).libraries.len(),
        ensures
            final(self).well_formed(),
            final(self).libraries.len() == old(self).libraries.len(),
            final(self)@ == old(self)@.insert(old(self).libraries@[i as int].0@, library),
            forall|j: int|
                0 <= j < old(self).libraries.len() ==> (#[trigger] final(self).libraries@[j]).0@
                    == old(self).libraries@[j].0@,
            forall|j: int|
                0 <= j < old(self).libraries.len() && j != i ==> (#[trigger] final(self).libraries@[j]).1 == old(self).libraries@[j].1,
    {
        let entry = (self.libraries[i].0.copy(), library);
        proof {
            updated_libraries(self.libraries@, i as int, entry);
        }
        self.libraries.set(i, entry);
    }

    /// Whether a session has a library open.
    pub fn contains(&self, key: &HandleKey) -> (yes: bool)
        requires
            self.well_formed(),
        ensures
            yes == self@.contains_key(key@),
    {
        self.place(key).is_some()
    }

    /// Checks that a session does not have a library open, before it creates it.
    pub fn check_create(&self, key: &HandleKey) -> (outcome: Result<(), ToolError>)
        requires
            self.well_formed(),
        ensures
            outcome_of(outcome) == if self@.contains_key(key@) {
                Err::<(), ErrorView>(already_open(key@.1))
            } else {
                Ok::<(), ErrorView>(())
            },
    {
        if !self.contains(key) {
            return Ok(());
        }
        let mut message = "Rust library ".to_owned();
        message.append(text::quoted(key.library_name.as_str()).as_str());
        message.append(" is already open in this Kennedy session.");
        Err(ToolError::new(409, "rust_lib_already_open", message.as_str()))
    }

    /// Opens a library: it is unused, and its lease starts.
    pub fn insert(&mut self, key: HandleKey, now: u128)
        requires
            old(self).well_formed(),
        ensures
            final(self).well_formed(),
            final(self)@ == old(self)@.insert(
                key@,
                OpenLibrary { active_operations: 0, closing: false, last_used: now },
            ),
    {
        let library = OpenLibrary { active_operations: 0, closing: false, last_used: now };
        match self.place(&key) {
            Some(i) => self.put(i, library),
            None => {
                let entry = (key, library);
                proof {
                    added_library(self.libraries@, entry);
                }
                self.libraries.push(entry);
            },
        }
    }

    /// Begins an operation on an open library; one whose session is ending takes none.
    pub fn begin_operation(&mut self, key: &HandleKey, now: u128) -> (outcome: Result<
        (),
        ToolError,
    >)
        requires
            old(self).well_formed(),
            old(self)@.contains_key(key@) ==> old(self)@[key@].active_operations < usize::MAX,
        ensures
            final(self).well_formed(),
            outcome_of(outcome) == may_begin(old(self)@, key@),
            final(self)@ == if outcome is Ok {
                begun(old(self)@, key@, now)
            } else {
                old(self)@
            },
    {
        match self.place(key) {
            None => {
                let mut message = "Rust library ".to_owned();
                message.append(text::quoted(key.library_name.as_str()).as_str());
                message.append(" is not open in this Kennedy session. Call ");
                message.append(OPEN_RUST_LIB_TOOL);
                message.append(" first.");
                Err(ToolError::new(409, "rust_lib_not_open", message.as_str()))
            },
            Some(i) => {
                let library = self.libraries[i].1;
                if library.closing {
                    return Err(
                        ToolError::new(
                            409,
                            "rust_lib_session_ending",
                            "The Kennedy session is releasing its Rust library snapshots.",
                        ),
                    );
                }
                self.put(
                    i,
                    OpenLibrary {
                        active_operations: library.active_operations + 1,
                        closing: false,
                        last_used: now,
                    },
                );
                Ok(())
            },
        }
    }

    /// Ends an operation on a library.
    pub fn finish_operation(&mut self, key: &HandleKey)
        requires
            old(self).well_formed(),
        ensures
            final(self).well_formed(),
            final(self)@ == finished(old(self)@, key@),
    {
        if let Some(i) = self.place(key) {
            let library = self.libraries[i].1;
            if library.active_operations > 0 {
                self.put(
                    i,
                    OpenLibrary {
                        active_operations: library.active_operations - 1,
                        closing: library.closing,
                        last_used: library.last_used,
                    },
                );
            }
        }
    }

    /// Closes the libraries that are no longer used: whose lease is over, and on which no
    /// operation runs.
    pub fn remove_expired(&mut self, now: u128)
        requires
            old(self).well_formed(),
        ensures
            final(self).well_formed(),
            final(self)@ == unexpired(old(self)@, now),
    {
        let ghost keep = |key: (Seq<char>, Seq<char>), library: OpenLibrary|
            stays_open(library, now);
        let mut kept: Vec<(HandleKey, OpenLibrary)> = Vec::new();
        assert(libraries_of(kept@) =~= kept_libraries(libraries_of(self.libraries@.take(0)), keep));
        let mut i: usize = 0;
        while i < self.libraries.len()
            invariant
                i <= self.libraries.len(),
                *self == *old(self),
                self.well_formed(),
                keep == (|key: (Seq<char>, Seq<char>), library: OpenLibrary|
                    stays_open(library, now)),
                listed_once(kept@),
                libraries_of(kept@) == kept_libraries(
                    libraries_of(self.libraries@.take(i as int)),
                    keep,
                ),
            decreases self.libraries.len() - i,
        {
            let entry = &self.libraries[i];
            let library = entry.1;
            let ghost next = self.libraries@.take(i + 1);
            proof {
                next_library(self.libraries@, i as int);
            }
            let lives = library.active_operations > 0 || now < library.last_used || now
                - library.last_used < SESSION_LEASE;
            if lives {
                let kept_entry = (entry.0.copy(), library);
                proof {
                    added_library(kept@, kept_entry);
                }
                kept.push(kept_entry);
            }
            assert(libraries_of(kept@) =~= kept_libraries(libraries_of(next), keep));
            i = i + 1;
        }
        assert(self.libraries@.take(self.libraries.len() as int) =~= self.libraries@);
        self.libraries = kept;
    }

    /// Begins to close all the libraries of a session: none of them takes an operation
    /// any more. Which they are.
    pub fn close_session(&mut self, session_id: &str) -> (keys: Vec<HandleKey>)
        requires
            old(self).well_formed(),
        ensures
            final(self).well_formed(),
            final(self)@ == closing(old(self)@, session_id@),
            distinct_keys(keys@),
            forall|key: (Seq<char>, Seq<char>)|
                #![trigger among_keys(keys@, key)]
                among_keys(keys@, key) <==> old(self)@.contains_key(key) && key.0 == session_id@,
    {
        let mut keys: Vec<HandleKey> = Vec::new();
        let mut i: usize = 0;
        while i < self.libraries.len()
            invariant
                i <= self.libraries.len(),
                self.libraries.len() == old(self).libraries.len(),
                self.well_formed(),
                old(self).well_formed(),
                self@.dom() =~= old(self)@.dom(),
                forall|j: int|
                    0 <= j < self.libraries.len() ==> (#[trigger] self.libraries@[j]).0@ == old(self).libraries@[j].0@,
                forall|j: int|
                    i <= j < self.libraries.len() ==> (#[trigger] self.libraries@[j]).1 == old(self).libraries@[j].1,
                forall|j: int|
                    0 <= j < i ==> (#[trigger] self.libraries@[j]).1 == if self.libraries@[j].0@.0
                        == session_id@ {
                        OpenLibrary { closing: true, ..old(self).libraries@[j].1 }
                    } else {
                        old(self).libraries@[j].1
                    },
                distinct_keys(keys@),
                forall|key: (Seq<char>, Seq<char>)|
                    #![trigger among_keys(keys@, key)]
                    among_keys(keys@, key) <==> key.0 == session_id@ && exists|j: int|
                        0 <= j < i && (#[trigger] self.libraries@[j]).0@ == key,
            decreases self.libraries.len() - i,
        {
            let ghost before = self.libraries@;
            let ghost known = keys@;
            if *self.libraries[i].0.session_id.as_str() == *session_id {
                let library = self.libraries[i].1;
                let key = self.libraries[i].0.copy();
                proof {
                    listed_libraries(self.libraries@, self.libraries@[i as int].0@);
                }
                self.put(
                    i,
                    OpenLibrary {
                        active_operations: library.active_operations,
                        closing: true,
                        last_used: library.last_used,
                    },
                );
                proof {
                    listed_libraries(self.libraries@, self.libraries@[i as int].0@);
                    assert(!among_keys(known, key@)) by {
                        assert forall|j: int| 0 <= j < i implies (#[trigger] before[j]).0@ != key@ by {
                            assert(before[j].0@ != before[i as int].0@);
                        }
                    }
                    key_added(known, key);
                }
                keys.push(key);
            }
            proof {
                assert forall|key: (Seq<char>, Seq<char>)|
                    #![trigger among_keys(keys@, key)]
                    among_keys(keys@, key) <==> key.0 == session_id@ && exists|j: int|
                        0 <= j < i + 1 && (#[trigger] self.libraries@[j]).0@ == key by {
                    assert(among_keys(known, key) <==> key.0 == session_id@ && exists|j: int|
                        0 <= j < i && (#[trigger] before[j]).0@ == key);
                    if key.0 == session_id@ {
                        if exists|j: int| 0 <= j < i && (#[trigger] before[j]).0@ == key {
                            let j = choose|j: int| 0 <= j < i && (#[trigger] before[j]).0@ == key;
                            assert(self.libraries@[j].0@ == key);
                        }
                        if exists|j: int| 0 <= j < i + 1 && (#[trigger] self.libraries@[j]).0@ == key {
                            let j = choose|j: int| 0 <= j < i + 1 && (#[trigger] self.libraries@[j]).0@ == key;
                            assert(before[j].0@ == key);
                        }
                        if before[i as int].0@ == key {
                            assert(self.libraries@[i as int].0@ == key);
                        }
                    }
                }
            }
            i = i + 1;
        }
        proof {
            assert forall|key: (Seq<char>, Seq<char>)| #[trigger]
                self@.contains_key(key) implies self@[key] == closing(old(self)@, session_id@)[key] by {
                listed_libraries(old(self).libraries@, key);
                listed_libraries(self.libraries@, key);
                let k = choose|j: int|
                    0 <= j < old(self).libraries.len() && (#[trigger] old(self).libraries@[j]).0@ == key;
                assert(self.libraries@[k].0@ == key);
            }
            assert(self@ =~= closing(old(self)@, session_id@));
            assert forall|key: (Seq<char>, Seq<char>)|
                #![trigger among_keys(keys@, key)]
                among_keys(keys@, key) <==> old(self)@.contains_key(key) && key.0 == session_id@ by {
                listed_libraries(self.libraries@, key);
            }
        }
        keys
    }

    /// Whether an operation still runs on one of these libraries.
    pub fn are_busy(&self, keys: &Vec<HandleKey>) -> (busy: bool)
        requires
            self.well_formed(),
        ensures
            busy <==> exists|key: (Seq<char>, Seq<char>)| #[trigger]
                among_keys(keys@, key) && self@.contains_key(key) && self@[key].active_operations > 0,
    {
        let mut i: usize = 0;
        while i < keys.len()
            invariant
                i <= keys.len(),
                self.well_formed(),
                forall|j: int|
                    0 <= j < i ==> !self@.contains_key((#[trigger] keys@[j])@)
                        || self@[keys@[j]@].active_operations == 0,
            decreases keys.len() - i,
        {
            if let Some(place) = self.place(&keys[i]) {
                if self.libraries[place].1.active_operations > 0 {
                    assert(among_keys(keys@, keys@[i as int]@));
                    return true;
                }
            }
            i = i + 1;
        }
        false
    }

    /// Closes these libraries.
    pub fn remove(&mut self, keys: &Vec<HandleKey>)
        requires
            old(self).well_formed(),
        ensures
            final(self).well_formed(),
            final(self)@ == kept_libraries(
                old(self)@,
                |key: (Seq<char>, Seq<char>), library: OpenLibrary| !among_keys(keys@, key),
            ),
    {
        let ghost keep = |key: (Seq<char>, Seq<char>), library: OpenLibrary|
            !among_keys(keys@, key);
        let mut kept: Vec<(HandleKey, OpenLibrary)> = Vec::new();
        assert(libraries_of(kept@) =~= kept_libraries(libraries_of(self.libraries@.take(0)), keep));
        let mut i: usize = 0;
        while i < self.libraries.len()
            invariant
                i <= self.libraries.len(),
                *self == *old(self),
                self.well_formed(),
                keep == (|key: (Seq<char>, Seq<char>), library: OpenLibrary|
                    !among_keys(keys@, key)),
                listed_once(kept@),
                libraries_of(kept@) == kept_libraries(
                    libraries_of(self.libraries@.take(i as int)),
                    keep,
                ),
            decreases self.libraries.len() - i,
        {
            let entry = &self.libraries[i];
            let library = entry.1;
            let ghost next = self.libraries@.take(i + 1);
            proof {
                next_library(self.libraries@, i as int);
            }
            if !names(keys, &entry.0) {
                let kept_entry = (entry.0.copy(), library);
                proof {
                    added_library(kept@, kept_entry);
                }
                kept.push(kept_entry);
            }
            assert(libraries_of(kept@) =~= kept_libraries(libraries_of(next), keep));
            i = i + 1;
        }
        assert(self.libraries@.take(self.libraries.len() as int) =~= self.libraries@);
        self.libraries = kept;
    }
}

/// Whether a library is among these.
pub open spec fn among_keys(keys: Seq<HandleKey>, key: (Seq<char>, Seq<char>)) -> bool {
    exists|i: int| 0 <= i < keys.len() && (#[trigger] keys[i])@ == key
}

/// Whether no key stands twice.
pub open spec fn distinct_keys(keys: Seq<HandleKey>) -> bool {
    forall|i: int, j: int| 0 <= i < j < keys.len() ==> (#[trigger] keys[i])@ != (#[trigger] keys[j])@
}

proof fn key_added(keys: Seq<HandleKey>, key: HandleKey)
    requires
        distinct_keys(keys),
        !among_keys(keys, key@),
    ensures
        distinct_keys(keys.push(key)),
        forall|other: (Seq<char>, Seq<char>)|
            #![trigger among_keys(keys.push(key), other)]
            among_keys(keys.push(key), other) <==> among_keys(keys, other) || other == key@,
{
    let after = keys.push(key);
    assert forall|i: int, j: int| 0 <= i < j < after.len() implies (#[trigger] after[i])@ != (#[trigger] after[j])@ by {
        if j == keys.len() {
            assert(keys[i]@ != key@);
        } else {
            assert(keys[i]@ != keys[j]@);
        }
    }
    assert forall|other: (Seq<char>, Seq<char>)|
        #![trigger among_keys(after, other)]
        among_keys(after, other) <==> among_keys(keys, other) || other == key@ by {
        if among_keys(keys, other) {
            let i = choose|i: int| 0 <= i < keys.len() && (#[trigger] keys[i])@ == other;
            assert(after[i]@ == other);
        }
        if other == key@ {
            assert(after[keys.len() as int]@ == other);
        }
        if among_keys(after, other) {
            let i = choose|i: int| 0 <= i < after.len() && (#[trigger] after[i])@ == other;
            if i < keys.len() {
                assert(keys[i]@ == other);
            }
        }
    }
}

fn names(keys: &Vec<HandleKey>, key: &HandleKey) -> (yes: bool)
    ensures
        yes == among_keys(keys@, key@),
{
    let mut i: usize = 0;
    while i < keys.len()
        invariant
            i <= keys.len(),
            forall|j: int| 0 <= j < i ==> (#[trigger] keys@[j])@ != key@,
        decreases keys.len() - i,
    {
        if keys[i].same(key) {
            return true;
        }
        i = i + 1;
    }
    false
}

/// The libraries once those of a session take no operation any more.
pub open spec fn closing(
    libraries: Map<(Seq<char>, Seq<char>), OpenLibrary>,
    session_id: Seq<char>,
) -> Map<(Seq<char>, Seq<char>), OpenLibrary> {
    Map::new(
        |key: (Seq<char>, Seq<char>)| libraries.contains_key(key),
        |key: (Seq<char>, Seq<char>)|
            if key.0 == session_id {
                OpenLibrary { closing: true, ..libraries[key] }
            } else {
                libraries[key]
            },
    )
}

proof fn prefix_listed_once(libraries: Seq<(HandleKey, OpenLibrary)>, n: int)
    requires
        listed_once(libraries),
        0 <= n <= libraries.len(),
    ensures
        listed_once(libraries.take(n)),
{
    let front = libraries.take(n);
    assert forall|i: int, j: int| 0 <= i < j < front.len() implies (#[trigger] front[i]).0@ != (
    #[trigger] front[j]).0@ by {
        assert(libraries[i].0@ != libraries[j].0@);
    }
}

/// The next library of a list is not among those before it.
proof fn next_library(libraries: Seq<(HandleKey, OpenLibrary)>, i: int)
    requires
        listed_once(libraries),
        0 <= i < libraries.len(),
    ensures
        libraries.take(i + 1).drop_last() == libraries.take(i),
        !libraries_of(libraries.take(i)).contains_key(libraries[i].0@),
{
    let here = libraries.take(i);
    prefix_listed_once(libraries, i);
    assert(libraries.take(i + 1).drop_last() =~= here);
    listed_libraries(here, libraries[i].0@);
    assert forall|j: int| 0 <= j < here.len() implies (#[trigger] here[j]).0@ != libraries[i].0@ by {
        assert(libraries[j].0@ != libraries[i].0@);
    }
}

/// An operation that began and ended leaves the library in use as often as before, and
/// every other library as it was.
pub proof fn operations_balance(
    libraries: Map<(Seq<char>, Seq<char>), OpenLibrary>,
    key: (Seq<char>, Seq<char>),
    now: u128,
)
    requires
        libraries.contains_key(key),
        libraries[key].active_operations < usize::MAX,
    ensures
        finished(begun(libraries, key, now), key)[key].active_operations
            == libraries[key].active_operations,
        finished(begun(libraries, key, now), key).remove(key) == libraries.remove(key),
{
    assert(finished(begun(libraries, key, now), key).remove(key) =~= libraries.remove(key));
}

/// A library on which an operation runs is never closed for its age.
pub proof fn used_libraries_stay_open(
    libraries: Map<(Seq<char>, Seq<char>), OpenLibrary>,
    key: (Seq<char>, Seq<char>),
    now: u128,
)
    requires
        libraries.contains_key(key),
        libraries[key].active_operations > 0,
    ensures
        unexpired(libraries, now).contains_key(key),
        unexpired(libraries, now)[key] == libraries[key],
{
}

/// Once a session is being closed, none of its libraries takes another operation, and the
/// other sessions' libraries are as they were.
pub proof fn closed_sessions_begin_nothing(
    libraries: Map<(Seq<char>, Seq<char>), OpenLibrary>,
    session_id: Seq<char>,
    key: (Seq<char>, Seq<char>),
)
    ensures
        key.0 == session_id ==> may_begin(closing(libraries, session_id), key) is Err,
        key.0 != session_id ==> may_begin(closing(libraries, session_id), key) == may_begin(
            libraries,
            key,
        ),
{
}

/// Starting and finishing an operation touch the library that it is on and no other;
/// starting one counts it and marks the library as used.
pub proof fn operations_touch_their_library(
    libraries: Map<(Seq<char>, Seq<char>), OpenLibrary>,
    key: (Seq<char>, Seq<char>),
    other: (Seq<char>, Seq<char>),
    now: u128,
)
    requires
        libraries.contains_key(key),
        libraries[key].active_operations < usize::MAX,
        other != key,
    ensures
        begun(libraries, key, now).contains_key(key),
        begun(libraries, key, now)[key].active_operations == libraries[key].active_operations + 1,
        begun(libraries, key, now)[key].last_used == now,
        begun(libraries, key, now)[key].closing == libraries[key].closing,
        libraries[key].active_operations > 0 ==> finished(libraries, key)[key].active_operations
            == libraries[key].active_operations - 1,
        finished(libraries, key)[key].last_used == libraries[key].last_used,
        finished(libraries, key)[key].closing == libraries[key].closing,
        begun(libraries, key, now).contains_key(other) <==> libraries.contains_key(other),
        begun(libraries, key, now)[other] == libraries[other],
        finished(libraries, key).contains_key(other) <==> libraries.contains_key(other),
        finished(libraries, key)[other] == libraries[other],
{
}

/// An operation starts on a library that is open and not being closed, and on no other.
pub proof fn operations_start_on_open_libraries(
    libraries: Map<(Seq<char>, Seq<char>), OpenLibrary>,
    key: (Seq<char>, Seq<char>),
)
    ensures
        may_begin(libraries, key) is Ok <==> libraries.contains_key(key) && !libraries[key].closing,
{
}

/// Closing a session marks its libraries, all of them and no others, and changes nothing
/// else.
pub proof fn closing_marks_the_sessions_libraries(
    libraries: Map<(Seq<char>, Seq<char>), OpenLibrary>,
    session_id: Seq<char>,
    key: (Seq<char>, Seq<char>),
)
    requires
        libraries.contains_key(key),
    ensures
        closing(libraries, session_id).contains_key(key),
        key.0 == session_id ==> closing(libraries, session_id)[key].closing,
        key.0 != session_id ==> closing(libraries, session_id)[key] == libraries[key],
        closing(libraries, session_id)[key].active_operations == libraries[key].active_operations,
        closing(libraries, session_id)[key].last_used == libraries[key].last_used,
{
}

/// A library that nothing works on is closed a day after it was last used, and no earlier.
pub proof fn unused_libraries_expire_after_a_day(
    libraries: Map<(Seq<char>, Seq<char>), OpenLibrary>,
    key: (Seq<char>, Seq<char>),
    now: u128,
)
    requires
        libraries.contains_key(key),
    ensures
        libraries[key].active_operations > 0 ==> unexpired(libraries, now).contains_key(key),
        libraries[key].active_operations == 0 ==> (unexpired(libraries, now).contains_key(key)
            <==> now < libraries[key].last_used + 24 * 3600 * 1_000_000_000),
        unexpired(libraries, now).contains_key(key) ==> unexpired(libraries, now)[key]
            == libraries[key],
{
}

/// A name of letters, digits and hyphens that begins with a letter or a digit names a
/// library; a name with a slash, a dot or a blank does not, nor does one that begins with
/// a hyphen.
pub proof fn library_names_are_plain(name: Seq<char>, i: int)
    requires
        0 <= i < name.len(),
    ensures
        library_name(name) is Ok ==> name[i] != '/' && name[i] != '.' && name[i] != ' ',
        library_name(name) is Ok ==> name[0] != '-' && name[0] != '_',
        text::utf8_length(name) <= 255 && 'a' <= name[0] <= 'z' && (forall|k: int|
            0 <= k < name.len() ==> 'a' <= #[trigger] name[k] <= 'z' || '0' <= name[k] <= '9'
                || name[k] == '-' || name[k] == '_') ==> library_name(name) is Ok,
        text::utf8_length(name) > 255 ==> library_name(name) is Err,
{
}

/// A session is named by letters, digits, hyphens, underscores and colons, in at most 128
/// bytes.
pub proof fn session_names_are_plain(id: Seq<char>, i: int)
    requires
        0 <= i < id.len(),
    ensures
        session_name(id) is Ok ==> id[i] != '/' && id[i] != '.' && id[i] != ' ',
        text::utf8_length(id) <= 128 && (forall|k: int|
            0 <= k < id.len() ==> 'a' <= #[trigger] id[k] <= 'z' || '0' <= id[k] <= '9' || id[k]
                == '-' || id[k] == ':') ==> session_name(id) is Ok,
        text::utf8_length(id) > 128 ==> session_name(id) is Err,
{
}

/// The tools on libraries are six, each called by its own name.
pub proof fn library_tools_are_named(name: Seq<char>)
    ensures
        name == "kcode-rust-libs-v2/create"@ <==> tool_named(name) == Ok::<
            RustLibTool,
            ErrorView,
        >(RustLibTool::Create),
        name == "kcode-rust-libs-v2/open"@ <==> tool_named(name) == Ok::<RustLibTool, ErrorView>(
            RustLibTool::Open,
        ),
        name == "kcode-rust-libs-v2/docs"@ <==> tool_named(name) == Ok::<RustLibTool, ErrorView>(
            RustLibTool::Docs,
        ),
        name == "kcode-rust-libs-v2/write"@ <==> tool_named(name) == Ok::<RustLibTool, ErrorView>(
            RustLibTool::Write,
        ),
        name == "kcode-rust-libs-v2/check"@ <==> tool_named(name) == Ok::<RustLibTool, ErrorView>(
            RustLibTool::Check,
        ),
        name == "kcode-rust-libs-v2/publish"@ <==> tool_named(name) == Ok::<
            RustLibTool,
            ErrorView,
        >(RustLibTool::Publish),
{
    reveal_strlit("kcode-rust-libs-v2/create");
    reveal_strlit("kcode-rust-libs-v2/open");
    reveal_strlit("kcode-rust-libs-v2/docs");
    reveal_strlit("kcode-rust-libs-v2/write");
    reveal_strlit("kcode-rust-libs-v2/check");
    reveal_strlit("kcode-rust-libs-v2/publish");
    assert("kcode-rust-libs-v2/create"@.len() == 25 && "kcode-rust-libs-v2/open"@.len() == 23);
    assert("kcode-rust-libs-v2/docs"@.len() == 23 && "kcode-rust-libs-v2/write"@.len() == 24);
    assert("kcode-rust-libs-v2/check"@.len() == 24 && "kcode-rust-libs-v2/publish"@.len() == 26);
    assert("kcode-rust-libs-v2/open"@[19] == 'o' && "kcode-rust-libs-v2/docs"@[19] == 'd');
    assert("kcode-rust-libs-v2/write"@[19] == 'w' && "kcode-rust-libs-v2/check"@[19] == 'c');
}

} // verus!
