//! Identifiers of graph nodes, stored objects and staged resources.
//!
//! The stores alone know which texts name something in them. What they made of the
//! texts at hand comes in as readings, and the rules here go by those.

use crate::text;
use crate::text::Failure;
use vstd::prelude::*;

verus! {

/// What the stores made of the texts at hand. Each list holds pairs of a text and
/// what it was read as; a later pair replaces an earlier one with the same text.
#[derive(Debug)]
pub struct Readings {
    /// The texts that name a node, each with the node's identity as the graph writes
    /// it.
    pub nodes: Vec<(String, String)>,
    /// The texts that name an object, each with the object's identity as the object
    /// store writes it.
    pub objects: Vec<(String, String)>,
    /// The texts that cannot name anything staged, each with the reason.
    pub refused: Vec<(String, String)>,
    /// File names, each with the name under which the object store would keep it.
    pub file_names: Vec<(String, String)>,
}

/// The mathematical value of the readings.
pub struct ReadingsView {
    pub nodes: Map<Seq<char>, Seq<char>>,
    pub objects: Map<Seq<char>, Seq<char>>,
    pub refused: Map<Seq<char>, Seq<char>>,
    pub file_names: Map<Seq<char>, Seq<char>>,
}

/// The map that a list of pairs stands for.
pub open spec fn pairs_of(pairs: Seq<(String, String)>) -> Map<Seq<char>, Seq<char>>
    decreases pairs.len(),
{
    if pairs.len() == 0 {
        Map::empty()
    } else {
        pairs_of(pairs.drop_last()).insert(pairs.last().0@, pairs.last().1@)
    }
}

impl View for Readings {
    type V = ReadingsView;

    open spec fn view(&self) -> ReadingsView {
        ReadingsView {
            nodes: pairs_of(self.nodes@),
            objects: pairs_of(self.objects@),
            refused: pairs_of(self.refused@),
            file_names: pairs_of(self.file_names@),
        }
    }
}

/// What a map of readings says of a text.
pub open spec fn reading(pairs: Map<Seq<char>, Seq<char>>, text: Seq<char>) -> Option<Seq<char>> {
    if pairs.contains_key(text) {
        Some(pairs[text])
    } else {
        None
    }
}

fn find<'a>(pairs: &'a Vec<(String, String)>, text: &str) -> (found: Option<&'a str>)
    ensures
        found.deep_view() == reading(pairs_of(pairs@), text@),
{
    let mut i: usize = pairs.len();
    assert(pairs@.take(i as int) =~= pairs@);
    while i > 0
        invariant
            i <= pairs.len(),
            reading(pairs_of(pairs@), text@) == reading(pairs_of(pairs@.take(i as int)), text@),
        decreases i,
    {
        assert(pairs@.take(i as int).drop_last() =~= pairs@.take(i - 1));
        if *pairs[i - 1].0.as_str() == *text {
            return Some(pairs[i - 1].1.as_str());
        }
        i = i - 1;
    }
    None
}

impl ReadingsView {
    /// The identity of the node that a text names.
    pub open spec fn node(self, id: Seq<char>) -> Option<Seq<char>> {
        reading(self.nodes, id)
    }

    /// Whether a text names a node.
    pub open spec fn names_node(self, id: Seq<char>) -> bool {
        self.node(id) is Some
    }

    /// The identity of the object that a text names.
    pub open spec fn object(self, id: Seq<char>) -> Option<Seq<char>> {
        reading(self.objects, id)
    }

    /// Whether the object store would keep a file under this very name.
    pub open spec fn keeps_name(self, name: Seq<char>) -> bool {
        reading(self.file_names, name) == Some(name)
    }

    /// `id`, where it can name something staged.
    pub open spec fn staged(self, id: Seq<char>) -> Result<Seq<char>, Seq<char>> {
        match reading(self.refused, id) {
            Some(reason) => Err(reason),
            None => Ok(id),
        }
    }

    /// `id`, where it names a node.
    pub open spec fn canonical(self, id: Seq<char>) -> Result<Seq<char>, Seq<char>> {
        match self.node(id) {
            Some(_) => Ok(id),
            None => Err(text::debug_quoted(id) + " is not a canonical node ID"@),
        }
    }

    /// `id`, where it may stand for a node in a tool call: a staged node, one of the
    /// two owner words, or the identity of a node.
    pub open spec fn resource(self, id: Seq<char>) -> Result<Seq<char>, Seq<char>> {
        if text::begins(id, "pending:"@) {
            self.staged(id)
        } else if id == "self"@ || id == "unowned"@ {
            Ok(id)
        } else {
            self.canonical(id)
        }
    }
}

impl Readings {
    /// The readings of no text.
    pub fn new() -> (readings: Readings)
        ensures
            readings@ == (ReadingsView {
                nodes: Map::empty(),
                objects: Map::empty(),
                refused: Map::empty(),
                file_names: Map::empty(),
            }),
    {
        Readings {
            nodes: Vec::new(),
            objects: Vec::new(),
            refused: Vec::new(),
            file_names: Vec::new(),
        }
    }

    /// The identity of the node that a text names.
    pub fn node<'a>(&'a self, id: &str) -> (identity: Option<&'a str>)
        ensures
            identity.deep_view() == self@.node(id@),
    {
        find(&self.nodes, id)
    }

    /// The identity of the object that a text names.
    pub fn object<'a>(&'a self, id: &str) -> (identity: Option<&'a str>)
        ensures
            identity.deep_view() == self@.object(id@),
    {
        find(&self.objects, id)
    }

    /// The name under which the object store would keep a file of this name.
    pub fn file_name<'a>(&'a self, name: &str) -> (kept: Option<&'a str>)
        ensures
            kept.deep_view() == reading(self@.file_names, name@),
    {
        find(&self.file_names, name)
    }

    /// `id`, where it can name something staged.
    pub fn staged_id(&self, id: &str) -> (result: Result<String, Failure>)
        ensures
            text::seen(result) == self@.staged(id@),
    {
        match find(&self.refused, id) {
            Some(reason) => Err(Failure::fixed(reason)),
            None => Ok(id.to_owned()),
        }
    }
}

/// `id`, where it names a node.
pub fn canonical_id(id: &str, readings: &Readings) -> (result: Result<String, Failure>)
    ensures
        text::seen(result) == readings@.canonical(id@),
{
    match readings.node(id) {
        Some(_) => Ok(id.to_owned()),
        None => {
            let mut message = text::quoted(id);
            message.append(" is not a canonical node ID");
            Err(Failure::new(message))
        },
    }
}

/// `id`, where it may stand for a node in a tool call.
pub fn parse_resource_id(id: &str, readings: &Readings) -> (result: Result<String, Failure>)
    ensures
        text::seen(result) == readings@.resource(id@),
{
    if text::starts_with(id, "pending:") {
        readings.staged_id(id)
    } else if *id == *"self" || *id == *"unowned" {
        Ok(id.to_owned())
    } else {
        canonical_id(id, readings)
    }
}

/// The words for an owner and for none are taken as they are; what is said to be staged
/// must be staged, and everything else must name a node.
pub proof fn resources_are_words_staged_or_nodes(readings: ReadingsView, id: Seq<char>)
    ensures
        readings.resource("self"@) == Ok::<Seq<char>, Seq<char>>("self"@),
        readings.resource("unowned"@) == Ok::<Seq<char>, Seq<char>>("unowned"@),
        readings.resource(id) is Ok ==> readings.resource(id)->Ok_0 == id,
        id != "self"@ && id != "unowned"@ && !text::begins(id, "pending:"@) ==> (readings.resource(
            id,
        ) is Ok <==> readings.node(id) is Some),
        text::begins(id, "pending:"@) ==> (readings.resource(id) is Ok
            <==> !readings.refused.contains_key(id)),
{
    reveal_strlit("self");
    reveal_strlit("unowned");
    reveal_strlit("pending:");
    assert("self"@.len() == 4);
    assert("unowned"@.len() == 7);
    assert("pending:"@.len() == 8);
    assert("pending:"@[0] == 'p' && "self"@[0] == 's' && "unowned"@[0] == 'u');
    if text::begins("unowned"@, "pending:"@) {
        assert("unowned"@.subrange(0, 8).len() == 8);
    }
}

/// Of several readings of one text the last one counts, and the others are kept.
pub proof fn the_last_reading_counts(pairs: Seq<(String, String)>, pair: (String, String), other: Seq<char>)
    ensures
        reading(pairs_of(pairs.push(pair)), pair.0@) == Some(pair.1@),
        other != pair.0@ ==> reading(pairs_of(pairs.push(pair)), other) == reading(
            pairs_of(pairs),
            other,
        ),
        reading(pairs_of(Seq::<(String, String)>::empty()), other) is None,
{
    assert(pairs.push(pair).drop_last() =~= pairs);
}

} // verus!
