//! The staged graph edits of one write session.
//!
//! A session never edits the graph directly: it stages new nodes and replacement
//! contents for existing ones, and commits them together when it ends. The edits
//! read through the stage: a node is what the stage last made of it, and else
//! what the session has loaded.

use crate::arguments;
use crate::ids;
use crate::ids::{Readings, ReadingsView};
use crate::json::{Json, JsonView};
use crate::order;
use crate::text;
use crate::text::Failure;
use vstd::prelude::*;

verus! {

/// The staged contents of one node.
#[derive(Debug)]
pub struct PlannedNode {
    pub short_name: String,
    pub short_description: String,
    pub long_description: String,
    pub owner: String,
    pub fixed_connections: Vec<String>,
    pub recent_connections: Vec<String>,
    pub objects: Vec<String>,
    pub attach_session_archive: bool,
}

/// The mathematical value of a node's contents.
#[verifier::ext_equal]
pub struct NodeView {
    pub short_name: Seq<char>,
    pub short_description: Seq<char>,
    pub long_description: Seq<char>,
    pub owner: Seq<char>,
    pub fixed: Seq<Seq<char>>,
    pub recent: Seq<Seq<char>>,
    pub objects: Seq<Seq<char>>,
    pub archived: bool,
}

impl View for PlannedNode {
    type V = NodeView;

    open spec fn view(&self) -> NodeView {
        NodeView {
            short_name: self.short_name@,
            short_description: self.short_description@,
            long_description: self.long_description@,
            owner: self.owner@,
            fixed: self.fixed_connections.deep_view(),
            recent: self.recent_connections.deep_view(),
            objects: self.objects.deep_view(),
            archived: self.attach_session_archive,
        }
    }
}

impl DeepView for PlannedNode {
    type V = NodeView;

    open spec fn deep_view(&self) -> NodeView {
        self@
    }
}

impl Clone for PlannedNode {
    fn clone(&self) -> (copy: PlannedNode)
        ensures
            copy@ == self@,
    {
        PlannedNode {
            short_name: self.short_name.clone(),
            short_description: self.short_description.clone(),
            long_description: self.long_description.clone(),
            owner: self.owner.clone(),
            fixed_connections: text::copied(&self.fixed_connections),
            recent_connections: text::copied(&self.recent_connections),
            objects: text::copied(&self.objects),
            attach_session_archive: self.attach_session_archive,
        }
    }
}

/// A node that the session creates.
#[derive(Debug)]
pub struct StagedNodeCreate {
    pub pending_id: String,
    pub data: PlannedNode,
}

/// Nodes by identity; a later entry replaces an earlier one.
#[derive(Debug)]
pub struct NodeTable {
    pub entries: Vec<(String, PlannedNode)>,
}

/// The map that a list of entries stands for.
pub open spec fn table_of(entries: Seq<(String, PlannedNode)>) -> Map<Seq<char>, NodeView>
    decreases entries.len(),
{
    if entries.len() == 0 {
        Map::empty()
    } else {
        table_of(entries.drop_last()).insert(entries.last().0@, entries.last().1@)
    }
}

impl View for NodeTable {
    type V = Map<Seq<char>, NodeView>;

    open spec fn view(&self) -> Map<Seq<char>, NodeView> {
        table_of(self.entries@)
    }
}

/// Replacing the last entry of an identity inserts it into the map.
proof fn table_update(entries: Seq<(String, PlannedNode)>, i: int, entry: (String, PlannedNode))
    requires
        0 <= i < entries.len(),
        entries[i].0@ == entry.0@,
        forall|j: int| i < j < entries.len() ==> (#[trigger] entries[j]).0@ != entry.0@,
    ensures
        table_of(entries.update(i, entry)) == table_of(entries).insert(entry.0@, entry.1@),
    decreases entries.len(),
{
    let after = entries.update(i, entry);
    if i == entries.len() - 1 {
        assert(after.drop_last() =~= entries.drop_last());
        assert(table_of(after) =~= table_of(entries).insert(entry.0@, entry.1@));
    } else {
        assert(entries[entries.len() - 1].0@ != entry.0@);
        table_update(entries.drop_last(), i, entry);
        assert(after.drop_last() =~= entries.drop_last().update(i, entry));
        assert(table_of(after) =~= table_of(entries).insert(entry.0@, entry.1@));
    }
}

impl NodeTable {
    /// A table without nodes.
    pub fn new() -> (table: NodeTable)
        ensures
            table@ == Map::<Seq<char>, NodeView>::empty(),
    {
        NodeTable { entries: Vec::new() }
    }

    /// The place of the last entry for `id`.
    fn place(&self, id: &str) -> (place: Option<usize>)
        ensures
            match place {
                Some(i) => {
                    &&& i < self.entries.len()
                    &&& self.entries@[i as int].0@ == id@
                    &&& forall|j: int|
                        i < j < self.entries.len() ==> (#[trigger] self.entries@[j]).0@ != id@
                    &&& self@.contains_key(id@)
                    &&& self@[id@] == self.entries@[i as int].1@
                },
                None => !self@.contains_key(id@),
            },
    {
        let mut i: usize = self.entries.len();
        assert(self.entries@.take(i as int) =~= self.entries@);
        while i > 0
            invariant
                i <= self.entries.len(),
                forall|j: int|
                    i <= j < self.entries.len() ==> (#[trigger] self.entries@[j]).0@ != id@,
                self@.contains_key(id@) == table_of(self.entries@.take(i as int)).contains_key(id@),
                self@.contains_key(id@) ==> self@[id@] == table_of(
                    self.entries@.take(i as int),
                )[id@],
            decreases i,
        {
            assert(self.entries@.take(i as int).drop_last() =~= self.entries@.take(i - 1));
            if *self.entries[i - 1].0.as_str() == *id {
                return Some(i - 1);
            }
            i = i - 1;
        }
        None
    }

    /// The contents of `id`.
    pub fn get<'a>(&'a self, id: &str) -> (node: Option<&'a PlannedNode>)
        ensures
            match node {
                Some(node) => self@.contains_key(id@) && self@[id@] == node@,
                None => !self@.contains_key(id@),
            },
    {
        match self.place(id) {
            Some(i) => Some(&self.entries[i].1),
            None => None,
        }
    }

    /// Sets the contents of `id`.
    pub fn insert(&mut self, id: &str, node: PlannedNode)
        ensures
            final(self)@ == old(self)@.insert(id@, node@),
    {
        match self.place(id) {
            Some(i) => {
                let entry = (id.to_owned(), node);
                proof {
                    table_update(self.entries@, i as int, entry);
                }
                self.entries.set(i, entry);
            },
            None => {
                let ghost before = self.entries@;
                self.entries.push((id.to_owned(), node));
                assert(self.entries@.drop_last() =~= before);
            },
        }
    }
}

/// The staged edits of a session.
#[derive(Debug)]
pub struct KwebPlan {
    pub creates: Vec<StagedNodeCreate>,
    pub updates: NodeTable,
}

/// The mathematical value of the staged edits.
#[verifier::ext_equal]
pub struct PlanView {
    pub creates: Seq<(Seq<char>, NodeView)>,
    pub updates: Map<Seq<char>, NodeView>,
}

impl View for KwebPlan {
    type V = PlanView;

    open spec fn view(&self) -> PlanView {
        PlanView {
            creates: Seq::new(
                self.creates@.len(),
                |i: int| (self.creates@[i].pending_id@, self.creates@[i].data@),
            ),
            updates: self.updates@,
        }
    }
}

/// What the session has loaded from the graph.
#[derive(Debug)]
pub struct LoadedNodes {
    pub nodes: NodeTable,
    /// The nodes that are loaded in full, and so may be edited.
    pub full_ids: Vec<String>,
    /// Which of the texts at hand name nodes.
    pub readings: Readings,
}

/// The mathematical value of what is loaded.
pub struct LoadedView {
    pub nodes: Map<Seq<char>, NodeView>,
    pub full: Seq<Seq<char>>,
    pub readings: ReadingsView,
}

impl View for LoadedNodes {
    type V = LoadedView;

    open spec fn view(&self) -> LoadedView {
        LoadedView {
            nodes: self.nodes@,
            full: self.full_ids.deep_view(),
            readings: self.readings@,
        }
    }
}

impl LoadedView {
    /// Every node that is loaded in full has contents.
    pub open spec fn well_formed(self) -> bool {
        forall|id: Seq<char>| #[trigger] self.full.contains(id) ==> self.nodes.contains_key(id)
    }
}

/// The place of the first staged creation called `id`, from place `i` on.
pub open spec fn creation_from(creates: Seq<(Seq<char>, NodeView)>, id: Seq<char>, i: int) -> Option<
    int,
>
    decreases creates.len() - i,
{
    if i < 0 || i >= creates.len() {
        None
    } else if creates[i].0 == id {
        Some(i)
    } else {
        creation_from(creates, id, i + 1)
    }
}

proof fn creation_from_is_first(creates: Seq<(Seq<char>, NodeView)>, id: Seq<char>, i: int)
    requires
        0 <= i,
    ensures
        match creation_from(creates, id, i) {
            Some(at) => {
                &&& i <= at < creates.len()
                &&& creates[at].0 == id
                &&& forall|j: int| i <= j < at ==> (#[trigger] creates[j]).0 != id
            },
            None => forall|j: int| i <= j < creates.len() ==> (#[trigger] creates[j]).0 != id,
        },
    decreases creates.len() - i,
{
    if i < creates.len() && creates[i].0 != id {
        creation_from_is_first(creates, id, i + 1);
    }
}

impl PlanView {
    /// The place of the staged creation called `id`.
    pub open spec fn creation(self, id: Seq<char>) -> Option<int> {
        creation_from(self.creates, id, 0)
    }

    /// What `id` is, read through the stage.
    pub open spec fn node(self, loaded: LoadedView, id: Seq<char>) -> Result<NodeView, Seq<char>> {
        match self.creation(id) {
            Some(at) => Ok(self.creates[at].1),
            None => if self.updates.contains_key(id) {
                Ok(self.updates[id])
            } else if loaded.nodes.contains_key(id) {
                Ok(loaded.nodes[id])
            } else {
                Err("Kweb context does not contain node "@ + id)
            },
        }
    }

    /// The stage after `id` was set to `data`.
    pub open spec fn put(self, loaded: LoadedView, id: Seq<char>, data: NodeView) -> Result<
        PlanView,
        Seq<char>,
    > {
        match self.creation(id) {
            Some(at) => Ok(
                PlanView { creates: self.creates.update(at, (id, data)), updates: self.updates },
            ),
            None => match loaded.readings.canonical(id) {
                Err(message) => Err(message),
                Ok(_) => Ok(
                    PlanView { creates: self.creates, updates: self.updates.insert(id, data) },
                ),
            },
        }
    }

    /// Whether the session may edit `id`, or why not.
    pub open spec fn known(self, loaded: LoadedView, id: Seq<char>) -> Result<(), Seq<char>> {
        if text::begins(id, "pending:"@) {
            if self.creation(id) is Some {
                Ok(())
            } else {
                Err("pending node "@ + id + " is not part of this session"@)
            }
        } else {
            match loaded.readings.canonical(id) {
                Err(message) => Err(message),
                Ok(_) => if loaded.full.contains(id) || self.updates.contains_key(id) {
                    Ok(())
                } else {
                    Err("node "@ + id + " is not loaded; call LoadNodes first"@)
                },
            }
        }
    }

    /// The first refusal among the first `n` of `ids`.
    pub open spec fn all_known(self, loaded: LoadedView, ids: Seq<Seq<char>>) -> Result<
        (),
        Seq<char>,
    >
        decreases ids.len(),
    {
        if ids.len() == 0 {
            Ok(())
        } else {
            match self.all_known(loaded, ids.drop_last()) {
                Err(message) => Err(message),
                Ok(_) => self.known(loaded, ids.last()),
            }
        }
    }
}

/// A node that may be edited can be set; where every node that is loaded in full has
/// contents, it can be read too.
pub proof fn known_is_usable(plan: PlanView, loaded: LoadedView, id: Seq<char>, data: NodeView)
    requires
        plan.known(loaded, id) is Ok,
    ensures
        plan.put(loaded, id, data) is Ok,
        loaded.well_formed() ==> plan.node(loaded, id) is Ok,
{
}

/// After a node was set, it reads as what it was set to, every other node reads as
/// before, and the same nodes may be edited.
pub proof fn put_then_node(
    plan: PlanView,
    loaded: LoadedView,
    id: Seq<char>,
    data: NodeView,
    other: Seq<char>,
)
    requires
        plan.put(loaded, id, data) is Ok,
    ensures
        plan.put(loaded, id, data)->Ok_0.node(loaded, id) == Ok::<NodeView, Seq<char>>(data),
        other != id ==> plan.put(loaded, id, data)->Ok_0.node(loaded, other) == plan.node(
            loaded,
            other,
        ),
        plan.known(loaded, other) is Ok ==> plan.put(loaded, id, data)->Ok_0.known(
            loaded,
            other,
        ) is Ok,
{
    let after = plan.put(loaded, id, data)->Ok_0;
    creation_from_is_first(plan.creates, id, 0);
    creation_from_is_first(plan.creates, other, 0);
    creation_from_is_first(after.creates, id, 0);
    creation_from_is_first(after.creates, other, 0);
    match plan.creation(id) {
        Some(at) => {
            assert(forall|j: int|
                0 <= j < plan.creates.len() ==> (#[trigger] after.creates[j]).0
                    == plan.creates[j].0);
            assert(after.creation(id) == Some(at)) by {
                match after.creation(id) {
                    Some(found) => {
                        assert(after.creates[found].0 == plan.creates[found].0);
                        assert(after.creates[at].0 == plan.creates[at].0);
                    },
                    None => {
                        assert(after.creates[at].0 == id);
                    },
                }
            }
            assert(after.creation(other) == plan.creation(other)) by {
                match (after.creation(other), plan.creation(other)) {
                    (Some(a), Some(b)) => {
                        assert(after.creates[a].0 == plan.creates[a].0);
                        assert(after.creates[b].0 == plan.creates[b].0);
                    },
                    (Some(a), None) => {
                        assert(after.creates[a].0 == plan.creates[a].0);
                    },
                    (None, Some(b)) => {
                        assert(after.creates[b].0 == plan.creates[b].0);
                    },
                    (None, None) => {},
                }
            }
        },
        None => {},
    }
}

/// `recent`, and after it what `more` adds: each item once, and never `id` itself.
pub open spec fn merged(recent: Seq<Seq<char>>, more: Seq<Seq<char>>, id: Seq<char>) -> Seq<
    Seq<char>,
>
    decreases more.len(),
{
    if more.len() == 0 {
        recent
    } else {
        let so_far = merged(recent, more.drop_last(), id);
        if more.last() != id && !so_far.contains(more.last()) {
            so_far.push(more.last())
        } else {
            so_far
        }
    }
}

/// Merging keeps what was there and adds nothing but items of `more` other than
/// `id`.
pub proof fn merged_keeps(recent: Seq<Seq<char>>, more: Seq<Seq<char>>, id: Seq<char>)
    ensures
        recent.len() <= merged(recent, more, id).len(),
        merged(recent, more, id).take(recent.len() as int) == recent,
        !recent.contains(id) ==> !merged(recent, more, id).contains(id),
        recent.no_duplicates() ==> merged(recent, more, id).no_duplicates(),
        forall|x: Seq<char>|
            more.contains(x) && x != id ==> #[trigger] merged(recent, more, id).contains(x),
    decreases more.len(),
{
    if more.len() == 0 {
        assert(recent.take(recent.len() as int) =~= recent);
    } else {
        let rest = more.drop_last();
        let last = more.last();
        merged_keeps(recent, rest, id);
        let so_far = merged(recent, rest, id);
        let all = merged(recent, more, id);
        assert(all.take(recent.len() as int) =~= so_far.take(recent.len() as int));
        if last != id && !so_far.contains(last) {
            assert(all == so_far.push(last));
            if !recent.contains(id) {
                assert(!all.contains(id)) by {
                    if all.contains(id) {
                        let i = all.index_of(id);
                        if i < so_far.len() {
                            assert(so_far[i] == id);
                        }
                    }
                }
            }
            if recent.no_duplicates() {
                assert forall|i: int, j: int|
                    0 <= i < all.len() && 0 <= j < all.len() && i != j implies all[i] != all[j] by {
                    if i == all.len() - 1 {
                        assert(so_far.contains(so_far[j]));
                    } else if j == all.len() - 1 {
                        assert(so_far.contains(so_far[i]));
                    }
                }
            }
        }
        assert forall|x: Seq<char>| more.contains(x) && x != id implies #[trigger] all.contains(
            x,
        ) by {
            let i = more.index_of(x);
            if i < rest.len() {
                assert(rest[i] == x);
                assert(so_far.contains(x));
                let j = so_far.index_of(x);
                assert(all[j] == x);
            } else {
                assert(x == last);
                if so_far.contains(x) {
                    let j = so_far.index_of(x);
                    assert(all[j] == x);
                } else {
                    assert(all[all.len() - 1] == x);
                }
            }
        }
    }
}

fn merge(recent: Vec<String>, more: &Vec<String>, id: &str) -> (result: Vec<String>)
    ensures
        result.deep_view() == merged(recent.deep_view(), more.deep_view(), id@),
{
    let ghost start = recent.deep_view();
    let ghost all = more.deep_view();
    let mut result = recent;
    let mut i: usize = 0;
    while i < more.len()
        invariant
            i <= more.len(),
            all == more.deep_view(),
            result.deep_view() == merged(start, all.take(i as int), id@),
        decreases more.len() - i,
    {
        assert(all.take(i + 1).drop_last() =~= all.take(i as int));
        assert(all.take(i + 1).last() == more@[i as int]@);
        if *more[i].as_str() != *id && !text::among(&result, more[i].as_str()) {
            let ghost before = result.deep_view();
            result.push(more[i].clone());
            assert(result.deep_view() =~= before.push(all[i as int]));
        }
        i = i + 1;
    }
    assert(all.take(all.len() as int) =~= all);
    result
}

impl NodeView {
    /// This node with `recent` as its recent connections.
    pub open spec fn with_recent(self, recent: Seq<Seq<char>>) -> NodeView {
        NodeView { recent, ..self }
    }

    /// This node with `fixed` as its fixed connections.
    pub open spec fn with_fixed(self, fixed: Seq<Seq<char>>) -> NodeView {
        NodeView { fixed, ..self }
    }

    /// This node, called `id`, with all the others of `ids` put in front of its
    /// recent connections.
    pub open spec fn linked(self, ids: Seq<Seq<char>>, id: Seq<char>) -> NodeView {
        self.with_recent(merged(text::excluding(ids, seq![id]), self.recent, id))
    }
}

impl PlanView {
    /// Linking the first `n` of `ids` to the others, up to the first that cannot be read
    /// or set.
    pub open spec fn connected(self, loaded: LoadedView, ids: Seq<Seq<char>>, n: int) -> Edit
        decreases n,
    {
        if n <= 0 {
            Edit {
                answer: Ok("Staged connections among nodes "@ + text::joined(ids, ", "@) + "."@),
                plan: self,
            }
        } else {
            let before = self.connected(loaded, ids, n - 1);
            let id = ids[n - 1];
            match before.answer {
                Err(_) => before,
                Ok(answer) => match before.plan.node(loaded, id) {
                    Err(message) => before.plan.refused(message),
                    Ok(node) => match before.plan.put(loaded, id, node.linked(ids, id)) {
                        Err(message) => before.plan.refused(message),
                        Ok(plan) => Edit { answer: Ok(answer), plan },
                    },
                },
            }
        }
    }
}

/// Once linking was refused, no later node changes the outcome.
proof fn connected_stops(plan: PlanView, loaded: LoadedView, ids: Seq<Seq<char>>, n: int, m: int)
    requires
        0 < n <= m,
        plan.connected(loaded, ids, n).answer is Err,
    ensures
        plan.connected(loaded, ids, m) == plan.connected(loaded, ids, n),
    decreases m,
{
    if n < m {
        connected_stops(plan, loaded, ids, n, m - 1);
    }
}

/// Linking some of distinct nodes links those and leaves the rest as they were.
pub proof fn connected_nodes(plan: PlanView, loaded: LoadedView, ids: Seq<Seq<char>>, n: int)
    requires
        ids.no_duplicates(),
        0 <= n <= ids.len(),
        plan.connected(loaded, ids, n).answer is Ok,
    ensures
        forall|i: int|
            0 <= i < n ==> plan.node(loaded, #[trigger] ids[i]) is Ok && plan.connected(
                loaded,
                ids,
                n,
            ).plan.node(loaded, ids[i]) == Ok::<NodeView, Seq<char>>(
                plan.node(loaded, ids[i])->Ok_0.linked(ids, ids[i]),
            ),
        forall|other: Seq<char>|
            !ids.take(n).contains(other) ==> #[trigger] plan.connected(loaded, ids, n).plan.node(
                loaded,
                other,
            ) == plan.node(loaded, other),
    decreases n,
{
    if n > 0 {
        let before = plan.connected(loaded, ids, n - 1).plan;
        connected_nodes(plan, loaded, ids, n - 1);
        let after = plan.connected(loaded, ids, n).plan;
        let id = ids[n - 1];
        assert(!ids.take(n - 1).contains(id)) by {
            if ids.take(n - 1).contains(id) {
                let i = ids.take(n - 1).index_of(id);
                assert(ids[i] == ids[n - 1]);
            }
        }
        assert(before.node(loaded, id) == plan.node(loaded, id));
        let data = before.node(loaded, id)->Ok_0.linked(ids, id);
        assert forall|i: int| 0 <= i < n implies plan.node(loaded, #[trigger] ids[i]) is Ok
            && after.node(loaded, ids[i]) == Ok::<NodeView, Seq<char>>(
            plan.node(loaded, ids[i])->Ok_0.linked(ids, ids[i]),
        ) by {
            put_then_node(before, loaded, id, data, ids[i]);
        }
        assert forall|other: Seq<char>| !ids.take(n).contains(other) implies #[trigger] after.node(
            loaded,
            other,
        ) == plan.node(loaded, other) by {
            put_then_node(before, loaded, id, data, other);
            assert(ids.take(n)[n - 1] == id);
            assert(!ids.take(n - 1).contains(other)) by {
                if ids.take(n - 1).contains(other) {
                    let i = ids.take(n - 1).index_of(other);
                    assert(ids.take(n)[i] == other);
                }
            }
        }
    }
}

/// Nodes that may be edited can be connected, where every node that is loaded in full
/// has contents.
pub proof fn known_nodes_connect(plan: PlanView, loaded: LoadedView, ids: Seq<Seq<char>>, n: int)
    requires
        loaded.well_formed(),
        0 <= n <= ids.len(),
        forall|i: int| 0 <= i < ids.len() ==> plan.known(loaded, #[trigger] ids[i]) is Ok,
    ensures
        plan.connected(loaded, ids, n).answer is Ok,
        forall|i: int|
            0 <= i < ids.len() ==> plan.connected(loaded, ids, n).plan.known(
                loaded,
                #[trigger] ids[i],
            ) is Ok,
    decreases n,
{
    if n > 0 {
        known_nodes_connect(plan, loaded, ids, n - 1);
        let before = plan.connected(loaded, ids, n - 1).plan;
        let id = ids[n - 1];
        assert(before.known(loaded, ids[n - 1]) is Ok);
        let data = before.node(loaded, id)->Ok_0.linked(ids, id);
        known_is_usable(before, loaded, id, data);
        assert forall|i: int| 0 <= i < ids.len() implies plan.connected(loaded, ids, n).plan.known(
            loaded,
            #[trigger] ids[i],
        ) is Ok by {
            put_then_node(before, loaded, id, data, ids[i]);
        }
    }
}

/// After nodes were connected, each has every other among its recent connections,
/// none has itself there, and the nodes that were not named are as they were.
pub proof fn connect_links_all(
    plan: PlanView,
    loaded: LoadedView,
    ids: Seq<Seq<char>>,
    i: int,
    j: int,
    other: Seq<char>,
)
    requires
        ids.no_duplicates(),
        0 <= i < ids.len(),
        0 <= j < ids.len(),
        i != j,
        !ids.contains(other),
        plan.connected(loaded, ids, ids.len() as int).answer is Ok,
    ensures
        ({
            let after = plan.connected(loaded, ids, ids.len() as int).plan;
            &&& after.node(loaded, ids[i]) is Ok
            &&& after.node(loaded, ids[i])->Ok_0.recent.contains(ids[j])
            &&& !after.node(loaded, ids[i])->Ok_0.recent.contains(ids[i])
            &&& after.node(loaded, other) == plan.node(loaded, other)
        }),
{
    connected_nodes(plan, loaded, ids, ids.len() as int);
    assert(ids.take(ids.len() as int) =~= ids);
    let first = text::excluding(ids, seq![ids[i]]);
    text::excluding_keeps(ids, seq![ids[i]]);
    let old_recent = plan.node(loaded, ids[i])->Ok_0.recent;
    merged_keeps(first, old_recent, ids[i]);
    let all = merged(first, old_recent, ids[i]);
    assert(seq![ids[i]][0] == ids[i]);
    assert(ids.contains(ids[j]));
    assert(!seq![ids[i]].contains(ids[j]));
    assert(first.contains(ids[j]));
    let k = first.index_of(ids[j]);
    assert(all.take(first.len() as int)[k] == ids[j]);
    assert(all[k] == ids[j]);
    assert(!first.contains(ids[i]));
}

/// What an edit answers, and the stage that it leaves behind.
pub struct Edit {
    pub answer: Result<Seq<char>, Seq<char>>,
    pub plan: PlanView,
}

impl PlanView {
    /// A refusal that leaves the stage as it is.
    pub open spec fn refused(self, message: Seq<char>) -> Edit {
        Edit { answer: Err(message), plan: self }
    }

    /// Setting `id` to `data`, answered with `answer`.
    pub open spec fn set(
        self,
        loaded: LoadedView,
        id: Seq<char>,
        data: NodeView,
        answer: Seq<char>,
    ) -> Edit {
        match self.put(loaded, id, data) {
            Err(message) => self.refused(message),
            Ok(plan) => Edit { answer: Ok(answer), plan },
        }
    }

    /// Connecting every node of a list to every other.
    pub open spec fn connect(self, loaded: LoadedView, arguments: JsonView) -> Edit {
        match arguments::shape(arguments, seq!["identifiers"@], Seq::empty()) {
            Err(message) => self.refused(message),
            Ok(_) => match arguments::resources_of(arguments, "identifiers"@, 2, loaded.readings) {
                Err(message) => self.refused(message),
                Ok(ids) => match self.all_known(loaded, ids) {
                    Err(message) => self.refused(message),
                    Ok(_) => self.connected(loaded, ids, ids.len() as int),
                },
            },
        }
    }

    /// The recent connections of a parent after some of its children moved below an
    /// aggregator.
    pub open spec fn parent_recent(
        recent: Seq<Seq<char>>,
        fanout: Seq<Seq<char>>,
        aggregator: Seq<char>,
    ) -> Seq<Seq<char>> {
        let kept = text::excluding(recent, fanout);
        if kept.contains(aggregator) {
            kept
        } else {
            kept.push(aggregator)
        }
    }

    /// `recent`, and after it each of `more` that is not there yet.
    pub open spec fn extended(recent: Seq<Seq<char>>, more: Seq<Seq<char>>) -> Seq<Seq<char>>
        decreases more.len(),
    {
        if more.len() == 0 {
            recent
        } else {
            let so_far = PlanView::extended(recent, more.drop_last());
            if so_far.contains(more.last()) {
                so_far
            } else {
                so_far.push(more.last())
            }
        }
    }

    /// Moving the children `fanout` of `parent` below `aggregator`. Both nodes are read
    /// before either is set.
    pub open spec fn consolidated(
        self,
        loaded: LoadedView,
        parent: Seq<char>,
        aggregator: Seq<char>,
        fanout: Seq<Seq<char>>,
    ) -> Edit {
        match self.node(loaded, parent) {
            Err(message) => self.refused(message),
            Ok(above) => match self.node(loaded, aggregator) {
                Err(message) => self.refused(message),
                Ok(below) => match self.put(
                    loaded,
                    parent,
                    above.with_recent(PlanView::parent_recent(above.recent, fanout, aggregator)),
                ) {
                    Err(message) => self.refused(message),
                    Ok(first) => match first.put(
                        loaded,
                        aggregator,
                        below.with_recent(PlanView::extended(below.recent, fanout)),
                    ) {
                        Err(message) => first.refused(message),
                        Ok(plan) => Edit {
                            answer: Ok(
                                "Staged fanout consolidation from node "@ + parent + " into node "@
                                    + aggregator + "."@,
                            ),
                            plan,
                        },
                    },
                },
            },
        }
    }

    /// Moving children of a node below an aggregator.
    pub open spec fn consolidate(self, loaded: LoadedView, arguments: JsonView) -> Edit {
        match arguments::shape(
            arguments,
            seq!["parentIdentifier"@, "fanoutIdentifiers"@, "aggregatorIdentifier"@],
            Seq::empty(),
        ) {
            Err(message) => self.refused(message),
            Ok(_) => match arguments::resource_of(arguments, "parentIdentifier"@, loaded.readings) {
                Err(message) => self.refused(message),
                Ok(parent) => match arguments::resource_of(
                    arguments,
                    "aggregatorIdentifier"@,
                    loaded.readings,
                ) {
                    Err(message) => self.refused(message),
                    Ok(aggregator) => match arguments::resources_of(
                        arguments,
                        "fanoutIdentifiers"@,
                        1,
                        loaded.readings,
                    ) {
                        Err(message) => self.refused(message),
                        Ok(fanout) => match self.all_known(
                            loaded,
                            seq![parent, aggregator] + fanout,
                        ) {
                            Err(message) => self.refused(message),
                            Ok(_) => self.consolidated(loaded, parent, aggregator, fanout),
                        },
                    },
                },
            },
        }
    }

    /// The child that a fixed slot is to hold; none where the slot is to be cleared.
    pub open spec fn fixed_child(arguments: JsonView, readings: ReadingsView) -> Result<
        Option<Seq<char>>,
        Seq<char>,
    > {
        match arguments.text_at("childIdentifier"@) {
            None => Ok(None),
            Some(id) => if id == "blank"@ {
                Ok(None)
            } else {
                match readings.resource(id) {
                    Ok(id) => Ok(Some(id)),
                    Err(message) => Err(message),
                }
            },
        }
    }

    /// The fixed connections after `child` was put into `slot`, counted from one.
    pub open spec fn fixed_with(fixed: Seq<Seq<char>>, child: Seq<char>, slot: int) -> Seq<
        Seq<char>,
    > {
        let kept = text::excluding(fixed, seq![child]);
        if slot - 1 < kept.len() {
            kept.update(slot - 1, child)
        } else {
            kept.push(child)
        }
    }

    /// The fixed connections after `slot`, counted from one, was cleared.
    pub open spec fn fixed_without(fixed: Seq<Seq<char>>, slot: int) -> Seq<Seq<char>> {
        if 0 < slot <= fixed.len() {
            fixed.remove(slot - 1)
        } else {
            fixed
        }
    }

    /// Putting `child` into one fixed slot of `parent`.
    pub open spec fn slotted(
        self,
        loaded: LoadedView,
        parent: Seq<char>,
        child: Seq<char>,
        slot: u64,
    ) -> Edit {
        match self.node(loaded, parent) {
            Err(message) => self.refused(message),
            Ok(node) => if slot > node.fixed.len() + 1 {
                self.refused("fixed connection positions must remain contiguous"@)
            } else {
                self.set(
                    loaded,
                    parent,
                    node.with_fixed(PlanView::fixed_with(node.fixed, child, slot as int)),
                    "Staged node "@ + child + " in fixed slot "@ + text::digits(slot as nat)
                        + " of node "@ + parent + "."@,
                )
            },
        }
    }

    /// Setting or clearing one fixed slot of a node.
    pub open spec fn fix(self, loaded: LoadedView, arguments: JsonView) -> Edit {
        match arguments::shape(
            arguments,
            seq!["parentIdentifier"@, "childIdentifier"@, "slot"@],
            Seq::empty(),
        ) {
            Err(message) => self.refused(message),
            Ok(_) => match arguments::resource_of(arguments, "parentIdentifier"@, loaded.readings) {
                Err(message) => self.refused(message),
                Ok(parent) => match self.known(loaded, parent) {
                    Err(message) => self.refused(message),
                    Ok(_) => match PlanView::fixed_child(arguments, loaded.readings) {
                        Err(message) => self.refused(message),
                        Ok(Some(child)) => match self.known(loaded, child) {
                            Err(message) => self.refused(message),
                            Ok(_) => if child == parent {
                                self.refused("a node cannot connect to itself"@)
                            } else {
                                match arguments::positive(arguments, "slot"@) {
                                    Err(message) => self.refused(message),
                                    Ok(slot) => self.slotted(loaded, parent, child, slot),
                                }
                            },
                        },
                        Ok(None) => match arguments::positive(arguments, "slot"@) {
                            Err(message) => self.refused(message),
                            Ok(slot) => match self.node(loaded, parent) {
                                Err(message) => self.refused(message),
                                Ok(node) => self.set(
                                    loaded,
                                    parent,
                                    node.with_fixed(
                                        PlanView::fixed_without(node.fixed, slot as int),
                                    ),
                                    "Cleared fixed slot "@ + text::digits(slot as nat)
                                        + " of node "@ + parent + " in the staged plan."@,
                                ),
                            },
                        },
                    },
                },
            },
        }
    }

    /// Replacing the owner and the texts of a node.
    pub open spec fn update(self, loaded: LoadedView, arguments: JsonView) -> Edit {
        match arguments::shape(
            arguments,
            seq![
                "identifier"@,
                "ownerIdentifier"@,
                "newShortName"@,
                "newShortDescription"@,
                "newLongDescription"@,
            ],
            Seq::empty(),
        ) {
            Err(message) => self.refused(message),
            Ok(_) => match arguments::node_texts(
                arguments,
                "newShortName"@,
                "newShortDescription"@,
                "newLongDescription"@,
            ) {
                Err(message) => self.refused(message),
                Ok(texts) => match arguments::resource_of(
                    arguments,
                    "identifier"@,
                    loaded.readings,
                ) {
                    Err(message) => self.refused(message),
                    Ok(id) => match arguments::resource_of(
                        arguments,
                        "ownerIdentifier"@,
                        loaded.readings,
                    ) {
                        Err(message) => self.refused(message),
                        Ok(owner) => match self.known(loaded, id) {
                            Err(message) => self.refused(message),
                            Ok(_) => match self.owner_known(loaded, owner) {
                                Err(message) => self.refused(message),
                                Ok(_) => match self.node(loaded, id) {
                                    Err(message) => self.refused(message),
                                    Ok(node) => self.set(
                                        loaded,
                                        id,
                                        NodeView {
                                            owner,
                                            short_name: texts.0,
                                            short_description: texts.1,
                                            long_description: texts.2,
                                            archived: true,
                                            ..node
                                        },
                                        "Staged the update to node "@ + id + "."@,
                                    ),
                                },
                            },
                        },
                    },
                },
            },
        }
    }

    /// Whether `owner` may own a node: one of the two owner words, or a node that the
    /// session may edit.
    pub open spec fn owner_known(self, loaded: LoadedView, owner: Seq<char>) -> Result<
        (),
        Seq<char>,
    > {
        if owner == "self"@ || owner == "unowned"@ {
            Ok(())
        } else {
            self.known(loaded, owner)
        }
    }

    /// The first refusal among `ids`, each an owner word or a node to edit.
    pub open spec fn owners_known(self, loaded: LoadedView, ids: Seq<Seq<char>>) -> Result<
        (),
        Seq<char>,
    >
        decreases ids.len(),
    {
        if ids.len() == 0 {
            Ok(())
        } else {
            match self.owners_known(loaded, ids.drop_last()) {
                Err(message) => Err(message),
                Ok(_) => self.owner_known(loaded, ids.last()),
            }
        }
    }

    /// The parents, the owner and the contents of a node to create.
    pub open spec fn drafted(self, loaded: LoadedView, arguments: JsonView) -> Result<
        (Seq<Seq<char>>, NodeView),
        Seq<char>,
    > {
        match arguments::shape(
            arguments,
            seq![
                "parentIdentifiers"@,
                "ownerIdentifier"@,
                "shortName"@,
                "shortDescription"@,
                "longDescription"@,
            ],
            Seq::empty(),
        ) {
            Err(message) => Err(message),
            Ok(_) => match arguments::node_texts(
                arguments,
                "shortName"@,
                "shortDescription"@,
                "longDescription"@,
            ) {
                Err(message) => Err(message),
                Ok(texts) => match arguments::resources_of(
                    arguments,
                    "parentIdentifiers"@,
                    1,
                    loaded.readings,
                ) {
                    Err(message) => Err(message),
                    Ok(parents) => match arguments::resource_of(
                        arguments,
                        "ownerIdentifier"@,
                        loaded.readings,
                    ) {
                        Err(message) => Err(message),
                        Ok(owner) => match self.owners_known(loaded, parents.push(owner)) {
                            Err(message) => Err(message),
                            Ok(_) => Ok(
                                (
                                    parents,
                                    NodeView {
                                        short_name: texts.0,
                                        short_description: texts.1,
                                        long_description: texts.2,
                                        owner,
                                        fixed: Seq::empty(),
                                        recent: parents,
                                        objects: Seq::empty(),
                                        archived: true,
                                    },
                                ),
                            ),
                        },
                    },
                },
            },
        }
    }

    /// The stage after `pending` was put in front of the recent connections of the
    /// first `n` of `parents`, up to the first that cannot be read or set.
    pub open spec fn adopted(
        self,
        loaded: LoadedView,
        parents: Seq<Seq<char>>,
        pending: Seq<char>,
        n: int,
    ) -> Edit
        decreases n,
    {
        if n <= 0 {
            Edit { answer: Ok("Created staged node "@ + pending + "."@), plan: self }
        } else {
            let before = self.adopted(loaded, parents, pending, n - 1);
            match before.answer {
                Err(_) => before,
                Ok(answer) => match before.plan.node(loaded, parents[n - 1]) {
                    Err(message) => before.plan.refused(message),
                    Ok(node) => match before.plan.put(
                        loaded,
                        parents[n - 1],
                        node.with_recent(
                            seq![pending] + text::excluding(node.recent, seq![pending]),
                        ),
                    ) {
                        Err(message) => before.plan.refused(message),
                        Ok(plan) => Edit { answer: Ok(answer), plan },
                    },
                },
            }
        }
    }

    /// Staging a drafted node under the fresh identity `pending`.
    pub open spec fn created(
        self,
        loaded: LoadedView,
        parents: Seq<Seq<char>>,
        data: NodeView,
        pending: Seq<char>,
    ) -> Edit {
        PlanView { creates: self.creates.push((pending, data)), updates: self.updates }.adopted(
            loaded,
            parents,
            pending,
            parents.len() as int,
        )
    }
}

/// The nodes a session may edit: what it has loaded, and what it has staged.
#[derive(Debug)]
pub struct StagedGraph {
    pub plan: KwebPlan,
    pub loaded: LoadedNodes,
}

/// A node to create, before it has an identity.
#[derive(Debug)]
pub struct NodeDraft {
    pub parents: Vec<String>,
    pub data: PlannedNode,
}

impl DeepView for NodeDraft {
    type V = (Seq<Seq<char>>, NodeView);

    open spec fn deep_view(&self) -> (Seq<Seq<char>>, NodeView) {
        (self.parents.deep_view(), self.data@)
    }
}

impl KwebPlan {
    /// A stage without edits.
    pub fn new() -> (plan: KwebPlan)
        ensures
            plan@ == (PlanView { creates: Seq::empty(), updates: Map::empty() }),
    {
        let plan = KwebPlan { creates: Vec::new(), updates: NodeTable::new() };
        assert(plan@.creates =~= Seq::empty());
        plan
    }

    /// The place of the staged creation called `id`.
    pub fn created_place(&self, id: &str) -> (place: Option<usize>)
        ensures
            place is Some == self@.creation(id@) is Some,
            place is Some ==> place->0 == self@.creation(id@)->0 && place->0 < self.creates.len(),
    {
        let mut i: usize = 0;
        while i < self.creates.len()
            invariant
                i <= self.creates.len(),
                self@.creation(id@) == creation_from(self@.creates, id@, i as int),
            decreases self.creates.len() - i,
        {
            if *self.creates[i].pending_id.as_str() == *id {
                return Some(i);
            }
            i = i + 1;
        }
        None
    }

    /// The contents of the staged creation called `id`.
    pub fn created<'a>(&'a self, id: &str) -> (node: Option<&'a PlannedNode>)
        ensures
            match node {
                Some(node) => self@.creation(id@) is Some && self@.creates[self@.creation(
                    id@,
                )->0].1 == node@,
                None => self@.creation(id@) is None,
            },
    {
        match self.created_place(id) {
            Some(i) => Some(&self.creates[i].data),
            None => None,
        }
    }
}

impl StagedGraph {
    /// What `id` is, read through the stage.
    pub fn node_data(&self, id: &str) -> (result: Result<PlannedNode, Failure>)
        ensures
            text::seen(result) == self.plan@.node(self.loaded@, id@),
    {
        if let Some(data) = self.plan.created(id) {
            return Ok(data.clone());
        }
        if let Some(data) = self.plan.updates.get(id) {
            return Ok(data.clone());
        }
        match self.loaded.nodes.get(id) {
            Some(data) => Ok(data.clone()),
            None => {
                let mut message = "Kweb context does not contain node ".to_owned();
                message.append(id);
                Err(Failure::new(message))
            },
        }
    }

    /// Sets `id` to `data` on the stage.
    pub fn put_node_data(&mut self, id: &str, data: PlannedNode) -> (result: Result<(), Failure>)
        ensures
            final(self).loaded == old(self).loaded,
            match old(self).plan@.put(old(self).loaded@, id@, data@) {
                Ok(plan) => result is Ok && final(self).plan@ == plan,
                Err(message) => result is Err && result->Err_0@ == message && final(self).plan@
                    == old(self).plan@,
            },
    {
        match self.plan.created_place(id) {
            Some(i) => {
                let ghost before = self.plan@;
                let create = StagedNodeCreate { pending_id: id.to_owned(), data };
                self.plan.creates.set(i, create);
                assert(self.plan@.creates =~= before.creates.update(i as int, (id@, data@)));
                Ok(())
            },
            None => {
                if let Err(failure) = ids::canonical_id(id, &self.loaded.readings) {
                    return Err(failure);
                }
                let ghost before = self.plan@;
                self.plan.updates.insert(id, data);
                assert(self.plan@.creates =~= before.creates);
                Ok(())
            },
        }
    }

    /// Checks that the session may edit `id`.
    pub fn ensure_known_node(&self, id: &str) -> (result: Result<(), Failure>)
        ensures
            arguments::checked(result) == self.plan@.known(self.loaded@, id@),
    {
        if text::starts_with(id, "pending:") {
            if self.plan.created(id).is_some() {
                Ok(())
            } else {
                let mut message = "pending node ".to_owned();
                message.append(id);
                message.append(" is not part of this session");
                Err(Failure::new(message))
            }
        } else {
            if let Err(failure) = ids::canonical_id(id, &self.loaded.readings) {
                return Err(failure);
            }
            if text::among(&self.loaded.full_ids, id) || self.plan.updates.get(id).is_some() {
                Ok(())
            } else {
                let mut message = "node ".to_owned();
                message.append(id);
                message.append(" is not loaded; call LoadNodes first");
                Err(Failure::new(message))
            }
        }
    }

    /// Checks that the session may edit every one of `ids`.
    fn ensure_known_nodes(&self, ids: &Vec<String>) -> (result: Result<(), Failure>)
        ensures
            arguments::checked(result) == self.plan@.all_known(self.loaded@, ids.deep_view()),
    {
        let ghost views = ids.deep_view();
        let mut i: usize = 0;
        while i < ids.len()
            invariant
                i <= ids.len(),
                views == ids.deep_view(),
                self.plan@.all_known(self.loaded@, views.take(i as int)) is Ok,
            decreases ids.len() - i,
        {
            assert(views.take(i + 1).drop_last() =~= views.take(i as int));
            if let Err(failure) = self.ensure_known_node(ids[i].as_str()) {
                proof {
                    all_known_refuses(self.plan@, self.loaded@, views, i + 1);
                }
                return Err(failure);
            }
            i = i + 1;
        }
        assert(views.take(views.len() as int) =~= views);
        Ok(())
    }

    /// Connects every node of a list to every other.
    pub fn connect_nodes(&mut self, args: &Json) -> (result: Result<String, Failure>)
        ensures
            final(self).loaded == old(self).loaded,
            text::seen(result) == old(self).plan@.connect(old(self).loaded@, args@).answer,
            final(self).plan@ == old(self).plan@.connect(old(self).loaded@, args@).plan,
    {
        proof {
            assert(text::views((&["identifiers"])@) =~= seq!["identifiers"@]);
            assert(text::views((&[])@) =~= Seq::empty());
        }
        if let Err(failure) = arguments::validate_arguments(args, &["identifiers"], &[]) {
            return Err(failure);
        }
        let ids = match arguments::resource_id_array(
            args,
            "identifiers",
            2,
            &self.loaded.readings,
        ) {
            Err(failure) => return Err(failure),
            Ok(ids) => ids,
        };
        if let Err(failure) = self.ensure_known_nodes(&ids) {
            return Err(failure);
        }
        let ghost start = self.plan@;
        let ghost loaded = self.loaded@;
        let ghost views = ids.deep_view();
        let ghost total = views.len() as int;
        let mut i: usize = 0;
        while i < ids.len()
            invariant
                i <= ids.len(),
                views == ids.deep_view(),
                total == views.len(),
                self.loaded@ == loaded,
                self.loaded == old(self).loaded,
                old(self).plan@.connect(old(self).loaded@, args@) == start.connected(
                    loaded,
                    views,
                    total,
                ),
                self.plan@ == start.connected(loaded, views, i as int).plan,
                start.connected(loaded, views, i as int).answer == Ok::<Seq<char>, Seq<char>>(
                    "Staged connections among nodes "@ + text::joined(views, ", "@) + "."@,
                ),
            decreases ids.len() - i,
        {
            let id = ids[i].as_str();
            let ghost before = self.plan@;
            let mut data = match self.node_data(id) {
                Err(failure) => {
                    proof {
                        connected_stops(start, loaded, views, i + 1, total);
                    }
                    return Err(failure);
                },
                Ok(data) => data,
            };
            let others = text::exclude_one(&ids, id);
            let recent = merge(others, &data.recent_connections, id);
            data.recent_connections = recent;
            assert(data@ =~= before.node(loaded, id@)->Ok_0.linked(views, id@));
            if let Err(failure) = self.put_node_data(id, data) {
                proof {
                    connected_stops(start, loaded, views, i + 1, total);
                }
                return Err(failure);
            }
            i = i + 1;
        }
        let mut message = "Staged connections among nodes ".to_owned();
        message.append(text::join(&ids, ", ").as_str());
        message.append(".");
        Ok(message)
    }

    /// Moves children of a node below an aggregator.
    pub fn consolidate_fanout(&mut self, args: &Json) -> (result: Result<String, Failure>)
        ensures
            final(self).loaded == old(self).loaded,
            text::seen(result) == old(self).plan@.consolidate(old(self).loaded@, args@).answer,
            final(self).plan@ == old(self).plan@.consolidate(old(self).loaded@, args@).plan,
    {
        proof {
            assert(text::views(
                (&["parentIdentifier", "fanoutIdentifiers", "aggregatorIdentifier"])@,
            ) =~= seq!["parentIdentifier"@, "fanoutIdentifiers"@, "aggregatorIdentifier"@]);
            assert(text::views((&[])@) =~= Seq::empty());
        }
        if let Err(failure) = arguments::validate_arguments(
            args,
            &["parentIdentifier", "fanoutIdentifiers", "aggregatorIdentifier"],
            &[],
        ) {
            return Err(failure);
        }
        let parent = match arguments::resource_id(args, "parentIdentifier", &self.loaded.readings) {
            Err(failure) => return Err(failure),
            Ok(parent) => parent,
        };
        let aggregator = match arguments::resource_id(
            args,
            "aggregatorIdentifier",
            &self.loaded.readings,
        ) {
            Err(failure) => return Err(failure),
            Ok(aggregator) => aggregator,
        };
        let fanout = match arguments::resource_id_array(
            args,
            "fanoutIdentifiers",
            1,
            &self.loaded.readings,
        ) {
            Err(failure) => return Err(failure),
            Ok(fanout) => fanout,
        };
        let mut named = text::copied(&fanout);
        named.insert(0, aggregator.clone());
        named.insert(0, parent.clone());
        assert(named.deep_view() =~= seq![parent@, aggregator@] + fanout.deep_view());
        if let Err(failure) = self.ensure_known_nodes(&named) {
            return Err(failure);
        }
        let ghost start = self.plan@;
        let ghost loaded = self.loaded@;
        let ghost views = fanout.deep_view();
        let mut parent_data = match self.node_data(parent.as_str()) {
            Err(failure) => return Err(failure),
            Ok(data) => data,
        };
        let mut kept = text::exclude(&parent_data.recent_connections, &fanout);
        if !text::among(&kept, aggregator.as_str()) {
            let ghost before = kept.deep_view();
            kept.push(aggregator.clone());
            assert(kept.deep_view() =~= before.push(aggregator@));
        }
        parent_data.recent_connections = kept;
        let mut aggregator_data = match self.node_data(aggregator.as_str()) {
            Err(failure) => return Err(failure),
            Ok(data) => data,
        };
        let extended = extend(aggregator_data.recent_connections, &fanout);
        aggregator_data.recent_connections = extended;
        proof {
            let above = start.node(loaded, parent@)->Ok_0;
            let below = start.node(loaded, aggregator@)->Ok_0;
            assert(parent_data@ =~= above.with_recent(
                PlanView::parent_recent(above.recent, views, aggregator@),
            ));
            assert(aggregator_data@ =~= below.with_recent(
                PlanView::extended(below.recent, views),
            ));
        }
        if let Err(failure) = self.put_node_data(parent.as_str(), parent_data) {
            return Err(failure);
        }
        if let Err(failure) = self.put_node_data(aggregator.as_str(), aggregator_data) {
            return Err(failure);
        }
        let mut message = "Staged fanout consolidation from node ".to_owned();
        message.append(parent.as_str());
        message.append(" into node ");
        message.append(aggregator.as_str());
        message.append(".");
        Ok(message)
    }

    /// Sets or clears one fixed slot of a node.
    pub fn set_fixed_connection(&mut self, args: &Json) -> (result: Result<String, Failure>)
        ensures
            final(self).loaded == old(self).loaded,
            text::seen(result) == old(self).plan@.fix(old(self).loaded@, args@).answer,
            final(self).plan@ == old(self).plan@.fix(old(self).loaded@, args@).plan,
    {
        proof {
            assert(text::views((&["parentIdentifier", "childIdentifier", "slot"])@)
                =~= seq!["parentIdentifier"@, "childIdentifier"@, "slot"@]);
            assert(text::views((&[])@) =~= Seq::empty());
        }
        if let Err(failure) = arguments::validate_arguments(
            args,
            &["parentIdentifier", "childIdentifier", "slot"],
            &[],
        ) {
            return Err(failure);
        }
        let parent = match arguments::resource_id(args, "parentIdentifier", &self.loaded.readings) {
            Err(failure) => return Err(failure),
            Ok(parent) => parent,
        };
        if let Err(failure) = self.ensure_known_node(parent.as_str()) {
            return Err(failure);
        }
        let ghost start = self.plan@;
        let ghost loaded = self.loaded@;
        let child = match args.text_at("childIdentifier") {
            None => None,
            Some(id) => {
                if *id == *"blank" {
                    None
                } else {
                    match ids::parse_resource_id(id, &self.loaded.readings) {
                        Err(failure) => return Err(failure),
                        Ok(child) => Some(child),
                    }
                }
            },
        };
        if let Some(child) = &child {
            if let Err(failure) = self.ensure_known_node(child.as_str()) {
                return Err(failure);
            }
            if *child.as_str() == *parent.as_str() {
                return Err(Failure::fixed("a node cannot connect to itself"));
            }
        }
        let slot = match arguments::positive_integer(args, "slot") {
            Err(failure) => return Err(failure),
            Ok(slot) => slot,
        };
        let mut data = match self.node_data(parent.as_str()) {
            Err(failure) => return Err(failure),
            Ok(data) => data,
        };
        let ghost node = start.node(loaded, parent@)->Ok_0;
        assert(node == data@);
        let count: u64 = data.fixed_connections.len() as u64;
        match child {
            Some(child) => {
                if slot - 1 > count {
                    return Err(
                        Failure::fixed("fixed connection positions must remain contiguous"),
                    );
                }
                let mut kept = text::exclude_one(&data.fixed_connections, child.as_str());
                let ghost before = kept.deep_view();
                if slot - 1 < kept.len() as u64 {
                    let place: usize = (slot - 1) as usize;
                    kept.set(place, child.clone());
                    assert(kept.deep_view() =~= before.update(place as int, child@));
                } else {
                    kept.push(child.clone());
                    assert(kept.deep_view() =~= before.push(child@));
                }
                data.fixed_connections = kept;
                proof {
                    let target = node.with_fixed(
                        PlanView::fixed_with(node.fixed, child@, slot as int),
                    );
                    assert(data@ =~= target);
                }
                if let Err(failure) = self.put_node_data(parent.as_str(), data) {
                    return Err(failure);
                }
                let mut message = "Staged node ".to_owned();
                message.append(child.as_str());
                message.append(" in fixed slot ");
                message.append(text::decimal(slot as u128).as_str());
                message.append(" of node ");
                message.append(parent.as_str());
                message.append(".");
                Ok(message)
            },
            None => {
                if slot <= count {
                    let place: usize = (slot - 1) as usize;
                    let ghost before = data.fixed_connections.deep_view();
                    data.fixed_connections.remove(place);
                    assert(data.fixed_connections.deep_view() =~= before.remove(place as int));
                }
                proof {
                    let target = node.with_fixed(
                        PlanView::fixed_without(node.fixed, slot as int),
                    );
                    assert(data@ =~= target);
                }
                if let Err(failure) = self.put_node_data(parent.as_str(), data) {
                    return Err(failure);
                }
                let mut message = "Cleared fixed slot ".to_owned();
                message.append(text::decimal(slot as u128).as_str());
                message.append(" of node ");
                message.append(parent.as_str());
                message.append(" in the staged plan.");
                Ok(message)
            },
        }
    }

    /// Checks that `owner` may own a node.
    fn ensure_known_owner(&self, owner: &str) -> (result: Result<(), Failure>)
        ensures
            arguments::checked(result) == self.plan@.owner_known(self.loaded@, owner@),
    {
        if *owner == *"self" || *owner == *"unowned" {
            Ok(())
        } else {
            self.ensure_known_node(owner)
        }
    }

    /// Checks that each of `ids` is an owner word or a node that the session may edit.
    fn ensure_known_owners(&self, ids: &Vec<String>) -> (result: Result<(), Failure>)
        ensures
            arguments::checked(result) == self.plan@.owners_known(self.loaded@, ids.deep_view()),
    {
        let ghost views = ids.deep_view();
        let mut i: usize = 0;
        while i < ids.len()
            invariant
                i <= ids.len(),
                views == ids.deep_view(),
                self.plan@.owners_known(self.loaded@, views.take(i as int)) is Ok,
            decreases ids.len() - i,
        {
            assert(views.take(i + 1).drop_last() =~= views.take(i as int));
            if let Err(failure) = self.ensure_known_owner(ids[i].as_str()) {
                proof {
                    owners_known_refuses(self.plan@, self.loaded@, views, i + 1);
                }
                return Err(failure);
            }
            i = i + 1;
        }
        assert(views.take(views.len() as int) =~= views);
        Ok(())
    }

    /// Reads the node that a request wants created. Nothing is staged yet: the node
    /// still needs an identity.
    pub fn draft_node(&self, args: &Json) -> (result: Result<NodeDraft, Failure>)
        ensures
            text::seen(result) == self.plan@.drafted(self.loaded@, args@),
    {
        proof {
            assert(text::views(
                (&[
                    "parentIdentifiers",
                    "ownerIdentifier",
                    "shortName",
                    "shortDescription",
                    "longDescription",
                ])@,
            ) =~= seq![
                "parentIdentifiers"@,
                "ownerIdentifier"@,
                "shortName"@,
                "shortDescription"@,
                "longDescription"@,
            ]);
            assert(text::views((&[])@) =~= Seq::empty());
        }
        if let Err(failure) = arguments::validate_arguments(
            args,
            &[
                "parentIdentifiers",
                "ownerIdentifier",
                "shortName",
                "shortDescription",
                "longDescription",
            ],
            &[],
        ) {
            return Err(failure);
        }
        let texts = match arguments::node_text_arguments(
            args,
            "shortName",
            "shortDescription",
            "longDescription",
        ) {
            Err(failure) => return Err(failure),
            Ok(texts) => texts,
        };
        let parents = match arguments::resource_id_array(
            args,
            "parentIdentifiers",
            1,
            &self.loaded.readings,
        ) {
            Err(failure) => return Err(failure),
            Ok(parents) => parents,
        };
        let owner = match arguments::resource_id(args, "ownerIdentifier", &self.loaded.readings) {
            Err(failure) => return Err(failure),
            Ok(owner) => owner,
        };
        let mut named = text::copied(&parents);
        named.push(owner.clone());
        assert(named.deep_view() =~= parents.deep_view().push(owner@));
        if let Err(failure) = self.ensure_known_owners(&named) {
            return Err(failure);
        }
        let (short_name, short_description, long_description) = texts;
        let recent_connections = text::copied(&parents);
        let data = PlannedNode {
            short_name,
            short_description,
            long_description,
            owner,
            fixed_connections: Vec::new(),
            recent_connections,
            objects: Vec::new(),
            attach_session_archive: true,
        };
        assert(data@.fixed =~= Seq::empty());
        assert(data@.objects =~= Seq::empty());
        Ok(NodeDraft { parents, data })
    }

    /// Stages a drafted node under the fresh identity `pending`, and puts it in front
    /// of the recent connections of its parents.
    pub fn create_node(&mut self, draft: NodeDraft, pending: &str) -> (result: Result<
        String,
        Failure,
    >)
        ensures
            final(self).loaded == old(self).loaded,
            text::seen(result) == old(self).plan@.created(
                old(self).loaded@,
                draft.deep_view().0,
                draft.deep_view().1,
                pending@,
            ).answer,
            final(self).plan@ == old(self).plan@.created(
                old(self).loaded@,
                draft.deep_view().0,
                draft.deep_view().1,
                pending@,
            ).plan,
    {
        let ghost start = self.plan@;
        let ghost loaded = self.loaded@;
        let parents = draft.parents;
        let ghost views = parents.deep_view();
        let ghost data = draft.data@;
        self.plan.creates.push(
            StagedNodeCreate { pending_id: pending.to_owned(), data: draft.data },
        );
        let ghost staged = PlanView {
            creates: start.creates.push((pending@, data)),
            updates: start.updates,
        };
        assert(self.plan@ =~= staged);
        let ghost total = views.len() as int;
        let mut i: usize = 0;
        while i < parents.len()
            invariant
                i <= parents.len(),
                views == parents.deep_view(),
                views == draft.deep_view().0,
                data == draft.deep_view().1,
                total == views.len(),
                self.loaded@ == loaded,
                self.loaded == old(self).loaded,
                old(self).plan@.created(old(self).loaded@, views, data, pending@)
                    == staged.adopted(loaded, views, pending@, total),
                self.plan@ == staged.adopted(loaded, views, pending@, i as int).plan,
                staged.adopted(loaded, views, pending@, i as int).answer == Ok::<
                    Seq<char>,
                    Seq<char>,
                >("Created staged node "@ + pending@ + "."@),
            decreases parents.len() - i,
        {
            let parent = parents[i].as_str();
            let ghost before = self.plan@;
            let mut node = match self.node_data(parent) {
                Err(failure) => {
                    proof {
                        adopted_stops(staged, loaded, views, pending@, i + 1, total);
                    }
                    return Err(failure);
                },
                Ok(node) => node,
            };
            let kept = text::exclude_one(&node.recent_connections, pending);
            let ghost kept_views = kept.deep_view();
            let mut recent: Vec<String> = kept;
            recent.insert(0, pending.to_owned());
            assert(recent.deep_view() =~= seq![pending@] + kept_views);
            node.recent_connections = recent;
            proof {
                let found = before.node(loaded, parent@)->Ok_0;
                assert(node@ =~= found.with_recent(
                    seq![pending@] + text::excluding(found.recent, seq![pending@]),
                ));
            }
            if let Err(failure) = self.put_node_data(parent, node) {
                proof {
                    adopted_stops(staged, loaded, views, pending@, i + 1, total);
                }
                return Err(failure);
            }
            i = i + 1;
        }
        let mut message = "Created staged node ".to_owned();
        message.append(pending);
        message.append(".");
        Ok(message)
    }

    /// Replaces the owner and the texts of a node.
    pub fn update_node(&mut self, args: &Json) -> (result: Result<String, Failure>)
        ensures
            final(self).loaded == old(self).loaded,
            text::seen(result) == old(self).plan@.update(old(self).loaded@, args@).answer,
            final(self).plan@ == old(self).plan@.update(old(self).loaded@, args@).plan,
    {
        proof {
            assert(text::views(
                (&[
                    "identifier",
                    "ownerIdentifier",
                    "newShortName",
                    "newShortDescription",
                    "newLongDescription",
                ])@,
            ) =~= seq![
                "identifier"@,
                "ownerIdentifier"@,
                "newShortName"@,
                "newShortDescription"@,
                "newLongDescription"@,
            ]);
            assert(text::views((&[])@) =~= Seq::empty());
        }
        if let Err(failure) = arguments::validate_arguments(
            args,
            &[
                "identifier",
                "ownerIdentifier",
                "newShortName",
                "newShortDescription",
                "newLongDescription",
            ],
            &[],
        ) {
            return Err(failure);
        }
        let texts = match arguments::node_text_arguments(
            args,
            "newShortName",
            "newShortDescription",
            "newLongDescription",
        ) {
            Err(failure) => return Err(failure),
            Ok(texts) => texts,
        };
        let id = match arguments::resource_id(args, "identifier", &self.loaded.readings) {
            Err(failure) => return Err(failure),
            Ok(id) => id,
        };
        let owner = match arguments::resource_id(args, "ownerIdentifier", &self.loaded.readings) {
            Err(failure) => return Err(failure),
            Ok(owner) => owner,
        };
        if let Err(failure) = self.ensure_known_node(id.as_str()) {
            return Err(failure);
        }
        if let Err(failure) = self.ensure_known_owner(owner.as_str()) {
            return Err(failure);
        }
        let mut data = match self.node_data(id.as_str()) {
            Err(failure) => return Err(failure),
            Ok(data) => data,
        };
        let (short_name, short_description, long_description) = texts;
        data.owner = owner;
        data.short_name = short_name;
        data.short_description = short_description;
        data.long_description = long_description;
        data.attach_session_archive = true;
        if let Err(failure) = self.put_node_data(id.as_str(), data) {
            return Err(failure);
        }
        let mut message = "Staged the update to node ".to_owned();
        message.append(id.as_str());
        message.append(".");
        Ok(message)
    }
}

fn extend(recent: Vec<String>, more: &Vec<String>) -> (result: Vec<String>)
    ensures
        result.deep_view() == PlanView::extended(recent.deep_view(), more.deep_view()),
{
    let ghost start = recent.deep_view();
    let ghost all = more.deep_view();
    let mut result = recent;
    let mut i: usize = 0;
    while i < more.len()
        invariant
            i <= more.len(),
            all == more.deep_view(),
            result.deep_view() == PlanView::extended(start, all.take(i as int)),
        decreases more.len() - i,
    {
        assert(all.take(i + 1).drop_last() =~= all.take(i as int));
        assert(all.take(i + 1).last() == more@[i as int]@);
        if !text::among(&result, more[i].as_str()) {
            let ghost before = result.deep_view();
            result.push(more[i].clone());
            assert(result.deep_view() =~= before.push(all[i as int]));
        }
        i = i + 1;
    }
    assert(all.take(all.len() as int) =~= all);
    result
}

/// A refusal among some first identities is the refusal of all.
proof fn all_known_refuses(plan: PlanView, loaded: LoadedView, ids: Seq<Seq<char>>, n: int)
    requires
        0 <= n <= ids.len(),
        plan.all_known(loaded, ids.take(n)) is Err,
    ensures
        plan.all_known(loaded, ids) == plan.all_known(loaded, ids.take(n)),
    decreases ids.len(),
{
    if n < ids.len() {
        assert(ids.drop_last().take(n) =~= ids.take(n));
        all_known_refuses(plan, loaded, ids.drop_last(), n);
    } else {
        assert(ids.take(n) =~= ids);
    }
}

/// A refusal among some first identities is the refusal of all.
proof fn owners_known_refuses(plan: PlanView, loaded: LoadedView, ids: Seq<Seq<char>>, n: int)
    requires
        0 <= n <= ids.len(),
        plan.owners_known(loaded, ids.take(n)) is Err,
    ensures
        plan.owners_known(loaded, ids) == plan.owners_known(loaded, ids.take(n)),
    decreases ids.len(),
{
    if n < ids.len() {
        assert(ids.drop_last().take(n) =~= ids.take(n));
        owners_known_refuses(plan, loaded, ids.drop_last(), n);
    } else {
        assert(ids.take(n) =~= ids);
    }
}

/// Once an adoption was refused, no later parent changes the outcome.
proof fn adopted_stops(
    plan: PlanView,
    loaded: LoadedView,
    parents: Seq<Seq<char>>,
    pending: Seq<char>,
    n: int,
    m: int,
)
    requires
        0 < n <= m,
        plan.adopted(loaded, parents, pending, n).answer is Err,
    ensures
        plan.adopted(loaded, parents, pending, m) == plan.adopted(loaded, parents, pending, n),
    decreases m,
{
    if n < m {
        adopted_stops(plan, loaded, parents, pending, n, m - 1);
    }
}

/// A refused edit of existing nodes leaves the stage as it was. For connecting nodes
/// that holds where every node that is loaded in full has contents; else the nodes
/// before the one that cannot be read stay linked.
pub proof fn refused_edits_change_nothing(plan: PlanView, loaded: LoadedView, arguments: JsonView)
    ensures
        loaded.well_formed() && plan.connect(loaded, arguments).answer is Err ==> plan.connect(
            loaded,
            arguments,
        ).plan == plan,
        plan.consolidate(loaded, arguments).answer is Err ==> plan.consolidate(
            loaded,
            arguments,
        ).plan == plan,
        plan.fix(loaded, arguments).answer is Err ==> plan.fix(loaded, arguments).plan == plan,
        plan.update(loaded, arguments).answer is Err ==> plan.update(loaded, arguments).plan
            == plan,
{
    let readings = loaded.readings;
    match arguments::resources_of(arguments, "identifiers"@, 2, readings) {
        Ok(ids) => {
            if loaded.well_formed() && plan.all_known(loaded, ids) is Ok {
                all_known_says(plan, loaded, ids);
                known_nodes_connect(plan, loaded, ids, ids.len() as int);
            }
        },
        Err(_) => {},
    }
    match (
        arguments::resource_of(arguments, "parentIdentifier"@, readings),
        arguments::resource_of(arguments, "aggregatorIdentifier"@, readings),
        arguments::resources_of(arguments, "fanoutIdentifiers"@, 1, readings),
    ) {
        (Ok(parent), Ok(aggregator), Ok(fanout)) => {
            let named = seq![parent, aggregator] + fanout;
            if plan.all_known(loaded, named) is Ok && plan.node(loaded, parent) is Ok && plan.node(
                loaded,
                aggregator,
            ) is Ok {
                all_known_says(plan, loaded, named);
                assert(named[0] == parent && named[1] == aggregator);
                let above = plan.node(loaded, parent)->Ok_0;
                let below = plan.node(loaded, aggregator)->Ok_0;
                let data = above.with_recent(
                    PlanView::parent_recent(above.recent, fanout, aggregator),
                );
                known_is_usable(plan, loaded, parent, data);
                put_then_node(plan, loaded, parent, data, aggregator);
                known_is_usable(
                    plan.put(loaded, parent, data)->Ok_0,
                    loaded,
                    aggregator,
                    below.with_recent(PlanView::extended(below.recent, fanout)),
                );
            }
        },
        _ => {},
    }
}

/// Where all of some nodes may be edited, each of them may.
proof fn all_known_says(plan: PlanView, loaded: LoadedView, ids: Seq<Seq<char>>)
    requires
        plan.all_known(loaded, ids) is Ok,
    ensures
        forall|i: int| 0 <= i < ids.len() ==> plan.known(loaded, #[trigger] ids[i]) is Ok,
    decreases ids.len(),
{
    if ids.len() > 0 {
        all_known_says(plan, loaded, ids.drop_last());
        assert forall|i: int| 0 <= i < ids.len() implies plan.known(
            loaded,
            #[trigger] ids[i],
        ) is Ok by {
            if i < ids.len() - 1 {
                assert(ids.drop_last()[i] == ids[i]);
            }
        }
    }
}

/// Putting a child into a fixed slot leaves it there exactly once, and keeps fixed
/// connections without repetition that way.
pub proof fn fixed_slots_hold_a_child_once(fixed: Seq<Seq<char>>, child: Seq<char>, slot: int)
    requires
        0 < slot <= fixed.len() + 1,
        fixed.no_duplicates(),
    ensures
        PlanView::fixed_with(fixed, child, slot).contains(child),
        PlanView::fixed_with(fixed, child, slot).no_duplicates(),
        PlanView::fixed_with(fixed, child, slot).len() <= fixed.len() + 1,
{
    let kept = text::excluding(fixed, seq![child]);
    text::excluding_keeps(fixed, seq![child]);
    assert(seq![child][0] == child);
    assert(!kept.contains(child));
    let all = PlanView::fixed_with(fixed, child, slot);
    let at = if slot - 1 < kept.len() {
        slot - 1
    } else {
        kept.len() as int
    };
    assert(all[at] == child);
    assert forall|i: int, j: int| 0 <= i < all.len() && 0 <= j < all.len() && i != j implies all[i]
        != all[j] by {
        if i == at {
            assert(kept.contains(kept[j]));
        } else if j == at {
            assert(kept.contains(kept[i]));
        }
    }
}

/// What the stage is after some parents adopted the node `pending`.
proof fn adopted_nodes(
    plan: PlanView,
    loaded: LoadedView,
    parents: Seq<Seq<char>>,
    pending: Seq<char>,
    n: int,
)
    requires
        0 <= n <= parents.len(),
        parents.no_duplicates(),
        plan.adopted(loaded, parents, pending, n).answer is Ok,
    ensures
        !parents.contains(pending) ==> plan.adopted(loaded, parents, pending, n).plan.node(
            loaded,
            pending,
        ) == plan.node(loaded, pending),
        forall|i: int|
            0 <= i < n ==> {
                let node = plan.adopted(loaded, parents, pending, n).plan.node(
                    loaded,
                    #[trigger] parents[i],
                );
                node is Ok && node->Ok_0.recent.len() > 0 && node->Ok_0.recent[0] == pending
            },
    decreases n,
{
    if n > 0 {
        let before = plan.adopted(loaded, parents, pending, n - 1);
        adopted_nodes(plan, loaded, parents, pending, n - 1);
        let parent = parents[n - 1];
        let node = before.plan.node(loaded, parent)->Ok_0;
        let data = node.with_recent(seq![pending] + text::excluding(node.recent, seq![pending]));
        put_then_node(before.plan, loaded, parent, data, pending);
        let after = plan.adopted(loaded, parents, pending, n).plan;
        assert(parents.contains(parents[n - 1]));
        assert forall|i: int| 0 <= i < n implies {
            let node = after.node(loaded, #[trigger] parents[i]);
            node is Ok && node->Ok_0.recent.len() > 0 && node->Ok_0.recent[0] == pending
        } by {
            put_then_node(before.plan, loaded, parent, data, parents[i]);
        }
    }
}

/// A node created under a fresh identity reads back as it was drafted, and stands
/// first among the recent connections of every parent.
pub proof fn created_nodes_read_back(
    plan: PlanView,
    loaded: LoadedView,
    parents: Seq<Seq<char>>,
    data: NodeView,
    pending: Seq<char>,
    i: int,
)
    requires
        parents.no_duplicates(),
        !parents.contains(pending),
        plan.creation(pending) is None,
        plan.created(loaded, parents, data, pending).answer is Ok,
        0 <= i < parents.len(),
    ensures
        ({
            let after = plan.created(loaded, parents, data, pending).plan;
            &&& after.node(loaded, pending) == Ok::<NodeView, Seq<char>>(data)
            &&& after.node(loaded, parents[i]) is Ok
            &&& after.node(loaded, parents[i])->Ok_0.recent[0] == pending
        }),
{
    let staged = PlanView { creates: plan.creates.push((pending, data)), updates: plan.updates };
    adopted_nodes(staged, loaded, parents, pending, parents.len() as int);
    creation_from_is_first(plan.creates, pending, 0);
    creation_from_is_first(staged.creates, pending, 0);
    assert(staged.creates[plan.creates.len() as int].0 == pending);
    assert(staged.creation(pending) == Some(plan.creates.len() as int)) by {
        let at = staged.creation(pending)->0;
        if at < plan.creates.len() {
            assert(staged.creates[at] == plan.creates[at]);
        }
    }
}

/// The identities of the staged creations.
pub open spec fn created_ids(plan: PlanView) -> Seq<Seq<char>> {
    plan.creates.map_values(|create: (Seq<char>, NodeView)| create.0)
}

/// The first place, from `i` on, at which a staged creation repeats an earlier one.
pub open spec fn first_repeat(ids: Seq<Seq<char>>, i: int) -> Option<int>
    decreases ids.len() - i,
{
    if i < 0 || i >= ids.len() {
        None
    } else if ids.take(i).contains(ids[i]) {
        Some(i)
    } else {
        first_repeat(ids, i + 1)
    }
}

/// Whether `id` is the first, in order, among the updated nodes that is no node's
/// identity.
pub open spec fn first_misnamed(plan: PlanView, readings: ReadingsView, id: Seq<char>) -> bool {
    &&& plan.updates.contains_key(id)
    &&& !readings.names_node(id)
    &&& forall|other: Seq<char>|
        plan.updates.contains_key(other) && !readings.names_node(other) ==> !order::precedes(
            other,
            id,
        )
}

proof fn table_keys(entries: Seq<(String, PlannedNode)>, id: Seq<char>)
    ensures
        table_of(entries).contains_key(id) <==> exists|i: int|
            0 <= i < entries.len() && (#[trigger] entries[i]).0@ == id,
    decreases entries.len(),
{
    if entries.len() > 0 {
        let rest = entries.drop_last();
        table_keys(rest, id);
        if table_of(rest).contains_key(id) {
            let k = choose|i: int| 0 <= i < rest.len() && (#[trigger] rest[i]).0@ == id;
            assert(entries[k].0@ == id);
        }
        if exists|i: int| 0 <= i < entries.len() && (#[trigger] entries[i]).0@ == id {
            let k = choose|i: int| 0 <= i < entries.len() && (#[trigger] entries[i]).0@ == id;
            if k < rest.len() {
                assert(rest[k].0@ == id);
            }
        }
        if entries.last().0@ == id {
            assert(entries[entries.len() - 1].0@ == id);
        }
    }
}

impl NodeTable {
    /// The identities in the table, in order.
    pub fn ids(&self) -> (ids: Vec<String>)
        ensures
            order::ascending(ids.deep_view()),
            forall|id: Seq<char>| #[trigger]
                ids.deep_view().contains(id) <==> self@.contains_key(id),
    {
        let mut names: Vec<String> = Vec::new();
        let mut i: usize = 0;
        while i < self.entries.len()
            invariant
                i <= self.entries.len(),
                names.len() == i,
                forall|j: int| 0 <= j < i ==> (#[trigger] names@[j])@ == self.entries@[j].0@,
            decreases self.entries.len() - i,
        {
            names.push(self.entries[i].0.clone());
            i = i + 1;
        }
        let ids = order::sorted_distinct(&names);
        assert forall|id: Seq<char>| #[trigger]
            ids.deep_view().contains(id) <==> self@.contains_key(id) by {
            table_keys(self.entries@, id);
            assert(ids.deep_view().contains(id) <==> names.deep_view().contains(id));
            if names.deep_view().contains(id) {
                let k = names.deep_view().index_of(id);
                assert(names@[k]@ == id);
                assert(self.entries@[k].0@ == id);
            }
            if self@.contains_key(id) {
                let k = choose|i: int|
                    0 <= i < self.entries@.len() && (#[trigger] self.entries@[i]).0@ == id;
                assert(names@[k]@ == self.entries@[k].0@);
                assert(names.deep_view()[k] == id);
            }
        }
        ids
    }
}

impl KwebPlan {
    fn first_repeated(&self) -> (place: Option<usize>)
        ensures
            match place {
                Some(i) => first_repeat(created_ids(self@), 0) == Some(i as int) && i
                    < self.creates.len(),
                None => first_repeat(created_ids(self@), 0) is None,
            },
    {
        let ghost ids = created_ids(self@);
        let mut i: usize = 0;
        while i < self.creates.len()
            invariant
                i <= self.creates.len(),
                ids == created_ids(self@),
                first_repeat(ids, 0) == first_repeat(ids, i as int),
            decreases self.creates.len() - i,
        {
            let place = self.created_place(self.creates[i].pending_id.as_str());
            proof {
                assert(ids[i as int] == self.creates@[i as int].pending_id@);
                creation_is_first(self@.creates, ids[i as int], 0, i as int);
                let at = self@.creation(ids[i as int])->0;
                if at < i {
                    assert(ids.take(i as int)[at] == ids[i as int]);
                } else if ids.take(i as int).contains(ids[i as int]) {
                    let k = ids.take(i as int).index_of(ids[i as int]);
                    creation_is_first(self@.creates, ids[i as int], 0, k);
                }
            }
            if let Some(at) = place {
                if at < i {
                    return Some(i);
                }
            }
            i = i + 1;
        }
        None
    }

    /// Checks that the staged edits can be committed: every creation has an identity of
    /// its own, and every update is of a node of the graph.
    pub fn check_commit(&self, readings: &Readings) -> (outcome: Result<(), Failure>)
        ensures
            match first_repeat(created_ids(self@), 0) {
                Some(i) => outcome is Err && outcome->Err_0@ == "duplicate staged node "@
                    + created_ids(self@)[i],
                None => match outcome {
                    Ok(_) => forall|id: Seq<char>|
                        self@.updates.contains_key(id) ==> #[trigger] readings@.names_node(id),
                    Err(failure) => exists|id: Seq<char>| #[trigger]
                        first_misnamed(self@, readings@, id) && failure@ == text::debug_quoted(id)
                            + " is not a canonical node ID"@,
                },
            },
    {
        if let Some(i) = self.first_repeated() {
            let mut message = "duplicate staged node ".to_owned();
            message.append(self.creates[i].pending_id.as_str());
            return Err(Failure::new(message));
        }
        let names = self.updates.ids();
        let ghost keys = names.deep_view();
        let mut i: usize = 0;
        while i < names.len()
            invariant
                i <= names.len(),
                keys == names.deep_view(),
                order::ascending(keys),
                first_repeat(created_ids(self@), 0) is None,
                forall|id: Seq<char>| #[trigger]
                    keys.contains(id) <==> self@.updates.contains_key(id),
                forall|j: int| 0 <= j < i ==> readings@.names_node(#[trigger] keys[j]),
            decreases names.len() - i,
        {
            if readings.node(names[i].as_str()).is_none() {
                let mut message = text::quoted(names[i].as_str());
                message.append(" is not a canonical node ID");
                proof {
                    let id = keys[i as int];
                    assert(keys.contains(id));
                    assert forall|other: Seq<char>|
                        self@.updates.contains_key(other) && !readings@.names_node(
                            other,
                        ) implies !order::precedes(other, id) by {
                        assert(keys.contains(other));
                        let k = keys.index_of(other);
                        order::precedes_is_total(other, id);
                        if k > i {
                            assert(order::precedes(id, other));
                        }
                    }
                    assert(first_misnamed(self@, readings@, id));
                }
                return Err(Failure::new(message));
            }
            i = i + 1;
        }
        assert forall|id: Seq<char>| self@.updates.contains_key(
            id,
        ) implies #[trigger] readings@.names_node(id) by {
            assert(keys.contains(id));
            let k = keys.index_of(id);
            assert(readings@.names_node(keys[k]));
        }
        Ok(())
    }
}

/// A staged creation is found at its first place.
proof fn creation_is_first(creates: Seq<(Seq<char>, NodeView)>, id: Seq<char>, i: int, k: int)
    requires
        0 <= i <= k < creates.len(),
        creates[k].0 == id,
    ensures
        creation_from(creates, id, i) is Some,
        i <= creation_from(creates, id, i)->0 <= k,
        creates[creation_from(creates, id, i)->0].0 == id,
    decreases k - i,
{
    if creates[i].0 != id {
        creation_is_first(creates, id, i + 1, k);
    }
}

/// A node reads as its staged creation, or else as its staged update, or else as it was
/// loaded.
pub proof fn nodes_read_through_the_stage(plan: PlanView, loaded: LoadedView, id: Seq<char>, at: int)
    ensures
        ({
            let created = exists|i: int|
                0 <= i < plan.creates.len() && (#[trigger] plan.creates[i]).0 == id;
            &&& 0 <= at < plan.creates.len() && plan.creates[at].0 == id && (forall|i: int|
                0 <= i < at ==> (#[trigger] plan.creates[i]).0 != id) ==> plan.node(loaded, id)
                == Ok::<NodeView, Seq<char>>(plan.creates[at].1)
            &&& !created && plan.updates.contains_key(id) ==> plan.node(loaded, id) == Ok::<
                NodeView,
                Seq<char>,
            >(plan.updates[id])
            &&& !created && !plan.updates.contains_key(id) && loaded.nodes.contains_key(id)
                ==> plan.node(loaded, id) == Ok::<NodeView, Seq<char>>(loaded.nodes[id])
            &&& !created && !plan.updates.contains_key(id) && !loaded.nodes.contains_key(id)
                ==> plan.node(loaded, id) is Err
        }),
{
    creation_from_is_first(plan.creates, id, 0);
    match plan.creation(id) {
        Some(found) => {
            assert(plan.creates[found].0 == id);
            if 0 <= at < plan.creates.len() && found < at {
                assert(plan.creates[found].0 == id);
            }
        },
        None => {},
    }
}

/// A session may edit a node that it staged, and one of the graph that it loaded in full
/// or has edited already; no other.
pub proof fn only_loaded_nodes_are_edited(plan: PlanView, loaded: LoadedView, id: Seq<char>)
    ensures
        text::begins(id, "pending:"@) ==> (plan.known(loaded, id) is Ok <==> exists|i: int|
            0 <= i < plan.creates.len() && (#[trigger] plan.creates[i]).0 == id),
        !text::begins(id, "pending:"@) ==> (plan.known(loaded, id) is Ok
            <==> loaded.readings.nodes.contains_key(id) && (loaded.full.contains(id)
            || plan.updates.contains_key(id))),
{
    creation_from_is_first(plan.creates, id, 0);
    if plan.creation(id) is Some {
        assert(plan.creates[plan.creation(id)->0].0 == id);
    }
}

/// What a list has after it was extended: all it had, in front, and after that each item
/// of the other list that it did not have.
proof fn extending_keeps(recent: Seq<Seq<char>>, more: Seq<Seq<char>>)
    requires
        more.no_duplicates(),
    ensures
        PlanView::extended(recent, more) == recent + more.filter(
            |x: Seq<char>| !recent.contains(x),
        ),
        forall|x: Seq<char>| #[trigger]
            PlanView::extended(recent, more).contains(x) <==> recent.contains(x) || more.contains(
                x,
            ),
    decreases more.len(),
{
    reveal(Seq::filter);
    let all = PlanView::extended(recent, more);
    let keep = |x: Seq<char>| !recent.contains(x);
    if more.len() == 0 {
        assert(all =~= recent + more.filter(keep));
    } else {
        let rest = more.drop_last();
        let last = more.last();
        assert(rest.no_duplicates());
        extending_keeps(recent, rest);
        let so_far = PlanView::extended(recent, rest);
        assert(!rest.contains(last)) by {
            if rest.contains(last) {
                let i = rest.index_of(last);
                assert(more[i] == more[more.len() - 1]);
            }
        }
        assert(so_far.contains(last) <==> recent.contains(last));
        assert(all =~= recent + more.filter(keep));
        assert forall|x: Seq<char>| #[trigger] all.contains(x) <==> recent.contains(x)
            || more.contains(x) by {
            assert(more.contains(x) <==> rest.contains(x) || x == last) by {
                if more.contains(x) {
                    let i = more.index_of(x);
                    if i < rest.len() {
                        assert(rest[i] == x);
                    }
                }
                if rest.contains(x) {
                    let i = rest.index_of(x);
                    assert(more[i] == x);
                }
                assert(more[more.len() - 1] == last);
            }
            if !so_far.contains(last) {
                assert(all == so_far.push(last));
                if all.contains(x) {
                    let i = all.index_of(x);
                    if i < so_far.len() {
                        assert(so_far[i] == x);
                        assert(so_far.contains(x));
                    }
                }
                if so_far.contains(x) {
                    let i = so_far.index_of(x);
                    assert(all[i] == x);
                }
                assert(all[all.len() - 1] == last);
            }
        }
    }
}

/// A consolidation takes the fanout from the parent's recent connections, keeps the
/// others in order, and sees to it that the aggregator is among them; the aggregator
/// keeps all it had and gets the fanout. No other node changes, and nothing else of
/// these two does.
pub proof fn consolidations_move_the_fanout(
    plan: PlanView,
    loaded: LoadedView,
    arguments: JsonView,
    parent: Seq<char>,
    aggregator: Seq<char>,
    fanout: Seq<Seq<char>>,
    node: Seq<char>,
)
    requires
        plan.consolidate(loaded, arguments).answer is Ok,
        arguments.text_at("parentIdentifier"@) == Some(parent),
        arguments.text_at("aggregatorIdentifier"@) == Some(aggregator),
        arguments.array_at("fanoutIdentifiers"@) is Some,
        arguments.array_at("fanoutIdentifiers"@)->0.len() == fanout.len(),
        forall|i: int|
            0 <= i < fanout.len() ==> arguments.array_at("fanoutIdentifiers"@)->0[i].as_text()
                == Some(#[trigger] fanout[i]),
        parent != aggregator,
    ensures
        ({
            let after = plan.consolidate(loaded, arguments).plan;
            let above = plan.node(loaded, parent);
            let below = plan.node(loaded, aggregator);
            let new_above = after.node(loaded, parent);
            let new_below = after.node(loaded, aggregator);
            let kept = above->Ok_0.recent.filter(|x: Seq<char>| !fanout.contains(x));
            &&& above is Ok && below is Ok && new_above is Ok && new_below is Ok
            &&& new_above->Ok_0.recent == if kept.contains(aggregator) {
                kept
            } else {
                kept.push(aggregator)
            }
            &&& new_above->Ok_0.recent.contains(node) <==> node == aggregator
                || above->Ok_0.recent.contains(node) && !fanout.contains(node)
            &&& new_below->Ok_0.recent == below->Ok_0.recent + fanout.filter(
                |x: Seq<char>| !below->Ok_0.recent.contains(x),
            )
            &&& new_below->Ok_0.recent.contains(node) <==> below->Ok_0.recent.contains(node)
                || fanout.contains(node)
            &&& new_above->Ok_0 == (NodeView { recent: new_above->Ok_0.recent, ..above->Ok_0 })
            &&& new_below->Ok_0 == (NodeView { recent: new_below->Ok_0.recent, ..below->Ok_0 })
            &&& node != parent && node != aggregator ==> after.node(loaded, node) == plan.node(
                loaded,
                node,
            )
        }),
{
    arguments::identifiers_are_taken_as_given(arguments, "parentIdentifier"@, loaded.readings);
    arguments::identifiers_are_taken_as_given(arguments, "aggregatorIdentifier"@, loaded.readings);
    arguments::identifier_lists_are_taken_as_given(
        arguments,
        "fanoutIdentifiers"@,
        1,
        loaded.readings,
    );
    let ids = arguments::resources_of(arguments, "fanoutIdentifiers"@, 1, loaded.readings)->Ok_0;
    let items = arguments.array_at("fanoutIdentifiers"@)->0;
    assert forall|i: int| 0 <= i < fanout.len() implies ids[i] == #[trigger] fanout[i] by {
        assert(items[i].as_text() == Some(fanout[i]));
    }
    assert(ids =~= fanout);
    let edit = plan.consolidated(loaded, parent, aggregator, fanout);
    assert(plan.consolidate(loaded, arguments) == edit);
    let above = plan.node(loaded, parent)->Ok_0;
    let below = plan.node(loaded, aggregator)->Ok_0;
    let up = above.with_recent(PlanView::parent_recent(above.recent, fanout, aggregator));
    let down = below.with_recent(PlanView::extended(below.recent, fanout));
    let first = plan.put(loaded, parent, up)->Ok_0;
    put_then_node(plan, loaded, parent, up, aggregator);
    put_then_node(plan, loaded, parent, up, node);
    put_then_node(first, loaded, aggregator, down, parent);
    put_then_node(first, loaded, aggregator, down, node);
    text::excluding_filters(above.recent, fanout);
    text::excluding_keeps(above.recent, fanout);
    extending_keeps(below.recent, fanout);
    let kept = text::excluding(above.recent, fanout);
    if !kept.contains(aggregator) {
        let all = kept.push(aggregator);
        assert(all[kept.len() as int] == aggregator);
        if all.contains(node) {
            let i = all.index_of(node);
            if i < kept.len() {
                assert(kept[i] == node);
            }
        }
        if kept.contains(node) {
            let i = kept.index_of(node);
            assert(all[i] == node);
        }
    }
}

/// The items that merging adds are those of `more` that are neither there yet nor `id`,
/// in order.
proof fn merging_adds_the_rest(recent: Seq<Seq<char>>, more: Seq<Seq<char>>, id: Seq<char>)
    requires
        more.no_duplicates(),
    ensures
        merged(recent, more, id) == recent + more.filter(
            |x: Seq<char>| x != id && !recent.contains(x),
        ),
    decreases more.len(),
{
    reveal(Seq::filter);
    let keep = |x: Seq<char>| x != id && !recent.contains(x);
    let all = merged(recent, more, id);
    if more.len() == 0 {
        assert(all =~= recent + more.filter(keep));
    } else {
        let rest = more.drop_last();
        let last = more.last();
        assert(rest.no_duplicates());
        merging_adds_the_rest(recent, rest, id);
        let so_far = merged(recent, rest, id);
        let added = rest.filter(keep);
        assert(!rest.contains(last)) by {
            if rest.contains(last) {
                let i = rest.index_of(last);
                assert(more[i] == more[more.len() - 1]);
            }
        }
        assert(so_far.contains(last) ==> recent.contains(last)) by {
            if so_far.contains(last) {
                let i = so_far.index_of(last);
                if i >= recent.len() {
                    assert(added[i - recent.len()] == last);
                    assert(added.contains(last));
                    rest.lemma_filter_contains_rev(keep, last);
                } else {
                    assert(recent[i] == last);
                }
            }
        }
        assert(recent.contains(last) ==> so_far.contains(last)) by {
            if recent.contains(last) {
                let i = recent.index_of(last);
                assert(so_far[i] == last);
            }
        }
        assert(all =~= recent + more.filter(keep));
    }
}

/// Connecting nodes puts, for each of them, the others in front of its recent
/// connections, in the order in which they were named, and keeps the connections to
/// other nodes behind them, in order.
pub proof fn connections_come_first(
    plan: PlanView,
    loaded: LoadedView,
    ids: Seq<Seq<char>>,
    id: Seq<char>,
)
    requires
        ids.no_duplicates(),
        ids.contains(id),
        plan.connected(loaded, ids, ids.len() as int).answer is Ok,
        plan.node(loaded, id) is Ok ==> plan.node(loaded, id)->Ok_0.recent.no_duplicates(),
    ensures
        ({
            let before = plan.node(loaded, id)->Ok_0;
            let after = plan.connected(loaded, ids, ids.len() as int).plan.node(loaded, id);
            &&& plan.node(loaded, id) is Ok && after is Ok
            &&& after->Ok_0.recent == ids.filter(|x: Seq<char>| x != id) + before.recent.filter(
                |x: Seq<char>| !ids.contains(x),
            )
            &&& after->Ok_0 == (NodeView { recent: after->Ok_0.recent, ..before })
        }),
{
    let before = plan.node(loaded, id);
    let after = plan.connected(loaded, ids, ids.len() as int).plan.node(loaded, id);
    assert(before is Ok && after == Ok::<NodeView, Seq<char>>(before->Ok_0.linked(ids, id))) by {
        connected_nodes(plan, loaded, ids, ids.len() as int);
        let i = ids.index_of(id);
        assert(ids[i] == id);
    }
    linking_puts_the_others_first(ids, id, before->Ok_0.recent);
}

/// The recent connections of a node that was linked to some others.
proof fn linking_puts_the_others_first(ids: Seq<Seq<char>>, id: Seq<char>, recent: Seq<Seq<char>>)
    requires
        ids.contains(id),
        recent.no_duplicates(),
    ensures
        merged(text::excluding(ids, seq![id]), recent, id) == ids.filter(|x: Seq<char>| x != id)
            + recent.filter(|x: Seq<char>| !ids.contains(x)),
{
    let first = text::excluding(ids, seq![id]);
    assert(seq![id][0] == id);
    assert(first == ids.filter(|x: Seq<char>| x != id)) by {
        text::excluding_filters(ids, seq![id]);
        same_filter(ids, |x: Seq<char>| !seq![id].contains(x), |x: Seq<char>| x != id);
    }
    merging_adds_the_rest(first, recent, id);
    assert(recent.filter(|x: Seq<char>| x != id && !first.contains(x)) == recent.filter(
        |x: Seq<char>| !ids.contains(x),
    )) by {
        text::excluding_keeps(ids, seq![id]);
        same_filter(
            recent,
            |x: Seq<char>| x != id && !first.contains(x),
            |x: Seq<char>| !ids.contains(x),
        );
    }
}

/// Filtering by two tests that agree gives the same.
proof fn same_filter(
    list: Seq<Seq<char>>,
    one: spec_fn(Seq<char>) -> bool,
    other: spec_fn(Seq<char>) -> bool,
)
    requires
        forall|x: Seq<char>| one(x) == #[trigger] other(x),
    ensures
        list.filter(one) == list.filter(other),
    decreases list.len(),
{
    reveal(Seq::filter);
    if list.len() > 0 {
        same_filter(list.drop_last(), one, other);
        assert(one(list.last()) == other(list.last()));
    }
}

/// An update gives a node the owner and the texts of its arguments, archives it, and
/// changes nothing else of it and no other node.
pub proof fn updates_replace_owner_and_texts(
    plan: PlanView,
    loaded: LoadedView,
    arguments: JsonView,
    id: Seq<char>,
    node: Seq<char>,
)
    requires
        plan.update(loaded, arguments).answer is Ok,
        arguments.text_at("identifier"@) == Some(id),
    ensures
        ({
            let before = plan.node(loaded, id);
            let after = plan.update(loaded, arguments).plan;
            let data = after.node(loaded, id)->Ok_0;
            &&& before is Ok && after.node(loaded, id) is Ok
            &&& arguments.text_at("ownerIdentifier"@) == Some(data.owner)
            &&& arguments.text_at("newShortName"@) == Some(data.short_name)
            &&& arguments.text_at("newShortDescription"@) == Some(data.short_description)
            &&& arguments.text_at("newLongDescription"@) == Some(data.long_description)
            &&& data.archived
            &&& data.fixed == before->Ok_0.fixed && data.recent == before->Ok_0.recent
                && data.objects == before->Ok_0.objects
            &&& node != id ==> after.node(loaded, node) == plan.node(loaded, node)
        }),
{
    arguments::identifiers_are_taken_as_given(arguments, "identifier"@, loaded.readings);
    arguments::identifiers_are_taken_as_given(arguments, "ownerIdentifier"@, loaded.readings);
    arguments::node_texts_are_taken_as_given(
        arguments,
        "newShortName"@,
        "newShortDescription"@,
        "newLongDescription"@,
    );
    let texts = arguments::node_texts(
        arguments,
        "newShortName"@,
        "newShortDescription"@,
        "newLongDescription"@,
    )->Ok_0;
    let owner = arguments.text_at("ownerIdentifier"@)->0;
    let data = NodeView {
        owner,
        short_name: texts.0,
        short_description: texts.1,
        long_description: texts.2,
        archived: true,
        ..plan.node(loaded, id)->Ok_0
    };
    put_then_node(plan, loaded, id, data, node);
}

/// Putting a child into a fixed slot takes it from where it stood, and puts it in place
/// of what then stands in that slot, or else behind the others; nothing else of the
/// node changes, and no other node.
pub proof fn fixed_slots_take_their_child(
    plan: PlanView,
    loaded: LoadedView,
    arguments: JsonView,
    parent: Seq<char>,
    child: Seq<char>,
    slot: u64,
    node: Seq<char>,
)
    requires
        plan.fix(loaded, arguments).answer is Ok,
        arguments.text_at("parentIdentifier"@) == Some(parent),
        arguments.text_at("childIdentifier"@) == Some(child),
        child != "blank"@,
        arguments.u64_at("slot"@) == Some(slot),
    ensures
        ({
            let before = plan.node(loaded, parent);
            let after = plan.fix(loaded, arguments).plan;
            let fixed = after.node(loaded, parent)->Ok_0.fixed;
            let others = before->Ok_0.fixed.filter(|x: Seq<char>| x != child);
            &&& before is Ok && after.node(loaded, parent) is Ok
            &&& 0 < slot <= before->Ok_0.fixed.len() + 1
            &&& slot <= others.len() ==> fixed == others.update(slot - 1, child)
            &&& slot > others.len() ==> fixed == others.push(child)
            &&& after.node(loaded, parent)->Ok_0 == (NodeView { fixed, ..before->Ok_0 })
            &&& node != parent ==> after.node(loaded, node) == plan.node(loaded, node)
            &&& child != parent
        }),
{
    arguments::identifiers_are_taken_as_given(arguments, "parentIdentifier"@, loaded.readings);
    arguments::identifiers_are_taken_as_given(arguments, "childIdentifier"@, loaded.readings);
    let before = plan.node(loaded, parent)->Ok_0;
    assert(seq![child][0] == child);
    text::excluding_filters(before.fixed, seq![child]);
    same_filter(
        before.fixed,
        |x: Seq<char>| !seq![child].contains(x),
        |x: Seq<char>| x != child,
    );
    put_then_node(
        plan,
        loaded,
        parent,
        before.with_fixed(PlanView::fixed_with(before.fixed, child, slot as int)),
        node,
    );
}

/// Clearing a fixed slot takes out what stands there and moves up what follows; a slot
/// that holds nothing changes nothing. Nothing else of the node changes, and no other
/// node.
pub proof fn fixed_slots_are_cleared(
    plan: PlanView,
    loaded: LoadedView,
    arguments: JsonView,
    parent: Seq<char>,
    slot: u64,
    node: Seq<char>,
)
    requires
        plan.fix(loaded, arguments).answer is Ok,
        arguments.text_at("parentIdentifier"@) == Some(parent),
        arguments.text_at("childIdentifier"@) is None || arguments.text_at("childIdentifier"@)
            == Some("blank"@),
        arguments.u64_at("slot"@) == Some(slot),
    ensures
        ({
            let before = plan.node(loaded, parent);
            let after = plan.fix(loaded, arguments).plan;
            let fixed = after.node(loaded, parent)->Ok_0.fixed;
            let old_fixed = before->Ok_0.fixed;
            &&& before is Ok && after.node(loaded, parent) is Ok
            &&& slot > 0
            &&& slot <= old_fixed.len() ==> fixed == old_fixed.take(slot - 1) + old_fixed.skip(
                slot as int,
            )
            &&& slot > old_fixed.len() ==> fixed == old_fixed
            &&& after.node(loaded, parent)->Ok_0 == (NodeView { fixed, ..before->Ok_0 })
            &&& node != parent ==> after.node(loaded, node) == plan.node(loaded, node)
        }),
{
    arguments::identifiers_are_taken_as_given(arguments, "parentIdentifier"@, loaded.readings);
    let before = plan.node(loaded, parent)->Ok_0;
    let fixed = PlanView::fixed_without(before.fixed, slot as int);
    put_then_node(plan, loaded, parent, before.with_fixed(fixed), node);
    if slot <= before.fixed.len() && slot > 0 {
        assert(fixed =~= before.fixed.take(slot - 1) + before.fixed.skip(slot as int));
    }
}

/// A node is drafted with the owner and the texts of its arguments, under the parents
/// that they name, which are its recent connections; it has nothing else yet.
pub proof fn drafts_hold_their_arguments(plan: PlanView, loaded: LoadedView, arguments: JsonView)
    requires
        plan.drafted(loaded, arguments) is Ok,
    ensures
        ({
            let parents = plan.drafted(loaded, arguments)->Ok_0.0;
            let data = plan.drafted(loaded, arguments)->Ok_0.1;
            &&& arguments.text_at("ownerIdentifier"@) == Some(data.owner)
            &&& arguments.text_at("shortName"@) == Some(data.short_name)
            &&& arguments.text_at("shortDescription"@) == Some(data.short_description)
            &&& arguments.text_at("longDescription"@) == Some(data.long_description)
            &&& arguments.array_at("parentIdentifiers"@) is Some
            &&& arguments.array_at("parentIdentifiers"@)->0.len() == parents.len() >= 1
            &&& forall|i: int|
                0 <= i < parents.len() ==> arguments.array_at(
                    "parentIdentifiers"@,
                )->0[i].as_text() == Some(#[trigger] parents[i])
            &&& data.recent == parents
            &&& data.fixed.len() == 0 && data.objects.len() == 0 && data.archived
        }),
{
    arguments::identifiers_are_taken_as_given(arguments, "ownerIdentifier"@, loaded.readings);
    arguments::identifier_lists_are_taken_as_given(
        arguments,
        "parentIdentifiers"@,
        1,
        loaded.readings,
    );
    arguments::node_texts_are_taken_as_given(
        arguments,
        "shortName"@,
        "shortDescription"@,
        "longDescription"@,
    );
}

/// What adopting a node does to the nodes that are read through the stage.
proof fn adopting_keeps_the_rest(
    plan: PlanView,
    loaded: LoadedView,
    parents: Seq<Seq<char>>,
    pending: Seq<char>,
    n: int,
    node: Seq<char>,
)
    requires
        0 <= n <= parents.len(),
        parents.no_duplicates(),
        plan.adopted(loaded, parents, pending, n).answer is Ok,
    ensures
        ({
            let after = plan.adopted(loaded, parents, pending, n).plan;
            let before = plan.node(loaded, node);
            &&& !parents.take(n).contains(node) ==> after.node(loaded, node) == before
            &&& parents.take(n).contains(node) ==> before is Ok && after.node(loaded, node)
                == Ok::<NodeView, Seq<char>>(
                NodeView {
                    recent: seq![pending] + text::excluding(before->Ok_0.recent, seq![pending]),
                    ..before->Ok_0
                },
            )
        }),
    decreases n,
{
    if n > 0 {
        let before = plan.adopted(loaded, parents, pending, n - 1);
        adopting_keeps_the_rest(plan, loaded, parents, pending, n - 1, node);
        let parent = parents[n - 1];
        adopting_keeps_the_rest(plan, loaded, parents, pending, n - 1, parent);
        let data = before.plan.node(loaded, parent)->Ok_0;
        put_then_node(
            before.plan,
            loaded,
            parent,
            data.with_recent(seq![pending] + text::excluding(data.recent, seq![pending])),
            node,
        );
        let upto = parents.take(n);
        let less = parents.take(n - 1);
        assert(upto =~= less.push(parent));
        assert(!less.contains(parent)) by {
            if less.contains(parent) {
                let i = less.index_of(parent);
                assert(parents[i] == parents[n - 1]);
            }
        }
        assert(upto[n - 1] == parent);
        if node != parent {
            assert(upto.contains(node) <==> less.contains(node)) by {
                if upto.contains(node) {
                    let i = upto.index_of(node);
                    assert(less[i] == node);
                }
                if less.contains(node) {
                    let i = less.index_of(node);
                    assert(upto[i] == node);
                }
            }
        }
    }
}

/// A creation puts the new node in front of each parent's recent connections, where it
/// stands once; nothing else of a parent changes, and no other node.
pub proof fn creations_are_adopted_first(
    plan: PlanView,
    loaded: LoadedView,
    parents: Seq<Seq<char>>,
    data: NodeView,
    pending: Seq<char>,
    node: Seq<char>,
)
    requires
        parents.no_duplicates(),
        node != pending,
        plan.created(loaded, parents, data, pending).answer is Ok,
    ensures
        ({
            let before = plan.node(loaded, node);
            let after = plan.created(loaded, parents, data, pending).plan.node(loaded, node);
            &&& !parents.contains(node) ==> after == before
            &&& parents.contains(node) ==> before is Ok && after == Ok::<NodeView, Seq<char>>(
                NodeView {
                    recent: seq![pending] + before->Ok_0.recent.filter(
                        |x: Seq<char>| x != pending,
                    ),
                    ..before->Ok_0
                },
            )
        }),
{
    let staged = PlanView { creates: plan.creates.push((pending, data)), updates: plan.updates };
    adopting_keeps_the_rest(staged, loaded, parents, pending, parents.len() as int, node);
    assert(parents.take(parents.len() as int) =~= parents);
    creation_from_is_first(plan.creates, node, 0);
    creation_from_is_first(staged.creates, node, 0);
    assert(staged.creation(node) == plan.creation(node)) by {
        match (staged.creation(node), plan.creation(node)) {
            (Some(a), Some(b)) => {
                assert(staged.creates[b] == plan.creates[b]);
                assert(a < plan.creates.len());
                assert(staged.creates[a] == plan.creates[a]);
            },
            (Some(a), None) => {
                if a < plan.creates.len() {
                    assert(staged.creates[a] == plan.creates[a]);
                }
            },
            (None, Some(b)) => {
                assert(staged.creates[b] == plan.creates[b]);
            },
            (None, None) => {},
        }
    }
    if plan.creation(node) is Some {
        assert(staged.creates[plan.creation(node)->0] == plan.creates[plan.creation(node)->0]);
    }
    let recent = plan.node(loaded, node)->Ok_0.recent;
    assert(seq![pending][0] == pending);
    text::excluding_filters(recent, seq![pending]);
    same_filter(
        recent,
        |x: Seq<char>| !seq![pending].contains(x),
        |x: Seq<char>| x != pending,
    );
}

/// No staged creation repeats another exactly where all their identities differ; the one
/// that is found has the identity of an earlier one.
pub proof fn repeats_are_found(ids: Seq<Seq<char>>)
    ensures
        first_repeat(ids, 0) is None <==> ids.no_duplicates(),
        first_repeat(ids, 0) is Some ==> exists|j: int|
            0 <= j < first_repeat(ids, 0)->0 < ids.len() && #[trigger] ids[j] == ids[first_repeat(
                ids,
                0,
            )->0],
{
    repeats_from(ids, 0);
}

/// What a search from some place on finds.
proof fn repeats_from(ids: Seq<Seq<char>>, i: int)
    requires
        0 <= i <= ids.len(),
    ensures
        first_repeat(ids, i) is Some ==> exists|j: int|
            0 <= j < first_repeat(ids, i)->0 < ids.len() && #[trigger] ids[j] == ids[first_repeat(
                ids,
                i,
            )->0],
        first_repeat(ids, i) is None ==> forall|a: int, b: int|
            0 <= a < b < ids.len() && i <= b ==> #[trigger] ids[a] != #[trigger] ids[b],
    decreases ids.len() - i,
{
    if i < ids.len() {
        if ids.take(i).contains(ids[i]) {
            let j = ids.take(i).index_of(ids[i]);
            assert(ids[j] == ids[i]);
        } else {
            repeats_from(ids, i + 1);
            assert forall|a: int, b: int|
                0 <= a < b < ids.len() && i <= b && first_repeat(
                    ids,
                    i,
                ) is None implies #[trigger] ids[a] != #[trigger] ids[b] by {
                if b == i {
                    assert(ids.take(i)[a] == ids[a]);
                    assert(ids.take(i).contains(ids[a]));
                }
            }
        }
    }
}

/// Well-formed edits of nodes that the session may edit are staged: where every node that
/// is loaded in full has contents, a consolidation, a connection and a child in the slot
/// behind the others are answered.
pub proof fn known_nodes_are_edited(
    plan: PlanView,
    loaded: LoadedView,
    parent: Seq<char>,
    aggregator: Seq<char>,
    fanout: Seq<Seq<char>>,
)
    requires
        loaded.well_formed(),
        plan.known(loaded, parent) is Ok,
        plan.known(loaded, aggregator) is Ok,
        forall|i: int| 0 <= i < fanout.len() ==> plan.known(loaded, #[trigger] fanout[i]) is Ok,
    ensures
        plan.consolidated(loaded, parent, aggregator, fanout).answer is Ok,
        plan.connected(loaded, fanout, fanout.len() as int).answer is Ok,
        plan.node(loaded, parent)->Ok_0.fixed.len() < u64::MAX ==> plan.slotted(
            loaded,
            parent,
            aggregator,
            (plan.node(loaded, parent)->Ok_0.fixed.len() + 1) as u64,
        ).answer is Ok,
{
    let above = plan.node(loaded, parent)->Ok_0;
    let below = plan.node(loaded, aggregator)->Ok_0;
    let up = above.with_recent(PlanView::parent_recent(above.recent, fanout, aggregator));
    let down = below.with_recent(PlanView::extended(below.recent, fanout));
    known_is_usable(plan, loaded, parent, up);
    known_is_usable(plan, loaded, aggregator, down);
    put_then_node(plan, loaded, parent, up, aggregator);
    let first = plan.put(loaded, parent, up)->Ok_0;
    known_is_usable(first, loaded, aggregator, down);
    known_nodes_connect(plan, loaded, fanout, fanout.len() as int);
    let slot = (above.fixed.len() + 1) as u64;
    known_is_usable(
        plan,
        loaded,
        parent,
        above.with_fixed(PlanView::fixed_with(above.fixed, aggregator, slot as int)),
    );
}

} // verus!
