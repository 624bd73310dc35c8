//! The nodes of the graph, as they are stored and as a session's context holds them.

use crate::arguments;
use crate::plan::{NodeView, PlannedNode};
use crate::text;
use crate::text::Failure;
use vstd::prelude::*;

verus! {

/// Who a node belongs to.
#[derive(Debug, PartialEq, Eq)]
pub enum Owner {
    Unowned,
    /// The node itself.
    SelfNode,
    Node(String),
}

/// A node that another is connected with, as the other tells of it.
#[derive(Debug, PartialEq, Eq)]
pub struct Connection {
    pub id: String,
    pub short_name: String,
    pub short_description: String,
}

/// A node as the graph stores it.
#[derive(Debug, PartialEq, Eq)]
pub struct StoredNode {
    pub id: String,
    pub short_name: String,
    pub short_description: String,
    pub long_description: String,
    pub owner: Owner,
    pub fixed_connections: Vec<String>,
    pub recent_connections: Vec<String>,
    pub objects: Vec<String>,
    pub last_author: String,
    /// When it was stored, in RFC 3339.
    pub committed_at: String,
}

/// A node as a session's context holds it.
#[derive(Debug, PartialEq, Eq)]
pub struct ContextNode {
    pub id: String,
    pub short_name: String,
    pub short_description: String,
    pub long_description: String,
    pub owner: String,
    pub fixed_connections: Vec<Connection>,
    pub recent_connections: Vec<Connection>,
    pub objects: Vec<String>,
    pub last_modified_by: String,
    pub last_modified_at: Option<String>,
}

/// The name of the node that a node belongs to.
pub open spec fn owner_name(id: Seq<char>, owner: Owner) -> Seq<char> {
    match owner {
        Owner::Unowned => "unowned"@,
        Owner::SelfNode => id,
        Owner::Node(owner) => owner@,
    }
}

/// A stored node as a session's context holds it, with what its connections tell.
pub fn node_from_kweb(
    node: StoredNode,
    fixed_connections: Vec<Connection>,
    recent_connections: Vec<Connection>,
) -> (held: ContextNode)
    ensures
        held.id@ == node.id@,
        held.short_name@ == node.short_name@,
        held.short_description@ == node.short_description@,
        held.long_description@ == node.long_description@,
        held.owner@ == owner_name(node.id@, node.owner),
        held.fixed_connections == fixed_connections,
        held.recent_connections == recent_connections,
        held.objects.deep_view() == node.objects.deep_view(),
        held.last_modified_by@ == node.last_author@,
        held.last_modified_at.deep_view() == Some(node.committed_at@),
{
    let owner = match node.owner {
        Owner::Unowned => "unowned".to_owned(),
        Owner::SelfNode => node.id.as_str().to_owned(),
        Owner::Node(owner) => owner,
    };
    ContextNode {
        id: node.id,
        short_name: node.short_name,
        short_description: node.short_description,
        long_description: node.long_description,
        owner,
        fixed_connections,
        recent_connections,
        objects: node.objects,
        last_modified_by: node.last_author,
        last_modified_at: Some(node.committed_at),
    }
}

/// Checks that the node that was read is the one that was asked for.
pub fn check_requested(id: &str, durable_id: &str) -> (outcome: Result<(), Failure>)
    ensures
        arguments::checked(outcome) == if id@ == durable_id@ {
            Ok::<(), Seq<char>>(())
        } else {
            Err::<(), Seq<char>>(
                "Kweb returned node "@ + id@ + " when "@ + durable_id@ + " was requested"@,
            )
        },
{
    if *id == *durable_id {
        return Ok(());
    }
    let mut message = "Kweb returned node ".to_owned();
    message.append(id);
    message.append(" when ");
    message.append(durable_id);
    message.append(" was requested");
    Err(Failure::new(message))
}

/// The nodes that are read along with a node: those that it is firmly connected with, but
/// not itself.
pub fn fixed_to_load(fixed: &Vec<String>, durable_id: &str) -> (ids: Vec<String>)
    ensures
        ids.deep_view() == text::excluding(fixed.deep_view(), seq![durable_id@]),
{
    text::exclude_one(fixed, durable_id)
}

/// A node is never read along with itself, and nothing else is left out.
pub proof fn nodes_do_not_load_themselves(fixed: Seq<Seq<char>>, durable_id: Seq<char>)
    ensures
        !text::excluding(fixed, seq![durable_id]).contains(durable_id),
        forall|id: Seq<char>| #[trigger]
            fixed.contains(id) && id != durable_id ==> text::excluding(
                fixed,
                seq![durable_id],
            ).contains(id),
{
    text::excluding_keeps(fixed, seq![durable_id]);
    assert(seq![durable_id][0] == durable_id);
}

/// The identities of connections.
pub open spec fn connected_ids(connections: Seq<Connection>) -> Seq<Seq<char>> {
    connections.map_values(|connection: Connection| connection.id@)
}

fn ids_of(connections: &Vec<Connection>) -> (ids: Vec<String>)
    ensures
        ids.deep_view() == connected_ids(connections@),
{
    let mut ids: Vec<String> = Vec::new();
    let mut i: usize = 0;
    while i < connections.len()
        invariant
            i <= connections.len(),
            ids.len() == i,
            forall|j: int| 0 <= j < i ==> (#[trigger] ids@[j])@ == connections@[j].id@,
        decreases connections.len() - i,
    {
        ids.push(connections[i].id.as_str().to_owned());
        i = i + 1;
    }
    assert(ids.deep_view() =~= connected_ids(connections@));
    ids
}

/// A node of the context as it is edited; the session's archive is attached to it.
pub fn planned_node(node: &ContextNode) -> (planned: PlannedNode)
    ensures
        planned@ == (NodeView {
            short_name: node.short_name@,
            short_description: node.short_description@,
            long_description: node.long_description@,
            owner: node.owner@,
            fixed: connected_ids(node.fixed_connections@),
            recent: connected_ids(node.recent_connections@),
            objects: node.objects.deep_view(),
            archived: true,
        }),
{
    PlannedNode {
        short_name: node.short_name.as_str().to_owned(),
        short_description: node.short_description.as_str().to_owned(),
        long_description: node.long_description.as_str().to_owned(),
        owner: node.owner.as_str().to_owned(),
        fixed_connections: ids_of(&node.fixed_connections),
        recent_connections: ids_of(&node.recent_connections),
        objects: text::copied(&node.objects),
        attach_session_archive: true,
    }
}

/// A node that owns itself is its own owner, one that is owned by another names that one,
/// and any other names none.
pub proof fn owners_are_named(id: Seq<char>, owner: Owner)
    ensures
        owner is SelfNode ==> owner_name(id, owner) == id,
        owner is Node ==> owner_name(id, owner) == owner->Node_0@,
        owner is Unowned ==> owner_name(id, owner) == "unowned"@,
{
}

/// The connections of a node are the identities of the nodes that it is connected to, in
/// order.
pub proof fn connections_keep_their_order(connections: Seq<Connection>, i: int)
    ensures
        connected_ids(connections).len() == connections.len(),
        0 <= i < connections.len() ==> connected_ids(connections)[i] == connections[i].id@,
{
}

} // verus!
