//! The graph store: nodes keyed by identifier and a directed edge relation.
//!
//! Node payloads are kept here; the identifiers and the edges are kept in a
//! `digraph_rs::DiGraph`, which also serves for rendering.
use vstd::prelude::*;
use digraph_rs::{DiGraph, EmptyPayload};
use crate::error::{CFGError, CFGErrorKind, CFGStep};
use crate::structs::{NId, Node};

verus! {

#[verifier::external_type_specification]
#[verifier::external_body]
#[verifier::reject_recursive_types(N)]
#[verifier::reject_recursive_types(NL)]
#[verifier::reject_recursive_types(EL)]
pub struct ExDiGraph<N, NL, EL>(DiGraph<N, NL, EL>) where N: Eq + core::hash::Hash;

#[verifier::external_type_specification]
#[verifier::external_body]
pub struct ExEmptyPayload(EmptyPayload);

/// The identifiers that a `DiGraph` holds as nodes.
pub uninterp spec fn topology_ids(g: DiGraph<usize, EmptyPayload, EmptyPayload>) -> Set<usize>;

/// The pairs `(from, to)` that a `DiGraph` holds as edges.
pub uninterp spec fn topology_edges(g: DiGraph<usize, EmptyPayload, EmptyPayload>) -> Set<(usize, usize)>;

/// Relies on `DiGraph::new`: both of its maps start empty.
#[verifier::external_body]
fn topology_new() -> (r: DiGraph<usize, EmptyPayload, EmptyPayload>)
    ensures
        topology_ids(r) == Set::<usize>::empty(),
        topology_edges(r) == Set::<(usize, usize)>::empty(),
{
    DiGraph::new()
}

/// Relies on `DiGraph::add_bare_node`: inserts `id` into the node map and
/// leaves the edge map alone.
#[verifier::external_body]
fn topology_add_node(g: &mut DiGraph<usize, EmptyPayload, EmptyPayload>, id: usize)
    ensures
        topology_ids(*final(g)) == topology_ids(*old(g)).insert(id),
        topology_edges(*final(g)) == topology_edges(*old(g)),
{
    g.add_bare_node(id);
}

/// Relies on `DiGraph::add_bare_edge`: inserts `to` into the successor map of
/// `from` and leaves the node map alone.
#[verifier::external_body]
fn topology_add_edge(g: &mut DiGraph<usize, EmptyPayload, EmptyPayload>, from: usize, to: usize)
    ensures
        topology_ids(*final(g)) == topology_ids(*old(g)),
        topology_edges(*final(g)) == topology_edges(*old(g)).insert((from, to)),
{
    g.add_bare_edge(from, to);
}

/// A directed graph of nodes keyed by identifier.
pub struct CFGraph {
    pub nodes: Vec<(NId, Node)>,
    pub topology: DiGraph<usize, EmptyPayload, EmptyPayload>,
}

impl CFGraph {
    /// The keys, distinct, with the topology holding exactly them.
    pub open spec fn wf(&self) -> bool {
        &&& forall|i: int, j: int|
            0 <= i < j < self.nodes@.len() ==> #[trigger] self.nodes@[i].0 != #[trigger] self.nodes@[j].0
        &&& topology_ids(self.topology) == self.keys()
    }

    pub open spec fn keys(&self) -> Set<usize> {
        Set::new(|k: usize| self.contains(k))
    }

    pub open spec fn contains(&self, k: usize) -> bool {
        exists|i: int| 0 <= i < self.nodes@.len() && #[trigger] self.nodes@[i].0.0 == k
    }

    pub open spec fn edges(&self) -> Set<(usize, usize)> {
        topology_edges(self.topology)
    }

    pub fn new() -> (r: CFGraph)
        ensures
            r.wf(),
            r.nodes@.len() == 0,
            r.edges() == Set::<(usize, usize)>::empty(),
    {
        let r = CFGraph { nodes: Vec::new(), topology: topology_new() };
        assert(r.keys() =~= Set::<usize>::empty());
        r
    }

    /// The position of the entry keyed by `id`.
    pub fn find(&self, id: NId) -> (r: Option<usize>)
        ensures
            r is None <==> !self.contains(id.0),
            r is Some ==> r->Some_0 < self.nodes@.len() && self.nodes@[r->Some_0 as int].0 == id,
    {
        let mut i: usize = 0;
        while i < self.nodes.len()
            invariant
                i <= self.nodes@.len(),
                forall|j: int| 0 <= j < i ==> self.nodes@[j].0.0 != id.0,
            decreases self.nodes@.len() - i,
        {
            if self.nodes[i].0.0 == id.0 {
                return Some(i);
            }
            i = i + 1;
        }
        None
    }

    /// Inserts `node` at `id`, replacing an entry already keyed by `id`.
    pub fn add_node(&mut self, id: NId, node: Node)
        requires
            old(self).wf(),
        ensures
            final(self).wf(),
            final(self).edges() == old(self).edges(),
            !old(self).contains(id.0) ==> final(self).nodes@ == old(self).nodes@.push((id, node)),
            old(self).contains(id.0) ==> exists|i: int|
                0 <= i < old(self).nodes@.len() && old(self).nodes@[i].0 == id && final(self).nodes@
                    == old(self).nodes@.update(i, (id, node)),
    {
        match self.find(id) {
            Some(i) => {
                self.nodes.set(i, (id, node));
                assert(self.nodes@ == old(self).nodes@.update(i as int, (id, node)));
                assert(self.nodes@[i as int].0.0 == id.0);
                assert(self.contains(id.0));
                assert forall|k: usize| old(self).contains(k) implies self.contains(k) by {
                    let j = choose|j: int| 0 <= j < old(self).nodes@.len() && #[trigger] old(self).nodes@[j].0.0 == k;
                    if j == i as int {
                        assert(self.nodes@[j].0.0 == k);
                    } else {
                        assert(self.nodes@[j] == old(self).nodes@[j]);
                    }
                }
                assert forall|k: usize| self.contains(k) implies old(self).contains(k) by {
                    let j = choose|j: int| 0 <= j < self.nodes@.len() && #[trigger] self.nodes@[j].0.0 == k;
                    if j == i as int {
                        assert(old(self).nodes@[j].0.0 == k);
                    } else {
                        assert(self.nodes@[j] == old(self).nodes@[j]);
                    }
                }
                assert(self.keys() =~= old(self).keys());
                assert(old(self).keys().contains(id.0));
                assert(old(self).keys().insert(id.0) =~= self.keys());
                assert forall|a: int, b: int| 0 <= a < b < self.nodes@.len() implies #[trigger] self.nodes@[a].0 != #[trigger] self.nodes@[b].0 by {
                    if a != i as int && b != i as int {
                        assert(old(self).nodes@[a].0 != old(self).nodes@[b].0);
                    }
                }
            },
            None => {
                self.nodes.push((id, node));
                assert forall|a: int, b: int| 0 <= a < b < self.nodes@.len() implies #[trigger] self.nodes@[a].0 != #[trigger] self.nodes@[b].0 by {
                    if b == self.nodes@.len() - 1 {
                        assert(old(self).nodes@[a].0.0 != id.0);
                    } else {
                        assert(old(self).nodes@[a].0 != old(self).nodes@[b].0);
                    }
                }
                assert(self.contains(id.0)) by {
                    assert(self.nodes@[self.nodes@.len() - 1].0.0 == id.0);
                }
                assert(self.keys() =~= old(self).keys().insert(id.0)) by {
                    assert forall|k: usize| old(self).contains(k) implies self.contains(k) by {
                        let i = choose|i: int| 0 <= i < old(self).nodes@.len() && #[trigger] old(self).nodes@[i].0.0 == k;
                        assert(self.nodes@[i] == old(self).nodes@[i]);
                    }
                }
            },
        }
        let ghost keys = self.keys();
        let ghost nodes = self.nodes@;
        topology_add_node(&mut self.topology, id.0);
        assert(self.nodes@ == nodes);
        assert(self.keys() =~= keys);
        assert(topology_ids(self.topology) =~= self.keys());
    }

    /// Inserts `node` at `id` unless an entry is already keyed by `id`.
    pub fn add_node_checked(&mut self, id: NId, node: Node) -> (r: CFGStep)
        requires
            old(self).wf(),
        ensures
            final(self).wf(),
            final(self).edges() == old(self).edges(),
            r is Err <==> old(self).contains(id.0),
            r is Err ==> r->Err_0.kind == CFGErrorKind::DuplicateIdentifier && *final(self) == *old(
                self,
            ),
            r is Ok ==> final(self).nodes@ == old(self).nodes@.push((id, node)),
    {
        if self.find(id).is_some() {
            Err(CFGError::cause(CFGErrorKind::DuplicateIdentifier, "the given id is already presented"))
        } else {
            self.add_node(id, node);
            Ok(())
        }
    }

    /// Adds the edge `from -> to`; its ends need not be nodes yet.
    pub fn add_edge(&mut self, from: NId, to: NId)
        ensures
            final(self).nodes@ == old(self).nodes@,
            final(self).keys() == old(self).keys(),
            topology_ids(final(self).topology) == topology_ids(old(self).topology),
            final(self).edges() == old(self).edges().insert((from.0, to.0)),
    {
        topology_add_edge(&mut self.topology, from.0, to.0);
        assert(self.nodes@ == old(self).nodes@);
        assert(self.keys() =~= old(self).keys());
    }

    /// The node keyed by `id`.
    pub fn node(&self, id: NId) -> (r: Option<&Node>)
        ensures
            r is None <==> !self.contains(id.0),
            r is Some ==> exists|i: int|
                0 <= i < self.nodes@.len() && self.nodes@[i].0 == id && *r->Some_0
                    == self.nodes@[i].1,
    {
        match self.find(id) {
            Some(i) => Some(&self.nodes[i].1),
            None => None,
        }
    }

    /// The node keyed by `id`, for changing its payload in place.
    pub fn node_mut(&mut self, id: NId) -> (r: Option<&mut Node>)
        ensures
            r is None <==> !old(self).contains(id.0),
            r is None ==> *final(self) == *old(self),
            match r {
                Some(n) => exists|i: int|
                    0 <= i < old(self).nodes@.len() && old(self).nodes@[i].0 == id && *n
                        == old(self).nodes@[i].1 && final(self).nodes@ == old(self).nodes@.update(
                        i,
                        (id, *final(n)),
                    ) && final(self).topology == old(self).topology,
                None => true,
            },
    {
        match self.find(id) {
            Some(i) => {
                Some(&mut self.nodes[i].1)
            },
            None => None,
        }
    }

    /// The label of the node keyed by `id`.
    pub fn label(&self, id: NId) -> (r: Option<String>)
        ensures
            r is None <==> !self.contains(id.0),
            r is Some ==> exists|i: int|
                0 <= i < self.nodes@.len() && self.nodes@[i].0 == id && r->Some_0@
                    == self.nodes@[i].1.label(),
    {
        match self.find(id) {
            Some(i) => Some(self.nodes[i].1.to_string()),
            None => None,
        }
    }

    /// One label per node, in the order of the entries.
    pub fn labels(&self) -> (r: Vec<String>)
        ensures
            r@.len() == self.nodes@.len(),
            forall|i: int| 0 <= i < r@.len() ==> (#[trigger] r@[i])@ == self.nodes@[i].1.label(),
    {
        let mut r: Vec<String> = Vec::new();
        let mut i: usize = 0;
        while i < self.nodes.len()
            invariant
                i <= self.nodes@.len(),
                r@.len() == i,
                forall|j: int| 0 <= j < i ==> (#[trigger] r@[j])@ == self.nodes@[j].1.label(),
            decreases self.nodes@.len() - i,
        {
            r.push(self.nodes[i].1.to_string());
            i = i + 1;
        }
        r
    }

    pub fn node_count(&self) -> (r: usize)
        ensures
            r == self.nodes@.len(),
    {
        self.nodes.len()
    }

    /// The identifiers and edges, for rendering.
    pub fn topology(&self) -> (r: &DiGraph<usize, EmptyPayload, EmptyPayload>)
        ensures
            r == &self.topology,
    {
        &self.topology
    }
}

} // verus!
