//! The walk that turns a flattened syntax tree into a graph of scopes.
use vstd::prelude::*;
use crate::context::CtxStack;
use crate::error::{CFGError, CFGErrorKind, CFGStep};
use crate::graph::CFGraph;
use crate::structs::{End, File, Module, NId, Node};

verus! {

/// The kinds of syntax node that the walk understands, in document order.
#[derive(Debug, Clone)]
pub enum SyntaxNode {
    /// Whitespace and other trivia.
    WhiteSpace,
    /// The root of a source text.
    SourceText,
    /// The start of a module declaration with the module's name.
    ModuleDeclaration(String),
    /// The `endmodule` keyword that ends the innermost module.
    EndModule,
    /// Anything else; it leaves the graph alone.
    Other,
}

impl SyntaxNode {
    pub open spec fn opens(&self) -> bool {
        self is ModuleDeclaration
    }

    pub open spec fn closes(&self) -> bool {
        self is EndModule
    }
}

/// A parsed compilation unit: its source path and its syntax nodes in a
/// pre-order walk.
pub struct Ast {
    pub path: String,
    pub tree: Vec<SyntaxNode>,
}

impl Ast {
    pub fn new(path: String, tree: Vec<SyntaxNode>) -> (r: Ast)
        ensures
            r.path == path,
            r.tree == tree,
    {
        Ast { path, tree }
    }
}

/// Number of scope openers among `s`.
pub open spec fn opens(s: Seq<SyntaxNode>) -> nat
    decreases s.len(),
{
    if s.len() == 0 {
        0
    } else {
        opens(s.drop_last()) + if s.last().opens() { 1nat } else { 0nat }
    }
}

/// Number of scope closers among `s`.
pub open spec fn closes(s: Seq<SyntaxNode>) -> nat
    decreases s.len(),
{
    if s.len() == 0 {
        0
    } else {
        closes(s.drop_last()) + if s.last().closes() { 1nat } else { 0nat }
    }
}

/// How many scopes are open after walking `s`, the file scope included.
pub open spec fn depth(s: Seq<SyntaxNode>) -> int {
    1 + opens(s) - closes(s)
}

/// No prefix of `s` closes more scopes than are open.
pub open spec fn never_underflows(s: Seq<SyntaxNode>) -> bool {
    forall|k: int| 0 <= k <= s.len() ==> depth(#[trigger] s.take(k)) >= 1
}

/// Every scope that `s` opens is closed in it, and none more.
pub open spec fn balanced(s: Seq<SyntaxNode>) -> bool {
    never_underflows(s) && depth(s) == 1
}

/// Number of scope-end nodes among the entries.
pub open spec fn count_ends(s: Seq<(NId, Node)>) -> nat
    decreases s.len(),
{
    if s.len() == 0 {
        0
    } else {
        count_ends(s.drop_last()) + if s.last().1 is End { 1nat } else { 0nat }
    }
}

/// Number of scope-opening nodes among the entries.
pub open spec fn count_openers(s: Seq<(NId, Node)>) -> nat
    decreases s.len(),
{
    if s.len() == 0 {
        0
    } else {
        count_openers(s.drop_last()) + if s.last().1.is_opener() { 1nat } else { 0nat }
    }
}

/// The straight chain of successor edges `1 -> 2 -> ... -> n`.
pub open spec fn chain(n: nat) -> Set<(usize, usize)> {
    Set::new(|e: (usize, usize)| 1 <= e.0 && e.1 == e.0 + 1 && e.1 <= n)
}

/// The entries are keyed `1..=n` in order, each by its node's own identifier.
pub open spec fn keyed_in_order(s: Seq<(NId, Node)>) -> bool {
    forall|i: int| 0 <= i < s.len() ==> #[trigger] s[i].0.0 == i + 1 && s[i].1.id_of() == i + 1
}

/// Every scope-end node targets an opener present among the entries.
pub open spec fn ends_resolve(s: Seq<(NId, Node)>) -> bool {
    forall|i: int|
        0 <= i < s.len() && (#[trigger] s[i]).1 is End ==> {
            let t = s[i].1->End_0.target.0;
            1 <= t <= s.len() && s[t - 1].1.is_opener()
        }
}

/// The identifiers of the scopes open after walking `s`, innermost last; the
/// file scope is `1`, and an opener gets the identifier that follows the ones
/// given out before it.
pub open spec fn scopes(s: Seq<SyntaxNode>) -> Seq<usize>
    decreases s.len(),
{
    if s.len() == 0 {
        seq![1usize]
    } else {
        let prev = s.drop_last();
        if s.last().opens() {
            scopes(prev).push((2 + opens(prev) + closes(prev)) as usize)
        } else if s.last().closes() {
            scopes(prev).drop_last()
        } else {
            scopes(prev)
        }
    }
}

/// The node that item `j` of `s` produced, if it produces one, stands at
/// position `1 + (openers and closers before it)`: for an opener a module of
/// the item's name inside the innermost open scope, for a closer the end of
/// that scope.
pub open spec fn item_placed(nodes: Seq<(NId, Node)>, s: Seq<SyntaxNode>, j: int) -> bool {
    let g = 1 + opens(s.take(j)) + closes(s.take(j)) as int;
    let top = NId(scopes(s.take(j)).last());
    &&& s[j] is ModuleDeclaration ==> g < nodes.len() && nodes[g].1 is Module && nodes[g].1->Module_0.name@
        == s[j]->ModuleDeclaration_0@ && nodes[g].1->Module_0.ctx == top
    &&& s[j] is EndModule ==> g < nodes.len() && nodes[g].1 is End && nodes[g].1->End_0.target == top
}

/// What a successful walk of `path` and `items` leaves.
pub open spec fn built(g: CFGraph, path: Seq<char>, items: Seq<SyntaxNode>) -> bool {
    let n = g.nodes@.len();
    &&& g.wf()
    &&& n == 2 + opens(items) + closes(items)
    &&& keyed_in_order(g.nodes@)
    &&& g.nodes@[0].1 is File && g.nodes@[0].1->File_0.name@ == path
    &&& g.nodes@[n - 1].1 is End && g.nodes@[n - 1].1->End_0.target == NId(1)
    &&& count_openers(g.nodes@) == count_ends(g.nodes@)
    &&& ends_resolve(g.nodes@)
    &&& g.edges() == chain(n as nat)
    &&& forall|j: int| 0 <= j < items.len() ==> #[trigger] item_placed(g.nodes@, items, j)
}

/// Drives one walk: owns the identifier generator, the open scopes and the graph.
pub struct Processor {
    pub gen: NId,
    pub ctx: CtxStack,
    pub cfg: CFGraph,
}

impl Processor {
    /// The state before any step: nothing allocated, opened or stored.
    pub open spec fn is_initial(&self) -> bool {
        &&& self.gen.0 == 0
        &&& self.ctx@.len() == 0
        &&& self.cfg.wf()
        &&& self.cfg.nodes@.len() == 0
        &&& self.cfg.edges() == Set::<(usize, usize)>::empty()
    }

    /// What holds between the steps of a walk.
    pub open spec fn inv(&self) -> bool {
        let s = self.cfg.nodes@;
        &&& self.cfg.wf()
        &&& s.len() == self.gen.0
        &&& keyed_in_order(s)
        &&& ends_resolve(s)
        &&& self.cfg.edges() == chain(self.gen.0 as nat)
        &&& forall|j: int|
            0 <= j < self.ctx@.len() ==> {
                let c = #[trigger] self.ctx@[j].0;
                1 <= c <= s.len() && s[c - 1].1.is_opener()
            }
        &&& count_openers(s) == count_ends(s) + self.ctx@.len()
    }

    pub fn create() -> (r: Processor)
        ensures
            r.is_initial(),
    {
        Processor { gen: NId(0), ctx: CtxStack::new(), cfg: CFGraph::new() }
    }

    /// Allocates a fresh identifier.
    pub fn next(&mut self) -> (r: NId)
        requires
            old(self).gen.0 < usize::MAX,
        ensures
            final(self).gen.0 == old(self).gen.0 + 1,
            r == final(self).gen,
            final(self).ctx == old(self).ctx,
            final(self).cfg == old(self).cfg,
    {
        self.gen = self.gen.incr();
        self.gen
    }

    /// The identifier issued before the last one.
    pub fn prev(&self) -> (r: NId)
        requires
            self.gen.0 >= 1,
        ensures
            r.0 == self.gen.0 - 1,
    {
        NId(self.gen.0 - 1)
    }

    /// The identifier issued last.
    pub fn last(&self) -> (r: NId)
        ensures
            r == self.gen,
    {
        self.gen
    }

    /// Inserts `node` at its own identifier, replacing what was there.
    pub fn add_node(&mut self, node: Node) -> (r: CFGStep<NId>)
        requires
            old(self).cfg.wf(),
        ensures
            r == Ok::<NId, CFGError>(NId(node.id_of())),
            final(self).cfg.wf(),
            final(self).gen == old(self).gen,
            final(self).ctx == old(self).ctx,
            final(self).cfg.edges() == old(self).cfg.edges(),
            !old(self).cfg.contains(node.id_of()) ==> final(self).cfg.nodes@ == old(
                self,
            ).cfg.nodes@.push((NId(node.id_of()), node)),
            old(self).cfg.contains(node.id_of()) ==> exists|i: int|
                0 <= i < old(self).cfg.nodes@.len() && old(self).cfg.nodes@[i].0.0 == node.id_of()
                    && final(self).cfg.nodes@ == old(self).cfg.nodes@.update(
                    i,
                    (NId(node.id_of()), node),
                ),
    {
        let id = node.id();
        self.cfg.add_node(id, node);
        Ok(id)
    }

    /// Inserts `node` at `id` unless `id` is already present.
    pub fn add_node_with(&mut self, id: NId, node: Node) -> (r: CFGStep<NId>)
        requires
            old(self).cfg.wf(),
        ensures
            final(self).cfg.wf(),
            final(self).gen == old(self).gen,
            final(self).ctx == old(self).ctx,
            final(self).cfg.edges() == old(self).cfg.edges(),
            r is Err <==> old(self).cfg.contains(id.0),
            r is Err ==> r->Err_0.kind == CFGErrorKind::DuplicateIdentifier && final(self).cfg == old(
                self,
            ).cfg,
            r is Ok ==> r->Ok_0 == id && final(self).cfg.nodes@ == old(self).cfg.nodes@.push(
                (id, node),
            ),
    {
        match self.cfg.add_node_checked(id, node) {
            Ok(()) => Ok(id),
            Err(e) => Err(e),
        }
    }

    /// Inserts `node` and opens its scope.
    pub fn add_ctx_node(&mut self, node: Node) -> (r: CFGStep<NId>)
        requires
            old(self).cfg.wf(),
        ensures
            r == Ok::<NId, CFGError>(NId(node.id_of())),
            final(self).cfg.wf(),
            final(self).gen == old(self).gen,
            final(self).ctx@ == old(self).ctx@.push(NId(node.id_of())),
            final(self).cfg.edges() == old(self).cfg.edges(),
            !old(self).cfg.contains(node.id_of()) ==> final(self).cfg.nodes@ == old(
                self,
            ).cfg.nodes@.push((NId(node.id_of()), node)),
            old(self).cfg.contains(node.id_of()) ==> exists|i: int|
                0 <= i < old(self).cfg.nodes@.len() && old(self).cfg.nodes@[i].0.0 == node.id_of()
                    && final(self).cfg.nodes@ == old(self).cfg.nodes@.update(
                    i,
                    (NId(node.id_of()), node),
                ),
    {
        let _ = self.ctx.push(node.id());
        self.add_node(node)
    }

    /// Closes the innermost scope with a fresh scope-end node.
    pub fn close_ctx(&mut self) -> (r: CFGStep<NId>)
        requires
            old(self).cfg.wf(),
            old(self).gen.0 < usize::MAX,
        ensures
            final(self).cfg.wf(),
            final(self).cfg.edges() == old(self).cfg.edges(),
            r is Err <==> old(self).ctx@.len() == 0,
            r is Err ==> r->Err_0.kind == CFGErrorKind::NoOpenContext && final(self).gen == old(self).gen
                && final(self).ctx@ == old(self).ctx@ && final(self).cfg == old(self).cfg,
            r is Ok ==> {
                let id = NId((old(self).gen.0 + 1) as usize);
                let end = Node::End(End { id, target: old(self).ctx@.last() });
                &&& r->Ok_0 == id
                &&& final(self).gen == id
                &&& final(self).ctx@ == old(self).ctx@.drop_last()
                &&& !old(self).cfg.contains(id.0) ==> final(self).cfg.nodes@ == old(
                    self,
                ).cfg.nodes@.push((id, end))
                &&& old(self).cfg.contains(id.0) ==> exists|i: int|
                    0 <= i < old(self).cfg.nodes@.len() && old(self).cfg.nodes@[i].0 == id
                        && final(self).cfg.nodes@ == old(self).cfg.nodes@.update(i, (id, end))
            },
    {
        let target = self.ctx.close()?;
        let id = self.next();
        self.add_node(Node::End(End { id, target }))
    }

    /// Adds the successor edge from the identifier before the last one to `to`.
    pub fn add_edge(&mut self, to: NId) -> (r: CFGStep)
        requires
            old(self).gen.0 >= 1,
        ensures
            r is Ok,
            final(self).gen == old(self).gen,
            final(self).ctx == old(self).ctx,
            final(self).cfg.nodes@ == old(self).cfg.nodes@,
            final(self).cfg.keys() == old(self).cfg.keys(),
            final(self).cfg.wf() == old(self).cfg.wf(),
            final(self).cfg.edges() == old(self).cfg.edges().insert(
                ((old(self).gen.0 - 1) as usize, to.0),
            ),
    {
        let from = self.prev();
        self.cfg.add_edge(from, to);
        Ok(())
    }

    /// Adds the edge `from -> to`.
    pub fn add_edge_from(&mut self, from: NId, to: NId) -> (r: CFGStep)
        ensures
            r is Ok,
            final(self).gen == old(self).gen,
            final(self).ctx == old(self).ctx,
            final(self).cfg.nodes@ == old(self).cfg.nodes@,
            final(self).cfg.keys() == old(self).cfg.keys(),
            final(self).cfg.wf() == old(self).cfg.wf(),
            final(self).cfg.edges() == old(self).cfg.edges().insert((from.0, to.0)),
    {
        self.cfg.add_edge(from, to);
        Ok(())
    }

    /// The node at `id`, for changing its payload in place.
    pub fn get_mut(&mut self, id: NId) -> (r: Option<&mut Node>)
        ensures
            r is None <==> !old(self).cfg.contains(id.0),
            final(self).gen == old(self).gen,
            final(self).ctx == old(self).ctx,
            r is None ==> final(self).cfg == old(self).cfg,
            match r {
                Some(n) => exists|i: int|
                    0 <= i < old(self).cfg.nodes@.len() && old(self).cfg.nodes@[i].0 == id && *n
                        == old(self).cfg.nodes@[i].1 && final(self).cfg.nodes@ == old(
                        self,
                    ).cfg.nodes@.update(i, (id, *final(n))) && final(self).cfg.topology == old(
                        self,
                    ).cfg.topology,
                None => true,
            },
    {
        self.cfg.node_mut(id)
    }

    /// The node at `id`.
    pub fn get(&self, id: NId) -> (r: Option<&Node>)
        ensures
            r is None <==> !self.cfg.contains(id.0),
            r is Some ==> exists|i: int|
                0 <= i < self.cfg.nodes@.len() && self.cfg.nodes@[i].0 == id && *r->Some_0
                    == self.cfg.nodes@[i].1,
    {
        self.cfg.node(id)
    }
}

proof fn lemma_push_entry(s: Seq<(NId, Node)>, x: (NId, Node))
    ensures
        count_ends(s.push(x)) == count_ends(s) + if x.1 is End { 1nat } else { 0nat },
        count_openers(s.push(x)) == count_openers(s) + if x.1.is_opener() { 1nat } else { 0nat },
{
    assert(s.push(x).drop_last() =~= s);
}

proof fn lemma_take_step(s: Seq<SyntaxNode>, k: int)
    requires
        0 <= k < s.len(),
    ensures
        opens(s.take(k + 1)) == opens(s.take(k)) + if s[k].opens() { 1nat } else { 0nat },
        closes(s.take(k + 1)) == closes(s.take(k)) + if s[k].closes() { 1nat } else { 0nat },
        scopes(s.take(k + 1)) == if s[k].opens() {
            scopes(s.take(k)).push((2 + opens(s.take(k)) + closes(s.take(k))) as usize)
        } else if s[k].closes() {
            scopes(s.take(k)).drop_last()
        } else {
            scopes(s.take(k))
        },
{
    assert(s.take(k + 1).drop_last() =~= s.take(k));
}

proof fn lemma_chain_step(n: nat)
    requires
        1 <= n,
        n + 1 <= usize::MAX,
    ensures
        chain(n + 1) == chain(n).insert(((n as usize), ((n + 1) as usize))),
{
    assert(chain(n + 1) =~= chain(n).insert(((n as usize), ((n + 1) as usize))));
}

/// One step of the walk, taken for one syntax node.
pub trait Operation {
    /// What the step does, from the state `before` to the state `after` with result `r`.
    spec fn performs(&self, before: Processor, after: Processor, r: CFGStep) -> bool;

    fn execute(&self, processor: &mut Processor) -> (r: CFGStep)
        requires
            old(processor).inv(),
            old(processor).gen.0 + 1 < usize::MAX,
        ensures
            self.performs(*old(processor), *final(processor), r),
    ;
}

impl Operation for SyntaxNode {
    /// An opener opens a scope with a successor edge, a closer closes the
    /// innermost one, anything else is skipped.
    open spec fn performs(&self, before: Processor, after: Processor, r: CFGStep) -> bool {
        &&& r is Ok ==> after.inv()
        &&& r is Ok ==> after.cfg.edges() == chain(after.gen.0 as nat)
        &&& {
            let g = before.gen.0;
            let id = NId((g + 1) as usize);
            let top = before.ctx@.last();
            match self {
                SyntaxNode::ModuleDeclaration(name) => {
                    &&& r is Err <==> before.ctx@.len() == 0
                    &&& r is Err ==> r->Err_0.kind == CFGErrorKind::NoOpenContext
                    &&& r is Ok ==> {
                        &&& after.gen == id
                        &&& after.ctx@ == before.ctx@.push(id)
                        &&& after.cfg.nodes@.len() == g + 1
                        &&& after.cfg.nodes@.take(g as int) == before.cfg.nodes@
                        &&& after.cfg.nodes@[g as int].1 is Module
                        &&& after.cfg.nodes@[g as int].1->Module_0.ctx == top
                        &&& after.cfg.nodes@[g as int].1->Module_0.name@ == name@
                    }
                },
                SyntaxNode::EndModule => {
                    &&& r is Err <==> before.ctx@.len() == 0
                    &&& r is Err ==> r->Err_0.kind == CFGErrorKind::NoOpenContext
                    &&& r is Ok ==> {
                        &&& after.gen == id
                        &&& after.ctx@ == before.ctx@.drop_last()
                        &&& after.cfg.nodes@ == before.cfg.nodes@.push(
                            (id, Node::End(End { id, target: top })),
                        )
                    }
                },
                _ => {
                    &&& r is Ok
                    &&& after.gen == before.gen
                    &&& after.ctx@ == before.ctx@
                    &&& after.cfg == before.cfg
                },
            }
        }
    }

    fn execute(&self, processor: &mut Processor) -> (r: CFGStep) {
        match self {
            SyntaxNode::ModuleDeclaration(name) => {
                let ctx = match processor.ctx.peek() {
                    Ok(c) => c,
                    Err(e) => {
                        return Err(e);
                    },
                };
                let ghost before = *processor;
                let id = processor.next();
                let node = Node::Module(Module { id, ctx, name: name.clone() });
                let _ = processor.add_ctx_node(node);
                let _ = processor.add_edge(id);
                proof {
                    let s = before.cfg.nodes@;
                    let x = (id, node);
                    lemma_push_entry(s, x);
                    assert(before.ctx@[before.ctx@.len() - 1].0 >= 1);
                    lemma_chain_step(before.gen.0 as nat);
                    assert(processor.cfg.nodes@ == s.push(x));
                    assert(processor.cfg.nodes@.take(s.len() as int) =~= s);
                }
                Ok(())
            },
            SyntaxNode::EndModule => {
                let ghost before = *processor;
                let id = match processor.close_ctx() {
                    Ok(id) => id,
                    Err(e) => {
                        return Err(e);
                    },
                };
                let _ = processor.add_edge(id);
                proof {
                    let s = before.cfg.nodes@;
                    let x = (id, Node::End(End { id, target: before.ctx@.last() }));
                    lemma_push_entry(s, x);
                    assert(before.ctx@[before.ctx@.len() - 1].0 >= 1);
                    lemma_chain_step(before.gen.0 as nat);
                    assert(processor.cfg.nodes@ == s.push(x));
                    assert forall|j: int| 0 <= j < processor.ctx@.len() implies {
                        let c = #[trigger] processor.ctx@[j].0;
                        1 <= c <= processor.cfg.nodes@.len() && processor.cfg.nodes@[c - 1].1.is_opener()
                    } by {
                        assert(processor.ctx@[j] == before.ctx@[j]);
                    }
                }
                Ok(())
            },
            _ => Ok(()),
        }
    }
}

impl Processor {
    /// Walks `ast`: opens the file scope, applies each syntax node in order and
    /// closes the file scope. Fails when a scope is closed or looked at while
    /// none is open, or when a scope other than the file scope is left open.
    pub fn run(&mut self, ast: &Ast) -> (r: CFGStep)
        requires
            old(self).is_initial(),
            ast.tree@.len() + 3 < usize::MAX,
        ensures
            r is Ok <==> balanced(ast.tree@),
            r is Err ==> r->Err_0.kind == if never_underflows(ast.tree@) && depth(ast.tree@) > 1 {
                CFGErrorKind::UnclosedContext
            } else {
                CFGErrorKind::NoOpenContext
            },
            r is Ok ==> final(self).ctx@.len() == 0 && built(final(self).cfg, ast.path@, ast.tree@),
    {
        let items = &ast.tree;
        let ghost s = items@;
        assert(s == ast.tree@);
        let id = self.next();
        let file = File::new(id, ast.path.clone());
        let ghost fnode = Node::File(file);
        let _ = self.add_ctx_node(Node::File(file));
        proof {
            lemma_push_entry(Seq::empty(), (id, fnode));
            assert(Seq::<(NId, Node)>::empty().push((id, fnode)) == self.cfg.nodes@);
            assert(chain(1) =~= Set::<(usize, usize)>::empty());
            assert(s.take(0) =~= Seq::<SyntaxNode>::empty());
        }
        let mut k: usize = 0;
        while k < items.len()
            invariant
                s == items@,
                s == ast.tree@,
                s.len() + 3 < usize::MAX,
                0 <= k <= s.len(),
                self.inv(),
                self.gen.0 == 1 + opens(s.take(k as int)) + closes(s.take(k as int)),
                self.gen.0 <= 1 + k,
                self.ctx@.len() == depth(s.take(k as int)),
                self.ctx@.len() == scopes(s.take(k as int)).len(),
                forall|i: int| 0 <= i < self.ctx@.len() ==> #[trigger] self.ctx@[i].0 == scopes(s.take(k as int))[i],
                self.ctx@.len() > 0 ==> self.ctx@[0] == NId(1),
                self.ctx@.len() >= 1 ==> forall|j: int| 0 <= j <= k ==> depth(#[trigger] s.take(j)) >= 1,
                self.cfg.nodes@.len() >= 1,
                self.cfg.nodes@[0].1 is File,
                self.cfg.nodes@[0].1->File_0.name@ == ast.path@,
                forall|j: int| 0 <= j < k ==> #[trigger] item_placed(self.cfg.nodes@, s, j),
            decreases s.len() - k,
        {
            proof {
                lemma_take_step(s, k as int);
            }
            let ghost before = *self;
            match items[k].execute(self) {
                Ok(()) => {},
                Err(e) => {
                    proof {
                        assert(depth(s.take(k as int)) == 0);
                        assert(!never_underflows(s));
                    }
                    return Err(e);
                },
            }
            proof {
                let old_nodes = before.cfg.nodes@;
                let new_nodes = self.cfg.nodes@;
                if s[k as int].opens() {
                    assert(new_nodes[0] == new_nodes.take(before.gen.0 as int)[0]);
                } else if s[k as int].closes() {
                    assert(new_nodes[0] == old_nodes[0]);
                }
                assert forall|j: int| 0 <= j < k + 1 implies #[trigger] item_placed(new_nodes, s, j) by {
                    if j == k {
                        if s[j].opens() || s[j].closes() {
                            let sc = scopes(s.take(j));
                            assert(before.ctx@[before.ctx@.len() - 1].0 == sc[sc.len() - 1]);
                        }
                    } else {
                        assert(item_placed(old_nodes, s, j));
                        let g = 1 + opens(s.take(j)) + closes(s.take(j)) as int;
                        if s[j] is ModuleDeclaration || s[j] is EndModule {
                            if s[k as int].opens() {
                                assert(new_nodes[g] == new_nodes.take(before.gen.0 as int)[g]);
                            } else if s[k as int].closes() {
                                assert(new_nodes[g] == old_nodes[g]);
                            }
                        }
                    }
                }
            }
            proof {
                if self.ctx@.len() >= 1 {
                    assert(before.ctx@.len() >= 1);
                    assert forall|j: int| 0 <= j <= k + 1 implies depth(#[trigger] s.take(j)) >= 1 by {
                        if j <= k {
                            assert(depth(s.take(j)) >= 1);
                        }
                    }
                }
            }
            k = k + 1;
        }
        proof {
            assert(s.take(s.len() as int) =~= s);
        }
        if self.ctx.inner.len() > 1 {
            return Err(CFGError::cause(CFGErrorKind::UnclosedContext, "a scope is left open"));
        }
        let ghost before = *self;
        let id = match self.close_ctx() {
            Ok(id) => id,
            Err(e) => {
                return Err(e);
            },
        };
        let _ = self.add_edge(id);
        proof {
            let ns = before.cfg.nodes@;
            let x = (id, Node::End(End { id, target: before.ctx@.last() }));
            lemma_push_entry(ns, x);
            lemma_chain_step(before.gen.0 as nat);
            assert(self.cfg.nodes@ == ns.push(x));
            assert(self.cfg.nodes@[0] == ns[0]);
            assert forall|j: int| 0 <= j < s.len() implies #[trigger] item_placed(self.cfg.nodes@, s, j) by {
                assert(item_placed(ns, s, j));
                let g = 1 + opens(s.take(j)) + closes(s.take(j)) as int;
                if s[j] is ModuleDeclaration || s[j] is EndModule {
                    assert(self.cfg.nodes@[g] == ns[g]);
                }
            }
            assert forall|k: int| 0 <= k <= s.len() implies depth(#[trigger] s.take(k)) >= 1 by {}
        }
        Ok(())
    }

    /// Builds the graph of `ast` from the initial state.
    pub fn process(self, ast: Ast) -> (r: CFGStep<CFGraph>)
        requires
            self.is_initial(),
            ast.tree@.len() + 3 < usize::MAX,
        ensures
            r is Ok <==> balanced(ast.tree@),
            r is Err ==> r->Err_0.kind == if never_underflows(ast.tree@) && depth(ast.tree@) > 1 {
                CFGErrorKind::UnclosedContext
            } else {
                CFGErrorKind::NoOpenContext
            },
            r is Ok ==> built(r->Ok_0, ast.path@, ast.tree@),
    {
        let mut p = self;
        match p.run(&ast) {
            Ok(()) => Ok(p.cfg),
            Err(e) => Err(e),
        }
    }
}

/// In a graph that a successful build produced, no two nodes share an
/// identifier, neither as keys nor as the nodes' own identifiers.
pub proof fn lemma_identifiers_unique(g: CFGraph, path: Seq<char>, items: Seq<SyntaxNode>)
    requires
        built(g, path, items),
    ensures
        forall|i: int, j: int|
            0 <= i < j < g.nodes@.len() ==> g.nodes@[i].0 != g.nodes@[j].0
                && g.nodes@[i].1.id_of() != g.nodes@[j].1.id_of(),
{
    assert forall|i: int, j: int| 0 <= i < j < g.nodes@.len() implies g.nodes@[i].0 != g.nodes@[j].0
        && g.nodes@[i].1.id_of() != g.nodes@[j].1.id_of() by {
        assert(g.nodes@[i].0.0 == i + 1);
        assert(g.nodes@[j].0.0 == j + 1);
    }
}

/// In a graph that a successful build produced, there are as many scope-end
/// nodes as scope openers, and the target of each scope-end node is an opener
/// that the graph holds.
pub proof fn lemma_scopes_closed(g: CFGraph, path: Seq<char>, items: Seq<SyntaxNode>)
    requires
        built(g, path, items),
    ensures
        count_openers(g.nodes@) == count_ends(g.nodes@),
        forall|i: int|
            0 <= i < g.nodes@.len() && (#[trigger] g.nodes@[i]).1 is End ==> {
                let t = g.nodes@[i].1->End_0.target.0;
                g.contains(t) && exists|j: int|
                    0 <= j < g.nodes@.len() && g.nodes@[j].0.0 == t && g.nodes@[j].1.is_opener()
            },
{
    assert forall|i: int| 0 <= i < g.nodes@.len() && (#[trigger] g.nodes@[i]).1 is End implies {
        let t = g.nodes@[i].1->End_0.target.0;
        g.contains(t) && exists|j: int|
            0 <= j < g.nodes@.len() && g.nodes@[j].0.0 == t && g.nodes@[j].1.is_opener()
    } by {
        let t = g.nodes@[i].1->End_0.target.0;
        assert(g.nodes@[t - 1].0.0 == t);
    }
}

} // verus!
