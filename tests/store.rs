use sv_miner::context::CtxStack;
use sv_miner::error::CFGErrorKind;
use sv_miner::graph::CFGraph;
use sv_miner::processor::{Operation, Processor, SyntaxNode};
use sv_miner::structs::{decimal_string, End, File, Module, NId, Node};

#[test]
fn duplicate_insert_is_rejected_and_graph_kept() {
    let mut g = CFGraph::new();
    g.add_node_checked(NId(1), Node::End(End { id: NId(1), target: NId(7) })).unwrap();
    let e = g.add_node_checked(NId(1), Node::File(File::new(NId(1), "f".to_string()))).unwrap_err();
    assert_eq!(e.kind, CFGErrorKind::DuplicateIdentifier);
    assert_eq!(g.node_count(), 1);
    assert!(matches!(g.node(NId(1)), Some(Node::End(End { target: NId(7), .. }))));
}

#[test]
fn unchecked_insert_replaces() {
    let mut g = CFGraph::new();
    g.add_node(NId(3), Node::End(End { id: NId(3), target: NId(1) }));
    g.add_node(NId(3), Node::End(End { id: NId(3), target: NId(2) }));
    assert_eq!(g.node_count(), 1);
    assert_eq!(g.label(NId(3)), Some("end of 2".to_string()));
    assert_eq!(g.label(NId(4)), None);
    assert_eq!(g.find(NId(3)), Some(0));
}

#[test]
fn processor_checked_insert() {
    let mut p = Processor::create();
    let id = p.next();
    assert_eq!(id, NId(1));
    assert_eq!(p.add_node_with(id, Node::File(File::new(id, "a.sv".to_string()))).unwrap(), id);
    let e = p.add_node_with(id, Node::End(End { id, target: id })).unwrap_err();
    assert_eq!(e.kind, CFGErrorKind::DuplicateIdentifier);
    assert!(matches!(p.get(id), Some(Node::File(_))));
    p.add_edge_from(NId(1), NId(5)).unwrap();
    assert!(p.cfg.topology().analyze().edge(&1, &5).is_some());
}

#[test]
fn close_ctx_on_empty_stack_fails() {
    let mut p = Processor::create();
    assert_eq!(p.close_ctx().unwrap_err().kind, CFGErrorKind::NoOpenContext);
    assert_eq!(p.last(), NId(0));
}

#[test]
fn empty_stack_rejects_close_and_peek() {
    let mut s = CtxStack::new();
    assert_eq!(s.close().unwrap_err().kind, CFGErrorKind::NoOpenContext);
    assert_eq!(s.peek().unwrap_err().kind, CFGErrorKind::NoOpenContext);
    assert_eq!(s.peek_parent().unwrap_err().kind, CFGErrorKind::NoOpenContext);
    assert_eq!(s.pop().unwrap(), None);
    assert!(s.empty().unwrap());
}

#[test]
fn single_entry_stack_rejects_peek_parent() {
    let mut s = CtxStack::new();
    s.push(NId(1)).unwrap();
    assert_eq!(s.peek().unwrap(), NId(1));
    assert_eq!(s.peek_parent().unwrap_err().kind, CFGErrorKind::NoOpenContext);
    s.push(NId(2)).unwrap();
    assert_eq!(s.peek().unwrap(), NId(2));
    assert_eq!(s.peek_parent().unwrap(), NId(1));
    assert_eq!(s.close().unwrap(), NId(2));
    assert_eq!(s.pop().unwrap(), Some(NId(1)));
    assert!(s.empty().unwrap());
}

#[test]
fn identifiers_and_labels() {
    assert_eq!(NId(41).incr(), NId(42));
    assert_eq!(NId::from(9usize), NId(9));
    assert_eq!(NId(1205).to_string(), "1205");
    assert_eq!(decimal_string(0), "0");
    assert_eq!(decimal_string(10), "10");
    assert_eq!(decimal_string(usize::MAX), usize::MAX.to_string());
    let m = Node::from(Module { id: NId(12), ctx: NId(1), name: "top".to_string() });
    assert_eq!(m.id(), NId(12));
    assert_eq!(m.to_string(), "module(12)");
    assert_eq!(Node::from(File::new(NId(1), "a.sv".to_string())).to_string(), "file(1)");
    assert_eq!(Node::from(End { id: NId(30), target: NId(7) }).to_string(), "end of 7");
}

#[test]
fn payload_changed_in_place() {
    let mut p = Processor::create();
    let id = p.next();
    p.add_node(Node::Module(Module { id, ctx: NId(0), name: "a".to_string() })).unwrap();
    if let Some(Node::Module(m)) = p.get_mut(id) {
        m.name = "b".to_string();
    }
    assert!(matches!(p.get(id), Some(Node::Module(Module { name, .. })) if name == "b"));
    assert!(p.get_mut(NId(2)).is_none());
    assert_eq!(p.cfg.node_count(), 1);
}

#[test]
fn operations_on_a_walk_without_open_scope() {
    let mut p = Processor::create();
    assert!(SyntaxNode::WhiteSpace.execute(&mut p).is_ok());
    assert!(SyntaxNode::Other.execute(&mut p).is_ok());
    let e = SyntaxNode::ModuleDeclaration("m".to_string()).execute(&mut p).unwrap_err();
    assert_eq!(e.kind, CFGErrorKind::NoOpenContext);
    assert_eq!(SyntaxNode::EndModule.execute(&mut p).unwrap_err().kind, CFGErrorKind::NoOpenContext);
    assert_eq!(p.last(), NId(0));
    assert_eq!(p.cfg.node_count(), 0);
}
