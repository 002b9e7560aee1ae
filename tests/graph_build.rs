use sv_miner::error::CFGErrorKind;
use sv_miner::graph::CFGraph;
use sv_miner::processor::{Ast, Processor, SyntaxNode};
use sv_miner::structs::{End, File, Module, NId, Node};

fn build(path: &str, tree: Vec<SyntaxNode>) -> Result<CFGraph, CFGErrorKind> {
    Processor::create()
        .process(Ast::new(path.to_string(), tree))
        .map_err(|e| e.kind)
}

fn has_edge(g: &CFGraph, from: usize, to: usize) -> bool {
    g.topology().analyze().edge(&from, &to).is_some()
}

fn edge_count(g: &CFGraph) -> usize {
    (0..=g.node_count() + 1)
        .map(|i| g.topology().successors(i).map(|s| s.len()).unwrap_or(0))
        .sum()
}

#[test]
fn single_empty_file() {
    let g = build("a.sv", vec![]).unwrap();
    assert_eq!(g.node_count(), 2);
    match &g.nodes[0] {
        (NId(1), Node::File(File { id: NId(1), name })) => assert_eq!(name, "a.sv"),
        other => panic!("unexpected {:?}", other),
    }
    assert!(matches!(g.nodes[1], (NId(2), Node::End(End { id: NId(2), target: NId(1) }))));
    assert!(has_edge(&g, 1, 2));
    assert!(!has_edge(&g, 2, 1));
    assert_eq!(edge_count(&g), 1);
    assert!(g.topology().analyze().node_by_id(&1).is_some());
    assert!(g.topology().analyze().node_by_id(&2).is_some());
    assert!(g.topology().analyze().node_by_id(&3).is_none());
}

#[test]
fn one_module_no_body() {
    let tree = vec![
        SyntaxNode::SourceText,
        SyntaxNode::ModuleDeclaration("m".to_string()),
        SyntaxNode::WhiteSpace,
        SyntaxNode::EndModule,
    ];
    let g = build("m.sv", tree).unwrap();
    assert_eq!(g.node_count(), 4);
    assert!(matches!(g.nodes[0], (NId(1), Node::File(File { id: NId(1), .. }))));
    match &g.nodes[1] {
        (NId(2), Node::Module(Module { id: NId(2), ctx: NId(1), name })) => assert_eq!(name, "m"),
        other => panic!("unexpected {:?}", other),
    }
    assert!(matches!(g.nodes[2], (NId(3), Node::End(End { id: NId(3), target: NId(2) }))));
    assert!(matches!(g.nodes[3], (NId(4), Node::End(End { id: NId(4), target: NId(1) }))));
    assert!(has_edge(&g, 1, 2));
    assert!(has_edge(&g, 2, 3));
    assert!(has_edge(&g, 3, 4));
    assert_eq!(edge_count(&g), 3);
    assert_eq!(g.labels(), vec!["file(1)", "module(2)", "end of 2", "end of 1"]);
}

#[test]
fn nested_module_points_at_enclosing_scope() {
    let tree = vec![
        SyntaxNode::ModuleDeclaration("outer".to_string()),
        SyntaxNode::ModuleDeclaration("inner".to_string()),
        SyntaxNode::EndModule,
        SyntaxNode::EndModule,
    ];
    let g = build("n.sv", tree).unwrap();
    assert_eq!(g.node_count(), 6);
    assert!(matches!(g.nodes[2], (NId(3), Node::Module(Module { id: NId(3), ctx: NId(2), .. }))));
    assert!(matches!(g.nodes[3], (_, Node::End(End { target: NId(3), .. }))));
    assert!(matches!(g.nodes[4], (_, Node::End(End { target: NId(2), .. }))));
    assert!(matches!(g.nodes[5], (_, Node::End(End { target: NId(1), .. }))));
    assert_eq!(edge_count(&g), 5);
}

#[test]
fn identifiers_are_distinct_and_scopes_closed() {
    let tree = vec![
        SyntaxNode::ModuleDeclaration("a".to_string()),
        SyntaxNode::Other,
        SyntaxNode::EndModule,
        SyntaxNode::ModuleDeclaration("b".to_string()),
        SyntaxNode::EndModule,
    ];
    let g = build("x.sv", tree).unwrap();
    let ids: Vec<usize> = g.nodes.iter().map(|(k, n)| {
        assert_eq!(k.0, n.id().0);
        k.0
    }).collect();
    let mut sorted = ids.clone();
    sorted.sort();
    sorted.dedup();
    assert_eq!(sorted.len(), ids.len());
    let openers = g.nodes.iter().filter(|(_, n)| !matches!(n, Node::End(_))).count();
    let ends: Vec<usize> = g.nodes.iter().filter_map(|(_, n)| match n {
        Node::End(e) => Some(e.target.0),
        _ => None,
    }).collect();
    assert_eq!(openers, ends.len());
    for t in ends {
        assert!(g.node(NId(t)).is_some());
    }
}

#[test]
fn stray_end_is_rejected() {
    let r = build("s.sv", vec![SyntaxNode::EndModule]);
    assert_eq!(r.err(), Some(CFGErrorKind::NoOpenContext));
}

#[test]
fn module_after_file_scope_closed_is_rejected() {
    let tree = vec![SyntaxNode::EndModule, SyntaxNode::ModuleDeclaration("m".to_string())];
    assert_eq!(build("s.sv", tree).err(), Some(CFGErrorKind::NoOpenContext));
}

#[test]
fn unclosed_module_is_rejected() {
    let tree = vec![SyntaxNode::ModuleDeclaration("m".to_string()), SyntaxNode::WhiteSpace];
    assert_eq!(build("u.sv", tree).err(), Some(CFGErrorKind::UnclosedContext));
}

#[test]
fn run_leaves_no_open_scope() {
    let mut p = Processor::create();
    let ast = Ast::new("r.sv".to_string(), vec![SyntaxNode::ModuleDeclaration("m".to_string()), SyntaxNode::EndModule]);
    assert!(p.run(&ast).is_ok());
    assert_eq!(p.ctx.empty().unwrap(), true);
    assert_eq!(p.last(), NId(4));
    assert_eq!(p.prev(), NId(3));
}
