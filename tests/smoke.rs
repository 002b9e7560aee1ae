use std::collections::HashMap;
use std::path::PathBuf;
use sv_miner::processor::{Ast, Processor, SyntaxNode};

const FRONTEND: &str = "module frontend(input logic clk, output logic ready);\n  assign ready = clk;\nendmodule\n";

fn parse_frontend() -> sv_parser::SyntaxTree {
    let includes: Vec<PathBuf> = vec![];
    let (tree, _defines) = sv_parser::parse_sv_str(
        FRONTEND,
        PathBuf::from("examples/smoke/frontend.sv"),
        &HashMap::new(),
        &includes,
        false,
        false,
    )
    .unwrap();
    tree
}

#[test]
fn builder_smoke() {
    let tree = parse_frontend();
    println!("{:?}", tree);
}

#[test]
fn processor_smoke() {
    let tree = parse_frontend();
    println!("{:?}", tree);
    let ast = Ast::new(
        "examples/smoke/frontend.sv".to_string(),
        vec![SyntaxNode::SourceText, SyntaxNode::ModuleDeclaration("frontend".to_string()), SyntaxNode::EndModule],
    );
    let g = Processor::create().process(ast).unwrap();
    assert_eq!(g.node_count(), 4);
}
