use std::collections::BTreeSet;

use mokapot::ir::ControlFlowGraph;
use mokapot::jvm::code::ProgramCounter;

#[test]
fn entry_point() {
    let cfg = ControlFlowGraph::<(), ()>::from_edges(vec![]);
    assert_eq!(cfg.entry_point(), ProgramCounter::zero());
}

#[test]
fn empty_graph_has_the_entry_node() {
    let cfg = ControlFlowGraph::<(), ()>::from_edges(vec![]);
    let nodes = cfg.nodes();
    assert_eq!(nodes.len(), 1);
    assert_eq!(nodes[0].0, ProgramCounter::zero());
}

fn build_cfg() -> ControlFlowGraph<(), ()> {
    let edges = vec![
        (0.into(), 1.into(), ()),
        (1.into(), 2.into(), ()),
        (2.into(), 3.into(), ()),
        (3.into(), 4.into(), ()),
    ];
    ControlFlowGraph::from_edges(edges)
}

#[test]
fn iter_nodes() {
    let cfg = build_cfg();
    let nodes = cfg.nodes().into_iter().collect::<BTreeSet<_>>();
    assert_eq!(nodes.len(), 5);
    for i in 0..=4u16 {
        assert!(nodes.contains(&(i.into(), &())));
    }
}

#[test]
fn iter_edges() {
    let cfg = build_cfg();
    let edges = cfg.edges().into_iter().collect::<BTreeSet<_>>();
    assert_eq!(edges.len(), 4);
    for i in 0..=3u16 {
        assert!(edges.contains(&(i.into(), (i + 1).into(), &())));
    }
}

#[test]
fn iter_exits() {
    let cfg = build_cfg();
    let exits = cfg.exits().into_iter().collect::<BTreeSet<_>>();
    assert_eq!(exits.len(), 1);
    assert!(exits.contains(&4.into()));
}

#[test]
fn nodes_include_entry_point_without_edges() {
    let cfg = ControlFlowGraph::<(), ()>::from_edges(vec![]);
    let nodes = cfg.nodes();
    assert_eq!(nodes.len(), 1);
    assert_eq!(nodes[0].0, ProgramCounter::zero());
    assert_eq!(cfg.exits(), vec![ProgramCounter::zero()]);
}

#[test]
fn edges_from_lists_outgoing_edges_in_order() {
    let cfg = ControlFlowGraph::from_edges(vec![
        (0.into(), 7.into(), 'a'),
        (0.into(), 3.into(), 'b'),
        (3.into(), 7.into(), 'c'),
    ]);
    let out = cfg.edges_from(0.into()).unwrap();
    assert_eq!(out, vec![(0.into(), 3.into(), &'b'), (0.into(), 7.into(), &'a')]);
    assert!(cfg.edges_from(5.into()).is_none());
    assert_eq!(cfg.edges_from(7.into()).unwrap(), vec![]);
}

#[test]
fn map_transforms_data_and_keeps_structure() {
    let cfg = ControlFlowGraph::from_edges(vec![(0.into(), 2.into(), 10u32), (2.into(), 5.into(), 20u32)]);
    let mapped = cfg.map(
        |pc: ProgramCounter, _: ()| u16::from(pc) * 2,
        |(src, dst): (ProgramCounter, ProgramCounter), d: u32| (u16::from(src), u16::from(dst), d + 1),
    );
    let nodes: Vec<(ProgramCounter, u16)> = mapped.nodes().into_iter().map(|(p, d)| (p, *d)).collect();
    assert_eq!(nodes, vec![(0.into(), 0), (2.into(), 4), (5.into(), 10)]);
    let edges: Vec<(u16, u16, u32)> = mapped.edges().into_iter().map(|(_, _, d)| *d).collect();
    assert_eq!(edges, vec![(0, 2, 11), (2, 5, 21)]);
}
