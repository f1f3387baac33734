//! Control flow graphs.
pub mod path_condition;

use vstd::prelude::*;

use crate::ir::control_flow::path_condition::{PathCondition, Predicate, Value};
use crate::jvm::code::pc::{group_pc_facts, pc_of, ProgramCounter};
use crate::jvm::references::ClassRef;

verus! {

broadcast use group_pc_facts;

/// The kind of a control transfer along an edge of a control flow graph.
#[derive(Debug)]
pub enum ControlTransfer {
    /// An unconditional control transfer.
    Unconditional,
    /// A transfer taken when the path condition holds.
    Conditional(PathCondition<Predicate<Value>>),
    /// A transfer to an exception handler, for the exceptions of the classes.
    Exception(Vec<ClassRef>),
    /// A return from a subroutine.
    SubroutineReturn,
}

/// A node of a control flow graph, with its location as its weight.
#[derive(Debug, Clone, Copy, PartialEq, Eq, Structural)]
pub struct CFGNode(pub ProgramCounter, pub ProgramCounter);

impl CFGNode {
    /// The location of the node.
    pub fn id(&self) -> (r: ProgramCounter)
        ensures
            r == self.0,
    {
        self.0
    }

    /// The weight of the node.
    pub fn weight(&self) -> (r: &ProgramCounter)
        ensures
            *r == self.1,
    {
        &self.1
    }
}

/// A control flow graph.
///
/// It is generic over the data associated with each node and edge. The nodes are kept in
/// increasing order of their program counters, and the edges in increasing order of their
/// source and then their destination.
#[derive(Debug)]
pub struct ControlFlowGraph<N, E> {
    nodes: Vec<(ProgramCounter, N)>,
    edges: Vec<(ProgramCounter, ProgramCounter, E)>,
}

/// The order of edges: by source, then by destination.
pub open spec fn edge_key(src: ProgramCounter, dst: ProgramCounter) -> int {
    src@ * 0x1_0000 + dst@
}

/// The nodes are in strictly increasing order of their program counters.
pub open spec fn nodes_sorted<N>(nodes: Seq<(ProgramCounter, N)>) -> bool {
    forall|i: int, j: int| 0 <= i < j < nodes.len() ==> (#[trigger] nodes[i]).0@ < (#[trigger] nodes[j]).0@
}

/// The edges are in strictly increasing order of their sources and destinations.
pub open spec fn edges_sorted<E>(edges: Seq<(ProgramCounter, ProgramCounter, E)>) -> bool {
    forall|i: int, j: int|
        0 <= i < j < edges.len() ==> edge_key((#[trigger] edges[i]).0, edges[i].1) < edge_key(
            (#[trigger] edges[j]).0,
            edges[j].1,
        )
}

/// Whether `pc` is the location of one of the nodes.
pub open spec fn has_node_in<N>(nodes: Seq<(ProgramCounter, N)>, pc: ProgramCounter) -> bool {
    exists|i: int| 0 <= i < nodes.len() && (#[trigger] nodes[i]).0 == pc
}

/// Whether there is an edge from `src` to `dst`.
pub open spec fn has_edge_in<E>(
    edges: Seq<(ProgramCounter, ProgramCounter, E)>,
    src: ProgramCounter,
    dst: ProgramCounter,
) -> bool {
    exists|i: int| 0 <= i < edges.len() && (#[trigger] edges[i]).0 == src && edges[i].1 == dst
}

/// Whether some edge leaves `src`.
pub open spec fn has_edge_from<E>(edges: Seq<(ProgramCounter, ProgramCounter, E)>, src: ProgramCounter) -> bool {
    exists|i: int| 0 <= i < edges.len() && (#[trigger] edges[i]).0 == src
}

/// The edges that leave `src`, in their order.
pub open spec fn edges_leaving<E>(
    edges: Seq<(ProgramCounter, ProgramCounter, E)>,
    src: ProgramCounter,
) -> Seq<(ProgramCounter, ProgramCounter, E)> {
    edges.filter(|e: (ProgramCounter, ProgramCounter, E)| e.0 == src)
}

impl<N, E> ControlFlowGraph<N, E> {
    #[verifier::type_invariant]
    spec fn well_formed(self) -> bool {
        &&& nodes_sorted(self.nodes@)
        &&& edges_sorted(self.edges@)
        &&& forall|i: int|
            0 <= i < self.edges@.len() ==> has_node_in(self.nodes@, (#[trigger] self.edges@[i]).0)
                && has_node_in(self.nodes@, self.edges@[i].1)
    }

    /// The nodes of the graph with their data, in increasing order of their locations.
    pub closed spec fn node_seq(self) -> Seq<(ProgramCounter, N)> {
        self.nodes@
    }

    /// The edges of the graph with their data, in increasing order of their sources and
    /// destinations.
    pub closed spec fn edge_seq(self) -> Seq<(ProgramCounter, ProgramCounter, E)> {
        self.edges@
    }

    /// Whether the graph has a node at `pc`.
    pub open spec fn has_node(self, pc: ProgramCounter) -> bool {
        has_node_in(self.node_seq(), pc)
    }

    /// Whether the graph has an edge from `src` to `dst`.
    pub open spec fn has_edge(self, src: ProgramCounter, dst: ProgramCounter) -> bool {
        has_edge_in(self.edge_seq(), src, dst)
    }

    /// Returns the entry point of the control flow graph.
    pub fn entry_point(&self) -> (r: ProgramCounter)
        ensures
            r@ == 0,
    {
        ProgramCounter::zero()
    }

    /// Returns the nodes with their data, in increasing order of their locations.
    pub fn nodes(&self) -> (r: Vec<(ProgramCounter, &N)>)
        ensures
            nodes_sorted(self.node_seq()),
            forall|i: int, j: int| 0 <= i < j < r@.len() ==> (#[trigger] r@[i]).0@ < (#[trigger] r@[j]).0@,
            r@.len() == self.node_seq().len(),
            forall|i: int|
                0 <= i < r@.len() ==> (#[trigger] r@[i]).0 == self.node_seq()[i].0 && *r@[i].1
                    == self.node_seq()[i].1,
    {
        proof {
            use_type_invariant(self);
        }
        let mut r: Vec<(ProgramCounter, &N)> = Vec::new();
        let mut i: usize = 0;
        while i < self.nodes.len()
            invariant
                i <= self.nodes@.len(),
                r@.len() == i,
                forall|j: int|
                    0 <= j < i ==> (#[trigger] r@[j]).0 == self.nodes@[j].0 && *r@[j].1
                        == self.nodes@[j].1,
            decreases self.nodes@.len() - i,
        {
            let node = &self.nodes[i];
            r.push((node.0, &node.1));
            i = i + 1;
        }
        r
    }

    /// Returns the edges with their data, in increasing order of their sources and
    /// destinations.
    pub fn edges(&self) -> (r: Vec<(ProgramCounter, ProgramCounter, &E)>)
        ensures
            edges_sorted(self.edge_seq()),
            forall|i: int| 0 <= i < self.edge_seq().len() ==> self.has_node((#[trigger] self.edge_seq()[i]).0)
                && self.has_node(self.edge_seq()[i].1),
            r@.len() == self.edge_seq().len(),
            forall|i: int|
                0 <= i < r@.len() ==> (#[trigger] r@[i]).0 == self.edge_seq()[i].0 && r@[i].1
                    == self.edge_seq()[i].1 && *r@[i].2 == self.edge_seq()[i].2,
    {
        proof {
            use_type_invariant(self);
        }
        let mut r: Vec<(ProgramCounter, ProgramCounter, &E)> = Vec::new();
        let mut i: usize = 0;
        while i < self.edges.len()
            invariant
                i <= self.edges@.len(),
                r@.len() == i,
                forall|j: int|
                    0 <= j < i ==> (#[trigger] r@[j]).0 == self.edges@[j].0 && r@[j].1
                        == self.edges@[j].1 && *r@[j].2 == self.edges@[j].2,
            decreases self.edges@.len() - i,
        {
            let edge = &self.edges[i];
            r.push((edge.0, edge.1, &edge.2));
            i = i + 1;
        }
        r
    }

    /// Checks whether some edge leaves `src`.
    fn has_outgoing_edge(&self, src: ProgramCounter) -> (r: bool)
        ensures
            r == has_edge_from(self.edges@, src),
    {
        let mut i: usize = 0;
        while i < self.edges.len()
            invariant
                i <= self.edges@.len(),
                forall|j: int| 0 <= j < i ==> (#[trigger] self.edges@[j]).0 != src,
            decreases self.edges@.len() - i,
        {
            if self.edges[i].0 == src {
                return true;
            }
            i = i + 1;
        }
        false
    }

    /// Returns the exits of the control flow graph, i.e., the nodes that no edge leaves, in
    /// increasing order.
    pub fn exits(&self) -> (r: Vec<ProgramCounter>)
        ensures
            forall|pc: ProgramCounter|
                #![trigger r@.contains(pc)]
                r@.contains(pc) <==> self.has_node(pc) && !has_edge_from(self.edge_seq(), pc),
            forall|i: int, j: int| 0 <= i < j < r@.len() ==> (#[trigger] r@[i])@ < (#[trigger] r@[j])@,
    {
        proof {
            use_type_invariant(self);
        }
        let mut r: Vec<ProgramCounter> = Vec::new();
        let mut i: usize = 0;
        while i < self.nodes.len()
            invariant
                i <= self.nodes@.len(),
                nodes_sorted(self.nodes@),
                forall|pc: ProgramCounter|
                    #![trigger r@.contains(pc)]
                    r@.contains(pc) <==> (exists|j: int|
                        0 <= j < i && (#[trigger] self.nodes@[j]).0 == pc) && !has_edge_from(
                        self.edges@,
                        pc,
                    ),
                forall|a: int, b: int| 0 <= a < b < r@.len() ==> (#[trigger] r@[a])@ < (#[trigger] r@[b])@,
                forall|a: int| 0 <= a < r@.len() ==> exists|j: int| 0 <= j < i && (#[trigger] r@[a]) == self.nodes@[j].0,
            decreases self.nodes@.len() - i,
        {
            let pc = self.nodes[i].0;
            let ghost old_r = r@;
            if !self.has_outgoing_edge(pc) {
                r.push(pc);
                proof {
                    assert forall|a: int, b: int| 0 <= a < b < r@.len() implies (#[trigger] r@[a])@ < (#[trigger] r@[b])@ by {
                        if b == r@.len() - 1 {
                            let j = choose|j: int| 0 <= j < i && old_r[a] == self.nodes@[j].0;
                            assert(r@[a] == old_r[a]);
                        }
                    }
                    assert forall|pc2: ProgramCounter| #![trigger r@.contains(pc2)]
                        r@.contains(pc2) <==> (exists|j: int|
                        0 <= j < i + 1 && (#[trigger] self.nodes@[j]).0 == pc2) && !has_edge_from(
                        self.edges@, pc2) by {
                        assert(old_r.contains(pc2) <==> (exists|j: int|
                            0 <= j < i && (#[trigger] self.nodes@[j]).0 == pc2) && !has_edge_from(
                            self.edges@, pc2));
                        if old_r.contains(pc2) {
                            let a = choose|a: int| 0 <= a < old_r.len() && old_r[a] == pc2;
                            assert(r@[a] == pc2);
                        }
                        if r@.contains(pc2) && pc2 != pc {
                            let a = choose|a: int| 0 <= a < r@.len() && r@[a] == pc2;
                            assert(old_r[a] == pc2);
                            assert(old_r.contains(pc2));
                        }
                        if pc2 != pc && (exists|j: int| 0 <= j < i + 1 && (#[trigger] self.nodes@[j]).0 == pc2) {
                            let j = choose|j: int| 0 <= j < i + 1 && (#[trigger] self.nodes@[j]).0 == pc2;
                            assert(j < i);
                        }
                        if pc2 == pc {
                            assert(r@[r@.len() - 1] == pc);
                        }
                    }
                }
            } else {
                proof {
                    assert forall|pc2: ProgramCounter| #![trigger r@.contains(pc2)]
                        r@.contains(pc2) <==> (exists|j: int|
                        0 <= j < i + 1 && (#[trigger] self.nodes@[j]).0 == pc2) && !has_edge_from(
                        self.edges@, pc2) by {
                        assert(r@.contains(pc2) <==> (exists|j: int|
                            0 <= j < i && (#[trigger] self.nodes@[j]).0 == pc2) && !has_edge_from(
                            self.edges@, pc2));
                        if pc2 != pc && (exists|j: int| 0 <= j < i + 1 && (#[trigger] self.nodes@[j]).0 == pc2) {
                            let j = choose|j: int| 0 <= j < i + 1 && (#[trigger] self.nodes@[j]).0 == pc2;
                            assert(j < i);
                        }
                        if pc2 == pc && r@.contains(pc2) {
                            let a = choose|a: int| 0 <= a < r@.len() && r@[a] == pc2;
                            let j = choose|j: int| 0 <= j < i && (#[trigger] r@[a]) == self.nodes@[j].0;
                            assert(self.nodes@[j].0@ < self.nodes@[i as int].0@);
                        }
                    }
                }
            }
            i = i + 1;
        }
        r
    }

    /// Returns the edges leaving `src`, in increasing order of their destinations, or `None`
    /// when `src` is not a node of the graph.
    pub fn edges_from(&self, src: ProgramCounter) -> (r: Option<Vec<(ProgramCounter, ProgramCounter, &E)>>)
        ensures
            r is None <==> !self.has_node(src),
            r matches Some(v) ==> v@.len() == edges_leaving(self.edge_seq(), src).len() && forall|
                i: int,
            |
                0 <= i < v@.len() ==> (#[trigger] v@[i]).0 == edges_leaving(self.edge_seq(), src)[i].0
                    && v@[i].1 == edges_leaving(self.edge_seq(), src)[i].1 && *v@[i].2
                    == edges_leaving(self.edge_seq(), src)[i].2,
            r matches Some(v) ==> forall|i: int| 0 <= i < v@.len() ==> (#[trigger] v@[i]).0 == src,
            r matches Some(v) ==> forall|i: int, j: int| 0 <= i < j < v@.len() ==> (#[trigger] v@[i]).1@ < (#[trigger] v@[j]).1@,
    {
        proof {
            use_type_invariant(self);
        }
        let mut found = false;
        let mut k: usize = 0;
        while k < self.nodes.len()
            invariant
                k <= self.nodes@.len(),
                found <==> exists|j: int| 0 <= j < k && (#[trigger] self.nodes@[j]).0 == src,
            decreases self.nodes@.len() - k,
        {
            if self.nodes[k].0 == src {
                found = true;
            }
            k = k + 1;
        }
        if !found {
            return None;
        }
        let mut r: Vec<(ProgramCounter, ProgramCounter, &E)> = Vec::new();
        let mut i: usize = 0;
        while i < self.edges.len()
            invariant
                i <= self.edges@.len(),
                r@.len() == edges_leaving(self.edges@.subrange(0, i as int), src).len(),
                forall|j: int|
                    0 <= j < r@.len() ==> (#[trigger] r@[j]).0 == edges_leaving(
                        self.edges@.subrange(0, i as int),
                        src,
                    )[j].0 && r@[j].1 == edges_leaving(self.edges@.subrange(0, i as int), src)[j].1
                        && *r@[j].2 == edges_leaving(self.edges@.subrange(0, i as int), src)[j].2,
            edges_sorted(self.edges@),
            forall|j: int| 0 <= j < r@.len() ==> (#[trigger] r@[j]).0 == src,
            forall|a: int, b: int| 0 <= a < b < r@.len() ==> (#[trigger] r@[a]).1@ < (#[trigger] r@[b]).1@,
            forall|j: int, m: int|
                0 <= j < r@.len() && i <= m < self.edges@.len() ==> edge_key((#[trigger] r@[j]).0, r@[j].1) < edge_key(
                    (#[trigger] self.edges@[m]).0,
                    self.edges@[m].1,
                ),
            decreases self.edges@.len() - i,
        {
            let edge = &self.edges[i];
            proof {
                let pre = self.edges@.subrange(0, i as int);
                assert(self.edges@.subrange(0, i + 1) =~= pre.push(self.edges@[i as int]));
                reveal(Seq::filter);
                assert(pre.push(self.edges@[i as int]).drop_last() =~= pre);
            }
            if edge.0 == src {
                r.push((edge.0, edge.1, &edge.2));
            }
            i = i + 1;
        }
        assert(self.edges@.subrange(0, self.edges@.len() as int) =~= self.edges@);
        Some(r)
    }
}

/// The numeric key by which edges are ordered.
fn edge_key_of(src: ProgramCounter, dst: ProgramCounter) -> (k: u32)
    ensures
        k == edge_key(src, dst),
{
    let s: u32 = src.into() as u32;
    let d: u32 = dst.into() as u32;
    s * 0x1_0000 + d
}

/// Two edges with the same key have the same source and destination.
proof fn lemma_edge_key_injective(a: ProgramCounter, b: ProgramCounter, c: ProgramCounter, d: ProgramCounter)
    requires
        edge_key(a, b) == edge_key(c, d),
    ensures
        a == c,
        b == d,
{
    assert(a@ == c@);
    assert(b@ == d@);
}

/// Adds `pc` to the sorted list of nodes, unless it is already there.
fn insert_node(nodes: &mut Vec<(ProgramCounter, ())>, pc: ProgramCounter)
    requires
        nodes_sorted(old(nodes)@),
    ensures
        nodes_sorted(final(nodes)@),
        forall|q: ProgramCounter|
            #[trigger] has_node_in(final(nodes)@, q) <==> (has_node_in(old(nodes)@, q) || q == pc),
{
    let ghost before = nodes@;
    let target: u16 = pc.into();
    let mut i: usize = 0;
    while i < nodes.len() && nodes[i].0.into() < target
        invariant
            nodes@ == before,
            nodes_sorted(before),
            target == pc@,
            i <= nodes@.len(),
            forall|j: int| 0 <= j < i ==> (#[trigger] nodes@[j]).0@ < pc@,
        decreases nodes@.len() - i,
    {
        i = i + 1;
    }
    if i < nodes.len() && nodes[i].0.into() == target {
        assert(has_node_in(nodes@, pc));
        return;
    }
    nodes.insert(i, (pc, ()));
    proof {
        assert forall|a: int, b: int| 0 <= a < b < nodes@.len() implies (#[trigger] nodes@[a]).0@
            < (#[trigger] nodes@[b]).0@ by {
            if a < i && b > i {
                assert(nodes@[a] == before[a]);
                assert(nodes@[b] == before[b - 1]);
                if b - 1 > i {
                    assert(before[i as int].0@ < before[b - 1].0@);
                }
            } else if a < i && b == i {
            } else if a == i && b > i {
                assert(nodes@[b] == before[b - 1]);
                if b - 1 > i {
                    assert(before[i as int].0@ < before[b - 1].0@);
                }
            } else if a < i && b < i {
                assert(nodes@[a] == before[a]);
                assert(nodes@[b] == before[b]);
            } else {
                assert(nodes@[a] == before[a - 1]);
                assert(nodes@[b] == before[b - 1]);
            }
        }
        assert forall|q: ProgramCounter|
            #[trigger] has_node_in(nodes@, q) <==> (has_node_in(before, q) || q == pc) by {
            if has_node_in(nodes@, q) {
                let k = choose|k: int| 0 <= k < nodes@.len() && (#[trigger] nodes@[k]).0 == q;
                if k < i {
                    assert(before[k] == nodes@[k]);
                } else if k > i {
                    assert(before[k - 1] == nodes@[k]);
                }
            }
            if has_node_in(before, q) {
                let k = choose|k: int| 0 <= k < before.len() && (#[trigger] before[k]).0 == q;
                if k < i {
                    assert(nodes@[k] == before[k]);
                } else {
                    assert(nodes@[k + 1] == before[k]);
                }
            }
            if q == pc {
                assert(nodes@[i as int].0 == pc);
            }
        }
    }
}

/// Adds an edge to the sorted list of edges, which holds no edge with the same ends.
fn insert_edge<E>(edges: &mut Vec<(ProgramCounter, ProgramCounter, E)>, edge: (ProgramCounter, ProgramCounter, E))
    requires
        edges_sorted(old(edges)@),
        !has_edge_in(old(edges)@, edge.0, edge.1),
    ensures
        edges_sorted(final(edges)@),
        final(edges)@.len() == old(edges)@.len() + 1,
        forall|x: (ProgramCounter, ProgramCounter, E)|
            #[trigger] final(edges)@.contains(x) <==> (old(edges)@.contains(x) || x == edge),
{
    let ghost before = edges@;
    let key = edge_key_of(edge.0, edge.1);
    let mut i: usize = 0;
    while i < edges.len() && edge_key_of(edges[i].0, edges[i].1) < key
        invariant
            edges@ == before,
            edges_sorted(before),
            i <= edges@.len(),
            key == edge_key(edge.0, edge.1),
            forall|j: int| 0 <= j < i ==> edge_key((#[trigger] edges@[j]).0, edges@[j].1) < key,
        decreases edges@.len() - i,
    {
        i = i + 1;
    }
    if i < edges.len() && edge_key_of(edges[i].0, edges[i].1) == key {
        proof {
            lemma_edge_key_injective(edges@[i as int].0, edges@[i as int].1, edge.0, edge.1);
            assert(has_edge_in(before, edge.0, edge.1));
        }
    }
    let ghost e = edge;
    edges.insert(i, edge);
    proof {
        assert forall|a: int, b: int| 0 <= a < b < edges@.len() implies edge_key(
            (#[trigger] edges@[a]).0,
            edges@[a].1,
        ) < edge_key((#[trigger] edges@[b]).0, edges@[b].1) by {
            if a < i && b > i {
                assert(edges@[a] == before[a]);
                assert(edges@[b] == before[b - 1]);
            } else if a < i && b == i {
                assert(edges@[a] == before[a]);
            } else if a == i && b > i {
                assert(edges@[b] == before[b - 1]);
                if b - 1 > i {
                    assert(edge_key(before[i as int].0, before[i as int].1) < edge_key(before[b - 1].0, before[b - 1].1));
                }
                if edge_key(before[b - 1].0, before[b - 1].1) == key {
                    lemma_edge_key_injective(before[b - 1].0, before[b - 1].1, e.0, e.1);
                    assert(has_edge_in(before, e.0, e.1));
                }
            } else if a < i && b < i {
                assert(edges@[a] == before[a]);
                assert(edges@[b] == before[b]);
            } else {
                assert(edges@[a] == before[a - 1]);
                assert(edges@[b] == before[b - 1]);
            }
        }
        assert forall|x: (ProgramCounter, ProgramCounter, E)|
            #[trigger] edges@.contains(x) <==> (before.contains(x) || x == e) by {
            if edges@.contains(x) {
                let k = choose|k: int| 0 <= k < edges@.len() && edges@[k] == x;
                if k < i {
                    assert(before[k] == edges@[k]);
                } else if k > i {
                    assert(before[k - 1] == edges@[k]);
                }
            }
            if before.contains(x) {
                let k = choose|k: int| 0 <= k < before.len() && before[k] == x;
                if k < i {
                    assert(edges@[k] == before[k]);
                } else {
                    assert(edges@[k + 1] == before[k]);
                }
            }
            if x == e {
                assert(edges@[i as int] == e);
            }
        }
    }
}

impl<E> ControlFlowGraph<(), E> {
    /// Constructs a new control flow graph from a set of edges.
    ///
    /// The graph has a node at the entry point and at both ends of every edge; no two of the
    /// given edges may share both their source and their destination.
    pub fn from_edges(edges: Vec<(ProgramCounter, ProgramCounter, E)>) -> (r: Self)
        requires
            forall|i: int, j: int|
                0 <= i < j < edges@.len() ==> !((#[trigger] edges@[i]).0 == (#[trigger] edges@[j]).0
                    && edges@[i].1 == edges@[j].1),
        ensures
            forall|q: ProgramCounter|
                #[trigger] r.has_node(q) <==> (q@ == 0 || exists|i: int|
                    0 <= i < edges@.len() && ((#[trigger] edges@[i]).0 == q || edges@[i].1 == q)),
            r.edge_seq().len() == edges@.len(),
            forall|x: (ProgramCounter, ProgramCounter, E)|
                #[trigger] r.edge_seq().contains(x) <==> edges@.contains(x),
    {
        let ghost input = edges@;
        let mut rest = edges;
        let mut nodes: Vec<(ProgramCounter, ())> = Vec::new();
        nodes.push((ProgramCounter::zero(), ()));
        let mut out: Vec<(ProgramCounter, ProgramCounter, E)> = Vec::new();
        let ghost mut k: int = 0;
        proof {
            assert(input.subrange(0, input.len() as int) =~= input);
            assert forall|q: ProgramCounter| #[trigger] has_node_in(nodes@, q) <==> (q@ == 0 || exists|i: int|
                    0 <= i < k && ((#[trigger] input[i]).0 == q || input[i].1 == q)) by {
                if q@ == 0 {
                    assert(nodes@[0].0 == q);
                }
            }
        }
        while rest.len() > 0
            invariant
                0 <= k <= input.len(),
                rest@ == input.subrange(k, input.len() as int),
                forall|i: int, j: int|
                    0 <= i < j < input.len() ==> !((#[trigger] input[i]).0 == (#[trigger] input[j]).0
                        && input[i].1 == input[j].1),
                nodes_sorted(nodes@),
                edges_sorted(out@),
                out@.len() == k,
                forall|x: (ProgramCounter, ProgramCounter, E)|
                    #[trigger] out@.contains(x) <==> input.subrange(0, k).contains(x),
                forall|q: ProgramCounter|
                    #[trigger] has_node_in(nodes@, q) <==> (q@ == 0 || exists|i: int|
                        0 <= i < k && ((#[trigger] input[i]).0 == q || input[i].1 == q)),
                forall|x: (ProgramCounter, ProgramCounter, E)|
                    #[trigger] out@.contains(x) ==> has_node_in(nodes@, x.0) && has_node_in(nodes@, x.1),
            decreases rest@.len(),
        {
            let edge = rest.remove(0);
            let ghost e = edge;
            assert(e == input[k]);
            proof {
                if has_edge_in(out@, e.0, e.1) {
                    let j = choose|j: int| 0 <= j < out@.len() && (#[trigger] out@[j]).0 == e.0 && out@[j].1 == e.1;
                    assert(out@.contains(out@[j]));
                    let m = choose|m: int| 0 <= m < k && input.subrange(0, k)[m] == out@[j];
                    assert(input[m] == out@[j]);
                }
            }
            let ghost nodes_before = nodes@;
            let ghost out_before = out@;
            insert_node(&mut nodes, edge.0);
            insert_node(&mut nodes, edge.1);
            insert_edge(&mut out, edge);
            proof {
                let pre = input.subrange(0, k);
                assert(input.subrange(0, k + 1) =~= pre.push(e));
                assert forall|x: (ProgramCounter, ProgramCounter, E)|
                    #[trigger] out@.contains(x) <==> pre.push(e).contains(x) by {
                    assert(out_before.contains(x) <==> pre.contains(x));
                    if pre.push(e).contains(x) {
                        let m = choose|m: int| 0 <= m < pre.len() + 1 && pre.push(e)[m] == x;
                        if m < pre.len() {
                            assert(pre[m] == x);
                        }
                    }
                    if pre.contains(x) {
                        let m = choose|m: int| 0 <= m < pre.len() && pre[m] == x;
                        assert(pre.push(e)[m] == x);
                    }
                    if x == e {
                        assert(pre.push(e)[pre.len() as int] == e);
                    }
                }
                k = k + 1;
                assert(rest@ =~= input.subrange(k, input.len() as int));
                assert forall|q: ProgramCounter| #[trigger] has_node_in(nodes@, q) <==> (q@ == 0 || exists|i: int|
                        0 <= i < k && ((#[trigger] input[i]).0 == q || input[i].1 == q)) by {
                    if exists|i: int| 0 <= i < k && ((#[trigger] input[i]).0 == q || input[i].1 == q) {
                        let i = choose|i: int| 0 <= i < k && ((#[trigger] input[i]).0 == q || input[i].1 == q);
                        if i < k - 1 {
                            assert(has_node_in(nodes_before, q));
                        }
                    }
                    if has_node_in(nodes_before, q) && q@ != 0 {
                        let i = choose|i: int| 0 <= i < k - 1 && ((#[trigger] input[i]).0 == q || input[i].1 == q);
                        assert(0 <= i < k && ((input[i]).0 == q || input[i].1 == q));
                    }
                    if q == e.0 || q == e.1 {
                        assert(input[k - 1] == e);
                    }
                }
                assert forall|x: (ProgramCounter, ProgramCounter, E)|
                    #[trigger] out@.contains(x) ==> has_node_in(nodes@, x.0) && has_node_in(nodes@, x.1) by {
                    if out@.contains(x) && x != e {
                        assert(out_before.contains(x));
                    }
                }
            }
        }
        proof {
            assert(input.subrange(0, k) =~= input);
            assert forall|i: int| 0 <= i < out@.len() implies has_node_in(nodes@, (#[trigger] out@[i]).0)
                && has_node_in(nodes@, out@[i].1) by {
                assert(out@.contains(out@[i]));
            }
        }
        ControlFlowGraph { nodes, edges: out }
    }
}

impl<N, E> ControlFlowGraph<N, E> {
    /// Transforms the node and edge data to construct a new control flow graph with the same
    /// nodes and edges.
    pub fn map<N1, E1, NMap, EMap>(self, nf: NMap, ef: EMap) -> (r: ControlFlowGraph<N1, E1>) where
        NMap: Fn(ProgramCounter, N) -> N1,
        EMap: Fn((ProgramCounter, ProgramCounter), E) -> E1,

        requires
            forall|i: int|
                0 <= i < self.node_seq().len() ==> call_requires(
                    nf,
                    ((#[trigger] self.node_seq()[i]).0, self.node_seq()[i].1),
                ),
            forall|i: int|
                0 <= i < self.edge_seq().len() ==> call_requires(
                    ef,
                    (((#[trigger] self.edge_seq()[i]).0, self.edge_seq()[i].1), self.edge_seq()[i].2),
                ),
        ensures
            r.node_seq().len() == self.node_seq().len(),
            forall|i: int|
                0 <= i < r.node_seq().len() ==> (#[trigger] r.node_seq()[i]).0 == self.node_seq()[i].0
                    && call_ensures(nf, (self.node_seq()[i].0, self.node_seq()[i].1), r.node_seq()[i].1),
            r.edge_seq().len() == self.edge_seq().len(),
            forall|i: int|
                0 <= i < r.edge_seq().len() ==> (#[trigger] r.edge_seq()[i]).0 == self.edge_seq()[i].0
                    && r.edge_seq()[i].1 == self.edge_seq()[i].1 && call_ensures(
                    ef,
                    ((self.edge_seq()[i].0, self.edge_seq()[i].1), self.edge_seq()[i].2),
                    r.edge_seq()[i].2,
                ),
    {
        let ghost old_nodes = self.nodes@;
        let ghost old_edges = self.edges@;
        proof {
            use_type_invariant(&self);
            assert forall|i: int| 0 <= i < old_nodes.len() implies call_requires(
                nf,
                ((#[trigger] old_nodes[i]).0, old_nodes[i].1),
            ) by {
                assert(self.node_seq()[i] == old_nodes[i]);
            }
            assert forall|i: int| 0 <= i < old_edges.len() implies call_requires(
                ef,
                (((#[trigger] old_edges[i]).0, old_edges[i].1), old_edges[i].2),
            ) by {
                assert(self.edge_seq()[i] == old_edges[i]);
            }
        }
        let ControlFlowGraph { nodes, edges } = self;
        let mut nodes = nodes;
        let mut edges = edges;
        let mut new_nodes: Vec<(ProgramCounter, N1)> = Vec::new();
        while nodes.len() > 0
            invariant
                new_nodes@.len() + nodes@.len() == old_nodes.len(),
                nodes@ == old_nodes.subrange(new_nodes@.len() as int, old_nodes.len() as int),
                forall|i: int|
                    0 <= i < old_nodes.len() ==> call_requires(
                        nf,
                        ((#[trigger] old_nodes[i]).0, old_nodes[i].1),
                    ),
                forall|i: int|
                    0 <= i < new_nodes@.len() ==> (#[trigger] new_nodes@[i]).0 == old_nodes[i].0
                        && call_ensures(nf, (old_nodes[i].0, old_nodes[i].1), new_nodes@[i].1),
            decreases nodes@.len(),
        {
            let (pc, data) = nodes.remove(0);
            assert(old_nodes[new_nodes@.len() as int] == (pc, data));
            let mapped = nf(pc, data);
            new_nodes.push((pc, mapped));
        }
        let mut new_edges: Vec<(ProgramCounter, ProgramCounter, E1)> = Vec::new();
        while edges.len() > 0
            invariant
                new_edges@.len() + edges@.len() == old_edges.len(),
                edges@ == old_edges.subrange(new_edges@.len() as int, old_edges.len() as int),
                forall|i: int|
                    0 <= i < old_edges.len() ==> call_requires(
                        ef,
                        (((#[trigger] old_edges[i]).0, old_edges[i].1), old_edges[i].2),
                    ),
                forall|i: int|
                    0 <= i < new_edges@.len() ==> (#[trigger] new_edges@[i]).0 == old_edges[i].0
                        && new_edges@[i].1 == old_edges[i].1 && call_ensures(
                        ef,
                        ((old_edges[i].0, old_edges[i].1), old_edges[i].2),
                        new_edges@[i].2,
                    ),
            decreases edges@.len(),
        {
            let (src, dst, data) = edges.remove(0);
            assert(old_edges[new_edges@.len() as int] == (src, dst, data));
            let mapped = ef((src, dst), data);
            new_edges.push((src, dst, mapped));
        }
        proof {
            assert forall|i: int, j: int| 0 <= i < j < new_nodes@.len() implies (#[trigger] new_nodes@[i]).0@
                < (#[trigger] new_nodes@[j]).0@ by {
                assert(old_nodes[i].0@ < old_nodes[j].0@);
            }
            assert forall|i: int, j: int| 0 <= i < j < new_edges@.len() implies edge_key(
                (#[trigger] new_edges@[i]).0,
                new_edges@[i].1,
            ) < edge_key((#[trigger] new_edges@[j]).0, new_edges@[j].1) by {
                assert(edge_key(old_edges[i].0, old_edges[i].1) < edge_key(old_edges[j].0, old_edges[j].1));
            }
            assert forall|i: int| 0 <= i < new_edges@.len() implies has_node_in(
                new_nodes@,
                (#[trigger] new_edges@[i]).0,
            ) && has_node_in(new_nodes@, new_edges@[i].1) by {
                assert(has_node_in(old_nodes, old_edges[i].0));
                assert(has_node_in(old_nodes, old_edges[i].1));
                let a = choose|a: int| 0 <= a < old_nodes.len() && (#[trigger] old_nodes[a]).0 == old_edges[i].0;
                let b = choose|b: int| 0 <= b < old_nodes.len() && (#[trigger] old_nodes[b]).0 == old_edges[i].1;
                assert(new_nodes@[a].0 == old_nodes[a].0);
                assert(new_nodes@[b].0 == old_nodes[b].0);
            }
        }
        ControlFlowGraph { nodes: new_nodes, edges: new_edges }
    }
}

} // verus!
