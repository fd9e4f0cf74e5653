use vstd::prelude::*;
use petgraph::graph::{EdgeIndex, Graph, NodeIndex};
use petgraph::Directed;
use crate::address::address_label;
use crate::amount::Wei;
use crate::graph_laws::{lemma_one_edge_per_transaction, lemma_one_node_per_party, parties};
use crate::transaction::{records, Record, Transaction};

verus! {

/// The type `petgraph::graph::Graph`, of which nothing is known here but
/// what the functions below say.
#[verifier::external_type_specification]
#[verifier::external_body]
#[verifier::reject_recursive_types(N)]
#[verifier::reject_recursive_types(E)]
#[verifier::reject_recursive_types(Ty)]
#[verifier::reject_recursive_types(Ix)]
pub struct ExGraph<N, E, Ty, Ix>(Graph<N, E, Ty, Ix>);

/// The type `petgraph::Directed`, which marks a graph as directed.
#[verifier::external_type_specification]
#[verifier::external_body]
pub struct ExDirected(Directed);

/// The weights of the nodes of a `petgraph` graph, by node index.
pub uninterp spec fn graph_nodes(g: Graph<String, (String, [u64; 4]), Directed, u32>) -> Seq<Seq<char>>;

/// The edges of a `petgraph` graph, by edge index: for each the index of its
/// source node, the index of its target node, and its weight, which is a text
/// and a number of 256 bits held as four words, least significant first.
pub uninterp spec fn graph_edges(g: Graph<String, (String, [u64; 4]), Directed, u32>) -> Seq<(int, int, Seq<char>, nat)>;

/// Calls `petgraph::graph::Graph::new`, which makes a directed graph without
/// nodes or edges.
#[verifier::external_body]
fn graph_new() -> (g: Graph<String, (String, [u64; 4]), Directed, u32>)
    ensures
        graph_nodes(g) == Seq::<Seq<char>>::empty(),
        graph_edges(g) == Seq::<(int, int, Seq<char>, nat)>::empty(),
{
    Graph::new()
}

/// Calls `petgraph::graph::Graph::node_count`, the number of nodes.
#[verifier::external_body]
fn graph_node_count(g: &Graph<String, (String, [u64; 4]), Directed, u32>) -> (n: usize)
    ensures
        n == graph_nodes(*g).len(),
{
    g.node_count()
}

/// Calls `petgraph::graph::Graph::edge_count`, the number of edges.
#[verifier::external_body]
fn graph_edge_count(g: &Graph<String, (String, [u64; 4]), Directed, u32>) -> (n: usize)
    ensures
        n == graph_edges(*g).len(),
{
    g.edge_count()
}

/// Calls `petgraph::graph::Graph::add_node`, which puts a node with the given
/// weight behind the existing ones and returns its index. The call panics when
/// the graph already holds as many nodes as its index type can number.
#[verifier::external_body]
fn graph_add_node(g: &mut Graph<String, (String, [u64; 4]), Directed, u32>, label: String) -> (i: usize)
    requires
        graph_nodes(*old(g)).len() < u32::MAX,
    ensures
        i == graph_nodes(*old(g)).len(),
        graph_nodes(*final(g)) == graph_nodes(*old(g)).push(label@),
        graph_edges(*final(g)) == graph_edges(*old(g)),
{
    g.add_node(label).index()
}

/// Calls `petgraph::graph::Graph::add_edge`, which puts an edge from node `a`
/// to node `b` behind the existing ones, also where those two nodes are
/// already joined, and returns its index. The call panics when a node does not
/// exist or when the graph already holds as many edges as its index type can
/// number.
#[verifier::external_body]
fn graph_add_edge(
    g: &mut Graph<String, (String, [u64; 4]), Directed, u32>,
    a: usize,
    b: usize,
    label: String,
    value: Wei,
) -> (e: usize)
    requires
        a < graph_nodes(*old(g)).len(),
        b < graph_nodes(*old(g)).len(),
        graph_nodes(*old(g)).len() <= u32::MAX,
        graph_edges(*old(g)).len() < u32::MAX,
    ensures
        e == graph_edges(*old(g)).len(),
        graph_nodes(*final(g)) == graph_nodes(*old(g)),
        graph_edges(*final(g)) == graph_edges(*old(g)).push(
            (a as int, b as int, label@, value@),
        ),
{
    g.add_edge(NodeIndex::new(a), NodeIndex::new(b), (label, value.limbs)).index()
}

/// Calls `petgraph::graph::Graph::node_weight`, the weight of the node with
/// the given index.
#[verifier::external_body]
fn graph_node_weight(g: &Graph<String, (String, [u64; 4]), Directed, u32>, i: usize) -> (r: Option<&String>)
    requires
        i <= u32::MAX,
    ensures
        r.is_some() == (i < graph_nodes(*g).len()),
        r.is_some() ==> r.unwrap()@ == graph_nodes(*g)[i as int],
{
    g.node_weight(NodeIndex::new(i))
}

/// Calls `petgraph::graph::Graph::edge_endpoints`, the indices of the source
/// and the target node of the edge with the given index.
#[verifier::external_body]
fn graph_edge_endpoints(g: &Graph<String, (String, [u64; 4]), Directed, u32>, e: usize) -> (r: Option<(usize, usize)>)
    requires
        e <= u32::MAX,
    ensures
        r.is_some() == (e < graph_edges(*g).len()),
        r.is_some() ==> r.unwrap().0 == graph_edges(*g)[e as int].0 && r.unwrap().1 == graph_edges(
            *g,
        )[e as int].1,
{
    g.edge_endpoints(EdgeIndex::new(e)).map(|(a, b)| (a.index(), b.index()))
}

/// Calls `petgraph::graph::Graph::edge_weight`, the weight of the edge with
/// the given index.
#[verifier::external_body]
fn graph_edge_weight(g: &Graph<String, (String, [u64; 4]), Directed, u32>, e: usize) -> (r: Option<
    (&String, Wei),
>)
    requires
        e <= u32::MAX,
    ensures
        r.is_some() == (e < graph_edges(*g).len()),
        r.is_some() ==> r.unwrap().0@ == graph_edges(*g)[e as int].2 && r.unwrap().1@
            == graph_edges(*g)[e as int].3,
{
    g.edge_weight(EdgeIndex::new(e)).map(|w| (&w.0, Wei { limbs: w.1 }))
}

/// What a transaction graph holds: the labels of its nodes, by node index,
/// and its edges, by edge index, each as the index of its source node, the
/// index of its target node, the hash of its transaction and the amount in wei.
pub struct GraphModel {
    pub nodes: Seq<Seq<char>>,
    pub edges: Seq<(int, int, Seq<char>, nat)>,
}

/// The graph without nodes or edges.
pub open spec fn empty_graph() -> GraphModel {
    GraphModel { nodes: Seq::empty(), edges: Seq::empty() }
}

/// No label stands on two nodes, every edge joins two nodes of the graph, and
/// the nodes and the edges can be numbered by the graph's indices.
pub open spec fn well_formed(m: GraphModel) -> bool {
    &&& m.nodes.no_duplicates()
    &&& m.nodes.len() <= u32::MAX
    &&& m.edges.len() <= u32::MAX
    &&& forall|e: int|
        0 <= e < m.edges.len() ==> 0 <= (#[trigger] m.edges[e]).0 < m.nodes.len() && 0
            <= m.edges[e].1 < m.nodes.len()
}

/// The nodes after `label` was looked up or created: unchanged where a node
/// carries it already, else with a new node for it at the end.
pub open spec fn with_node(nodes: Seq<Seq<char>>, label: Seq<char>) -> Seq<Seq<char>> {
    if nodes.contains(label) {
        nodes
    } else {
        nodes.push(label)
    }
}

/// The nodes after both parties of `tx` were looked up or created, the sender first.
pub open spec fn with_parties(nodes: Seq<Seq<char>>, tx: Record) -> Seq<Seq<char>> {
    with_node(with_node(nodes, address_label(tx.from)), address_label(tx.to))
}

/// The graph after `tx` was added: its parties are nodes, and one new edge
/// runs from the sender's node to the recipient's, labelled with the hash
/// and the amount.
pub open spec fn with_transaction(m: GraphModel, tx: Record) -> GraphModel {
    let nodes = with_parties(m.nodes, tx);
    GraphModel {
        nodes,
        edges: m.edges.push(
            (
                nodes.index_of(address_label(tx.from)),
                nodes.index_of(address_label(tx.to)),
                tx.hash,
                tx.value,
            ),
        ),
    }
}

/// The graph of a sequence of transactions, added one after the other.
pub open spec fn graph_of(txs: Seq<Record>) -> GraphModel
    decreases txs.len(),
{
    if txs.len() == 0 {
        empty_graph()
    } else {
        with_transaction(graph_of(txs.drop_last()), txs.last())
    }
}

/// In a sequence without duplicates an element is found where it stands.
pub proof fn lemma_index_of_unique(nodes: Seq<Seq<char>>, i: int)
    requires
        nodes.no_duplicates(),
        0 <= i < nodes.len(),
    ensures
        nodes.index_of(nodes[i]) == i,
{
    let j = nodes.index_of(nodes[i]);
    assert(0 <= j < nodes.len() && nodes[j] == nodes[i]);
}

/// Looking a label up or creating it keeps the nodes free of duplicates,
/// keeps every earlier node in its place, and leaves the label on a node.
pub proof fn lemma_with_node(nodes: Seq<Seq<char>>, label: Seq<char>)
    requires
        nodes.no_duplicates(),
    ensures
        with_node(nodes, label).no_duplicates(),
        with_node(nodes, label).contains(label),
        nodes.len() <= with_node(nodes, label).len() <= nodes.len() + 1,
        nodes.is_prefix_of(with_node(nodes, label)),
        with_node(nodes, label).to_set() == nodes.to_set().insert(label),
{
    let after = with_node(nodes, label);
    if nodes.contains(label) {
        assert(after.to_set() =~= nodes.to_set().insert(label));
    } else {
        assert(after[nodes.len() as int] == label);
        assert forall|x: Seq<char>| after.to_set().contains(x) <==> nodes.to_set().insert(
            label,
        ).contains(x) by {
            if after.contains(x) {
                let k = choose|k: int| 0 <= k < after.len() && after[k] == x;
                if k < nodes.len() {
                    assert(nodes[k] == x);
                }
            }
            if nodes.contains(x) {
                let k = choose|k: int| 0 <= k < nodes.len() && nodes[k] == x;
                assert(after[k] == x);
            }
        }
        assert(after.to_set() =~= nodes.to_set().insert(label));
    }
}

/// A transaction graph: accounts as nodes, labelled with their addresses, and
/// one edge per transaction from the sender to the recipient, labelled
/// with the transaction's hash and amount. The nodes and edges are kept by
/// `petgraph`.
#[derive(Debug)]
pub struct TxGraph {
    inner: Graph<String, (String, [u64; 4]), Directed, u32>,
}

impl View for TxGraph {
    type V = GraphModel;

    closed spec fn view(&self) -> GraphModel {
        GraphModel { nodes: graph_nodes(self.inner), edges: graph_edges(self.inner) }
    }
}

impl TxGraph {
    /// The invariant of a transaction graph.
    pub open spec fn wf(&self) -> bool {
        well_formed(self@)
    }

    /// A graph without nodes or edges.
    pub fn new() -> (g: TxGraph)
        ensures
            g@ == empty_graph(),
            g.wf(),
    {
        TxGraph { inner: graph_new() }
    }

    /// The number of accounts in the graph.
    pub fn node_count(&self) -> (n: usize)
        ensures
            n == self@.nodes.len(),
    {
        graph_node_count(&self.inner)
    }

    /// The number of transactions in the graph.
    pub fn edge_count(&self) -> (n: usize)
        ensures
            n == self@.edges.len(),
    {
        graph_edge_count(&self.inner)
    }

    /// The label of the node with index `i`, if there is such a node.
    pub fn node_label(&self, i: usize) -> (r: Option<&String>)
        requires
            self.wf(),
        ensures
            r.is_some() == (i < self@.nodes.len()),
            r.is_some() ==> r.unwrap()@ == self@.nodes[i as int],
    {
        if i <= 0xffff_ffff {
            graph_node_weight(&self.inner, i)
        } else {
            None
        }
    }

    /// The edge with index `e`, if there is such an edge: the indices of its
    /// source and target nodes, the hash of its transaction and the amount.
    pub fn edge(&self, e: usize) -> (r: Option<(usize, usize, &String, Wei)>)
        requires
            self.wf(),
        ensures
            r.is_some() == (e < self@.edges.len()),
            r.is_some() ==> {
                &&& r.unwrap().0 == self@.edges[e as int].0
                &&& r.unwrap().1 == self@.edges[e as int].1
                &&& r.unwrap().2@ == self@.edges[e as int].2
                &&& r.unwrap().3@ == self@.edges[e as int].3
                &&& r.unwrap().0 < self@.nodes.len()
                &&& r.unwrap().1 < self@.nodes.len()
            },
    {
        if e <= 0xffff_ffff {
            match (graph_edge_endpoints(&self.inner, e), graph_edge_weight(&self.inner, e)) {
                (Some((a, b)), Some((hash, value))) => Some((a, b, hash, value)),
                _ => None,
            }
        } else {
            None
        }
    }

    /// The index of the node that carries `label`, if a node does.
    pub fn find_node(&self, label: &String) -> (r: Option<usize>)
        requires
            self.wf(),
        ensures
            r.is_some() == self@.nodes.contains(label@),
            r.is_some() ==> r.unwrap() < self@.nodes.len() && self@.nodes[r.unwrap() as int]
                == label@ && r.unwrap() == self@.nodes.index_of(label@),
    {
        let n: usize = graph_node_count(&self.inner);
        let mut i: usize = 0;
        while i < n
            invariant
                self.wf(),
                n == self@.nodes.len(),
                0 <= i <= n,
                forall|k: int| 0 <= k < i ==> self@.nodes[k] != label@,
            decreases n - i,
        {
            match graph_node_weight(&self.inner, i) {
                Some(found) => {
                    if *found == *label {
                        proof {
                            lemma_index_of_unique(self@.nodes, i as int);
                        }
                        return Some(i);
                    }
                },
                None => {},
            }
            i += 1;
        }
        None
    }

    /// Looks `label` up and, where no node carries it yet, creates the node.
    /// Returns the index of the node that carries it.
    pub fn node_for(&mut self, label: String) -> (i: usize)
        requires
            old(self).wf(),
            with_node(old(self)@.nodes, label@).len() <= u32::MAX,
        ensures
            final(self).wf(),
            final(self)@.nodes == with_node(old(self)@.nodes, label@),
            final(self)@.edges == old(self)@.edges,
            i < final(self)@.nodes.len(),
            i == final(self)@.nodes.index_of(label@),
    {
        proof {
            lemma_with_node(self@.nodes, label@);
        }
        match self.find_node(&label) {
            Some(i) => i,
            None => {
                let i = graph_add_node(&mut self.inner, label);
                proof {
                    lemma_index_of_unique(self@.nodes, i as int);
                }
                i
            },
        }
    }

    /// Adds one transaction: both parties become nodes unless they are nodes
    /// already, and a new edge joins them, whatever edges join them already.
    pub fn add_transaction(&mut self, tx: &Transaction)
        requires
            old(self).wf(),
            with_parties(old(self)@.nodes, tx@).len() <= u32::MAX,
            old(self)@.edges.len() < u32::MAX,
        ensures
            final(self).wf(),
            final(self)@ == with_transaction(old(self)@, tx@),
    {
        let from_label = tx.from.label();
        let to_label = tx.to.label();
        proof {
            lemma_with_node(self@.nodes, from_label@);
            lemma_with_node(with_node(self@.nodes, from_label@), to_label@);
        }
        let a = self.node_for(from_label);
        let b = self.node_for(to_label);
        proof {
            let nodes = self@.nodes;
            let mid = with_node(old(self)@.nodes, address_label(tx.from@));
            assert(mid.is_prefix_of(nodes));
            assert(mid[a as int] == address_label(tx.from@));
            assert(nodes[a as int] == address_label(tx.from@));
            lemma_index_of_unique(nodes, a as int);
        }
        let hash = tx.hash.clone();
        graph_add_edge(&mut self.inner, a, b, hash, tx.value);
        proof {
            assert(final(self)@.edges =~= with_transaction(old(self)@, tx@).edges);
        }
    }
}

/// The graph of the first `i + 1` transactions is the graph of the first `i`
/// with transaction `i` added.
pub proof fn lemma_graph_of_step(txs: Seq<Record>, i: int)
    requires
        0 <= i < txs.len(),
    ensures
        graph_of(txs.take(i + 1)) == with_transaction(graph_of(txs.take(i)), txs[i]),
{
    assert(txs.take(i + 1).drop_last() =~= txs.take(i));
    assert(txs.take(i + 1).last() == txs[i]);
}

/// The graph of any sequence of transactions has one edge for each of them,
/// no label on two nodes, and every edge between two of its nodes.
pub proof fn lemma_graph_of_shape(txs: Seq<Record>)
    ensures
        graph_of(txs).edges.len() == txs.len(),
        graph_of(txs).nodes.no_duplicates(),
        graph_of(txs).nodes.len() <= 2 * txs.len(),
        forall|e: int|
            0 <= e < txs.len() ==> 0 <= (#[trigger] graph_of(txs).edges[e]).0 < graph_of(
                txs,
            ).nodes.len() && 0 <= graph_of(txs).edges[e].1 < graph_of(txs).nodes.len(),
    decreases txs.len(),
{
    if txs.len() > 0 {
        let before = graph_of(txs.drop_last());
        let tx = txs.last();
        lemma_graph_of_shape(txs.drop_last());
        lemma_with_node(before.nodes, address_label(tx.from));
        let mid = with_node(before.nodes, address_label(tx.from));
        lemma_with_node(mid, address_label(tx.to));
        let nodes = with_parties(before.nodes, tx);
        assert(nodes.contains(address_label(tx.to)));
        assert(mid.contains(address_label(tx.from)));
        let k = choose|k: int| 0 <= k < mid.len() && mid[k] == address_label(tx.from);
        assert(nodes[k] == address_label(tx.from));
        assert(nodes.contains(address_label(tx.from)));
        let after = graph_of(txs);
        assert(after == with_transaction(before, tx));
        assert forall|e: int| 0 <= e < txs.len() implies 0 <= (#[trigger] after.edges[e]).0
            < after.nodes.len() && 0 <= after.edges[e].1 < after.nodes.len() by {
            if e < txs.len() - 1 {
                assert(after.edges[e] == before.edges[e]);
            }
        }
    }
}

/// Adding transactions never removes a node: the graph of a prefix has at
/// most as many nodes as the graph of the whole.
pub proof fn lemma_nodes_grow(txs: Seq<Record>, i: int)
    requires
        0 <= i <= txs.len(),
    ensures
        graph_of(txs.take(i)).nodes.is_prefix_of(graph_of(txs).nodes),
    decreases txs.len(),
{
    if i == txs.len() {
        assert(txs.take(i) =~= txs);
    } else {
        let rest = txs.drop_last();
        lemma_nodes_grow(rest, i);
        assert(rest.take(i) =~= txs.take(i));
        lemma_graph_of_shape(rest);
        let tx = txs.last();
        lemma_with_node(graph_of(rest).nodes, address_label(tx.from));
        lemma_with_node(with_node(graph_of(rest).nodes, address_label(tx.from)), address_label(tx.to));
    }
}

/// Builds the graph of a sequence of transactions: one node for each address
/// that sends or receives, however often it does, and one edge for each
/// transaction, in the order of the sequence, from the sender's node to the
/// recipient's. The graph must be able to number its nodes and edges.
pub fn build_graph(transactions: &[Transaction]) -> (g: TxGraph)
    requires
        graph_of(records(transactions@)).nodes.len() <= u32::MAX,
        transactions@.len() <= u32::MAX,
    ensures
        g.wf(),
        g@ == graph_of(records(transactions@)),
        g@.nodes.len() == parties(records(transactions@)).len(),
        forall|a: Seq<u8>|
            parties(records(transactions@)).contains(a) <==> g@.nodes.contains(
                #[trigger] address_label(a),
            ),
        g@.edges.len() == transactions@.len(),
        forall|i: int|
            0 <= i < transactions@.len() ==> {
                &&& g@.nodes[(#[trigger] g@.edges[i]).0] == address_label(transactions@[i].from@)
                &&& g@.nodes[g@.edges[i].1] == address_label(transactions@[i].to@)
                &&& g@.edges[i].2 == transactions@[i].hash@
            &&& g@.edges[i].3 == transactions@[i].value@
                &&& g@.edges[i].3 == transactions@[i].value@
            },
{
    let mut g = TxGraph::new();
    let n: usize = transactions.len();
    let mut i: usize = 0;
    let ghost all = records(transactions@);
    assert(all.take(0) =~= Seq::<Record>::empty());
    while i < n
        invariant
            n == transactions@.len(),
            all == records(transactions@),
            0 <= i <= n,
            g.wf(),
            g@ == graph_of(all.take(i as int)),
            graph_of(all).nodes.len() <= u32::MAX,
            transactions@.len() <= u32::MAX,
        decreases n - i,
    {
        proof {
            lemma_graph_of_step(all, i as int);
            lemma_nodes_grow(all, i + 1);
            lemma_graph_of_shape(all.take(i as int));
        }
        g.add_transaction(&transactions[i]);
        i += 1;
    }
    proof {
        assert(all.take(n as int) =~= all);
        lemma_graph_of_shape(all);
        lemma_one_node_per_party(all);
        assert forall|i: int| 0 <= i < transactions@.len() implies {
            &&& g@.nodes[(#[trigger] g@.edges[i]).0] == address_label(transactions@[i].from@)
            &&& g@.nodes[g@.edges[i].1] == address_label(transactions@[i].to@)
            &&& g@.edges[i].2 == transactions@[i].hash@
            &&& g@.edges[i].3 == transactions@[i].value@
        } by {
            lemma_one_edge_per_transaction(all, i);
            assert(all[i] == transactions@[i]@);
        }
    }
    g
}

} // verus!
