use vstd::prelude::*;
use vstd::relations::injective_on;
use vstd::set_lib::lemma_map_size;
use crate::address::{address_label, lemma_label_injective};
use crate::graph::{
    graph_of, lemma_graph_of_shape, lemma_index_of_unique, lemma_with_node, with_node,
    with_parties, GraphModel,
};
use crate::transaction::Record;

verus! {

/// Whether `a` is the sender or the recipient of `tx`.
pub open spec fn is_party(tx: Record, a: Seq<u8>) -> bool {
    tx.from == a || tx.to == a
}

/// The addresses that send or receive in a sequence of transactions.
pub open spec fn parties(txs: Seq<Record>) -> Set<Seq<u8>> {
    Set::new(|a: Seq<u8>| exists|i: int| 0 <= i < txs.len() && is_party(#[trigger] txs[i], a))
}

/// The parties of a sequence are those of all but its last transaction,
/// with the sender and the recipient of the last.
proof fn lemma_parties_step(txs: Seq<Record>)
    requires
        txs.len() > 0,
    ensures
        parties(txs) == parties(txs.drop_last()).insert(txs.last().from).insert(txs.last().to),
{
    let rest = txs.drop_last();
    let last = txs.last();
    let rhs = parties(rest).insert(last.from).insert(last.to);
    assert forall|a: Seq<u8>| parties(txs).contains(a) <==> rhs.contains(a) by {
        if parties(txs).contains(a) {
            let i = choose|i: int| 0 <= i < txs.len() && is_party(#[trigger] txs[i], a);
            if i < txs.len() - 1 {
                assert(is_party(rest[i], a));
                assert(parties(rest).contains(a));
            }
        }
        if parties(rest).contains(a) {
            let i = choose|i: int| 0 <= i < rest.len() && is_party(#[trigger] rest[i], a);
            assert(is_party(txs[i], a));
        }
        if a == last.from || a == last.to {
            let i = txs.len() - 1;
            assert(is_party(txs[i], a));
        }
    }
    assert(parties(txs) =~= rhs);
}

/// The nodes of the graph carry the labels of the parties, and no others.
proof fn lemma_nodes_label_parties(txs: Seq<Record>)
    ensures
        parties(txs).finite(),
        graph_of(txs).nodes.to_set() == parties(txs).map(|a: Seq<u8>| address_label(a)),
    decreases txs.len(),
{
    let f = |a: Seq<u8>| address_label(a);
    if txs.len() == 0 {
        assert(parties(txs) =~= Set::<Seq<u8>>::empty());
        assert(graph_of(txs).nodes.to_set() =~= Set::<Seq<char>>::empty());
        assert(parties(txs).map(f) =~= Set::<Seq<char>>::empty());
    } else {
        let rest = txs.drop_last();
        let last = txs.last();
        lemma_nodes_label_parties(rest);
        lemma_parties_step(txs);
        lemma_graph_of_shape(rest);
        let before = graph_of(rest).nodes;
        let mid = with_node(before, address_label(last.from));
        lemma_with_node(before, address_label(last.from));
        lemma_with_node(mid, address_label(last.to));
        let narrow = parties(rest);
        let wider = narrow.insert(last.from);
        narrow.lemma_set_map_insert_commute(last.from, f);
        wider.lemma_set_map_insert_commute(last.to, f);
        assert(wider.map(f) =~= narrow.map(f).insert(f(last.from)));
        assert(wider.insert(last.to).map(f) =~= wider.map(f).insert(f(last.to)));
        assert(graph_of(txs).nodes == with_parties(before, last));
    }
}

/// The graph has exactly one node for each address that appears as a sender
/// or a recipient in the sequence: as many nodes as there are distinct
/// addresses, each labelled with a different one of them.
pub proof fn lemma_one_node_per_party(txs: Seq<Record>)
    ensures
        parties(txs).finite(),
        graph_of(txs).nodes.len() == parties(txs).len(),
        graph_of(txs).nodes.no_duplicates(),
        forall|a: Seq<u8>|
            parties(txs).contains(a) <==> graph_of(txs).nodes.contains(#[trigger] address_label(a)),
{
    let f = |a: Seq<u8>| address_label(a);
    let nodes = graph_of(txs).nodes;
    lemma_nodes_label_parties(txs);
    lemma_graph_of_shape(txs);
    nodes.unique_seq_to_set();
    assert(injective_on(f, parties(txs))) by {
        assert forall|x: Seq<u8>, y: Seq<u8>|
            parties(txs).contains(x) && parties(txs).contains(y) && #[trigger] f(x)
                == #[trigger] f(y) implies x == y by {
            lemma_label_injective(x, y);
        }
    }
    lemma_map_size(parties(txs), nodes.to_set(), f);
    assert forall|a: Seq<u8>| parties(txs).contains(a) <==> nodes.contains(
        #[trigger] address_label(a),
    ) by {
        if parties(txs).contains(a) {
            assert(parties(txs).map(f).contains(f(a)));
            assert(nodes.to_set().contains(address_label(a)));
        }
        if nodes.contains(address_label(a)) {
            assert(nodes.to_set().contains(address_label(a)));
            assert(parties(txs).map(f).contains(address_label(a)));
            let b = choose|b: Seq<u8>| parties(txs).contains(b) && address_label(a) == f(b);
            lemma_label_injective(a, b);
        }
    }
}

/// The graph has exactly one edge for each transaction, in the order of the
/// sequence: edge `i` runs from the node of the sender of transaction `i` to
/// the node of its recipient and carries its hash and its amount.
pub proof fn lemma_one_edge_per_transaction(txs: Seq<Record>, i: int)
    requires
        0 <= i < txs.len(),
    ensures
        graph_of(txs).edges.len() == txs.len(),
        0 <= graph_of(txs).edges[i].0 < graph_of(txs).nodes.len(),
        0 <= graph_of(txs).edges[i].1 < graph_of(txs).nodes.len(),
        graph_of(txs).nodes[graph_of(txs).edges[i].0] == address_label(txs[i].from),
        graph_of(txs).nodes[graph_of(txs).edges[i].1] == address_label(txs[i].to),
        graph_of(txs).edges[i].2 == txs[i].hash,
        graph_of(txs).edges[i].3 == txs[i].value,
    decreases txs.len(),
{
    let rest = txs.drop_last();
    let last = txs.last();
    let before = graph_of(rest);
    let after = graph_of(txs);
    lemma_graph_of_shape(txs);
    lemma_graph_of_shape(rest);
    lemma_with_node(before.nodes, address_label(last.from));
    let mid = with_node(before.nodes, address_label(last.from));
    lemma_with_node(mid, address_label(last.to));
    if i < txs.len() - 1 {
        lemma_one_edge_per_transaction(rest, i);
        assert(after.edges[i] == before.edges[i]);
        assert(before.nodes.is_prefix_of(mid));
        assert(mid.is_prefix_of(after.nodes));
        assert(after.nodes[before.edges[i].0] == mid[before.edges[i].0]);
        assert(after.nodes[before.edges[i].1] == mid[before.edges[i].1]);
    } else {
        let from_label = address_label(last.from);
        let to_label = address_label(last.to);
        assert(after.nodes.contains(to_label));
        let k = choose|k: int| 0 <= k < mid.len() && mid[k] == from_label;
        assert(after.nodes[k] == from_label);
        assert(after.nodes.contains(from_label));
        assert(after.edges[i] == (
            after.nodes.index_of(from_label),
            after.nodes.index_of(to_label),
            last.hash,
            last.value,
        ));
    }
}

/// Two transactions with the same sender give a graph with exactly one node
/// for that sender and exactly two edges, both leaving that node.
pub proof fn lemma_shared_sender(first: Record, second: Record)
    requires
        first.from == second.from,
    ensures
        ({
            let g = graph_of(seq![first, second]);
            let a = address_label(first.from);
            &&& g.nodes.contains(a)
            &&& forall|i: int, j: int|
                0 <= i < g.nodes.len() && 0 <= j < g.nodes.len() && g.nodes[i] == a && g.nodes[j]
                    == a ==> i == j
            &&& g.edges.len() == 2
            &&& g.edges[0].0 == g.nodes.index_of(a)
            &&& g.edges[1].0 == g.nodes.index_of(a)
        }),
{
    let txs = seq![first, second];
    let g = graph_of(txs);
    let a = address_label(first.from);
    lemma_graph_of_shape(txs);
    lemma_one_edge_per_transaction(txs, 0);
    lemma_one_edge_per_transaction(txs, 1);
    assert(txs[0] == first && txs[1] == second);
    lemma_index_of_unique(g.nodes, g.edges[0].0);
    lemma_index_of_unique(g.nodes, g.edges[1].0);
    assert(g.nodes[g.edges[0].0] == a);
}

/// Building twice from one sequence gives the same graph: the same nodes
/// under the same indices and the same edges in the same order.
pub proof fn lemma_rebuild_same(first: GraphModel, second: GraphModel, txs: Seq<Record>)
    requires
        first == graph_of(txs),
        second == graph_of(txs),
    ensures
        first.nodes == second.nodes,
        first.edges == second.edges,
        first.edges.len() == txs.len(),
{
    lemma_graph_of_shape(txs);
}

} // verus!
