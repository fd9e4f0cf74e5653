use tx_analyzer::address::Address;
use tx_analyzer::amount::Wei;
use tx_analyzer::graph::{build_graph, TxGraph};
use tx_analyzer::transaction::Transaction;

fn addr(b: u8) -> Address {
    Address { bytes: [b; 20] }
}

fn tx(from: u8, to: u8, value: u64, hash: &str) -> Transaction {
    Transaction { from: addr(from), to: addr(to), value: Wei::from_u64(value), hash: hash.to_string() }
}

fn edges(g: &TxGraph) -> Vec<(String, String, String)> {
    let mut out = Vec::new();
    for e in 0..g.edge_count() {
        let (a, b, label, _) = g.edge(e).unwrap();
        out.push((
            g.node_label(a).unwrap().clone(),
            g.node_label(b).unwrap().clone(),
            label.clone(),
        ));
    }
    out
}

fn nodes(g: &TxGraph) -> Vec<String> {
    (0..g.node_count()).map(|i| g.node_label(i).unwrap().clone()).collect()
}

#[test]
fn empty_sequence_gives_empty_graph() {
    let g = build_graph(&[]);
    assert_eq!(g.node_count(), 0);
    assert_eq!(g.edge_count(), 0);
    assert_eq!(g.node_label(0), None);
    assert_eq!(g.edge(0), None);
}

#[test]
fn new_graph_is_empty() {
    let g = TxGraph::new();
    assert_eq!(g.node_count(), 0);
    assert_eq!(g.edge_count(), 0);
    assert_eq!(g.find_node(&addr(1).label()), None);
}

#[test]
fn one_transaction_gives_two_nodes_and_one_edge() {
    let g = build_graph(&[tx(1, 2, 10, "0xaa")]);
    assert_eq!(nodes(&g), vec![addr(1).label(), addr(2).label()]);
    assert_eq!(edges(&g), vec![(addr(1).label(), addr(2).label(), "0xaa".to_string())]);
    assert_eq!(g.edge(0), Some((0, 1, &"0xaa".to_string(), Wei::from_u64(10))));
}

#[test]
fn shared_sender_has_one_node_and_two_edges() {
    let g = build_graph(&[tx(1, 2, 10, "0xaa"), tx(1, 3, 5, "0xbb")]);
    let a = addr(1).label();
    assert_eq!(nodes(&g).iter().filter(|l| **l == a).count(), 1);
    assert_eq!(g.node_count(), 3);
    assert_eq!(g.edge_count(), 2);
    let leaving: Vec<_> = edges(&g).into_iter().filter(|(from, _, _)| *from == a).collect();
    assert_eq!(leaving.len(), 2);
    assert_eq!(g.edge(0).unwrap().0, g.find_node(&a).unwrap());
    assert_eq!(g.edge(1).unwrap().0, g.find_node(&a).unwrap());
}

#[test]
fn parallel_edges_are_not_merged() {
    let g = build_graph(&[tx(1, 2, 10, "0xaa"), tx(1, 2, 10, "0xaa"), tx(1, 2, 7, "0xcc")]);
    assert_eq!(g.node_count(), 2);
    assert_eq!(g.edge_count(), 3);
    assert_eq!(
        edges(&g),
        vec![
            (addr(1).label(), addr(2).label(), "0xaa".to_string()),
            (addr(1).label(), addr(2).label(), "0xaa".to_string()),
            (addr(1).label(), addr(2).label(), "0xcc".to_string()),
        ]
    );
}

#[test]
fn node_count_is_number_of_distinct_addresses() {
    let txs = vec![
        tx(1, 2, 1, "0x01"),
        tx(2, 1, 2, "0x02"),
        tx(3, 1, 3, "0x03"),
        tx(1, 4, 4, "0x04"),
        tx(4, 3, 5, "0x05"),
        tx(5, 5, 6, "0x06"),
    ];
    let g = build_graph(&txs);
    assert_eq!(g.node_count(), 5);
    assert_eq!(g.edge_count(), txs.len());
    assert_eq!(
        nodes(&g),
        vec![addr(1).label(), addr(2).label(), addr(3).label(), addr(4).label(), addr(5).label()]
    );
}

#[test]
fn edges_follow_the_sequence() {
    let txs = vec![tx(1, 2, 1, "0x01"), tx(2, 1, 2, "0x02"), tx(3, 1, 3, "0x03")];
    let g = build_graph(&txs);
    assert_eq!(
        edges(&g),
        vec![
            (addr(1).label(), addr(2).label(), "0x01".to_string()),
            (addr(2).label(), addr(1).label(), "0x02".to_string()),
            (addr(3).label(), addr(1).label(), "0x03".to_string()),
        ]
    );
    assert_eq!(g.edge(0), Some((0, 1, &"0x01".to_string(), Wei::from_u64(1))));
    assert_eq!(g.edge(1), Some((1, 0, &"0x02".to_string(), Wei::from_u64(2))));
    assert_eq!(g.edge(2), Some((2, 0, &"0x03".to_string(), Wei::from_u64(3))));
    assert_eq!(g.edge(3), None);
}

#[test]
fn self_transfer_gives_one_node_and_a_loop() {
    let g = build_graph(&[tx(1, 1, 1, "0x01")]);
    assert_eq!(g.node_count(), 1);
    assert_eq!(g.edge(0), Some((0, 0, &"0x01".to_string(), Wei::from_u64(1))));
}

#[test]
fn zero_recipient_is_an_ordinary_node() {
    let t = Transaction {
        from: addr(1),
        to: Address::zero(),
        value: Wei::from_u64(0),
        hash: "0x01".to_string(),
    };
    let g = build_graph(&[t]);
    assert_eq!(nodes(&g), vec![addr(1).label(), Address::zero().label()]);
}

#[test]
fn edges_carry_the_amount() {
    let big = Transaction {
        from: addr(1),
        to: addr(2),
        value: Wei { limbs: [1, 2, 3, 4] },
        hash: "0x01".to_string(),
    };
    let g = build_graph(&[big, tx(2, 1, 7, "0x02")]);
    assert_eq!(g.edge(0).unwrap().3, Wei { limbs: [1, 2, 3, 4] });
    assert_eq!(g.edge(1).unwrap().3, Wei::from_u64(7));
}

#[test]
fn rebuilding_gives_the_same_graph() {
    let txs = vec![tx(1, 2, 1, "0x01"), tx(3, 1, 3, "0x03"), tx(1, 2, 1, "0x01")];
    let first = build_graph(&txs);
    let second = build_graph(&txs);
    assert_eq!(nodes(&first), nodes(&second));
    assert_eq!(edges(&first), edges(&second));
    assert_eq!(first.edge_count(), txs.len());
}

#[test]
fn find_node_gives_the_index_of_the_label() {
    let g = build_graph(&[tx(1, 2, 1, "0x01"), tx(3, 1, 3, "0x03")]);
    assert_eq!(g.find_node(&addr(1).label()), Some(0));
    assert_eq!(g.find_node(&addr(2).label()), Some(1));
    assert_eq!(g.find_node(&addr(3).label()), Some(2));
    assert_eq!(g.find_node(&addr(4).label()), None);
}

#[test]
fn node_for_looks_up_before_it_creates() {
    let mut g = TxGraph::new();
    assert_eq!(g.node_for("a".to_string()), 0);
    assert_eq!(g.node_for("b".to_string()), 1);
    assert_eq!(g.node_for("a".to_string()), 0);
    assert_eq!(g.node_count(), 2);
    assert_eq!(g.edge_count(), 0);
    assert_eq!(g.node_label(1), Some(&"b".to_string()));
    assert_eq!(g.node_label(2), None);
}

#[test]
fn add_transaction_grows_the_graph_step_by_step() {
    let mut g = TxGraph::new();
    g.add_transaction(&tx(1, 2, 10, "0xaa"));
    assert_eq!((g.node_count(), g.edge_count()), (2, 1));
    g.add_transaction(&tx(2, 3, 10, "0xbb"));
    assert_eq!((g.node_count(), g.edge_count()), (3, 2));
    g.add_transaction(&tx(3, 1, 10, "0xcc"));
    assert_eq!((g.node_count(), g.edge_count()), (3, 3));
    assert_eq!(g.edge(2), Some((2, 0, &"0xcc".to_string(), Wei::from_u64(10))));
}
