use tx_analyzer::address::Address;
use tx_analyzer::amount::Wei;
use tx_analyzer::graph::build_graph;
use tx_analyzer::render::{
    direction, edge_line, graph_lines, graph_text, table_row, table_rows, Direction, TableRow,
};
use tx_analyzer::transaction::Transaction;

fn who(b: u8) -> Address {
    Address { bytes: [b; 20] }
}

fn transfer(from: u8, to: u8, value: u64, hash: &str) -> Transaction {
    Transaction { from: who(from), to: who(to), value: Wei::from_u64(value), hash: hash.to_string() }
}

fn s(text: &str) -> String {
    text.to_string()
}

#[test]
fn direction_is_seen_from_the_target() {
    assert_eq!(direction(&s("a"), &s("b"), &s("a")), Direction::Outgoing);
    assert_eq!(direction(&s("a"), &s("b"), &s("b")), Direction::Incoming);
    assert_eq!(direction(&s("a"), &s("b"), &s("c")), Direction::Neutral);
    assert_eq!(direction(&s("a"), &s("a"), &s("a")), Direction::Outgoing);
}

#[test]
fn outgoing_edge_line() {
    let line = edge_line(&who(0xA1).label(), &s("0xfeedfacecafe"), &who(0xB2).label(), &who(0xA1).label());
    assert_eq!(line, "0xa1a1a1a1 ─(0xfeedface)-> 0xb2b2b2b2");
}

#[test]
fn incoming_edge_line() {
    let line = edge_line(&who(0xC3).label(), &s("0xfeedfacecafe"), &who(0xA1).label(), &who(0xA1).label());
    assert_eq!(line, "0xc3c3c3c3 <─(0xfeedface)─ 0xa1a1a1a1");
}

#[test]
fn neutral_edge_line() {
    let line = edge_line(&who(0xC3).label(), &s("0xfeedfacecafe"), &who(0xB2).label(), &who(0xA1).label());
    assert_eq!(line, "0xc3c3c3c3 ─(0xfeedface)─> 0xb2b2b2b2");
}

#[test]
fn edge_line_leaves_short_texts_whole() {
    assert_eq!(edge_line(&s("a"), &s("h"), &s("b"), &s("a")), "a ─(h)-> b");
    assert_eq!(edge_line(&s(""), &s(""), &s(""), &s("x")), " ─()─> ");
}

#[test]
fn one_line_per_edge_in_edge_order() {
    let g = build_graph(&[
        transfer(0xA1, 0xB2, 10, "0x1111111111111111"),
        transfer(0xC3, 0xA1, 5, "0x2222222222222222"),
        transfer(0xA1, 0xB2, 10, "0x3333333333333333"),
    ]);
    assert_eq!(
        graph_lines(&g, &who(0xA1)),
        vec![
            s("0xa1a1a1a1 ─(0x11111111)-> 0xb2b2b2b2"),
            s("0xc3c3c3c3 <─(0x22222222)─ 0xa1a1a1a1"),
            s("0xa1a1a1a1 ─(0x33333333)-> 0xb2b2b2b2"),
        ]
    );
}

#[test]
fn edges_between_strangers_get_the_neutral_arrow() {
    let g = build_graph(&[transfer(0xC3, 0xB2, 10, "0x11")]);
    assert_eq!(graph_lines(&g, &who(0xA1)), vec![s("0xc3c3c3c3 ─(0x11)─> 0xb2b2b2b2")]);
}

#[test]
fn no_edges_no_lines() {
    let g = build_graph(&[]);
    assert!(graph_lines(&g, &who(0xA1)).is_empty());
}

#[test]
fn graph_text_has_heading_and_lines() {
    assert_eq!(graph_text(&vec![]), "Transaction Flow:\n");
    assert_eq!(graph_text(&vec![s("one")]), "Transaction Flow:\none");
    assert_eq!(graph_text(&vec![s("one"), s("two"), s("three")]), "Transaction Flow:\none\ntwo\nthree");
}

#[test]
fn table_row_shows_cut_texts_and_ether() {
    let row = table_row(&transfer(
        0xA1,
        0xB2,
        1_500_000_000_000_000_000,
        "0x9f8e7d6c5b4a39281706f5e4d3c2b1a09f8e7d6c5b4a39281706f5e4d3c2b1a0",
    ));
    assert_eq!(
        row,
        TableRow {
            from: s("0xa1a1a1a1"),
            to: s("0xb2b2b2b2"),
            value: s("1.500000000000000000"),
            hash: s("0x9f8e7d6c"),
        }
    );
}

#[test]
fn table_has_one_row_per_transaction() {
    let txs = vec![transfer(1, 2, 10, "0xaa"), transfer(3, 1, 5, "0xbb")];
    let rows = table_rows(&txs);
    assert_eq!(rows.len(), 2);
    assert_eq!(rows[0], table_row(&txs[0]));
    assert_eq!(rows[1].value, "0.000000000000000005");
    assert_eq!(rows[1].hash, "0xbb");
    assert!(table_rows(&[]).is_empty());
}
