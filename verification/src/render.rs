use vstd::prelude::*;
use vstd::string::*;
use crate::address::{address_label, Address};
use crate::amount::ether_text;
use crate::graph::{GraphModel, TxGraph};
use crate::text::{safe_truncate, truncated, DISPLAY_WIDTH};
use crate::transaction::{Record, Transaction};

verus! {

/// How an edge lies to the analysed address.
#[derive(Clone, Copy, Debug, PartialEq, Eq)]
pub enum Direction {
    /// The analysed address is the sender.
    Outgoing,
    /// The analysed address is the recipient and not the sender.
    Incoming,
    /// The analysed address is neither.
    Neutral,
}

/// The direction of an edge between the nodes labelled `from` and `to`, seen
/// from the node labelled `target`.
pub open spec fn direction_of(from: Seq<char>, to: Seq<char>, target: Seq<char>) -> Direction {
    if from == target {
        Direction::Outgoing
    } else if to == target {
        Direction::Incoming
    } else {
        Direction::Neutral
    }
}

/// What stands between the source and the label of an edge.
pub open spec fn opening(d: Direction) -> Seq<char> {
    match d {
        Direction::Outgoing => " ─("@,
        Direction::Incoming => " <─("@,
        Direction::Neutral => " ─("@,
    }
}

/// What stands between the label and the target of an edge.
pub open spec fn closing(d: Direction) -> Seq<char> {
    match d {
        Direction::Outgoing => ")-> "@,
        Direction::Incoming => ")─ "@,
        Direction::Neutral => ")─> "@,
    }
}

/// The line for one edge: the source, the label between brackets inside an
/// arrow, and the target, each cut to the display width.
pub open spec fn edge_text(from: Seq<char>, label: Seq<char>, to: Seq<char>, target: Seq<char>) -> Seq<
    char,
> {
    let d = direction_of(from, to, target);
    truncated(from, DISPLAY_WIDTH as nat) + opening(d) + truncated(label, DISPLAY_WIDTH as nat)
        + closing(d) + truncated(to, DISPLAY_WIDTH as nat)
}

/// The line for edge `e` of a graph.
pub open spec fn line_of(g: GraphModel, e: int, target: Seq<char>) -> Seq<char> {
    edge_text(g.nodes[g.edges[e].0], g.edges[e].2, g.nodes[g.edges[e].1], target)
}

/// The texts joined, with `sep` between each two.
pub open spec fn joined(lines: Seq<Seq<char>>, sep: Seq<char>) -> Seq<char>
    decreases lines.len(),
{
    if lines.len() == 0 {
        Seq::empty()
    } else if lines.len() == 1 {
        lines[0]
    } else {
        joined(lines.drop_last(), sep) + sep + lines.last()
    }
}

/// What each of a sequence of strings holds.
pub open spec fn texts(lines: Seq<String>) -> Seq<Seq<char>> {
    lines.map_values(|s: String| s@)
}

/// The text of the graph pane: a heading and one line per edge.
pub open spec fn flow_text(lines: Seq<Seq<char>>) -> Seq<char> {
    "Transaction Flow:\n"@ + joined(lines, "\n"@)
}

/// The direction of an edge seen from `target`.
pub fn direction(from: &String, to: &String, target: &String) -> (d: Direction)
    ensures
        d == direction_of(from@, to@, target@),
{
    if *from == *target {
        Direction::Outgoing
    } else if *to == *target {
        Direction::Incoming
    } else {
        Direction::Neutral
    }
}

/// The line shown for one edge.
pub fn edge_line(from: &String, label: &String, to: &String, target: &String) -> (r: String)
    ensures
        r@ == edge_text(from@, label@, to@, target@),
{
    let d = direction(from, to, target);
    let (open, close) = match d {
        Direction::Outgoing => (" ─(", ")-> "),
        Direction::Incoming => (" <─(", ")─ "),
        Direction::Neutral => (" ─(", ")─> "),
    };
    let mut line = safe_truncate(from.as_str(), DISPLAY_WIDTH);
    line.append(open);
    let shown = safe_truncate(label.as_str(), DISPLAY_WIDTH);
    line.append(shown.as_str());
    line.append(close);
    let end = safe_truncate(to.as_str(), DISPLAY_WIDTH);
    line.append(end.as_str());
    line
}

/// One line per edge of the graph, in the order of the edges.
pub fn graph_lines(graph: &TxGraph, target: &Address) -> (lines: Vec<String>)
    requires
        graph.wf(),
    ensures
        lines@.len() == graph@.edges.len(),
        forall|e: int|
            0 <= e < lines@.len() ==> (#[trigger] lines@[e])@ == line_of(
                graph@,
                e,
                address_label(target@),
            ),
{
    let target_label = target.label();
    let n: usize = graph.edge_count();
    let mut lines: Vec<String> = Vec::new();
    let mut e: usize = 0;
    while e < n
        invariant
            graph.wf(),
            n == graph@.edges.len(),
            0 <= e <= n,
            lines@.len() == e,
            target_label@ == address_label(target@),
            forall|k: int|
                0 <= k < e ==> (#[trigger] lines@[k])@ == line_of(graph@, k, target_label@),
        decreases n - e,
    {
        let line = match graph.edge(e) {
            Some((a, b, label, _)) => {
                match (graph.node_label(a), graph.node_label(b)) {
                    (Some(from), Some(to)) => edge_line(from, label, to, &target_label),
                    _ => String::new(),
                }
            },
            None => String::new(),
        };
        lines.push(line);
        e += 1;
    }
    lines
}

/// The text of the graph pane.
pub fn graph_text(lines: &Vec<String>) -> (r: String)
    ensures
        r@ == flow_text(texts(lines@)),
{
    let mut out = String::from_str("Transaction Flow:\n");
    let mut body = String::new();
    let n: usize = lines.len();
    let mut i: usize = 0;
    assert(texts(lines@).take(0) =~= Seq::<Seq<char>>::empty());
    while i < n
        invariant
            n == lines@.len(),
            0 <= i <= n,
            body@ == joined(texts(lines@).take(i as int), "\n"@),
        decreases n - i,
    {
        proof {
            let all = texts(lines@);
            assert(all.take(i + 1).drop_last() =~= all.take(i as int));
            assert(all.take(i + 1).last() == lines@[i as int]@);
            if i == 0 {
                assert(joined(all.take(0), "\n"@) =~= Seq::<char>::empty());
                assert(body@ + lines@[i as int]@ =~= lines@[i as int]@);
            }
        }
        if i > 0 {
            body.append("\n");
        }
        body.append(lines[i].as_str());
        i += 1;
    }
    proof {
        assert(texts(lines@).take(n as int) =~= texts(lines@));
    }
    out.append(body.as_str());
    out
}

/// One row of the transaction table.
#[derive(Clone, Debug, PartialEq, Eq)]
pub struct TableRow {
    pub from: String,
    pub to: String,
    pub value: String,
    pub hash: String,
}

/// Whether `row` shows `tx`: the sender, the recipient and the hash cut to
/// the display width, and the amount in ether.
pub open spec fn shows(row: TableRow, tx: Record) -> bool {
    &&& row.from@ == truncated(address_label(tx.from), DISPLAY_WIDTH as nat)
    &&& row.to@ == truncated(address_label(tx.to), DISPLAY_WIDTH as nat)
    &&& row.value@ == ether_text(tx.value)
    &&& row.hash@ == truncated(tx.hash, DISPLAY_WIDTH as nat)
}

/// The row for one transaction.
pub fn table_row(tx: &Transaction) -> (row: TableRow)
    ensures
        shows(row, tx@),
{
    let from = tx.from.label();
    let to = tx.to.label();
    TableRow {
        from: safe_truncate(from.as_str(), DISPLAY_WIDTH),
        to: safe_truncate(to.as_str(), DISPLAY_WIDTH),
        value: tx.value.to_ether_string(),
        hash: safe_truncate(tx.hash.as_str(), DISPLAY_WIDTH),
    }
}

/// One row per transaction, in the order of the transactions.
pub fn table_rows(transactions: &[Transaction]) -> (rows: Vec<TableRow>)
    ensures
        rows@.len() == transactions@.len(),
        forall|i: int| 0 <= i < rows@.len() ==> shows(#[trigger] rows@[i], transactions@[i]@),
{
    let n: usize = transactions.len();
    let mut rows: Vec<TableRow> = Vec::new();
    let mut i: usize = 0;
    while i < n
        invariant
            n == transactions@.len(),
            0 <= i <= n,
            rows@.len() == i,
            forall|k: int| 0 <= k < i ==> shows(#[trigger] rows@[k], transactions@[k]@),
        decreases n - i,
    {
        rows.push(table_row(&transactions[i]));
        i += 1;
    }
    rows
}

} // verus!
