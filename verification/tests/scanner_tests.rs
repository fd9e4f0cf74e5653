use tx_analyzer::address::Address;
use tx_analyzer::amount::Wei;
use tx_analyzer::graph::TxGraph;
use tx_analyzer::scanner::{
    ScanAction, ScanError, ScanEvent, ScanRange, Scanner, MAX_RECORDS,
};
use tx_analyzer::transaction::{RawTransaction, Transaction, TxHash};

fn acct(b: u8) -> Address {
    Address { bytes: [b; 20] }
}

fn raw(from: u8, to: Option<u8>, value: u64, hash: u8) -> RawTransaction {
    RawTransaction {
        from: acct(from),
        to: to.map(acct),
        value: Wei::from_u64(value),
        hash: TxHash { bytes: [hash; 32] },
    }
}

fn hash_text(hash: u8) -> String {
    TxHash { bytes: [hash; 32] }.label()
}

fn record(from: u8, to: u8, value: u64, hash: u8) -> Transaction {
    Transaction { from: acct(from), to: acct(to), value: Wei::from_u64(value), hash: hash_text(hash) }
}

fn node_labels(g: &TxGraph) -> Vec<String> {
    (0..g.node_count()).map(|i| g.node_label(i).unwrap().clone()).collect()
}

/// Runs a scan to its end against a chain given as its latest height and the
/// blocks by height; returns the heights asked for beside the outcome.
fn run(
    target: &str,
    limit: usize,
    latest: Option<u64>,
    chain: &dyn Fn(u64) -> ScanEvent,
) -> (Vec<u64>, Result<(Vec<Transaction>, TxGraph), ScanError>) {
    let mut scanner = match Scanner::start(target, limit) {
        Ok(s) => s,
        Err(e) => return (vec![], Err(e)),
    };
    let mut asked = Vec::new();
    let mut action = scanner.action();
    loop {
        let event = match action {
            ScanAction::QueryHeight => match latest {
                Some(h) => ScanEvent::Height(h),
                None => ScanEvent::HeightUnavailable,
            },
            ScanAction::FetchBlock(h) => {
                asked.push(h);
                chain(h)
            }
            ScanAction::Done => return (asked, Ok(scanner.finish().unwrap())),
            ScanAction::Abort(e) => {
                assert_eq!(scanner.error(), Some(e));
                assert!(scanner.finish().is_none());
                return (asked, Err(e));
            }
        };
        assert!(scanner.can_take(&event));
        action = scanner.step(event);
    }
}

#[test]
fn three_blocks_two_matches() {
    let a = acct(0xA1).label();
    let chain = |h: u64| match h {
        100 => ScanEvent::Block(vec![raw(0xA1, Some(0xB2), 10, 1), raw(0xD4, Some(0xE5), 99, 9)]),
        99 => ScanEvent::Block(vec![raw(0xD4, Some(0xE5), 1, 8)]),
        98 => ScanEvent::Block(vec![raw(0xC3, Some(0xA1), 5, 2)]),
        _ => ScanEvent::BlockFailed,
    };
    let (asked, outcome) = run(&a, 3, Some(100), &chain);
    assert_eq!(asked, vec![100, 99, 98]);
    let (records, graph) = outcome.unwrap();
    assert_eq!(records, vec![record(0xA1, 0xB2, 10, 1), record(0xC3, 0xA1, 5, 2)]);
    assert_eq!(graph.node_count(), 3);
    assert_eq!(graph.edge_count(), 2);
    assert_eq!(
        node_labels(&graph),
        vec![acct(0xA1).label(), acct(0xB2).label(), acct(0xC3).label()]
    );
    assert_eq!(graph.edge(0), Some((0, 1, &hash_text(1), Wei::from_u64(10))));
    assert_eq!(graph.edge(1), Some((2, 0, &hash_text(2), Wei::from_u64(5))));
}

#[test]
fn block_count_beyond_the_chain_is_an_invalid_range() {
    let a = acct(0xA1).label();
    let chain = |_h: u64| ScanEvent::Block(vec![raw(0xA1, Some(0xB2), 10, 1)]);
    let (asked, outcome) = run(&a, 10, Some(5), &chain);
    assert!(asked.is_empty());
    assert_eq!(outcome.err(), Some(ScanError::InvalidRange));
}

#[test]
fn range_down_to_the_first_block_is_valid() {
    let a = acct(0xA1).label();
    let chain = |h: u64| ScanEvent::Block(vec![raw(0xA1, Some(0xB2), h, h as u8)]);
    let (asked, outcome) = run(&a, 3, Some(2), &chain);
    assert_eq!(asked, vec![2, 1, 0]);
    assert_eq!(outcome.unwrap().0.len(), 3);
    let (asked, outcome) = run(&a, 4, Some(2), &chain);
    assert!(asked.is_empty());
    assert_eq!(outcome.err(), Some(ScanError::InvalidRange));
}

#[test]
fn zero_blocks_finish_at_once() {
    let a = acct(0xA1).label();
    let chain = |_h: u64| ScanEvent::BlockFailed;
    let (asked, outcome) = run(&a, 0, Some(7), &chain);
    assert!(asked.is_empty());
    let (records, graph) = outcome.unwrap();
    assert!(records.is_empty());
    assert_eq!(graph.node_count(), 0);
}

#[test]
fn malformed_target_fails_the_start() {
    let chain = |_h: u64| ScanEvent::BlockAbsent;
    let (asked, outcome) = run("not an address", 3, Some(7), &chain);
    assert!(asked.is_empty());
    assert_eq!(outcome.err(), Some(ScanError::MalformedAddress));
    assert!(matches!(Scanner::start("0x1234", 1), Err(ScanError::MalformedAddress)));
}

#[test]
fn unknown_height_fails_the_scan() {
    let a = acct(0xA1).label();
    let chain = |_h: u64| ScanEvent::BlockAbsent;
    let (asked, outcome) = run(&a, 3, None, &chain);
    assert!(asked.is_empty());
    assert_eq!(outcome.err(), Some(ScanError::HeightUnavailable));
}

#[test]
fn failed_block_aborts_the_whole_scan() {
    let a = acct(0xA1).label();
    let chain = |h: u64| match h {
        50 => ScanEvent::Block(vec![raw(0xA1, Some(0xB2), 10, 1)]),
        49 => ScanEvent::BlockFailed,
        _ => ScanEvent::Block(vec![raw(0xA1, Some(0xB2), 10, 3)]),
    };
    let (asked, outcome) = run(&a, 3, Some(50), &chain);
    assert_eq!(asked, vec![50, 49]);
    assert_eq!(outcome.err(), Some(ScanError::BlockFetchFailed));
}

#[test]
fn absent_block_is_walked_over() {
    let a = acct(0xA1).label();
    let chain = |h: u64| match h {
        49 => ScanEvent::BlockAbsent,
        _ => ScanEvent::Block(vec![raw(0xA1, Some(0xB2), h, h as u8)]),
    };
    let (asked, outcome) = run(&a, 3, Some(50), &chain);
    assert_eq!(asked, vec![50, 49, 48]);
    let (records, graph) = outcome.unwrap();
    assert_eq!(records, vec![record(0xA1, 0xB2, 50, 50), record(0xA1, 0xB2, 48, 48)]);
    assert_eq!(graph.edge_count(), 2);
    assert_eq!(graph.node_count(), 2);
}

#[test]
fn only_transactions_of_the_target_are_kept() {
    let a = acct(0xA1).label();
    let block = vec![
        raw(1, Some(2), 1, 1),
        raw(0xA1, Some(2), 2, 2),
        raw(3, Some(0xA1), 3, 3),
        raw(3, None, 4, 4),
        raw(0xA1, None, 5, 5),
        raw(0xA1, Some(0xA1), 6, 6),
        raw(2, Some(1), 7, 7),
    ];
    let chain = move |_h: u64| ScanEvent::Block(block.clone());
    let (_, outcome) = run(&a, 1, Some(9), &chain);
    let (records, graph) = outcome.unwrap();
    assert_eq!(
        records,
        vec![
            record(0xA1, 2, 2, 2),
            record(3, 0xA1, 3, 3),
            record(0xA1, 0, 5, 5),
            record(0xA1, 0xA1, 6, 6),
        ]
    );
    for r in &records {
        assert!(r.from == acct(0xA1) || r.to == acct(0xA1));
    }
    assert_eq!(graph.edge_count(), records.len());
    assert_eq!(graph.node_count(), 4);
}

#[test]
fn zero_target_matches_absent_recipients() {
    let zero = Address::zero().label();
    let block = vec![raw(1, None, 1, 1), raw(1, Some(2), 2, 2), raw(3, Some(0), 3, 3)];
    let chain = move |_h: u64| ScanEvent::Block(block.clone());
    let (_, outcome) = run(&zero, 1, Some(9), &chain);
    let (records, _) = outcome.unwrap();
    assert_eq!(records, vec![record(1, 0, 1, 1), record(3, 0, 3, 3)]);
}

#[test]
fn target_is_read_without_regard_to_case() {
    let upper = format!("0x{}", "A1".repeat(20));
    let chain = |_h: u64| ScanEvent::Block(vec![raw(0xA1, Some(0xB2), 10, 1)]);
    let (_, outcome) = run(&upper, 1, Some(9), &chain);
    assert_eq!(outcome.unwrap().0, vec![record(0xA1, 0xB2, 10, 1)]);
}

#[test]
fn events_that_answer_nothing_change_nothing() {
    let a = acct(0xA1).label();
    let mut s = Scanner::start(&a, 2).unwrap();
    assert_eq!(s.action(), ScanAction::QueryHeight);
    assert_eq!(s.step(ScanEvent::BlockAbsent), ScanAction::QueryHeight);
    assert_eq!(s.step(ScanEvent::Block(vec![raw(0xA1, None, 1, 1)])), ScanAction::QueryHeight);
    assert_eq!(s.step(ScanEvent::BlockFailed), ScanAction::QueryHeight);
    assert_eq!(s.step(ScanEvent::Height(10)), ScanAction::FetchBlock(10));
    assert_eq!(s.step(ScanEvent::Height(3)), ScanAction::FetchBlock(10));
    assert_eq!(s.step(ScanEvent::HeightUnavailable), ScanAction::FetchBlock(10));
    assert_eq!(s.step(ScanEvent::BlockAbsent), ScanAction::FetchBlock(9));
    assert_eq!(s.step(ScanEvent::BlockAbsent), ScanAction::Done);
    assert_eq!(s.step(ScanEvent::Block(vec![raw(0xA1, None, 1, 1)])), ScanAction::Done);
    assert_eq!(s.step(ScanEvent::BlockFailed), ScanAction::Done);
    assert_eq!(s.error(), None);
    let (records, graph) = s.finish().unwrap();
    assert!(records.is_empty());
    assert_eq!(graph.edge_count(), 0);
}

#[test]
fn failed_scan_stays_failed() {
    let a = acct(0xA1).label();
    let mut s = Scanner::start(&a, 2).unwrap();
    assert_eq!(s.step(ScanEvent::HeightUnavailable), ScanAction::Abort(ScanError::HeightUnavailable));
    assert_eq!(s.step(ScanEvent::Height(10)), ScanAction::Abort(ScanError::HeightUnavailable));
    assert_eq!(s.error(), Some(ScanError::HeightUnavailable));
    assert!(s.finish().is_none());
}

#[test]
fn unfinished_scan_hands_nothing_out() {
    let a = acct(0xA1).label();
    let mut s = Scanner::start(&a, 2).unwrap();
    s.step(ScanEvent::Height(10));
    s.step(ScanEvent::Block(vec![raw(0xA1, None, 1, 1)]));
    assert_eq!(s.error(), None);
    assert!(s.finish().is_none());
}

#[test]
fn target_of_a_scan_is_the_parsed_address() {
    let s = Scanner::start(&acct(0xA1).label(), 2).unwrap();
    assert_eq!(s.target(), acct(0xA1));
}

#[test]
fn room_is_counted_in_records() {
    let s = Scanner::start(&acct(0xA1).label(), 2).unwrap();
    assert!(s.can_take(&ScanEvent::Height(1)));
    assert!(s.can_take(&ScanEvent::BlockFailed));
    assert!(s.can_take(&ScanEvent::Block(vec![raw(1, None, 1, 1)])));
    assert_eq!(MAX_RECORDS, 0x7fff_ffff);
}

#[test]
fn range_new_accepts_what_the_chain_holds() {
    assert_eq!(ScanRange::new(9, 10), Ok(ScanRange { latest: 9, count: 10 }));
    assert_eq!(ScanRange::new(9, 1), Ok(ScanRange { latest: 9, count: 1 }));
    assert_eq!(ScanRange::new(0, 0), Ok(ScanRange { latest: 0, count: 0 }));
    assert_eq!(ScanRange::new(0, 1), Ok(ScanRange { latest: 0, count: 1 }));
    assert_eq!(ScanRange::new(u64::MAX, 5), Ok(ScanRange { latest: u64::MAX, count: 5 }));
}

#[test]
fn range_new_rejects_more_than_the_chain_holds() {
    assert_eq!(ScanRange::new(9, 11), Err(ScanError::InvalidRange));
    assert_eq!(ScanRange::new(0, 2), Err(ScanError::InvalidRange));
    assert_eq!(ScanRange::new(5, usize::MAX), Err(ScanError::InvalidRange));
}

#[test]
fn range_heights_run_from_the_latest_down() {
    let r = ScanRange::new(100, 3).unwrap();
    assert_eq!(r.height_after(0), Some(100));
    assert_eq!(r.height_after(1), Some(99));
    assert_eq!(r.height_after(2), Some(98));
    assert_eq!(r.height_after(3), None);
}
