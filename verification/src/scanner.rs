use vstd::prelude::*;
use crate::address::{parsed_address, Address};
use crate::graph::{graph_of, lemma_graph_of_shape, GraphModel, TxGraph};
use crate::transaction::{record_of, records, touches, RawTransaction, Record, Transaction};

verus! {

/// Why a scan failed.
#[derive(Clone, Copy, Debug, PartialEq, Eq)]
pub enum ScanError {
    /// The text given for the target is no address.
    MalformedAddress,
    /// The current height of the chain could not be obtained.
    HeightUnavailable,
    /// A block of the range could not be fetched.
    BlockFetchFailed,
    /// More blocks were asked for than the chain holds.
    InvalidRange,
}

/// The most transactions that a scan keeps, so that the graph can number
/// two nodes for each.
pub const MAX_RECORDS: usize = 0x7fff_ffff;

/// A run of consecutive blocks that ends with the latest one: the height of
/// the latest block and how many blocks are walked back from it, the latest
/// included.
#[derive(Clone, Copy, Debug, PartialEq, Eq)]
pub struct ScanRange {
    pub latest: u64,
    pub count: u64,
}

/// Whether a chain whose latest block has height `latest` holds `count`
/// blocks to walk back through. The first block has height zero.
pub open spec fn range_fits(latest: u64, count: nat) -> bool {
    count <= latest + 1
}

impl ScanRange {
    /// The range never runs below the first block.
    pub open spec fn wf(&self) -> bool {
        range_fits(self.latest, self.count as nat)
    }

    /// The heights of the range in the order in which they are walked,
    /// from the latest block down.
    pub open spec fn heights(&self) -> Seq<u64> {
        Seq::new(self.count as nat, |i: int| (self.latest - i) as u64)
    }

    /// The range of `count` blocks back from `latest`, or `InvalidRange`
    /// when the chain is not that long.
    pub fn new(latest: u64, count: usize) -> (r: Result<ScanRange, ScanError>)
        ensures
            range_fits(latest, count as nat) ==> r == Ok::<ScanRange, ScanError>(
                ScanRange { latest, count: count as u64 },
            ),
            !range_fits(latest, count as nat) ==> r == Err::<ScanRange, ScanError>(
                ScanError::InvalidRange,
            ),
            r.is_ok() ==> r.unwrap().wf(),
    {
        let wide: u64 = count as u64;
        if wide == 0 || wide - 1 <= latest {
            Ok(ScanRange { latest, count: wide })
        } else {
            Err(ScanError::InvalidRange)
        }
    }

    /// The height of the block that is walked after `done` blocks, if any is left.
    pub fn height_after(&self, done: u64) -> (r: Option<u64>)
        requires
            self.wf(),
        ensures
            r.is_some() == (done < self.count),
            r.is_some() ==> r.unwrap() == self.heights()[done as int],
    {
        if done < self.count {
            Some(self.latest - done)
        } else {
            None
        }
    }
}

/// The records of the transactions among `raws` that touch `target`, in the
/// order in which the chain reported them.
pub open spec fn scan_records(target: Seq<u8>, raws: Seq<RawTransaction>) -> Seq<Record> {
    raws.map_values(|t: RawTransaction| record_of(t)).filter(|r: Record| touches(r, target))
}

/// One more reported transaction adds its record if it touches the target,
/// and nothing otherwise.
pub proof fn lemma_scan_records_push(target: Seq<u8>, raws: Seq<RawTransaction>, raw: RawTransaction)
    ensures
        scan_records(target, raws.push(raw)) == if touches(record_of(raw), target) {
            scan_records(target, raws).push(record_of(raw))
        } else {
            scan_records(target, raws)
        },
{
    let f = |t: RawTransaction| record_of(t);
    let p = |r: Record| touches(r, target);
    raws.lemma_push_map_commute(f, raw);
    assert(raws.push(raw).map_values(f) == raws.map_values(f).push(f(raw)));
    raws.map_values(f).lemma_filter_push(f(raw), p);
}

/// Puts the records of the transactions of `block` that touch `target`
/// behind `found`, in the order of the block, and adds each to `graph`.
fn collect_block(
    target: &Address,
    block: &Vec<RawTransaction>,
    found: &mut Vec<Transaction>,
    graph: &mut TxGraph,
    Ghost(before): Ghost<Seq<RawTransaction>>,
)
    requires
        old(graph).wf(),
        records(old(found)@) == scan_records(target@, before),
        old(graph)@ == graph_of(records(old(found)@)),
        old(found)@.len() + block@.len() <= MAX_RECORDS,
    ensures
        final(graph).wf(),
        records(final(found)@) == scan_records(target@, before + block@),
        final(graph)@ == graph_of(records(final(found)@)),
        final(found)@.len() <= old(found)@.len() + block@.len(),
{
    let n: usize = block.len();
    let mut i: usize = 0;
    assert(before + block@.take(0) =~= before);
    while i < n
        invariant
            n == block@.len(),
            0 <= i <= n,
            graph.wf(),
            records(found@) == scan_records(target@, before + block@.take(i as int)),
            graph@ == graph_of(records(found@)),
            found@.len() <= old(found)@.len() + i,
            old(found)@.len() + block@.len() <= MAX_RECORDS,
        decreases n - i,
    {
        let raw = &block[i];
        proof {
            assert(before + block@.take(i + 1) =~= (before + block@.take(i as int)).push(block@[i as int]));
            lemma_scan_records_push(target@, before + block@.take(i as int), block@[i as int]);
        }
        if raw.involves(target) {
            let tx = raw.normalize();
            proof {
                let ghost after = found@.push(tx);
                assert(records(after) =~= records(found@).push(tx@));
                assert(records(after).drop_last() =~= records(found@));
                lemma_graph_of_shape(records(after));
                lemma_graph_of_shape(records(found@));
            }
            graph.add_transaction(&tx);
            found.push(tx);
        }
        i += 1;
    }
    assert(before + block@.take(n as int) =~= before + block@);
}

/// Where a scan stands.
#[derive(Clone, Copy, Debug, PartialEq, Eq)]
pub enum ScanPhase {
    /// The height of the chain is not known yet.
    AwaitingHeight,
    /// The range is fixed and blocks are being fetched.
    Fetching,
    /// Every block of the range was taken in.
    Finished,
    /// The scan was given up.
    Failed(ScanError),
}

/// What the chain answered to the last request.
#[derive(Clone, Debug, PartialEq, Eq)]
pub enum ScanEvent {
    /// The height of the latest block.
    Height(u64),
    /// The height could not be obtained.
    HeightUnavailable,
    /// The transactions of the block that was asked for, in the block's order.
    Block(Vec<RawTransaction>),
    /// The chain has no block at the height that was asked for.
    BlockAbsent,
    /// The block could not be fetched.
    BlockFailed,
}

/// What is to be done next for a scan.
#[derive(Clone, Copy, Debug, PartialEq, Eq)]
pub enum ScanAction {
    /// Ask the chain for the height of its latest block.
    QueryHeight,
    /// Fetch the block at this height with its transactions.
    FetchBlock(u64),
    /// Nothing: the scan is complete.
    Done,
    /// Nothing: the scan failed with this error.
    Abort(ScanError),
}

/// The state of a scan: whom it looks for, how many blocks it is to walk,
/// where it stands, the range once the height is known, how many blocks of it
/// were taken in, and the transactions that those blocks reported, in order.
pub struct ScanModel {
    pub target: Seq<u8>,
    pub limit: nat,
    pub phase: ScanPhase,
    pub range: Option<ScanRange>,
    pub scanned: nat,
    pub raws: Seq<RawTransaction>,
}

/// The phase after `scanned` blocks of a range of `count` were taken in.
pub open spec fn phase_after(scanned: nat, count: nat) -> ScanPhase {
    if scanned >= count {
        ScanPhase::Finished
    } else {
        ScanPhase::Fetching
    }
}

/// The state that follows `m` on `event`. The height fixes the range, or
/// fails the scan when the chain is shorter than the range asked for. A
/// block is taken in whole; an absent block counts as walked and adds
/// nothing; a block that cannot be fetched fails the scan. An event that
/// answers no request of the state changes nothing.
pub open spec fn next_state(m: ScanModel, event: ScanEvent) -> ScanModel {
    match (m.phase, event) {
        (ScanPhase::AwaitingHeight, ScanEvent::Height(latest)) => {
            if range_fits(latest, m.limit) {
                ScanModel {
                    phase: phase_after(0, m.limit),
                    range: Some(ScanRange { latest, count: m.limit as u64 }),
                    ..m
                }
            } else {
                ScanModel { phase: ScanPhase::Failed(ScanError::InvalidRange), ..m }
            }
        },
        (ScanPhase::AwaitingHeight, ScanEvent::HeightUnavailable) => ScanModel {
            phase: ScanPhase::Failed(ScanError::HeightUnavailable),
            ..m
        },
        (ScanPhase::Fetching, ScanEvent::Block(block)) => ScanModel {
            phase: phase_after(m.scanned + 1, m.limit),
            scanned: m.scanned + 1,
            raws: m.raws + block@,
            ..m
        },
        (ScanPhase::Fetching, ScanEvent::BlockAbsent) => ScanModel {
            phase: phase_after(m.scanned + 1, m.limit),
            scanned: m.scanned + 1,
            ..m
        },
        (ScanPhase::Fetching, ScanEvent::BlockFailed) => ScanModel {
            phase: ScanPhase::Failed(ScanError::BlockFetchFailed),
            ..m
        },
        _ => m,
    }
}

/// What a state asks for: the height first, then the blocks of the range
/// one by one from the latest down, then nothing.
pub open spec fn pending_action(m: ScanModel) -> ScanAction {
    match m.phase {
        ScanPhase::AwaitingHeight => ScanAction::QueryHeight,
        ScanPhase::Fetching => ScanAction::FetchBlock((m.range.unwrap().latest - m.scanned) as u64),
        ScanPhase::Finished => ScanAction::Done,
        ScanPhase::Failed(e) => ScanAction::Abort(e),
    }
}

/// What holds of every state that a scan reaches.
pub open spec fn consistent(m: ScanModel) -> bool {
    &&& m.target.len() == 20
    &&& m.limit <= usize::MAX
    &&& m.phase == ScanPhase::AwaitingHeight ==> m.range.is_none() && m.scanned == 0 && m.raws.len()
        == 0
    &&& (m.phase == ScanPhase::Fetching || m.phase == ScanPhase::Finished) ==> {
        &&& m.range.is_some()
        &&& m.range.unwrap().wf()
        &&& m.range.unwrap().count == m.limit
        &&& m.scanned <= m.limit
        &&& m.phase == phase_after(m.scanned, m.limit)
    }
}

/// A scan of the latest blocks of a chain for the transactions that touch one
/// address. The scan asks for one thing at a time and is told the answer; it
/// keeps the records found so far and their graph.
pub struct Scanner {
    target: Address,
    limit: usize,
    phase: ScanPhase,
    range: Option<ScanRange>,
    scanned: u64,
    found: Vec<Transaction>,
    graph: TxGraph,
    raws: Ghost<Seq<RawTransaction>>,
}

impl View for Scanner {
    type V = ScanModel;

    closed spec fn view(&self) -> ScanModel {
        ScanModel {
            target: self.target@,
            limit: self.limit as nat,
            phase: self.phase,
            range: self.range,
            scanned: self.scanned as nat,
            raws: self.raws@,
        }
    }
}

impl Scanner {
    /// The records kept so far.
    pub closed spec fn found(&self) -> Seq<Record> {
        records(self.found@)
    }

    /// The graph kept so far.
    pub closed spec fn graph(&self) -> GraphModel {
        self.graph@
    }

    /// The invariant of a scan: its state is consistent, the records kept are
    /// those of the reported transactions that touch the target, and the
    /// graph is the graph of those records.
    pub closed spec fn wf(&self) -> bool {
        &&& consistent(self@)
        &&& self.graph.wf()
        &&& records(self.found@) == scan_records(self.target@, self.raws@)
        &&& self.graph@ == graph_of(records(self.found@))
    }

    /// At every moment of a scan the records kept are those of the reported
    /// transactions that touch the target, and the graph is their graph.
    pub proof fn lemma_wf(&self)
        requires
            self.wf(),
        ensures
            consistent(self@),
            self.found() == scan_records(self@.target, self@.raws),
            self.graph() == graph_of(self.found()),
    {
    }

    /// Whether the scan can take `event` in: a block must leave the number of
    /// records kept within `MAX_RECORDS`.
    pub closed spec fn has_room(&self, event: ScanEvent) -> bool {
        match event {
            ScanEvent::Block(block) => self.found@.len() + block@.len() <= MAX_RECORDS,
            _ => true,
        }
    }

    /// Whether the scan can take `event` in.
    pub fn can_take(&self, event: &ScanEvent) -> (r: bool)
        ensures
            r == self.has_room(*event),
    {
        match event {
            ScanEvent::Block(block) => {
                self.found.len() <= MAX_RECORDS && block.len() <= MAX_RECORDS - self.found.len()
            },
            _ => true,
        }
    }

    /// Begins a scan of `limit` blocks for the address that `address` spells.
    /// Fails with `MalformedAddress` exactly when the text spells none.
    pub fn start(address: &str, limit: usize) -> (r: Result<Scanner, ScanError>)
        ensures
            parsed_address(address@).is_none() ==> r is Err && r->Err_0
                == ScanError::MalformedAddress,
            parsed_address(address@).is_some() ==> r is Ok && r->Ok_0.wf() && r->Ok_0@
                == (ScanModel {
                target: parsed_address(address@).unwrap(),
                limit: limit as nat,
                phase: ScanPhase::AwaitingHeight,
                range: None,
                scanned: 0,
                raws: Seq::empty(),
            }),
    {
        match Address::parse(address) {
            None => Err(ScanError::MalformedAddress),
            Some(target) => {
                let s = Scanner {
                    target,
                    limit,
                    phase: ScanPhase::AwaitingHeight,
                    range: None,
                    scanned: 0,
                    found: Vec::new(),
                    graph: TxGraph::new(),
                    raws: Ghost(Seq::empty()),
                };
                proof {
                    assert(records(s.found@) =~= Seq::<Record>::empty());
                    assert(scan_records(s.target@, s.raws@) =~= Seq::<Record>::empty());
                }
                Ok(s)
            },
        }
    }

    /// What the scan asks for now.
    pub fn action(&self) -> (a: ScanAction)
        requires
            self.wf(),
        ensures
            a == pending_action(self@),
    {
        match self.phase {
            ScanPhase::AwaitingHeight => ScanAction::QueryHeight,
            ScanPhase::Fetching => {
                match self.range {
                    Some(range) => ScanAction::FetchBlock(range.latest - self.scanned),
                    None => ScanAction::QueryHeight,
                }
            },
            ScanPhase::Finished => ScanAction::Done,
            ScanPhase::Failed(e) => ScanAction::Abort(e),
        }
    }

    /// Takes in the answer to the last request and says what to do next.
    pub fn step(&mut self, event: ScanEvent) -> (a: ScanAction)
        requires
            old(self).wf(),
            old(self).has_room(event),
        ensures
            final(self).wf(),
            final(self)@ == next_state(old(self)@, event),
            final(self).found() == scan_records(final(self)@.target, final(self)@.raws),
            final(self).graph() == graph_of(final(self).found()),
            a == pending_action(final(self)@),
    {
        match self.phase {
            ScanPhase::AwaitingHeight => {
                match event {
                    ScanEvent::Height(latest) => {
                        match ScanRange::new(latest, self.limit) {
                            Ok(range) => {
                                self.range = Some(range);
                                self.phase = if self.limit == 0 {
                                    ScanPhase::Finished
                                } else {
                                    ScanPhase::Fetching
                                };
                            },
                            Err(e) => {
                                self.phase = ScanPhase::Failed(e);
                            },
                        }
                    },
                    ScanEvent::HeightUnavailable => {
                        self.phase = ScanPhase::Failed(ScanError::HeightUnavailable);
                    },
                    _ => {},
                }
            },
            ScanPhase::Fetching => {
                match event {
                    ScanEvent::Block(block) => {
                        collect_block(
                            &self.target,
                            &block,
                            &mut self.found,
                            &mut self.graph,
                            Ghost(self.raws@),
                        );
                        self.raws = Ghost(self.raws@ + block@);
                        self.advance();
                    },
                    ScanEvent::BlockAbsent => {
                        self.advance();
                    },
                    ScanEvent::BlockFailed => {
                        self.phase = ScanPhase::Failed(ScanError::BlockFetchFailed);
                    },
                    _ => {},
                }
            },
            _ => {},
        }
        self.action()
    }

    /// Counts one more block as walked.
    fn advance(&mut self)
        requires
            old(self).phase == ScanPhase::Fetching,
            old(self).range.is_some(),
            old(self).range.unwrap().wf(),
            old(self).range.unwrap().count == old(self).limit,
            old(self).scanned < old(self).limit,
        ensures
            final(self).scanned == old(self).scanned + 1,
            final(self).phase == phase_after(final(self).scanned as nat, old(self).limit as nat),
            final(self).target == old(self).target,
            final(self).limit == old(self).limit,
            final(self).range == old(self).range,
            final(self).found == old(self).found,
            final(self).graph == old(self).graph,
            final(self).raws == old(self).raws,
    {
        self.scanned = self.scanned + 1;
        if self.scanned >= self.limit as u64 {
            self.phase = ScanPhase::Finished;
        }
    }

    /// The address that the scan looks for.
    pub fn target(&self) -> (r: Address)
        ensures
            r@ == self@.target,
    {
        self.target
    }

    /// The scan's result once it is complete: the records of the
    /// transactions that touch the target, in the order in which the blocks
    /// were walked and in each block's own order, and their graph. Nothing
    /// is handed out of a scan that failed or is still under way.
    pub fn finish(self) -> (r: Option<(Vec<Transaction>, TxGraph)>)
        requires
            self.wf(),
        ensures
            r.is_some() == (self@.phase == ScanPhase::Finished),
            r.is_some() ==> {
                &&& records(r.unwrap().0@) == scan_records(self@.target, self@.raws)
                &&& r.unwrap().1.wf()
                &&& r.unwrap().1@ == graph_of(records(r.unwrap().0@))
                &&& r.unwrap().1@.edges.len() == r.unwrap().0@.len()
            },
            r.is_some() ==> forall|i: int|
                0 <= i < r.unwrap().0@.len() ==> touches((#[trigger] r.unwrap().0@[i])@, self@.target),
    {
        proof {
            lemma_graph_of_shape(records(self.found@));
            assert forall|i: int| 0 <= i < self.found@.len() implies touches(
                (#[trigger] self.found@[i])@,
                self@.target,
            ) by {
                let kept = self.target@;
                let all = self.raws@.map_values(|t: RawTransaction| record_of(t));
                all.lemma_filter_pred(|r: Record| touches(r, kept), i);
                assert(records(self.found@)[i] == self.found@[i]@);
            }
        }
        match self.phase {
            ScanPhase::Finished => Some((self.found, self.graph)),
            _ => None,
        }
    }

    /// The error of a scan that failed.
    pub fn error(&self) -> (r: Option<ScanError>)
        ensures
            r.is_some() == (self@.phase is Failed),
            r.is_some() ==> self@.phase == ScanPhase::Failed(r.unwrap()),
    {
        match self.phase {
            ScanPhase::Failed(e) => Some(e),
            _ => None,
        }
    }
}

} // verus!
