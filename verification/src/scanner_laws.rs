use vstd::prelude::*;
use crate::scanner::{
    consistent, next_state, pending_action, phase_after, range_fits, scan_records, ScanAction,
    ScanError, ScanEvent, ScanModel, ScanPhase,
};
use crate::transaction::{record_of, touches, RawTransaction, Record};

verus! {

/// Whether `record` is the record of one of the transactions `raws`.
pub open spec fn reported(raws: Seq<RawTransaction>, record: Record) -> bool {
    exists|j: int| 0 <= j < raws.len() && record_of(#[trigger] raws[j]) == record
}

/// A scan keeps the transactions that touch the target and no others: every
/// record kept names the target as its sender or its recipient, every record
/// kept is the record of a transaction that was reported, and the record of
/// every reported transaction that touches the target is kept.
pub proof fn lemma_scan_filters(target: Seq<u8>, raws: Seq<RawTransaction>)
    ensures
        forall|i: int|
            0 <= i < scan_records(target, raws).len() ==> touches(
                #[trigger] scan_records(target, raws)[i],
                target,
            ),
        forall|i: int|
            0 <= i < scan_records(target, raws).len() ==> reported(
                raws,
                #[trigger] scan_records(target, raws)[i],
            ),
        forall|j: int|
            0 <= j < raws.len() && touches(record_of(raws[j]), target) ==> scan_records(
                target,
                raws,
            ).contains(record_of(#[trigger] raws[j])),
        scan_records(target, raws).len() <= raws.len(),
{
    let f = |t: RawTransaction| record_of(t);
    let p = |r: Record| touches(r, target);
    let all = raws.map_values(f);
    let kept = scan_records(target, raws);
    assert(kept == all.filter(p));
    all.lemma_filter_len(p);
    assert forall|i: int| 0 <= i < kept.len() implies touches(#[trigger] kept[i], target) by {
        all.lemma_filter_pred(p, i);
    }
    assert forall|i: int| 0 <= i < kept.len() implies reported(raws, #[trigger] kept[i]) by {
        assert(kept.contains(kept[i]));
        all.lemma_filter_contains_rev(p, kept[i]);
        let j = choose|j: int| 0 <= j < all.len() && all[j] == kept[i];
        assert(record_of(raws[j]) == kept[i]);
    }
    assert forall|j: int|
        0 <= j < raws.len() && touches(record_of(raws[j]), target) implies kept.contains(
        record_of(#[trigger] raws[j]),
    ) by {
        assert(all[j] == record_of(raws[j]));
        all.lemma_filter_contains(p, j);
    }
}

/// The blocks of a range are asked for from the latest down, one height
/// lower with every block taken in.
pub proof fn lemma_fetch_order(m: ScanModel)
    requires
        consistent(m),
        m.phase == ScanPhase::Fetching,
    ensures
        m.scanned < m.range.unwrap().heights().len(),
        pending_action(m) == ScanAction::FetchBlock(m.range.unwrap().heights()[m.scanned as int]),
{
}

/// A range longer than the chain fails the scan as soon as the height is
/// known, before any block is asked for, and a failed scan stays failed.
pub proof fn lemma_invalid_range(m: ScanModel, latest: u64, event: ScanEvent)
    requires
        consistent(m),
        m.phase == ScanPhase::AwaitingHeight,
        m.limit > latest + 1,
    ensures
        next_state(m, ScanEvent::Height(latest)).phase == ScanPhase::Failed(ScanError::InvalidRange),
        next_state(m, ScanEvent::Height(latest)).raws.len() == 0,
        pending_action(next_state(m, ScanEvent::Height(latest))) == ScanAction::Abort(
            ScanError::InvalidRange,
        ),
        next_state(next_state(m, ScanEvent::Height(latest)), event) == next_state(
            m,
            ScanEvent::Height(latest),
        ),
{
}

/// Every step keeps the state consistent, and never changes whom the scan
/// looks for or how many blocks it is to walk.
pub proof fn lemma_step_consistent(m: ScanModel, event: ScanEvent)
    requires
        consistent(m),
    ensures
        consistent(next_state(m, event)),
        next_state(m, event).target == m.target,
        next_state(m, event).limit == m.limit,
{
}

/// The state after a run of events from `m`.
pub open spec fn state_after(m: ScanModel, events: Seq<ScanEvent>) -> ScanModel
    decreases events.len(),
{
    if events.len() == 0 {
        m
    } else {
        next_state(state_after(m, events.drop_last()), events.last())
    }
}

/// The events that report these blocks, one after the other.
pub open spec fn block_events(blocks: Seq<Vec<RawTransaction>>) -> Seq<ScanEvent> {
    blocks.map_values(|b: Vec<RawTransaction>| ScanEvent::Block(b))
}

/// The transactions of these blocks, block after block.
pub open spec fn contents(blocks: Seq<Vec<RawTransaction>>) -> Seq<RawTransaction> {
    blocks.map_values(|b: Vec<RawTransaction>| b@).flatten()
}

/// While blocks of the range are left, taking in some of them leaves the
/// scan with exactly their transactions, in order.
proof fn lemma_partial_scan(m: ScanModel, blocks: Seq<Vec<RawTransaction>>)
    requires
        consistent(m),
        m.phase == ScanPhase::Fetching,
        m.scanned == 0,
        m.raws.len() == 0,
        blocks.len() <= m.limit,
    ensures
        consistent(state_after(m, block_events(blocks))),
        state_after(m, block_events(blocks)).scanned == blocks.len(),
        state_after(m, block_events(blocks)).raws == contents(blocks),
        state_after(m, block_events(blocks)).phase == phase_after(blocks.len(), m.limit),
        state_after(m, block_events(blocks)).limit == m.limit,
        state_after(m, block_events(blocks)).target == m.target,
        state_after(m, block_events(blocks)).range == m.range,
    decreases blocks.len(),
{
    if blocks.len() == 0 {
        assert(contents(blocks) =~= Seq::<RawTransaction>::empty());
        assert(m.raws =~= Seq::<RawTransaction>::empty());
    } else {
        let rest = blocks.drop_last();
        let last = blocks.last();
        lemma_partial_scan(m, rest);
        assert(block_events(blocks).drop_last() =~= block_events(rest));
        assert(block_events(blocks).last() == ScanEvent::Block(last));
        let views = |b: Vec<RawTransaction>| b@;
        assert(blocks.map_values(views) =~= rest.map_values(views).push(last@));
        rest.map_values(views).lemma_flatten_push(last@);
    }
}

/// A whole scan: once the height `latest` is known and fits the range, taking
/// in as many blocks as were asked for completes the scan, and what it has
/// seen is exactly the transactions of those blocks, block after block.
pub proof fn lemma_full_scan(m: ScanModel, latest: u64, blocks: Seq<Vec<RawTransaction>>)
    requires
        consistent(m),
        m.phase == ScanPhase::AwaitingHeight,
        range_fits(latest, m.limit),
        blocks.len() == m.limit,
    ensures
        ({
            let end = state_after(next_state(m, ScanEvent::Height(latest)), block_events(blocks));
            &&& end.phase == ScanPhase::Finished
            &&& end.raws == contents(blocks)
            &&& end.target == m.target
            &&& pending_action(end) == ScanAction::Done
        }),
{
    let begun = next_state(m, ScanEvent::Height(latest));
    if m.limit == 0 {
        assert(block_events(blocks).len() == 0);
        assert(contents(blocks) =~= Seq::<RawTransaction>::empty());
        assert(begun.raws =~= Seq::<RawTransaction>::empty());
    } else {
        lemma_partial_scan(begun, blocks);
    }
}

} // verus!
