use vstd::prelude::*;
use crate::address::Address;
use crate::amount::Wei;
use crate::hex::hex_text;

verus! {

/// The identifier of a transaction: thirty-two bytes.
#[derive(Clone, Copy, Debug, PartialEq, Eq, Hash)]
pub struct TxHash {
    pub bytes: [u8; 32],
}

impl View for TxHash {
    type V = Seq<u8>;

    open spec fn view(&self) -> Seq<u8> {
        self.bytes@
    }
}

/// Formats an `ethers::types::H256` with `{:?}`. The contract says that the
/// result is `0x` followed by two lowercase hexadecimal digits for each of the
/// thirty-two bytes, in order.
#[verifier::external_body]
fn h256_text(h: &TxHash) -> (r: String)
    ensures
        r@ == hex_text(h@),
{
    format!("{:?}", ethers::types::H256(h.bytes))
}

impl TxHash {
    /// The hash as text: `0x` and sixty-four lowercase hexadecimal digits.
    pub fn label(&self) -> (r: String)
        ensures
            r@ == hex_text(self@),
            r@.len() == 66,
    {
        h256_text(self)
    }
}

/// A transaction as the chain reports it. A transaction that creates a
/// contract has no recipient.
#[derive(Clone, Copy, Debug, PartialEq, Eq)]
pub struct RawTransaction {
    pub from: Address,
    pub to: Option<Address>,
    pub value: Wei,
    pub hash: TxHash,
}

/// One transfer that touches the analysed address, ready for display.
#[derive(Clone, Debug, PartialEq, Eq)]
pub struct Transaction {
    pub from: Address,
    pub to: Address,
    pub value: Wei,
    pub hash: String,
}

/// What a transaction record says: the sender, the recipient, the amount in
/// wei and the hash as text.
pub struct Record {
    pub from: Seq<u8>,
    pub to: Seq<u8>,
    pub value: nat,
    pub hash: Seq<char>,
}

impl View for Transaction {
    type V = Record;

    open spec fn view(&self) -> Record {
        Record { from: self.from@, to: self.to@, value: self.value@, hash: self.hash@ }
    }
}

/// What each of a sequence of transaction records says.
pub open spec fn records(txs: Seq<Transaction>) -> Seq<Record> {
    txs.map_values(|t: Transaction| t@)
}

/// The bytes of the zero address.
pub open spec fn zero_address() -> Seq<u8> {
    Seq::new(20, |i: int| 0u8)
}

/// The recipient recorded for a transaction: its own, or the zero address when it has none.
pub open spec fn recipient_of(to: Option<Address>) -> Seq<u8> {
    match to {
        Some(a) => a@,
        None => zero_address(),
    }
}

/// The record of a transaction as the chain reports it: the zero address
/// stands for an absent recipient, and the hash is written as text.
pub open spec fn record_of(raw: RawTransaction) -> Record {
    Record {
        from: raw.from@,
        to: recipient_of(raw.to),
        value: raw.value@,
        hash: hex_text(raw.hash@),
    }
}

/// Whether `target` is the sender or the recipient that the record names.
pub open spec fn touches(record: Record, target: Seq<u8>) -> bool {
    record.from == target || record.to == target
}

impl RawTransaction {
    /// Whether this transaction has `target` as its sender or as its
    /// recipient. A transaction without recipient counts as sent to the zero
    /// address.
    pub fn involves(&self, target: &Address) -> (r: bool)
        ensures
            r == touches(record_of(*self), target@),
    {
        if self.from.same(target) {
            true
        } else {
            match &self.to {
                Some(to) => to.same(target),
                None => Address::zero().same(target),
            }
        }
    }

    /// The record of this transaction: an absent recipient becomes the zero
    /// address, and the hash becomes text.
    pub fn normalize(&self) -> (r: Transaction)
        ensures
            r@ == record_of(*self),
    {
        let to = match self.to {
            Some(a) => a,
            None => Address::zero(),
        };
        Transaction { from: self.from, to, value: self.value, hash: self.hash.label() }
    }
}

} // verus!
