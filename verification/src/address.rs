use vstd::prelude::*;
use crate::hex::{hex_text, lemma_hex_text_injective, lemma_hex_text_parses_back, parsed_hex};

verus! {

/// A blockchain account address: twenty bytes, the identity of an account.
#[derive(Clone, Copy, Debug, PartialEq, Eq, Hash)]
pub struct Address {
    pub bytes: [u8; 20],
}

impl View for Address {
    type V = Seq<u8>;

    open spec fn view(&self) -> Seq<u8> {
        self.bytes@
    }
}

/// The canonical text of an address: `0x` and forty lowercase hexadecimal digits.
pub open spec fn address_label(bytes: Seq<u8>) -> Seq<char> {
    hex_text(bytes)
}

/// The address that a text spells, if it spells one: forty hexadecimal digits
/// of either case, optionally led by `0x`. Spaces, tabs and line ends among
/// the digits are passed over.
pub open spec fn parsed_address(s: Seq<char>) -> Option<Seq<u8>> {
    parsed_hex(s, 20)
}

/// Calls `ethers::types::H160::from_str`. The contract says that the call
/// succeeds exactly on the texts that `parsed_address` accepts (after an
/// optional `0x`, forty hexadecimal digits, with nothing else among them but
/// spaces, tabs and line ends), and that the bytes of the address are the
/// ones those digits spell, first digit highest.
#[verifier::external_body]
fn parse_h160(s: &str) -> (r: Option<Address>)
    ensures
        r.is_some() == parsed_address(s@).is_some(),
        r.is_some() ==> r.unwrap()@ == parsed_address(s@).unwrap(),
{
    match s.parse::<ethers::types::H160>() {
        Ok(a) => Some(Address { bytes: a.0 }),
        Err(_) => None,
    }
}

/// Formats an `ethers::types::H160` with `{:?}`. The contract says that the
/// result is `0x` followed by two lowercase hexadecimal digits for each of the
/// twenty bytes, in order.
#[verifier::external_body]
fn h160_text(a: &Address) -> (r: String)
    ensures
        r@ == hex_text(a@),
{
    format!("{:?}", ethers::types::H160(a.bytes))
}

impl Address {
    /// The address whose bytes are all zero, which stands in for an absent recipient.
    pub fn zero() -> (r: Address)
        ensures
            r@ == Seq::new(20, |i: int| 0u8),
    {
        let r = Address { bytes: [0u8; 20] };
        assert(r@ =~= Seq::new(20, |i: int| 0u8));
        r
    }

    /// Whether two addresses are the same account.
    pub fn same(&self, other: &Address) -> (r: bool)
        ensures
            r == (self@ == other@),
    {
        let mut i: usize = 0;
        while i < 20
            invariant
                0 <= i <= 20,
                forall|k: int| 0 <= k < i ==> self@[k] == other@[k],
            decreases 20 - i,
        {
            if self.bytes[i] != other.bytes[i] {
                return false;
            }
            i += 1;
        }
        assert(self@ =~= other@);
        true
    }

    /// Reads an address from text. Both cases of digit are accepted, so that
    /// two spellings of one address give the same value.
    pub fn parse(s: &str) -> (r: Option<Address>)
        ensures
            r.is_some() == parsed_address(s@).is_some(),
            r.is_some() ==> r.unwrap()@ == parsed_address(s@).unwrap(),
    {
        parse_h160(s)
    }

    /// The canonical text of this address.
    pub fn label(&self) -> (r: String)
        ensures
            r@ == address_label(self@),
            r@.len() == 42,
    {
        h160_text(self)
    }
}

/// Different addresses have different canonical texts.
pub proof fn lemma_label_injective(a: Seq<u8>, b: Seq<u8>)
    requires
        address_label(a) == address_label(b),
    ensures
        a == b,
{
    lemma_hex_text_injective(a, b);
}

/// The canonical text of an address is read back as that address.
pub proof fn lemma_label_parses_back(a: Seq<u8>)
    requires
        a.len() == 20,
    ensures
        parsed_address(address_label(a)) == Some(a),
{
    lemma_hex_text_parses_back(a);
}

} // verus!
