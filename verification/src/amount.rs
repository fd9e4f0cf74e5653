use vstd::prelude::*;

verus! {

/// Number of wei in one ether.
pub open spec fn wei_per_ether() -> nat {
    1_000_000_000_000_000_000
}

/// Number of decimal places shown after the point of an amount in ether.
pub open spec fn ether_decimals() -> nat {
    18
}

/// An amount in wei, the smallest unit of the chain: an unsigned number of 256
/// bits, held as four words of 64 bits, least significant first.
#[derive(Clone, Copy, Debug, PartialEq, Eq, Hash)]
pub struct Wei {
    pub limbs: [u64; 4],
}

impl View for Wei {
    type V = nat;

    open spec fn view(&self) -> nat {
        (self.limbs@[0] as nat) + (self.limbs@[1] as nat) * 0x1_0000_0000_0000_0000 + (
        self.limbs@[2] as nat) * 0x1_0000_0000_0000_0000_0000_0000_0000_0000 + (
        self.limbs@[3] as nat) * 0x1_0000_0000_0000_0000_0000_0000_0000_0000_0000_0000_0000_0000
    }
}

/// The character for a decimal digit.
pub open spec fn decimal_digit(d: nat) -> char {
    if d == 0 {
        '0'
    } else if d == 1 {
        '1'
    } else if d == 2 {
        '2'
    } else if d == 3 {
        '3'
    } else if d == 4 {
        '4'
    } else if d == 5 {
        '5'
    } else if d == 6 {
        '6'
    } else if d == 7 {
        '7'
    } else if d == 8 {
        '8'
    } else {
        '9'
    }
}

/// The decimal numeral of `n`, without leading zeros.
pub open spec fn decimal_text(n: nat) -> Seq<char>
    decreases n,
{
    if n < 10 {
        seq![decimal_digit(n)]
    } else {
        decimal_text(n / 10).push(decimal_digit(n % 10))
    }
}

/// `s` with zeros put in front until it has `width` characters.
pub open spec fn zero_padded(s: Seq<char>, width: nat) -> Seq<char> {
    if s.len() >= width {
        s
    } else {
        Seq::new((width - s.len()) as nat, |i: int| '0') + s
    }
}

/// An amount of wei written in ether: the whole ethers, a point, and the
/// remaining wei on eighteen places.
pub open spec fn ether_text(wei: nat) -> Seq<char> {
    decimal_text(wei / wei_per_ether()) + seq!['.'] + zero_padded(
        decimal_text(wei % wei_per_ether()),
        ether_decimals(),
    )
}

/// Calls `ethers::utils::format_units` with the unit `"ether"`. The contract
/// says that the result is the quotient of the amount by ten to the
/// eighteenth in decimal, a point, and the remainder in decimal, filled with
/// zeros from the left to eighteen places. For this unit the call has no error.
#[verifier::external_body]
fn format_ether_units(value: &Wei) -> (r: String)
    ensures
        r@ == ether_text(value@),
{
    ethers::utils::format_units(ethers::types::U256(value.limbs), "ether").unwrap_or_default()
}

impl Wei {
    /// The amount of `v` wei.
    pub fn from_u64(v: u64) -> (r: Wei)
        ensures
            r@ == v,
    {
        Wei { limbs: [v, 0, 0, 0] }
    }

    /// The amount written in ether, as it is shown to the user.
    pub fn to_ether_string(&self) -> (r: String)
        ensures
            r@ == ether_text(self@),
    {
        format_ether_units(self)
    }
}

/// Ten to the power `k`.
pub open spec fn pow10(k: nat) -> nat
    decreases k,
{
    if k == 0 {
        1
    } else {
        10 * pow10((k - 1) as nat)
    }
}

/// A number below ten to the `k` has at most `k` digits, and every number has one.
pub proof fn lemma_decimal_len(n: nat, k: nat)
    requires
        k >= 1,
        n < pow10(k),
    ensures
        1 <= decimal_text(n).len() <= k,
    decreases k,
{
    if n >= 10 {
        if k == 1 {
            assert(pow10(1) == 10 * pow10(0));
        } else {
            lemma_decimal_len(n / 10, (k - 1) as nat);
        }
    }
}

/// An amount in ether is written with exactly eighteen places after the point.
pub proof fn lemma_ether_text_places(wei: nat)
    ensures
        ether_text(wei).len() == decimal_text(wei / wei_per_ether()).len() + 1 + 18,
        ether_text(wei)[decimal_text(wei / wei_per_ether()).len() as int] == '.',
{
    assert(pow10(18) == wei_per_ether()) by {
        reveal_with_fuel(pow10, 19);
    }
    lemma_decimal_len(wei % wei_per_ether(), 18);
}

} // verus!
