use vstd::prelude::*;

verus! {

/// The lowercase hexadecimal digit for a value below sixteen.
pub open spec fn hex_digit(n: int) -> char {
    if n == 0 {
        '0'
    } else if n == 1 {
        '1'
    } else if n == 2 {
        '2'
    } else if n == 3 {
        '3'
    } else if n == 4 {
        '4'
    } else if n == 5 {
        '5'
    } else if n == 6 {
        '6'
    } else if n == 7 {
        '7'
    } else if n == 8 {
        '8'
    } else if n == 9 {
        '9'
    } else if n == 10 {
        'a'
    } else if n == 11 {
        'b'
    } else if n == 12 {
        'c'
    } else if n == 13 {
        'd'
    } else if n == 14 {
        'e'
    } else {
        'f'
    }
}

/// The value of a hexadecimal digit of either case, or -1 for any other character.
pub open spec fn hex_value(c: char) -> int {
    if c == '0' {
        0
    } else if c == '1' {
        1
    } else if c == '2' {
        2
    } else if c == '3' {
        3
    } else if c == '4' {
        4
    } else if c == '5' {
        5
    } else if c == '6' {
        6
    } else if c == '7' {
        7
    } else if c == '8' {
        8
    } else if c == '9' {
        9
    } else if c == 'a' || c == 'A' {
        10
    } else if c == 'b' || c == 'B' {
        11
    } else if c == 'c' || c == 'C' {
        12
    } else if c == 'd' || c == 'D' {
        13
    } else if c == 'e' || c == 'E' {
        14
    } else if c == 'f' || c == 'F' {
        15
    } else {
        -1
    }
}

pub open spec fn is_hex_digit(c: char) -> bool {
    hex_value(c) >= 0
}

/// The characters that a hexadecimal reader passes over between digits.
pub open spec fn is_hex_space(c: char) -> bool {
    c == ' ' || c == '\r' || c == '\n' || c == '\t'
}

/// The character at position `i` of the hexadecimal text of `bytes`:
/// the prefix `0x`, then two lowercase digits per byte, high nibble first.
pub open spec fn hex_text_at(bytes: Seq<u8>, i: int) -> char {
    if i == 0 {
        '0'
    } else if i == 1 {
        'x'
    } else if (i - 2) % 2 == 0 {
        hex_digit((bytes[(i - 2) / 2] as int) / 16)
    } else {
        hex_digit((bytes[(i - 2) / 2] as int) % 16)
    }
}

/// `0x` followed by the lowercase hexadecimal digits of `bytes`.
pub open spec fn hex_text(bytes: Seq<u8>) -> Seq<char> {
    Seq::new(2 + 2 * bytes.len(), |i: int| hex_text_at(bytes, i))
}

/// `s` without a leading `0x`, if it has one.
pub open spec fn without_prefix(s: Seq<char>) -> Seq<char> {
    if s.len() >= 2 && s[0] == '0' && s[1] == 'x' {
        s.skip(2)
    } else {
        s
    }
}

/// The hexadecimal digits of `s`: what is left when an optional `0x` prefix
/// and all passed-over characters are removed.
pub open spec fn hex_digits_of(s: Seq<char>) -> Seq<char> {
    without_prefix(s).filter(|c: char| !is_hex_space(c))
}

/// The byte written by the two digits at positions `2 * i` and `2 * i + 1`.
pub open spec fn byte_at(digits: Seq<char>, i: int) -> u8 {
    (16 * hex_value(digits[2 * i]) + hex_value(digits[2 * i + 1])) as u8
}

/// The `n` bytes that `s` spells in hexadecimal, if it spells exactly that many.
pub open spec fn parsed_hex(s: Seq<char>, n: nat) -> Option<Seq<u8>> {
    let digits = hex_digits_of(s);
    if digits.len() == 2 * n && (forall|i: int| 0 <= i < digits.len() ==> is_hex_digit(#[trigger] digits[i])) {
        Some(Seq::new(n, |i: int| byte_at(digits, i)))
    } else {
        None
    }
}

/// Two byte strings with the same hexadecimal text are the same.
pub proof fn lemma_hex_text_injective(a: Seq<u8>, b: Seq<u8>)
    requires
        hex_text(a) == hex_text(b),
    ensures
        a == b,
{
    assert(hex_text(a).len() == 2 + 2 * a.len());
    assert(hex_text(b).len() == 2 + 2 * b.len());
    assert forall|k: int| 0 <= k < a.len() implies a[k] == b[k] by {
        let hi = 2 + 2 * k;
        let lo = 3 + 2 * k;
        assert((hi - 2) / 2 == k && (hi - 2) % 2 == 0);
        assert((lo - 2) / 2 == k && (lo - 2) % 2 == 1);
        assert(hex_text(a)[hi] == hex_text_at(a, hi));
        assert(hex_text(b)[hi] == hex_text_at(b, hi));
        assert(hex_text(a)[lo] == hex_text_at(a, lo));
        assert(hex_text(b)[lo] == hex_text_at(b, lo));
        let x = a[k] as int;
        let y = b[k] as int;
        assert(hex_digit(x / 16) == hex_digit(y / 16));
        assert(hex_digit(x % 16) == hex_digit(y % 16));
        assert(0 <= x / 16 < 16 && 0 <= y / 16 < 16);
        assert(x / 16 == y / 16);
        assert(x % 16 == y % 16);
    }
    assert(a =~= b);
}

/// Filtering keeps a sequence as it is when every element passes.
proof fn lemma_filter_keeps_all(s: Seq<char>, pred: spec_fn(char) -> bool)
    requires
        forall|i: int| 0 <= i < s.len() ==> pred(#[trigger] s[i]),
    ensures
        s.filter(pred) == s,
    decreases s.len(),
{
    if s.len() == 0 {
        assert(s =~= Seq::<char>::empty());
        Seq::<char>::empty().lemma_filter_len(pred);
        assert(s.filter(pred) =~= s);
    } else {
        let rest = s.drop_last();
        lemma_filter_keeps_all(rest, pred);
        assert(s =~= rest.push(s.last()));
        rest.lemma_filter_push(s.last(), pred);
    }
}

/// A hexadecimal digit has the value it was written for.
proof fn lemma_hex_digit_value(n: int)
    requires
        0 <= n < 16,
    ensures
        hex_value(hex_digit(n)) == n,
        !is_hex_space(hex_digit(n)),
{
}

/// The hexadecimal text of a byte string spells that byte string.
pub proof fn lemma_hex_text_parses_back(bytes: Seq<u8>)
    ensures
        parsed_hex(hex_text(bytes), bytes.len()) == Some(bytes),
{
    let text = hex_text(bytes);
    let body = without_prefix(text);
    assert(text[0] == '0' && text[1] == 'x');
    assert(body == text.skip(2));
    assert(body.len() == 2 * bytes.len());
    let pred = |c: char| !is_hex_space(c);
    assert forall|i: int| 0 <= i < body.len() implies pred(#[trigger] body[i]) && is_hex_digit(
        body[i],
    ) by {
        assert(body[i] == hex_text_at(bytes, i + 2));
        let b = bytes[i / 2] as int;
        lemma_hex_digit_value(b / 16);
        lemma_hex_digit_value(b % 16);
    }
    lemma_filter_keeps_all(body, pred);
    let digits = hex_digits_of(text);
    assert(digits == body);
    let spelled = Seq::new(bytes.len(), |i: int| byte_at(digits, i));
    assert forall|i: int| 0 <= i < bytes.len() implies spelled[i] == bytes[i] by {
        let b = bytes[i] as int;
        assert(digits[2 * i] == hex_text_at(bytes, 2 * i + 2));
        assert(digits[2 * i + 1] == hex_text_at(bytes, 2 * i + 3));
        assert((2 * i + 2 - 2) / 2 == i && (2 * i + 2 - 2) % 2 == 0);
        assert((2 * i + 3 - 2) / 2 == i && (2 * i + 3 - 2) % 2 == 1);
        lemma_hex_digit_value(b / 16);
        lemma_hex_digit_value(b % 16);
        assert(16 * (b / 16) + b % 16 == b);
    }
    assert(spelled =~= bytes);
}

} // verus!
