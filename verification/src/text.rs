use vstd::prelude::*;
use vstd::string::*;

verus! {

/// Width, in display characters, to which addresses and hashes are cut when shown.
pub const DISPLAY_WIDTH: usize = 10;

/// The first `max_len` characters of `s`, or all of `s` when it has no more than that.
pub open spec fn truncated(s: Seq<char>, max_len: nat) -> Seq<char> {
    if s.len() <= max_len {
        s
    } else {
        s.take(max_len as int)
    }
}

/// Cuts `s` to at most `max_len` characters. The cut falls between characters,
/// never inside the encoding of one.
pub fn safe_truncate(s: &str, max_len: usize) -> (r: String)
    ensures
        r@ == truncated(s@, max_len as nat),
        s@.len() <= max_len ==> r@ == s@,
        s@.len() > max_len ==> r@.len() == max_len && r@.is_prefix_of(s@),
{
    let n: usize = s.unicode_len();
    if n <= max_len {
        String::from_str(s)
    } else {
        String::from_str(s.substring_char(0, max_len))
    }
}

} // verus!
