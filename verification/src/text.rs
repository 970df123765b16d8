//! Zero-terminated text fields. A raw record carries text in a fixed-size
//! byte window; the decoded form is the window's bytes up to (not including)
//! the first zero byte, or the whole window when it has none, each byte read
//! as the character with the same code.

use vstd::prelude::*;

verus! {

/// Index of the first zero byte in `s`, or `s.len()` when there is none.
pub open spec fn first_zero(s: Seq<u8>) -> int
    decreases s.len(),
{
    if s.len() == 0 {
        0
    } else if s[0] == 0 {
        0
    } else {
        1 + first_zero(s.drop_first())
    }
}

/// `first_zero` finds the first zero byte: everything before it is nonzero,
/// and it points at a zero byte unless the window holds none at all.
pub proof fn lemma_first_zero(s: Seq<u8>)
    ensures
        0 <= first_zero(s) <= s.len(),
        forall|i: int| 0 <= i < first_zero(s) ==> s[i] != 0,
        first_zero(s) < s.len() ==> s[first_zero(s)] == 0,
    decreases s.len(),
{
    if s.len() == 0 {
    } else if s[0] == 0 {
    } else {
        let t = s.drop_first();
        lemma_first_zero(t);
        assert forall|i: int| 0 <= i < first_zero(s) implies s[i] != 0 by {
            if i > 0 {
                assert(t[i - 1] == s[i]);
            }
        }
        if first_zero(s) < s.len() {
            assert(s[first_zero(s)] == t[first_zero(t)]);
        }
    }
}

/// The decoded form of a fixed-size text window.
pub open spec fn spec_text(s: Seq<u8>) -> Seq<char> {
    Seq::new(first_zero(s) as nat, |i: int| s[i] as char)
}

/// When the window has a zero byte at offset `k` and none earlier, the
/// decoded text is exactly the first `k` bytes read as characters.
pub proof fn lemma_text_stops_at_zero(s: Seq<u8>, k: int)
    requires
        0 <= k < s.len(),
        s[k] == 0,
        forall|i: int| 0 <= i < k ==> s[i] != 0,
    ensures
        spec_text(s) == Seq::new(k as nat, |i: int| s[i] as char),
{
    lemma_first_zero(s);
    assert(first_zero(s) == k) by {
        if first_zero(s) < k {
            assert(s[first_zero(s)] != 0);
        }
        if k < first_zero(s) {
            assert(s[k] != 0);
        }
    }
}

/// When the window has no zero byte, the decoded text is the whole window
/// read as characters.
pub proof fn lemma_text_full_window(s: Seq<u8>)
    requires
        forall|i: int| 0 <= i < s.len() ==> s[i] != 0,
    ensures
        spec_text(s) == Seq::new(s.len(), |i: int| s[i] as char),
{
    lemma_first_zero(s);
    assert(first_zero(s) == s.len()) by {
        if first_zero(s) < s.len() {
            assert(s[first_zero(s)] != 0);
        }
    }
}

/// Relies on String::push: appends the given character to the end of the
/// string.
pub assume_specification[ String::push ](s: &mut String, ch: char)
    ensures
        final(s)@ == old(s)@.push(ch),
;

/// Decodes a fixed-size text window: the bytes before the first zero byte
/// (or the whole window if it has none), each read as the character with
/// the same code.
pub fn decode_text(bytes: &[u8]) -> (r: String)
    ensures
        r@ == spec_text(bytes@),
{
    let mut out: String = String::new();
    let mut i: usize = 0;
    while i < bytes.len() && bytes[i] != 0
        invariant
            i <= bytes@.len(),
            out@.len() == i,
            forall|j: int| 0 <= j < i ==> out@[j] == bytes@[j] as char,
            forall|j: int| 0 <= j < i ==> bytes@[j] != 0,
        decreases bytes@.len() - i,
    {
        out.push(bytes[i] as char);
        i = i + 1;
    }
    proof {
        lemma_first_zero(bytes@);
        assert(first_zero(bytes@) == i) by {
            if first_zero(bytes@) < i {
                assert(bytes@[first_zero(bytes@)] != 0);
            }
            if i < first_zero(bytes@) {
                assert(bytes@[i as int] != 0);
            }
        }
        assert(out@ =~= spec_text(bytes@));
    }
    out
}

} // verus!
