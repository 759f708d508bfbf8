//! The revision hash: a commit id as its canonical hexadecimal text.
use vstd::prelude::*;

use crate::text::{digit, digit_char, push_char};

verus! {

/// Lower-case hexadecimal text of `b`, two digits per byte, high nibble first.
pub open spec fn hex(b: Seq<u8>) -> Seq<char>
    decreases b.len(),
{
    if b.len() == 0 {
        seq![]
    } else {
        hex(b.drop_last()) + seq![digit_char((b.last() / 16) as nat), digit_char((b.last() % 16) as nat)]
    }
}

/// The first `k` bytes give the first `2 * k` characters of the hash.
pub proof fn lemma_hex_prefix(b: Seq<u8>, k: int)
    requires
        0 <= k <= b.len(),
    ensures
        hex(b).len() == 2 * b.len(),
        hex(b).take(2 * k) == hex(b.take(k)),
    decreases b.len(),
{
    if b.len() > 0 {
        let b0 = b.drop_last();
        if k < b.len() {
            lemma_hex_prefix(b0, k);
            assert(b0.take(k) =~= b.take(k));
            assert(hex(b).take(2 * k) =~= hex(b0).take(2 * k));
        } else {
            lemma_hex_prefix(b0, 0);
            assert(b.take(k) =~= b);
            assert(hex(b).take(2 * k) =~= hex(b));
        }
    } else {
        assert(b.take(k) =~= b);
        assert(hex(b).take(2 * k) =~= hex(b));
    }
}

/// Renders the bytes of a commit id as its full hexadecimal hash.
pub fn revision_hash(id: &[u8]) -> (r: String)
    ensures
        r@ == hex(id@),
        r@.len() == 2 * id@.len(),
{
    let mut out = String::new();
    let mut i: usize = 0;
    while i < id.len()
        invariant
            i <= id@.len(),
            out@ == hex(id@.take(i as int)),
            out@.len() == 2 * i,
        decreases id@.len() - i,
    {
        let b = id[i];
        push_char(&mut out, digit((b / 16) as u32));
        push_char(&mut out, digit((b % 16) as u32));
        assert(id@.take(i + 1).drop_last() =~= id@.take(i as int));
        i = i + 1;
    }
    assert(id@.take(i as int) =~= id@);
    out
}

} // verus!
