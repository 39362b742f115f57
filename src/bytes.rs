//! Little-endian encoding of 32-bit words, as the GPU reads them.

use vstd::prelude::*;

verus! {

/// The four little-endian bytes of `w`.
pub open spec fn word_bytes(w: u32) -> Seq<u8> {
    seq![(w & 0xff) as u8, ((w >> 8u32) & 0xff) as u8, ((w >> 16u32) & 0xff) as u8, ((w >> 24u32) & 0xff) as u8]
}

/// The word whose little-endian bytes are `b0, b1, b2, b3`.
pub open spec fn word_of_bytes(b0: u8, b1: u8, b2: u8, b3: u8) -> u32 {
    (b0 as u32) | ((b1 as u32) << 8u32) | ((b2 as u32) << 16u32) | ((b3 as u32) << 24u32)
}

/// The little-endian bytes of a sequence of words, word after word.
pub open spec fn le_bytes_of(ws: Seq<u32>) -> Seq<u8> {
    Seq::new(4 * ws.len(), |i: int| word_bytes(ws[i / 4])[i % 4])
}

/// The words read back from little-endian bytes, four bytes per word.
pub open spec fn words_of_le_bytes(b: Seq<u8>) -> Seq<u32> {
    Seq::new(b.len() / 4, |k: int| word_of_bytes(b[4 * k], b[4 * k + 1], b[4 * k + 2], b[4 * k + 3]))
}

/// Reading a word back from its bytes gives the word.
pub proof fn lemma_word_round_trip(w: u32)
    ensures
        word_of_bytes(word_bytes(w)[0], word_bytes(w)[1], word_bytes(w)[2], word_bytes(w)[3]) == w,
{
    assert(((w & 0xff) as u8 as u32) | ((((w >> 8u32) & 0xff) as u8 as u32) << 8u32) | ((((w
        >> 16u32) & 0xff) as u8 as u32) << 16u32) | ((((w >> 24u32) & 0xff) as u8 as u32) << 24u32)
        == w) by (bit_vector);
}

/// Appending a word appends its four bytes.
pub proof fn lemma_le_bytes_push(ws: Seq<u32>, w: u32)
    ensures
        le_bytes_of(ws.push(w)) == le_bytes_of(ws) + word_bytes(w),
{
    let l = le_bytes_of(ws.push(w));
    let r = le_bytes_of(ws) + word_bytes(w);
    assert(l.len() == r.len());
    assert forall|i: int| 0 <= i < l.len() implies l[i] == r[i] by {
        if i < 4 * ws.len() {
            assert(i / 4 < ws.len());
        } else {
            assert(i / 4 == ws.len());
            assert(i % 4 == i - 4 * ws.len());
        }
    }
    assert(l =~= r);
}

/// Words encoded to bytes and read back are the same words.
pub proof fn lemma_le_bytes_round_trip(ws: Seq<u32>)
    ensures
        words_of_le_bytes(le_bytes_of(ws)) == ws,
{
    let b = le_bytes_of(ws);
    let back = words_of_le_bytes(b);
    assert(back.len() == ws.len());
    assert forall|k: int| 0 <= k < ws.len() implies back[k] == ws[k] by {
        assert((4 * k) / 4 == k && (4 * k) % 4 == 0);
        assert((4 * k + 1) / 4 == k && (4 * k + 1) % 4 == 1);
        assert((4 * k + 2) / 4 == k && (4 * k + 2) % 4 == 2);
        assert((4 * k + 3) / 4 == k && (4 * k + 3) % 4 == 3);
        lemma_word_round_trip(ws[k]);
    }
    assert(back =~= ws);
}

/// Appends the four little-endian bytes of `w` to `out`.
pub fn push_word_le(out: &mut Vec<u8>, w: u32)
    ensures
        final(out)@ == old(out)@ + word_bytes(w),
{
    out.push((w & 0xff) as u8);
    out.push(((w >> 8u32) & 0xff) as u8);
    out.push(((w >> 16u32) & 0xff) as u8);
    out.push(((w >> 24u32) & 0xff) as u8);
    assert(final(out)@ =~= old(out)@ + word_bytes(w));
}

/// Reads the little-endian word that starts at `at`.
pub fn read_word_le(b: &[u8], at: usize) -> (r: u32)
    requires
        at + 4 <= b@.len(),
    ensures
        r == word_of_bytes(b@[at as int], b@[at + 1], b@[at + 2], b@[at + 3]),
{
    (b[at] as u32) | ((b[at + 1] as u32) << 8u32) | ((b[at + 2] as u32) << 16u32) | ((b[at + 3] as u32) << 24u32)
}

} // verus!
