//! The cuboid record shared with the GPU, its metadata bits and its layout.

use vstd::prelude::*;

use crate::bytes::{
    le_bytes_of, lemma_le_bytes_push, lemma_le_bytes_round_trip, push_word_le, read_word_le,
    words_of_le_bytes,
};

verus! {

/// The size in bytes of one [`Cuboid`] in GPU memory.
pub const CUBOID_SIZE: usize = 32;

/// Bit 0 of the metadata: set when the cuboid is hidden.
pub const META_INVISIBLE: u32 = 1;

/// Bit 1 of the metadata: set when the cuboid's color is emissive.
pub const META_EMISSIVE: u32 = 2;

/// Whether metadata `bits` mark a cuboid visible.
pub open spec fn meta_visible(bits: u32) -> bool {
    bits & 1 == 0
}

/// Whether metadata `bits` mark a cuboid emissive.
pub open spec fn meta_emissive(bits: u32) -> bool {
    bits & 2 != 0
}

/// The depth bias held in the high half of metadata `bits`.
pub open spec fn meta_depth_bias(bits: u32) -> u16 {
    (bits >> 16u32) as u16
}

/// The metadata word with the given flags and depth bias, other bits clear.
pub open spec fn meta_encode(visible: bool, emissive: bool, bias: u16) -> u32 {
    (if visible { 0u32 } else { 1u32 }) | (if emissive { 2u32 } else { 0u32 }) | ((bias as u32)
        << 16u32)
}

/// Decoding an encoded metadata word gives back its flags and depth bias.
pub proof fn lemma_meta_round_trip(visible: bool, emissive: bool, bias: u16)
    ensures
        meta_visible(meta_encode(visible, emissive, bias)) == visible,
        meta_emissive(meta_encode(visible, emissive, bias)) == emissive,
        meta_depth_bias(meta_encode(visible, emissive, bias)) == bias,
{
    let v: u32 = if visible { 0u32 } else { 1u32 };
    let e: u32 = if emissive { 2u32 } else { 0u32 };
    let b: u32 = bias as u32;
    assert(b < 0x10000);
    assert(v <= 1 && (e == 0 || e == 2));
    assert(b < 0x10000 ==> ((v | e | (b << 16u32)) & 1 == v & 1)) by (bit_vector)
        requires
            v <= 1,
            e == 0 || e == 2,
    ;
    assert(b < 0x10000 ==> ((v | e | (b << 16u32)) & 2 == e)) by (bit_vector)
        requires
            v <= 1,
            e == 0 || e == 2,
    ;
    assert(b < 0x10000 ==> ((v | e | (b << 16u32)) >> 16u32 == b)) by (bit_vector)
        requires
            v <= 1,
            e == 0 || e == 2,
    ;
    assert(v & 1 == v) by (bit_vector)
        requires
            v <= 1,
    ;
}

/// An axis-aligned box, extending from `minimum` to `maximum`.
///
/// The corners hold the bit patterns of `f32` coordinates. The field order is
/// the GPU layout: `minimum`, `meta_bits`, `maximum`, `color`, 32 bytes.
///
/// `meta_bits` holds the flags: bit 0 is set for an invisible cuboid, bit 1
/// for an emissive one, and the high 16 bits hold the depth bias, which
/// multiplies the depth of each vertex by `1 - bias * eps`.
#[derive(Clone, Copy, Debug)]
pub struct Cuboid {
    pub minimum: [u32; 3],
    pub meta_bits: u32,
    pub maximum: [u32; 3],
    pub color: u32,
}

impl Cuboid {
    /// The eight words of the GPU record, in layout order.
    pub open spec fn words(self) -> Seq<u32> {
        seq![
            self.minimum[0],
            self.minimum[1],
            self.minimum[2],
            self.meta_bits,
            self.maximum[0],
            self.maximum[1],
            self.maximum[2],
            self.color,
        ]
    }

    /// The cuboid whose record is the eight words `w`.
    pub open spec fn from_words(w: Seq<u32>) -> Cuboid {
        Cuboid {
            minimum: [w[0], w[1], w[2]],
            meta_bits: w[3],
            maximum: [w[4], w[5], w[6]],
            color: w[7],
        }
    }

    /// A visible, non-emissive cuboid without depth bias.
    pub fn new(minimum: [u32; 3], maximum: [u32; 3], color: u32) -> (r: Cuboid)
        ensures
            r.minimum == minimum,
            r.maximum == maximum,
            r.color == color,
            r.meta_bits == 0,
    {
        Cuboid { minimum, meta_bits: 0, maximum, color }
    }

    pub fn is_visible(&self) -> (r: bool)
        ensures
            r == meta_visible(self.meta_bits),
    {
        self.meta_bits & META_INVISIBLE == 0
    }

    pub fn is_emissive(&self) -> (r: bool)
        ensures
            r == meta_emissive(self.meta_bits),
    {
        self.meta_bits & META_EMISSIVE != 0
    }

    pub fn depth_bias(&self) -> (r: u16)
        ensures
            r == meta_depth_bias(self.meta_bits),
    {
        (self.meta_bits >> 16u32) as u16
    }

    /// Clears the invisible bit.
    pub fn make_visible(&mut self)
        ensures
            final(self).meta_bits == old(self).meta_bits & !1u32,
            final(self).minimum == old(self).minimum,
            final(self).maximum == old(self).maximum,
            final(self).color == old(self).color,
            meta_visible(final(self).meta_bits),
            meta_emissive(final(self).meta_bits) == meta_emissive(old(self).meta_bits),
            meta_depth_bias(final(self).meta_bits) == meta_depth_bias(old(self).meta_bits),
    {
        let old_bits = self.meta_bits;
        self.meta_bits = self.meta_bits & !META_INVISIBLE;
        proof {
            let n = self.meta_bits;
            assert(n == old_bits & !1u32 ==> (n & 1 == 0 && (n & 2 != 0) == (old_bits & 2 != 0)
                && (n >> 16u32) == (old_bits >> 16u32))) by (bit_vector);
        }
    }

    /// Sets the invisible bit.
    pub fn make_invisible(&mut self)
        ensures
            final(self).meta_bits == old(self).meta_bits | 1u32,
            final(self).minimum == old(self).minimum,
            final(self).maximum == old(self).maximum,
            final(self).color == old(self).color,
            !meta_visible(final(self).meta_bits),
            meta_emissive(final(self).meta_bits) == meta_emissive(old(self).meta_bits),
            meta_depth_bias(final(self).meta_bits) == meta_depth_bias(old(self).meta_bits),
    {
        let old_bits = self.meta_bits;
        self.meta_bits = self.meta_bits | META_INVISIBLE;
        proof {
            let n = self.meta_bits;
            assert(n == old_bits | 1u32 ==> (n & 1 != 0 && (n & 2 != 0) == (old_bits & 2 != 0) && (n
                >> 16u32) == (old_bits >> 16u32))) by (bit_vector);
        }
    }

    /// Sets the emissive bit.
    pub fn make_emissive(&mut self)
        ensures
            final(self).meta_bits == old(self).meta_bits | 2u32,
            final(self).minimum == old(self).minimum,
            final(self).maximum == old(self).maximum,
            final(self).color == old(self).color,
            meta_emissive(final(self).meta_bits),
            meta_visible(final(self).meta_bits) == meta_visible(old(self).meta_bits),
            meta_depth_bias(final(self).meta_bits) == meta_depth_bias(old(self).meta_bits),
    {
        let old_bits = self.meta_bits;
        self.meta_bits = self.meta_bits | META_EMISSIVE;
        proof {
            let n = self.meta_bits;
            assert(n == old_bits | 2u32 ==> (n & 2 != 0 && (n & 1 == 0) == (old_bits & 1 == 0) && (n
                >> 16u32) == (old_bits >> 16u32))) by (bit_vector);
        }
    }

    /// Clears the emissive bit.
    pub fn make_non_emissive(&mut self)
        ensures
            final(self).meta_bits == old(self).meta_bits & !2u32,
            final(self).minimum == old(self).minimum,
            final(self).maximum == old(self).maximum,
            final(self).color == old(self).color,
            !meta_emissive(final(self).meta_bits),
            meta_visible(final(self).meta_bits) == meta_visible(old(self).meta_bits),
            meta_depth_bias(final(self).meta_bits) == meta_depth_bias(old(self).meta_bits),
    {
        let old_bits = self.meta_bits;
        self.meta_bits = self.meta_bits & !META_EMISSIVE;
        proof {
            let n = self.meta_bits;
            assert(n == old_bits & !2u32 ==> (n & 2 == 0 && (n & 1 == 0) == (old_bits & 1 == 0) && (n
                >> 16u32) == (old_bits >> 16u32))) by (bit_vector);
        }
    }

    /// Replaces the depth bias, keeping the low 16 bits of the metadata.
    pub fn set_depth_bias(&mut self, bias: u16)
        ensures
            final(self).meta_bits == (old(self).meta_bits & 0xffffu32) | ((bias as u32) << 16u32),
            final(self).minimum == old(self).minimum,
            final(self).maximum == old(self).maximum,
            final(self).color == old(self).color,
            meta_depth_bias(final(self).meta_bits) == bias,
            meta_visible(final(self).meta_bits) == meta_visible(old(self).meta_bits),
            meta_emissive(final(self).meta_bits) == meta_emissive(old(self).meta_bits),
    {
        let old_bits = self.meta_bits;
        let b: u32 = bias as u32;
        self.meta_bits = (self.meta_bits & 0x0000ffffu32) | (b << 16u32);
        proof {
            let n = self.meta_bits;
            assert(b < 0x10000 && n == (old_bits & 0xffffu32) | (b << 16u32) ==> ((n >> 16u32) == b
                && (n & 1 == 0) == (old_bits & 1 == 0) && (n & 2 != 0) == (old_bits & 2 != 0)))
                by (bit_vector);
        }
    }

    /// Appends the 32-byte GPU record of this cuboid to `out`.
    pub fn write_le_bytes(&self, out: &mut Vec<u8>)
        ensures
            final(out)@ == old(out)@ + le_bytes_of(self.words()),
    {
        let ghost start = out@;
        push_word_le(out, self.minimum[0]);
        push_word_le(out, self.minimum[1]);
        push_word_le(out, self.minimum[2]);
        push_word_le(out, self.meta_bits);
        push_word_le(out, self.maximum[0]);
        push_word_le(out, self.maximum[1]);
        push_word_le(out, self.maximum[2]);
        push_word_le(out, self.color);
        proof {
            let w = self.words();
            assert(le_bytes_of(w.take(0)) =~= Seq::<u8>::empty());
            lemma_le_bytes_push(w.take(0), w[0]);
            assert(w.take(0).push(w[0]) =~= w.take(1));
            lemma_le_bytes_push(w.take(1), w[1]);
            assert(w.take(1).push(w[1]) =~= w.take(2));
            lemma_le_bytes_push(w.take(2), w[2]);
            assert(w.take(2).push(w[2]) =~= w.take(3));
            lemma_le_bytes_push(w.take(3), w[3]);
            assert(w.take(3).push(w[3]) =~= w.take(4));
            lemma_le_bytes_push(w.take(4), w[4]);
            assert(w.take(4).push(w[4]) =~= w.take(5));
            lemma_le_bytes_push(w.take(5), w[5]);
            assert(w.take(5).push(w[5]) =~= w.take(6));
            lemma_le_bytes_push(w.take(6), w[6]);
            assert(w.take(6).push(w[6]) =~= w.take(7));
            lemma_le_bytes_push(w.take(7), w[7]);
            assert(w.take(7).push(w[7]) =~= w);
            assert(final(out)@ =~= start + le_bytes_of(w));
        }
    }

    /// The cuboid whose GPU record is `b`; `None` unless `b` is exactly
    /// [`CUBOID_SIZE`] bytes long.
    pub fn from_le_bytes(b: &[u8]) -> (r: Option<Cuboid>)
        ensures
            b@.len() != 32 ==> r is None,
            b@.len() == 32 ==> r == Some(Cuboid::from_words(words_of_le_bytes(b@))),
    {
        if b.len() != CUBOID_SIZE {
            return None;
        }
        let c = Cuboid {
            minimum: [read_word_le(b, 0), read_word_le(b, 4), read_word_le(b, 8)],
            meta_bits: read_word_le(b, 12),
            maximum: [read_word_le(b, 16), read_word_le(b, 20), read_word_le(b, 24)],
            color: read_word_le(b, 28),
        };
        proof {
            let w = words_of_le_bytes(b@);
            assert(w.len() == 8);
            assert(c.minimum =~= [w[0], w[1], w[2]]);
            assert(c.maximum =~= [w[4], w[5], w[6]]);
        }
        Some(c)
    }
}

/// A set of cuboids to render, owned by one entity.
#[derive(Clone, Debug)]
pub struct Cuboids {
    /// Instances to be rendered.
    pub instances: Vec<Cuboid>,
}

impl Cuboids {
    pub fn new(instances: Vec<Cuboid>) -> (r: Cuboids)
        ensures
            r.instances@ == instances@,
    {
        Cuboids { instances }
    }
}

/// The words of the records of `cs`, record after record.
pub open spec fn cuboids_words(cs: Seq<Cuboid>) -> Seq<u32>
    decreases cs.len(),
{
    if cs.len() == 0 {
        Seq::empty()
    } else {
        cuboids_words(cs.drop_last()) + cs.last().words()
    }
}

/// The bytes of a concatenation are the bytes of its parts, in turn.
pub proof fn lemma_le_bytes_concat(a: Seq<u32>, b: Seq<u32>)
    ensures
        le_bytes_of(a + b) == le_bytes_of(a) + le_bytes_of(b),
    decreases b.len(),
{
    if b.len() == 0 {
        assert(a + b =~= a);
        assert(le_bytes_of(b) =~= Seq::<u8>::empty());
        assert(le_bytes_of(a) + le_bytes_of(b) =~= le_bytes_of(a));
    } else {
        let b0 = b.drop_last();
        lemma_le_bytes_concat(a, b0);
        assert(a + b =~= (a + b0).push(b.last()));
        assert(b =~= b0.push(b.last()));
        lemma_le_bytes_push(a + b0, b.last());
        lemma_le_bytes_push(b0, b.last());
        assert(le_bytes_of(a + b) =~= le_bytes_of(a) + le_bytes_of(b));
    }
}

/// The bytes of the instance buffer holding `instances`: each record's 32
/// bytes, in order.
pub fn cuboids_le_bytes(instances: &Vec<Cuboid>) -> (r: Vec<u8>)
    ensures
        r@ == le_bytes_of(cuboids_words(instances@)),
{
    let mut out: Vec<u8> = Vec::new();
    let mut i: usize = 0;
    assert(le_bytes_of(cuboids_words(instances@.take(0))) =~= Seq::<u8>::empty());
    while i < instances.len()
        invariant
            i <= instances@.len(),
            out@ == le_bytes_of(cuboids_words(instances@.take(i as int))),
        decreases instances@.len() - i,
    {
        let c = instances[i];
        c.write_le_bytes(&mut out);
        proof {
            let t = instances@.take(i as int + 1);
            assert(t.drop_last() =~= instances@.take(i as int));
            lemma_le_bytes_concat(cuboids_words(instances@.take(i as int)), c.words());
        }
        i = i + 1;
    }
    assert(instances@.take(i as int) =~= instances@);
    out
}

/// A cuboid is rebuilt from its own words.
proof fn lemma_from_own_words(c: Cuboid)
    ensures
        Cuboid::from_words(c.words()) == c,
{
    let d = Cuboid::from_words(c.words());
    assert(d.minimum =~= c.minimum);
    assert(d.maximum =~= c.maximum);
}

/// A cuboid's record read back from its bytes is the same cuboid.
pub proof fn lemma_cuboid_bytes_round_trip(c: Cuboid)
    ensures
        le_bytes_of(c.words()).len() == CUBOID_SIZE,
        Cuboid::from_words(words_of_le_bytes(le_bytes_of(c.words()))) == c,
{
    let w = c.words();
    lemma_le_bytes_round_trip(w);
    lemma_from_own_words(c);
}

} // verus!
