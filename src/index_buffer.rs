//! The index buffer shared by every draw, grown to the largest batch seen.
//!
//! Only 3 of a cuboid's 6 faces are emitted, two triangles each: 18 indices
//! per cuboid. An index holds a 3-bit corner id, a 2-bit face id above it,
//! and the cuboid's position in its batch above those (`cuboid << 5`).

use vstd::prelude::*;

use crate::bytes::{le_bytes_of, lemma_le_bytes_push, push_word_le};

verus! {

/// Indices emitted per cuboid.
pub const NUM_CUBE_INDICES: usize = 18;

/// The most cuboids whose indices fit in `u32`.
pub const MAX_INDEXED_CUBOIDS: usize = 134217728;

/// The indices of the first cuboid, face by face: XY, XZ, YZ.
pub open spec fn cube_indices() -> Seq<u32> {
    seq![
        0b00_000u32, 0b00_010, 0b00_001, 0b00_010, 0b00_011, 0b00_001,
        0b01_101, 0b01_100, 0b01_001, 0b01_001, 0b01_100, 0b01_000,
        0b10_000, 0b10_100, 0b10_110, 0b10_000, 0b10_110, 0b10_010,
    ]
}

/// The `i`-th entry of the index buffer.
pub open spec fn index_entry(i: int) -> int {
    cube_indices()[i % 18] + 32 * (i / 18)
}

/// The first `18 * cuboids` entries of the index buffer.
pub open spec fn index_entries(cuboids: nat) -> Seq<u32> {
    Seq::new(18 * cuboids, |i: int| index_entry(i) as u32)
}

/// The capacity, in cuboids, after asking for `n` with capacity `cap`.
pub open spec fn grown_capacity(cap: nat, n: nat) -> nat {
    if n > cap {
        n
    } else {
        cap
    }
}

/// The capacity after asking for each of `cs` in turn, from an empty buffer.
pub open spec fn capacity_after(cs: Seq<nat>) -> nat
    decreases cs.len(),
{
    if cs.len() == 0 {
        0
    } else {
        grown_capacity(capacity_after(cs.drop_last()), cs.last())
    }
}

/// After any sequence of requests the capacity is the largest request (0
/// when there was none), and no request ever lowered it.
pub proof fn lemma_capacity_is_max_request(cs: Seq<nat>)
    ensures
        forall|i: int| 0 <= i < cs.len() ==> cs[i] <= capacity_after(cs),
        cs.len() == 0 ==> capacity_after(cs) == 0,
        cs.len() > 0 ==> exists|i: int| 0 <= i < cs.len() && cs[i] == capacity_after(cs),
        forall|i: int|
            0 <= i < cs.len() ==> capacity_after(cs.take(i)) <= capacity_after(
                #[trigger] cs.take(i + 1),
            ),
    decreases cs.len(),
{
    if cs.len() > 0 {
        let init = cs.drop_last();
        lemma_capacity_is_max_request(init);
        assert forall|i: int| 0 <= i < cs.len() implies cs[i] <= capacity_after(cs) by {
            if i < cs.len() - 1 {
                assert(init[i] == cs[i]);
            }
        }
        if cs.last() <= capacity_after(init) && init.len() > 0 {
            let i = choose|i: int| 0 <= i < init.len() && init[i] == capacity_after(init);
            assert(cs[i] == capacity_after(cs));
        } else {
            assert(cs[cs.len() - 1] == capacity_after(cs));
        }
        assert forall|i: int| 0 <= i < cs.len() implies capacity_after(cs.take(i))
            <= capacity_after(#[trigger] cs.take(i + 1)) by {
            assert(cs.take(i + 1).drop_last() =~= cs.take(i));
        }
    }
}

/// The `j`-th index of the first cuboid.
fn cube_index(j: usize) -> (r: u32)
    requires
        j < NUM_CUBE_INDICES,
    ensures
        r == cube_indices()[j as int],
{
    match j {
        0 => 0b00_000,
        1 => 0b00_010,
        2 => 0b00_001,
        3 => 0b00_010,
        4 => 0b00_011,
        5 => 0b00_001,
        6 => 0b01_101,
        7 => 0b01_100,
        8 => 0b01_001,
        9 => 0b01_001,
        10 => 0b01_100,
        11 => 0b01_000,
        12 => 0b10_000,
        13 => 0b10_100,
        14 => 0b10_110,
        15 => 0b10_000,
        16 => 0b10_110,
        _ => 0b10_010,
    }
}

/// The growing index buffer's contents.
pub struct CuboidsIndexBuffer {
    indices: Vec<u32>,
}

impl CuboidsIndexBuffer {
    /// The number of cuboids the buffer can index.
    pub closed spec fn spec_capacity(&self) -> nat {
        self.indices@.len() / 18
    }

    /// The entries of the buffer.
    pub closed spec fn spec_indices(&self) -> Seq<u32> {
        self.indices@
    }

    pub closed spec fn wf(&self) -> bool {
        &&& self.indices@.len() % 18 == 0
        &&& self.spec_capacity() <= MAX_INDEXED_CUBOIDS
        &&& self.indices@ == index_entries(self.spec_capacity())
    }

    /// An empty buffer.
    pub fn new() -> (r: CuboidsIndexBuffer)
        ensures
            r.wf(),
            r.spec_capacity() == 0,
            r.spec_indices() == Seq::<u32>::empty(),
    {
        let r = CuboidsIndexBuffer { indices: Vec::new() };
        assert(r.indices@ =~= index_entries(0));
        r
    }

    pub fn capacity(&self) -> (r: usize)
        requires
            self.wf(),
        ensures
            r == self.spec_capacity(),
            r <= MAX_INDEXED_CUBOIDS,
    {
        self.indices.len() / NUM_CUBE_INDICES
    }

    /// The entries of the buffer: 18 per cuboid it can index.
    pub fn indices(&self) -> (r: &Vec<u32>)
        requires
            self.wf(),
        ensures
            r@ == self.spec_indices(),
            r@ == index_entries(self.spec_capacity()),
    {
        &self.indices
    }

    /// Grows the buffer to index `n` cuboids, appending the entries of the
    /// cuboids it lacked; it never shrinks. Returns whether it grew, in which
    /// case the buffer must be uploaded again.
    pub fn ensure_capacity(&mut self, n: usize) -> (grew: bool)
        requires
            old(self).wf(),
            n <= MAX_INDEXED_CUBOIDS,
        ensures
            final(self).wf(),
            final(self).spec_capacity() == grown_capacity(old(self).spec_capacity(), n as nat),
            grew == (n > old(self).spec_capacity()),
            final(self).spec_indices() == index_entries(final(self).spec_capacity()),
    {
        let cap = self.indices.len() / NUM_CUBE_INDICES;
        if n <= cap {
            return false;
        }
        let mut c: usize = cap;
        while c < n
            invariant
                cap <= c <= n <= MAX_INDEXED_CUBOIDS,
                self.indices@ == index_entries(c as nat),
            decreases n - c,
        {
            let base: u32 = (c as u32) * 32;
            let mut j: usize = 0;
            while j < NUM_CUBE_INDICES
                invariant
                    c < n <= MAX_INDEXED_CUBOIDS,
                    j <= 18,
                    base == 32 * c,
                    self.indices@.len() == 18 * c + j,
                    forall|i: int|
                        0 <= i < 18 * c + j ==> self.indices@[i] == index_entry(i) as u32,
                decreases 18 - j,
            {
                let v = cube_index(j) + base;
                proof {
                    let i = 18 * c + j;
                    assert(i % 18 == j && i / 18 == c);
                }
                self.indices.push(v);
                j = j + 1;
            }
            assert(self.indices@ =~= index_entries((c + 1) as nat));
            c = c + 1;
        }
        proof {
            assert(self.indices@.len() / 18 == n);
        }
        true
    }

    /// The bytes to upload: each entry as a little-endian `u32`.
    pub fn prepare_asset(&self) -> (r: Vec<u8>)
        ensures
            r@ == le_bytes_of(self.spec_indices()),
    {
        let mut out: Vec<u8> = Vec::new();
        let mut i: usize = 0;
        while i < self.indices.len()
            invariant
                i <= self.indices@.len(),
                out@ == le_bytes_of(self.indices@.take(i as int)),
            decreases self.indices@.len() - i,
        {
            proof {
                lemma_le_bytes_push(self.indices@.take(i as int), self.indices@[i as int]);
                assert(self.indices@.take(i as int).push(self.indices@[i as int])
                    =~= self.indices@.take(i as int + 1));
            }
            push_word_le(&mut out, self.indices[i]);
            i = i + 1;
        }
        assert(self.indices@.take(i as int) =~= self.indices@);
        out
    }
}

} // verus!
