//! Per-frame dynamic uniform arrays: records bound by byte offset.

use vstd::prelude::*;

verus! {

/// Whether `n` records of `stride` bytes each have offsets that fit in `u32`.
pub open spec fn offsets_fit(n: nat, stride: u32) -> bool {
    n * stride <= u32::MAX + stride
}

/// The offsets of `n` records pushed `stride` bytes apart, in push order.
pub open spec fn uniform_offsets(n: nat, stride: u32) -> Seq<int> {
    Seq::new(n, |i: int| i * stride)
}

/// Offsets come in push order: each record lies `stride` bytes past the one
/// pushed before it, so no two records share an offset.
pub proof fn lemma_offsets_in_push_order(n: nat, stride: u32)
    requires
        stride > 0,
    ensures
        uniform_offsets(n, stride).len() == n,
        n > 0 ==> uniform_offsets(n, stride)[0] == 0,
        forall|i: int|
            0 <= i < n - 1 ==> #[trigger] uniform_offsets(n, stride)[i + 1] == uniform_offsets(
                n,
                stride,
            )[i] + stride,
        forall|i: int, j: int|
            0 <= i < j < n ==> #[trigger] uniform_offsets(n, stride)[i] < #[trigger] uniform_offsets(
                n,
                stride,
            )[j],
{
    assert forall|i: int| 0 <= i < n - 1 implies #[trigger] uniform_offsets(n, stride)[i + 1]
        == uniform_offsets(n, stride)[i] + stride by {
        assert((i + 1) * stride == i * stride + stride) by (nonlinear_arith);
    }
    assert forall|i: int, j: int| 0 <= i < j < n implies #[trigger] uniform_offsets(n, stride)[i]
        < #[trigger] uniform_offsets(n, stride)[j] by {
        assert(i * stride < j * stride) by (nonlinear_arith)
            requires
                i < j,
                stride > 0,
        ;
    }
}

/// A dynamic uniform array, rebuilt every frame.
///
/// Records are laid out `stride` bytes apart, so the record pushed `i`-th is
/// bound at byte offset `i * stride`. Offsets never survive a `clear`.
pub struct DynamicUniformArray<T> {
    values: Vec<T>,
    stride: u32,
}

impl<T> DynamicUniformArray<T> {
    /// The records in push order.
    pub closed spec fn spec_values(&self) -> Seq<T> {
        self.values@
    }

    /// The distance in bytes between two records.
    pub closed spec fn spec_stride(&self) -> u32 {
        self.stride
    }

    pub open spec fn wf(&self) -> bool {
        self.spec_stride() > 0
    }

    /// An empty array whose records lie `stride` bytes apart.
    pub fn new(stride: u32) -> (r: Self)
        requires
            stride > 0,
        ensures
            r.wf(),
            r.spec_values() == Seq::<T>::empty(),
            r.spec_stride() == stride,
    {
        DynamicUniformArray { values: Vec::new(), stride }
    }

    pub fn stride(&self) -> (r: u32)
        ensures
            r == self.spec_stride(),
    {
        self.stride
    }

    pub fn len(&self) -> (r: usize)
        ensures
            r == self.spec_values().len(),
    {
        self.values.len()
    }

    pub fn is_empty(&self) -> (r: bool)
        ensures
            r == (self.spec_values().len() == 0),
    {
        self.values.len() == 0
    }

    /// The records in push order.
    pub fn values(&self) -> (r: &Vec<T>)
        ensures
            r@ == self.spec_values(),
    {
        &self.values
    }

    /// Drops every record; the stride stays.
    pub fn clear(&mut self)
        ensures
            final(self).spec_values() == Seq::<T>::empty(),
            final(self).spec_stride() == old(self).spec_stride(),
    {
        self.values.clear();
    }

    /// Appends `value` and returns the byte offset it is bound at.
    pub fn push(&mut self, value: T) -> (offset: u32)
        requires
            offsets_fit(old(self).spec_values().len() + 1, old(self).spec_stride()),
        ensures
            final(self).spec_values() == old(self).spec_values().push(value),
            final(self).spec_stride() == old(self).spec_stride(),
            offset == old(self).spec_values().len() * old(self).spec_stride(),
    {
        let n = self.values.len();
        proof {
            assert((n as int + 1) * self.stride == n as int * self.stride + self.stride)
                by (nonlinear_arith);
        }
        let offset = (n as u64 * self.stride as u64) as u32;
        self.values.push(value);
        offset
    }
}

} // verus!
