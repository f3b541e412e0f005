//! The stride-parameterized array engine. Array tags carry elements packed
//! at a runtime-declared stride that may exceed the element's nominal size:
//! producers may choose a larger stride for forward-compatible padding. A
//! correct decoder indexes by the stride, never by the nominal size, and
//! reads only the first nominal-size bytes of each slot, so padding bytes
//! are never read and never corrupt adjacent element reads.

use crate::StructuralError;
use vstd::arithmetic::div_mod::lemma_fundamental_div_mod;
use vstd::prelude::*;
use vstd::slice::slice_subrange;

verus! {

/// `elem` padded with zero bytes to fill one stride-wide slot.
pub open spec fn strided_slot(elem: Seq<u8>, stride: int) -> Seq<u8> {
    elem + Seq::new((stride - elem.len()) as nat, |i: int| 0u8)
}

/// Elements packed at `stride`-byte intervals: each occupies the first bytes
/// of its slot, and the rest of the slot is zero padding.
pub open spec fn pack_strided(elems: Seq<Seq<u8>>, stride: int) -> Seq<u8>
    decreases elems.len(),
{
    if elems.len() == 0 {
        Seq::empty()
    } else {
        strided_slot(elems[0], stride) + pack_strided(elems.drop_first(), stride)
    }
}

/// The packed form occupies exactly one slot per element.
pub proof fn lemma_pack_strided_len(elems: Seq<Seq<u8>>, stride: int)
    requires
        forall|i: int| 0 <= i < elems.len() ==> (#[trigger] elems[i]).len() <= stride,
    ensures
        pack_strided(elems, stride).len() == elems.len() * stride,
    decreases elems.len(),
{
    if elems.len() == 0 {
    } else {
        lemma_pack_strided_len(elems.drop_first(), stride);
        assert((elems.len() - 1) * stride + stride == elems.len() * stride) by (nonlinear_arith);
    }
}

/// Appending an element appends its slot to the packed form.
pub proof fn lemma_pack_strided_push(elems: Seq<Seq<u8>>, e: Seq<u8>, stride: int)
    ensures
        pack_strided(elems.push(e), stride) == pack_strided(elems, stride) + strided_slot(
            e,
            stride,
        ),
    decreases elems.len(),
{
    assert(elems.push(e)[0] == elems.push(e).first());
    if elems.len() == 0 {
        assert(elems.push(e)[0] == e);
        assert(elems.push(e).drop_first() =~= Seq::<Seq<u8>>::empty());
        assert(pack_strided(elems.push(e).drop_first(), stride) =~= Seq::<u8>::empty());
        assert(pack_strided(elems, stride) =~= Seq::<u8>::empty());
        assert(pack_strided(elems.push(e), stride) =~= pack_strided(elems, stride) + strided_slot(
            e,
            stride,
        ));
    } else {
        assert(elems.push(e)[0] == elems[0]);
        assert(elems.push(e).drop_first() =~= elems.drop_first().push(e));
        lemma_pack_strided_push(elems.drop_first(), e, stride);
        let h = strided_slot(elems[0], stride);
        let b = pack_strided(elems.drop_first(), stride);
        let t = strided_slot(e, stride);
        assert(pack_strided(elems.push(e).drop_first(), stride) == b + t);
        assert(pack_strided(elems.push(e), stride) == h + (b + t));
        assert(h + (b + t) =~= (h + b) + t);
        assert(pack_strided(elems, stride) == h + b);
    }
}

/// The stride-independence law: for elements of one nominal size packed at
/// any stride at least that size, the stride-indexed window of each slot
/// recovers exactly the original element, whatever padding the stride adds.
pub proof fn lemma_stride_independence(elems: Seq<Seq<u8>>, nominal: int, stride: int)
    requires
        1 <= nominal <= stride,
        forall|i: int| 0 <= i < elems.len() ==> (#[trigger] elems[i]).len() == nominal,
    ensures
        forall|i: int|
            0 <= i < elems.len() ==> pack_strided(elems, stride).subrange(
                i * stride,
                i * stride + nominal,
            ) == elems[i],
    decreases elems.len(),
{
    if elems.len() == 0 {
    } else {
        let packed = pack_strided(elems, stride);
        let head = strided_slot(elems[0], stride);
        let rest = pack_strided(elems.drop_first(), stride);
        lemma_pack_strided_len(elems, stride);
        lemma_pack_strided_len(elems.drop_first(), stride);
        lemma_stride_independence(elems.drop_first(), nominal, stride);
        assert(head.len() == stride);
        assert forall|i: int| 0 <= i < elems.len() implies packed.subrange(
            i * stride,
            i * stride + nominal,
        ) == elems[i] by {
            assert(0 * stride == 0);
            assert(i * stride >= 0) by (nonlinear_arith)
                requires
                    i >= 0,
                    stride >= 1,
            ;
            assert(i * stride + stride <= elems.len() * stride) by (nonlinear_arith)
                requires
                    i < elems.len(),
                    stride >= 1,
            ;
            if i == 0 {
                assert(packed.subrange(0, nominal) =~= elems[0]);
            } else {
                assert((i - 1) * stride == i * stride - stride) by (nonlinear_arith);
                assert((i - 1) * stride >= 0) by (nonlinear_arith)
                    requires
                        i >= 1,
                        stride >= 1,
                ;
                assert(rest.subrange((i - 1) * stride, (i - 1) * stride + nominal) == elems
                    .drop_first()[i - 1]);
                assert(packed.subrange(i * stride, i * stride + nominal) =~= rest.subrange(
                    (i - 1) * stride,
                    (i - 1) * stride + nominal,
                ));
                assert(elems.drop_first()[i - 1] == elems[i]);
            }
        }
    }
}

/// An array of elements packed at a runtime-declared stride: the raw element
/// region, the stride, and the nominal element size (how many leading bytes
/// of each slot carry data). The region is always a whole number of slots.
pub struct StrideArray {
    stride: usize,
    nominal: usize,
    bytes: Vec<u8>,
}

impl StrideArray {
    /// The slot width is at least the nominal element size, which is at
    /// least one byte, and the region is a whole number of slots.
    #[verifier::type_invariant]
    pub closed spec fn inv(self) -> bool {
        &&& 1 <= self.nominal <= self.stride
        &&& self.bytes@.len() as int % (self.stride as int) == 0
    }

    /// The declared distance between consecutive elements, in bytes.
    pub closed spec fn stride_spec(self) -> int {
        self.stride as int
    }

    /// How many leading bytes of each slot carry element data.
    pub closed spec fn nominal_spec(self) -> int {
        self.nominal as int
    }

    /// The raw element region.
    pub closed spec fn bytes_spec(self) -> Seq<u8> {
        self.bytes@
    }

    /// The number of elements: the region length divided by the stride.
    pub open spec fn count_spec(self) -> int {
        self.bytes_spec().len() as int / self.stride_spec()
    }

    /// The data bytes of element `i`: the first nominal-size bytes of its
    /// slot. The slot's trailing padding is not part of the window.
    pub open spec fn window_spec(self, i: int) -> Seq<u8> {
        self.bytes_spec().subrange(
            i * self.stride_spec(),
            i * self.stride_spec() + self.nominal_spec(),
        )
    }

    /// The invariants of the type, for callers: stride bounds and the fact
    /// that all slots lie inside the region. Callers holding an array obtain
    /// `inv` with `use_type_invariant`.
    pub proof fn lemma_inv(self)
        requires
            self.inv(),
        ensures
            1 <= self.nominal_spec() <= self.stride_spec(),
            self.bytes_spec().len() as int % self.stride_spec() == 0,
            self.bytes_spec().len() == self.count_spec() * self.stride_spec(),
            self.count_spec() >= 0,
    {
        lemma_fundamental_div_mod(self.bytes_spec().len() as int, self.stride_spec());
        assert(self.count_spec() * self.stride_spec() == self.stride_spec() * self.count_spec())
            by (nonlinear_arith);
        assert(self.count_spec() >= 0) by (nonlinear_arith)
            requires
                self.count_spec() * self.stride_spec() >= 0,
                self.stride_spec() >= 1,
        ;
    }

    /// Wraps a raw element region. Fails with `InvalidStride` exactly when
    /// the nominal size or stride are out of order (the nominal size must be
    /// at least 1 and at most the stride), and with `StrideMismatch` exactly
    /// when the region is not a whole number of slots.
    pub fn new(stride: usize, nominal: usize, bytes: Vec<u8>) -> (r: Result<Self, StructuralError>)
        ensures
            match r {
                Ok(a) => {
                    &&& 1 <= nominal <= stride
                    &&& bytes@.len() as int % (stride as int) == 0
                    &&& a.stride_spec() == stride
                    &&& a.nominal_spec() == nominal
                    &&& a.bytes_spec() == bytes@
                },
                Err(e) => {
                    &&& (nominal < 1 || nominal > stride || bytes@.len() as int % (stride as int) != 0)
                    &&& e == (if nominal < 1 || nominal > stride {
                        StructuralError::InvalidStride
                    } else {
                        StructuralError::StrideMismatch
                    })
                },
            },
    {
        if nominal < 1 || nominal > stride {
            return Err(StructuralError::InvalidStride);
        }
        if bytes.len() % stride != 0 {
            return Err(StructuralError::StrideMismatch);
        }
        Ok(StrideArray { stride, nominal, bytes })
    }

    /// An empty array with the given slot geometry, ready to be filled.
    pub fn empty(stride: usize, nominal: usize) -> (r: Self)
        requires
            1 <= nominal <= stride,
        ensures
            r.stride_spec() == stride,
            r.nominal_spec() == nominal,
            r.bytes_spec() == Seq::<u8>::empty(),
            r.count_spec() == 0,
    {
        proof {
            assert(0int % (stride as int) == 0) by (nonlinear_arith)
                requires
                    stride >= 1,
            ;
        }
        let r = StrideArray { stride, nominal, bytes: Vec::new() };
        proof {
            assert(r.bytes_spec() =~= Seq::<u8>::empty());
        }
        r
    }

    /// The number of elements.
    pub fn len(&self) -> (r: usize)
        ensures
            r == self.count_spec(),
    {
        proof {
            use_type_invariant(&*self);
        }
        self.bytes.len() / self.stride
    }

    /// The declared stride.
    pub fn stride(&self) -> (r: usize)
        ensures
            r == self.stride_spec(),
    {
        self.stride
    }

    /// The nominal element size.
    pub fn nominal(&self) -> (r: usize)
        ensures
            r == self.nominal_spec(),
    {
        self.nominal
    }

    /// The raw element region, for serialization.
    pub fn as_bytes(&self) -> (r: &[u8])
        ensures
            r@ == self.bytes_spec(),
    {
        self.bytes.as_slice()
    }

    /// Borrows the data bytes of element `i`. Only the first nominal-size
    /// bytes of the slot are exposed; the slot's padding is never read.
    pub fn window(&self, i: usize) -> (r: &[u8])
        requires
            i < self.count_spec(),
        ensures
            r@ == self.window_spec(i as int),
            r@.len() == self.nominal_spec(),
    {
        proof {
            use_type_invariant(&*self);
            self.lemma_inv();
            assert((i + 1) * self.stride_spec() <= self.count_spec() * self.stride_spec())
                by (nonlinear_arith)
                requires
                    i < self.count_spec(),
                    self.stride_spec() >= 1,
            ;
            assert((i + 1) * self.stride_spec() == i * self.stride_spec() + self.stride_spec())
                by (nonlinear_arith);
            assert(i * self.stride_spec() >= 0) by (nonlinear_arith)
                requires
                    i >= 0,
                    self.stride_spec() >= 1,
            ;
        }
        let total = self.bytes.len();
        proof {
            assert(total == self.count_spec() * self.stride_spec());
        }
        let start = i * self.stride;
        slice_subrange(self.bytes.as_slice(), start, start + self.nominal)
    }

    /// Appends one element, padding its slot with zero bytes up to the
    /// stride. Earlier windows are untouched.
    pub fn push_element(&mut self, elem: &[u8])
        requires
            elem@.len() == old(self).nominal_spec(),
        ensures
            final(self).stride_spec() == old(self).stride_spec(),
            final(self).nominal_spec() == old(self).nominal_spec(),
            final(self).bytes_spec() == old(self).bytes_spec() + strided_slot(
                elem@,
                old(self).stride_spec(),
            ),
            final(self).count_spec() == old(self).count_spec() + 1,
            final(self).window_spec(old(self).count_spec()) == elem@,
            forall|j: int|
                0 <= j < old(self).count_spec() ==> final(self).window_spec(j) == old(
                    self,
                ).window_spec(j),
    {
        proof {
            use_type_invariant(&*self);
            self.lemma_inv();
        }
        let ghost old_bytes = self.bytes@;
        let ghost stride = self.stride_spec();
        let ghost nominal = self.nominal_spec();
        let ghost old_count = self.count_spec();
        let mut buf: Vec<u8> = Vec::new();
        proof {
            assert(0int % stride == 0) by (nonlinear_arith)
                requires
                    stride >= 1,
            ;
        }
        core::mem::swap(&mut buf, &mut self.bytes);
        buf.extend_from_slice(elem);
        let pad = self.stride - self.nominal;
        let mut k: usize = 0;
        proof {
            assert(buf@ =~= old_bytes + elem@ + Seq::new(0nat, |m: int| 0u8));
        }
        while k < pad
            invariant
                0 <= k <= pad,
                pad == stride - nominal,
                buf@ == old_bytes + elem@ + Seq::new(k as nat, |m: int| 0u8),
                elem@.len() == nominal,
            decreases pad - k,
        {
            buf.push(0u8);
            proof {
                assert(buf@ =~= old_bytes + elem@ + Seq::new((k + 1) as nat, |m: int| 0u8));
            }
            k = k + 1;
        }
        proof {
            assert(buf@ =~= old_bytes + strided_slot(elem@, stride));
            lemma_fundamental_div_mod(old_bytes.len() as int, stride);
            assert(old_bytes.len() == stride * old_count);
            assert(stride * old_count + stride == stride * (old_count + 1)) by (nonlinear_arith);
            assert(buf@.len() == stride * (old_count + 1));
            assert(buf@.len() as int % stride == 0 && buf@.len() as int / stride == old_count
                + 1) by {
                vstd::arithmetic::div_mod::lemma_div_multiples_vanish(old_count + 1, stride);
                vstd::arithmetic::div_mod::lemma_mod_multiples_basic(old_count + 1, stride);
            }
        }
        core::mem::swap(&mut buf, &mut self.bytes);
        proof {
            assert(self.window_spec(old_count) =~= elem@) by {
                assert(old_count * stride == stride * old_count) by (nonlinear_arith);
            }
            assert forall|j: int| 0 <= j < old_count implies self.window_spec(j) == old(
                self,
            ).window_spec(j) by {
                assert(j * stride >= 0 && (j + 1) * stride <= old_count * stride)
                    by (nonlinear_arith)
                    requires
                        0 <= j < old_count,
                        stride >= 1,
                ;
                assert((j + 1) * stride == j * stride + stride) by (nonlinear_arith);
                assert(old_count * stride == stride * old_count) by (nonlinear_arith);
                assert(self.window_spec(j) =~= old(self).window_spec(j));
            }
        }
    }

    /// Overwrites the data bytes of element `i` in place, leaving every
    /// other window and all slot padding untouched. Requires exclusive
    /// access to the array for the duration of the write.
    pub fn set_window(&mut self, i: usize, w: &[u8])
        requires
            i < old(self).count_spec(),
            w@.len() == old(self).nominal_spec(),
        ensures
            final(self).stride_spec() == old(self).stride_spec(),
            final(self).nominal_spec() == old(self).nominal_spec(),
            final(self).count_spec() == old(self).count_spec(),
            final(self).bytes_spec().len() == old(self).bytes_spec().len(),
            final(self).window_spec(i as int) == w@,
            forall|j: int|
                0 <= j < old(self).count_spec() && j != i ==> final(self).window_spec(j) == old(
                    self,
                ).window_spec(j),
            forall|b: int|
                0 <= b < old(self).bytes_spec().len() && !(i * old(self).stride_spec() <= b < i
                    * old(self).stride_spec() + old(self).nominal_spec())
                    ==> final(self).bytes_spec()[b] == old(self).bytes_spec()[b],
    {
        proof {
            use_type_invariant(&*self);
            self.lemma_inv();
            assert((i + 1) * self.stride_spec() <= self.count_spec() * self.stride_spec())
                by (nonlinear_arith)
                requires
                    i < self.count_spec(),
                    self.stride_spec() >= 1,
            ;
            assert((i + 1) * self.stride_spec() == i * self.stride_spec() + self.stride_spec())
                by (nonlinear_arith);
            assert(i * self.stride_spec() >= 0) by (nonlinear_arith)
                requires
                    i >= 0,
                    self.stride_spec() >= 1,
            ;
        }
        let ghost old_bytes = self.bytes@;
        let ghost stride = self.stride_spec();
        let ghost nominal = self.nominal_spec();
        let ghost count = self.count_spec();
        let total = self.bytes.len();
        proof {
            assert(total == count * stride);
            assert(0int % stride == 0) by (nonlinear_arith)
                requires
                    stride >= 1,
            ;
        }
        let start = i * self.stride;
        let nominal_exec = self.nominal;
        let mut buf: Vec<u8> = Vec::new();
        core::mem::swap(&mut buf, &mut self.bytes);
        let mut k: usize = 0;
        while k < nominal_exec
            invariant
                0 <= k <= nominal,
                nominal_exec == nominal,
                w@.len() == nominal,
                start == i * stride,
                start + nominal <= total,
                total == buf@.len(),
                buf@.len() == old_bytes.len(),
                forall|b: int|
                    0 <= b < buf@.len() && !(start <= b < start + k) ==> buf@[b] == old_bytes[b],
                forall|b: int| 0 <= b < k ==> buf@[start + b] == w@[b],
            decreases nominal - k,
        {
            buf.set(start + k, w[k]);
            k = k + 1;
        }
        core::mem::swap(&mut buf, &mut self.bytes);
        proof {
            assert(self.window_spec(i as int) =~= w@);
            assert forall|j: int| 0 <= j < count && j != i implies self.window_spec(j) == old(
                self,
            ).window_spec(j) by {
                assert(j * stride >= 0 && (j + 1) * stride <= count * stride) by (nonlinear_arith)
                    requires
                        0 <= j < count,
                        stride >= 1,
                ;
                assert((j + 1) * stride == j * stride + stride) by (nonlinear_arith);
                assert(count * stride == stride * count) by (nonlinear_arith);
                if j < i {
                    assert((j + 1) * stride <= i * stride) by (nonlinear_arith)
                        requires
                            j + 1 <= i,
                            stride >= 1,
                    ;
                } else {
                    assert((i + 1) * stride <= j * stride) by (nonlinear_arith)
                        requires
                            i + 1 <= j,
                            stride >= 1,
                    ;
                    assert(i * stride + nominal <= i * stride + stride);
                }
                assert(self.window_spec(j) =~= old(self).window_spec(j));
            }
        }
    }
}

} // verus!
