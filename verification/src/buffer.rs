//! A flat, dense array with a shape: the container that a read fills.
use vstd::prelude::*;
use crate::DataType;

verus! {

/// The product of the numbers of a sequence; 1 for the empty sequence.
pub open spec fn product(s: Seq<usize>) -> nat
    decreases s.len(),
{
    if s.len() == 0 {
        1
    } else {
        product(s.drop_last()) * (s.last() as nat)
    }
}

/// Where no number of a sequence is zero, the product of its first `n`
/// numbers is not zero and not above the product of all of them.
pub proof fn lemma_product_prefix(s: Seq<usize>, n: int)
    requires
        0 <= n <= s.len(),
        forall|i: int| 0 <= i < s.len() ==> s[i] > 0,
    ensures
        0 < product(s.take(n)) <= product(s),
    decreases s.len() - n,
{
    if n < s.len() {
        lemma_product_prefix(s, n + 1);
        assert(s.take(n + 1).drop_last() =~= s.take(n));
        let p = product(s.take(n));
        let x = s[n] as nat;
        assert(product(s.take(n + 1)) == p * x);
        assert(0 < p <= p * x) by (nonlinear_arith)
            requires
                x > 0,
                0 < p * x,
        ;
    } else {
        assert(s.take(n) =~= s);
        lemma_product_positive(s);
    }
}

/// The product of numbers that are not zero is not zero.
pub proof fn lemma_product_positive(s: Seq<usize>)
    requires
        forall|i: int| 0 <= i < s.len() ==> s[i] > 0,
    ensures
        product(s) > 0,
    decreases s.len(),
{
    if s.len() > 0 {
        lemma_product_positive(s.drop_last());
        let p = product(s.drop_last());
        let x = s.last() as nat;
        assert(p * x > 0) by (nonlinear_arith)
            requires
                p > 0,
                x > 0,
        ;
    }
}

/// The product of a sequence that holds a zero is zero.
pub proof fn lemma_product_zero(s: Seq<usize>, k: int)
    requires
        0 <= k < s.len(),
        s[k] == 0,
    ensures
        product(s) == 0,
    decreases s.len(),
{
    if k < s.len() - 1 {
        lemma_product_zero(s.drop_last(), k);
        let x = s.last() as nat;
        assert(0 * x == 0) by (nonlinear_arith);
    } else {
        let p = product(s.drop_last());
        assert(p * 0 == 0) by (nonlinear_arith);
    }
}

/// `Vec::into_boxed_slice`: the same elements in the same order, as a boxed
/// slice.
#[verifier::external_body]
fn into_boxed_slice<T>(data: Vec<T>) -> (r: Box<[T]>)
    ensures
        r@ == data@,
{
    data.into_boxed_slice()
}

/// An owned, contiguous, row-major array of `ND` dimensions.
#[derive(Debug)]
pub struct Buffer<T, const ND: usize> {
    // Row-major
    data: Vec<T>,
    shape: [usize; ND],
}

impl<T, const ND: usize> View for Buffer<T, ND> {
    type V = Seq<T>;

    /// The elements, in row-major order.
    closed spec fn view(&self) -> Seq<T> {
        self.data@
    }
}

impl<T: DataType, const ND: usize> Buffer<T, ND> {
    /// A buffer of zeros with the given extent along each dimension.
    pub fn new(shape: [usize; ND]) -> (r: Self)
        requires
            product(shape@) <= usize::MAX,
        ensures
            r.wf(),
            r.spec_shape() == shape@,
            r@ == Seq::new(product(shape@), |i: int| T::zero_value()),
    {
        let mut has_zero = false;
        let mut k: usize = 0;
        while k < ND
            invariant
                k <= ND,
                shape@.len() == ND,
                has_zero ==> product(shape@) == 0,
                !has_zero ==> forall|i: int| 0 <= i < k ==> shape@[i] > 0,
            decreases ND - k,
        {
            if shape[k] == 0 {
                has_zero = true;
                proof {
                    lemma_product_zero(shape@, k as int);
                }
            }
            k = k + 1;
        }
        let mut data_len: usize = 1;
        if has_zero {
            data_len = 0;
        } else {
            let mut k: usize = 0;
            assert(shape@.take(0) =~= Seq::<usize>::empty());
            while k < ND
                invariant
                    k <= ND,
                    shape@.len() == ND,
                    forall|i: int| 0 <= i < ND ==> shape@[i] > 0,
                    product(shape@) <= usize::MAX,
                    data_len == product(shape@.take(k as int)),
                decreases ND - k,
            {
                proof {
                    lemma_product_prefix(shape@, k + 1);
                    assert(shape@.take(k + 1).drop_last() =~= shape@.take(k as int));
                }
                data_len = data_len * shape[k];
                k = k + 1;
            }
            assert(shape@.take(ND as int) =~= shape@);
        }
        let mut data: Vec<T> = Vec::with_capacity(data_len);
        let mut n: usize = 0;
        while n < data_len
            invariant
                n <= data_len,
                data@.len() == n,
                forall|i: int| 0 <= i < n ==> data@[i] == T::zero_value(),
            decreases data_len - n,
        {
            data.push(T::zero());
            n = n + 1;
        }
        assert(data@ =~= Seq::new(product(shape@), |i: int| T::zero_value()));
        Self { data, shape }
    }

    /// The elements as a boxed slice, and the shape.
    pub fn to_owned_parts(self) -> (r: (Box<[T]>, [usize; ND]))
        ensures
            r.0@ == self@,
            r.1@ == self.spec_shape(),
    {
        (into_boxed_slice(self.data), self.shape)
    }
}

impl<T, const ND: usize> Buffer<T, ND> {
    /// The buffer holds as many elements as its shape says.
    pub open spec fn wf(&self) -> bool {
        self@.len() == product(self.spec_shape())
    }

    /// The extent along each dimension.
    pub closed spec fn spec_shape(&self) -> Seq<usize> {
        self.shape@
    }

    /// The elements, to be written in place.
    pub fn as_mut(&mut self) -> (r: &mut [T])
        ensures
            r@ == old(self)@,
            final(self)@ == final(r)@,
            final(self).spec_shape() == old(self).spec_shape(),
    {
        self.data.as_mut_slice()
    }

    /// The elements, to be read.
    pub fn as_slice(&self) -> (r: &[T])
        ensures
            r@ == self@,
    {
        self.data.as_slice()
    }

    /// Number of elements: the product of the shape.
    pub fn len(&self) -> (n: usize)
        ensures
            n == self@.len(),
            self.wf() ==> n == product(self.spec_shape()),
    {
        self.data.len()
    }

    pub fn shape(&self) -> (r: [usize; ND])
        ensures
            r@ == self.spec_shape(),
    {
        self.shape
    }
}

} // verus!
