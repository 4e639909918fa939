use vstd::prelude::*;

use crate::error::MatrixError;

verus! {

/// An owned copy of one row or one column of a matrix.
#[derive(Debug)]
pub struct Vector<T>(pub Vec<T>);

impl<T> View for Vector<T> {
    type V = Seq<T>;

    open spec fn view(&self) -> Seq<T> {
        self.0@
    }
}

impl<T> Vector<T> {
    pub fn new(value: Vec<T>) -> (r: Self)
        ensures
            r@ == value@,
    {
        Vector(value)
    }

    pub fn len(&self) -> (r: usize)
        ensures
            r == self@.len(),
    {
        self.0.len()
    }

    /// The elements, in order.
    pub fn as_vec(&self) -> (r: &Vec<T>)
        ensures
            r@ == self@,
    {
        &self.0
    }
}

/// Whether an integer lies in the range of `i64`.
pub open spec fn fits_i64(x: int) -> bool {
    i64::MIN <= x <= i64::MAX
}

/// The sum of the first `k` products `a[i] * b[i]`, accumulated from zero one
/// product at a time; `None` as soon as a product or a running sum leaves the
/// range of `i64`.
pub open spec fn checked_dot(a: Seq<i64>, b: Seq<i64>, k: nat) -> Option<int>
    decreases k,
{
    if k == 0 {
        Some(0)
    } else {
        match checked_dot(a, b, (k - 1) as nat) {
            None => None,
            Some(s) => {
                let p = a[k - 1] * b[k - 1];
                if fits_i64(p) && fits_i64(s + p) {
                    Some(s + p)
                } else {
                    None
                }
            },
        }
    }
}

/// The mathematical sum of the first `k` products `a[i] * b[i]`.
pub open spec fn dot_sum(a: Seq<i64>, b: Seq<i64>, k: nat) -> int
    decreases k,
{
    if k == 0 {
        0
    } else {
        dot_sum(a, b, (k - 1) as nat) + a[k - 1] * b[k - 1]
    }
}

/// The dot product of two sequences of equal length, when every step of it
/// stays within `i64`.
pub open spec fn dot_value(a: Seq<i64>, b: Seq<i64>) -> Option<int> {
    checked_dot(a, b, a.len())
}

/// What `dot_product` returns for sequences `a` and `b`.
pub open spec fn dot_result(a: Seq<i64>, b: Seq<i64>) -> Result<i64, MatrixError> {
    if a.len() != b.len() {
        Err(MatrixError::DimensionMismatch)
    } else {
        match dot_value(a, b) {
            Some(v) => Ok(v as i64),
            None => Err(MatrixError::Overflow),
        }
    }
}

/// Where the checked accumulation succeeds, it yields the exact sum of the
/// products.
pub proof fn lemma_checked_dot_is_sum(a: Seq<i64>, b: Seq<i64>, k: nat)
    requires
        checked_dot(a, b, k) is Some,
    ensures
        checked_dot(a, b, k) == Some(dot_sum(a, b, k)),
        fits_i64(dot_sum(a, b, k)),
    decreases k,
{
    if k > 0 {
        lemma_checked_dot_is_sum(a, b, (k - 1) as nat);
    }
}

/// Sum of the elementwise products of `a` and `b`, which must have the same
/// length.
pub fn dot_product(a: Vector<i64>, b: Vector<i64>) -> (r: Result<i64, MatrixError>)
    ensures
        r == dot_result(a@, b@),
        a@.len() != b@.len() ==> r == Err::<i64, MatrixError>(MatrixError::DimensionMismatch),
        r matches Ok(v) ==> v == dot_sum(a@, b@, a@.len()),
{
    if a.len() != b.len() {
        return Err(MatrixError::DimensionMismatch);
    }
    let n = a.len();
    let mut result: i64 = 0;
    let mut i: usize = 0;
    while i < n
        invariant
            n == a@.len(),
            n == b@.len(),
            i <= n,
            checked_dot(a@, b@, i as nat) == Some(result as int),
        decreases n - i,
    {
        let x = a.0[i];
        let y = b.0[i];
        let p = match x.checked_mul(y) {
            Some(p) => p,
            None => {
                proof {
                    lemma_none_stays_none(a@, b@, (i + 1) as nat, n as nat);
                }
                return Err(MatrixError::Overflow);
            },
        };
        result = match result.checked_add(p) {
            Some(s) => s,
            None => {
                proof {
                    lemma_none_stays_none(a@, b@, (i + 1) as nat, n as nat);
                }
                return Err(MatrixError::Overflow);
            },
        };
        i = i + 1;
    }
    proof {
        lemma_checked_dot_is_sum(a@, b@, n as nat);
    }
    Ok(result)
}

/// Once the accumulation has overflowed it stays overflowed.
proof fn lemma_none_stays_none(a: Seq<i64>, b: Seq<i64>, k: nat, n: nat)
    requires
        checked_dot(a, b, k) is None,
        k <= n,
    ensures
        checked_dot(a, b, n) is None,
    decreases n - k,
{
    if k < n {
        assert(checked_dot(a, b, (k + 1) as nat) is None);
        lemma_none_stays_none(a, b, (k + 1) as nat, n);
    }
}

} // verus!
