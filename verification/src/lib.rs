//! A dense-matrix multiplication engine built from small verified parts:
//! a flat row-major matrix, strided vector views, a dot-product kernel,
//! and an orchestrator that partitions the product into per-cell tasks,
//! runs the kernel on each, and assembles the replies into the result.
//!
//! This crate root holds the leaf pieces: the error taxonomy, the owned
//! vector view, and the dot-product kernel with its mathematical model.

use vstd::prelude::*;

pub mod martix;

verus! {

/// Every way a multiply call can fail.
#[derive(Clone, Copy, Debug, PartialEq, Eq, Structural)]
pub enum MultiplyError {
    /// The operand shapes are incompatible: `a.col != b.row`.
    DimensionMismatch,
    /// A dot-product kernel received operands of unequal length;
    /// this indicates an internal partitioning bug, not a caller error.
    ShapeMismatch,
    /// A reply could not be sent or received; the peer was dropped.
    ChannelFailure,
}

/// An owned, read-only sequence of elements used as a kernel operand:
/// either a copied matrix row or a materialized (strided) matrix column.
pub struct Vector {
    pub data: Vec<i64>,
}

impl View for Vector {
    type V = Seq<i64>;

    open spec fn view(&self) -> Seq<i64> {
        self.data@
    }
}

impl Vector {
    pub fn new(data: Vec<i64>) -> (v: Vector)
        ensures
            v@ == data@,
    {
        Vector { data }
    }

    pub fn len(&self) -> (n: usize)
        ensures
            n == self@.len(),
    {
        self.data.len()
    }
}

/// The `k`-th summand of a dot product.
pub open spec fn term(a: Seq<i64>, b: Seq<i64>, k: int) -> int {
    a[k] * b[k]
}

/// Sum of the first `n` summands, accumulated low-to-high.
pub open spec fn dot_prefix(a: Seq<i64>, b: Seq<i64>, n: int) -> int
    decreases n,
{
    if n <= 0 {
        0
    } else {
        dot_prefix(a, b, n - 1) + term(a, b, n - 1)
    }
}

/// The full mathematical dot product of two equal-length sequences.
pub open spec fn dot_spec(a: Seq<i64>, b: Seq<i64>) -> int {
    dot_prefix(a, b, a.len() as int)
}

pub open spec fn term_fits(a: Seq<i64>, b: Seq<i64>, k: int) -> bool {
    i64::MIN <= term(a, b, k) <= i64::MAX
}

pub open spec fn prefix_fits(a: Seq<i64>, b: Seq<i64>, n: int) -> bool {
    i64::MIN <= dot_prefix(a, b, n) <= i64::MAX
}

/// The accumulation stays within `i64` at every step: each summand fits,
/// and so does every partial sum. Exactly the inputs on which the kernel's
/// arithmetic cannot overflow.
pub open spec fn dot_fits(a: Seq<i64>, b: Seq<i64>) -> bool {
    &&& forall|k: int| 0 <= k < a.len() ==> #[trigger] term_fits(a, b, k)
    &&& forall|n: int| 0 <= n <= a.len() ==> #[trigger] prefix_fits(a, b, n)
}

/// The dot-product kernel: fails with `ShapeMismatch` on unequal lengths,
/// otherwise accumulates `sum(a[k] * b[k])` from zero, low-to-high.
pub fn dot_product(a: Vector, b: Vector) -> (r: Result<i64, MultiplyError>)
    requires
        a@.len() == b@.len() ==> dot_fits(a@, b@),
    ensures
        match r {
            Ok(v) => a@.len() == b@.len() && v == dot_spec(a@, b@),
            Err(e) => a@.len() != b@.len() && e == MultiplyError::ShapeMismatch,
        },
{
    if a.data.len() != b.data.len() {
        return Err(MultiplyError::ShapeMismatch);
    }
    let n = a.data.len();
    let mut acc: i64 = 0;
    let mut k: usize = 0;
    while k < n
        invariant
            n == a@.len(),
            a@.len() == b@.len(),
            dot_fits(a@, b@),
            k <= n,
            acc == dot_prefix(a@, b@, k as int),
        decreases n - k,
    {
        proof {
            assert(term_fits(a@, b@, k as int));
            assert(prefix_fits(a@, b@, k as int + 1));
            assert(dot_prefix(a@, b@, k as int + 1) == dot_prefix(a@, b@, k as int) + term(
                a@,
                b@,
                k as int,
            ));
        }
        acc = acc + a.data[k] * b.data[k];
        k = k + 1;
    }
    Ok(acc)
}

/// Runtime check of `dot_fits`: walks the accumulation with checked
/// arithmetic and reports whether any step would overflow. Lets an
/// unverified caller establish the kernel's precondition before calling it.
pub fn dot_fits_exec(a: &Vector, b: &Vector) -> (r: bool)
    requires
        a@.len() == b@.len(),
    ensures
        r == dot_fits(a@, b@),
{
    let n = a.data.len();
    let mut acc: i64 = 0;
    let mut k: usize = 0;
    while k < n
        invariant
            n == a@.len(),
            a@.len() == b@.len(),
            k <= n,
            acc == dot_prefix(a@, b@, k as int),
            forall|t: int| 0 <= t < k ==> #[trigger] term_fits(a@, b@, t),
            forall|t: int| 0 <= t <= k ==> #[trigger] prefix_fits(a@, b@, t),
        decreases n - k,
    {
        let p = match a.data[k].checked_mul(b.data[k]) {
            Some(p) => p,
            None => {
                proof {
                    assert(!term_fits(a@, b@, k as int));
                }
                return false;
            },
        };
        proof {
            assert(dot_prefix(a@, b@, k as int + 1) == dot_prefix(a@, b@, k as int) + term(
                a@,
                b@,
                k as int,
            ));
        }
        let s = match acc.checked_add(p) {
            Some(s) => s,
            None => {
                proof {
                    assert(!prefix_fits(a@, b@, k as int + 1));
                }
                return false;
            },
        };
        acc = s;
        k = k + 1;
    }
    true
}

} // verus!
