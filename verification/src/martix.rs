//! The matrix type, the per-cell task protocol, and the multiply
//! orchestrator: validate shapes, build one task per output cell, run the
//! kernel on each, and assemble the keyed replies into the result matrix.

use crate::MultiplyError;
use crate::Vector;
use crate::dot_fits;
use crate::dot_spec;
use vstd::arithmetic::div_mod::lemma_fundamental_div_mod;
use vstd::arithmetic::div_mod::lemma_fundamental_div_mod_converse;
use vstd::prelude::*;

verus! {

/// A dense matrix: a flat row-major buffer plus its dimensions.
/// Element `(i, j)` lives at `data[i * col + j]`.
#[derive(Debug)]
pub struct Martix {
    pub data: Vec<i64>,
    pub row: usize,
    pub col: usize,
}

impl View for Martix {
    type V = Seq<i64>;

    open spec fn view(&self) -> Seq<i64> {
        self.data@
    }
}

impl Martix {
    /// The buffer holds exactly one element per cell.
    pub open spec fn wf(self) -> bool {
        self.data@.len() == self.row * self.col
    }

    pub fn new(data: Vec<i64>, row: usize, col: usize) -> (m: Martix)
        requires
            data@.len() == row * col,
        ensures
            m.data@ == data@,
            m.row == row,
            m.col == col,
            m.wf(),
    {
        Martix { data, row, col }
    }
}

/// Row `i` of `m`, as the sequence of its `m.col` elements.
pub open spec fn row_seq(m: Martix, i: int) -> Seq<i64> {
    Seq::new(m.col as nat, |k: int| m.data@[i * m.col + k])
}

/// Column `j` of `m`, as the sequence of its `m.row` elements,
/// read with stride `m.col`.
pub open spec fn col_seq(m: Martix, j: int) -> Seq<i64> {
    Seq::new(m.row as nat, |k: int| m.data@[k * m.col + j])
}

/// One unit of work: the output cell index together with the two
/// operands of that cell's dot product.
pub struct MsgInput {
    pub idx: usize,
    pub row: Vector,
    pub col: Vector,
}

impl MsgInput {
    pub fn new(idx: usize, row: Vector, col: Vector) -> (t: MsgInput)
        ensures
            t.idx == idx,
            t.row@ == row@,
            t.col@ == col@,
    {
        MsgInput { idx, row, col }
    }
}

/// One task's reply: the output cell index and the value computed for it.
#[derive(Debug)]
pub struct MsgOutput {
    pub idx: usize,
    pub value: i64,
}

/// Builds the task for output cell `idx` of the product `a * b`:
/// the cell's row of `a`, its column of `b` (copied, strided), and `idx`
/// itself, which keys the reply back to its place in the result buffer.
pub fn make_task(a: &Martix, b: &Martix, idx: usize) -> (t: MsgInput)
    requires
        a.wf(),
        b.wf(),
        a.col == b.row,
        idx < a.row * b.col,
    ensures
        t.idx == idx,
        t.row@ == row_seq(*a, idx as int / b.col as int),
        t.col@ == col_seq(*b, idx as int % b.col as int),
        t.row@.len() == a.col,
        t.col@.len() == b.row,
{
    let cb = b.col;
    proof {
        assert(cb > 0) by (nonlinear_arith)
            requires
                (idx as int) < (a.row as int) * (cb as int),
                idx >= 0,
        ;
    }
    let i = idx / cb;
    let j = idx % cb;
    proof {
        lemma_fundamental_div_mod(idx as int, cb as int);
        assert((i as int) < a.row) by (nonlinear_arith)
            requires
                idx as int == (cb as int) * (i as int) + (j as int),
                0 <= (j as int) < (cb as int),
                (idx as int) < (a.row as int) * (cb as int),
        ;
    }
    let alen = a.data.len();
    let mut rowv: Vec<i64> = Vec::new();
    let mut k: usize = 0;
    while k < a.col
        invariant
            a.wf(),
            alen == a.data@.len(),
            (i as int) < a.row,
            k <= a.col,
            rowv@.len() == k,
            forall|t: int| 0 <= t < k ==> rowv@[t] == a.data@[i * a.col + t],
        decreases a.col - k,
    {
        proof {
            assert((i as int) * (a.col as int) + (k as int) < alen as int) by (nonlinear_arith)
                requires
                    0 <= (i as int) < (a.row as int),
                    0 <= (k as int) < (a.col as int),
                    alen as int == (a.row as int) * (a.col as int),
            ;
        }
        rowv.push(a.data[i * a.col + k]);
        k = k + 1;
    }
    let blen = b.data.len();
    let mut colv: Vec<i64> = Vec::new();
    let mut k: usize = 0;
    while k < b.row
        invariant
            b.wf(),
            blen == b.data@.len(),
            (j as int) < b.col,
            k <= b.row,
            colv@.len() == k,
            forall|t: int| 0 <= t < k ==> colv@[t] == b.data@[t * b.col + j],
        decreases b.row - k,
    {
        proof {
            assert((k as int) * (b.col as int) + (j as int) < blen as int) by (nonlinear_arith)
                requires
                    0 <= (k as int) < (b.row as int),
                    0 <= (j as int) < (b.col as int),
                    blen as int == (b.row as int) * (b.col as int),
            ;
        }
        colv.push(b.data[k * b.col + j]);
        k = k + 1;
    }
    proof {
        assert(rowv@ =~= row_seq(*a, i as int));
        assert(colv@ =~= col_seq(*b, j as int));
    }
    MsgInput::new(idx, Vector::new(rowv), Vector::new(colv))
}

/// Sum of the first `n` terms of the standard matrix-product formula for
/// cell `(i, j)`: `a[i][0]*b[0][j] + ... + a[i][n-1]*b[n-1][j]`.
pub open spec fn cell_sum(a: Martix, b: Martix, i: int, j: int, n: int) -> int
    decreases n,
{
    if n <= 0 {
        0
    } else {
        cell_sum(a, b, i, j, n - 1) + a.data@[i * a.col + (n - 1)] * b.data@[(n - 1) * b.col + j]
    }
}

/// Cell `(i, j)` of the standard mathematical matrix product `a * b`:
/// the sum over `k` of `a[i][k] * b[k][j]`.
pub open spec fn product_cell(a: Martix, b: Martix, i: int, j: int) -> int {
    cell_sum(a, b, i, j, a.col as int)
}

/// The dot product of row `i` of `a` with column `j` of `b` is exactly
/// the standard matrix-product formula for cell `(i, j)`.
pub proof fn lemma_dot_is_product_cell(a: Martix, b: Martix, i: int, j: int)
    requires
        a.col == b.row,
    ensures
        dot_spec(row_seq(a, i), col_seq(b, j)) == product_cell(a, b, i, j),
{
    lemma_dot_prefix_is_cell_sum(a, b, i, j, a.col as int);
}

proof fn lemma_dot_prefix_is_cell_sum(a: Martix, b: Martix, i: int, j: int, n: int)
    requires
        a.col == b.row,
        n <= a.col,
    ensures
        crate::dot_prefix(row_seq(a, i), col_seq(b, j), n) == cell_sum(a, b, i, j, n),
    decreases n,
{
    if n > 0 {
        lemma_dot_prefix_is_cell_sum(a, b, i, j, n - 1);
        assert(row_seq(a, i)[n - 1] == a.data@[i * a.col + (n - 1)]);
        assert(col_seq(b, j)[n - 1] == b.data@[(n - 1) * b.col + j]);
    }
}

/// Round-robin routing: the worker that handles the task for output
/// cell `idx` in a pool of `pool` workers.
pub fn route(idx: usize, pool: usize) -> (w: usize)
    requires
        pool > 0,
    ensures
        w == idx % pool,
        w < pool,
{
    idx % pool
}

/// What a worker does with one dequeued task: run the dot-product kernel
/// on the task's operands and key the value with the task's cell index.
pub fn worker_step(msg: MsgInput) -> (r: Result<MsgOutput, MultiplyError>)
    requires
        msg.row@.len() == msg.col@.len() ==> dot_fits(msg.row@, msg.col@),
    ensures
        match r {
            Ok(o) => msg.row@.len() == msg.col@.len() && o.idx == msg.idx && o.value == dot_spec(
                msg.row@,
                msg.col@,
            ),
            Err(e) => msg.row@.len() != msg.col@.len() && e == MultiplyError::ShapeMismatch,
        },
{
    match crate::dot_product(msg.row, msg.col) {
        Ok(value) => Ok(MsgOutput { idx: msg.idx, value }),
        Err(e) => Err(e),
    }
}

/// Some reply carries cell index `i`.
pub open spec fn index_covered(outs: Seq<MsgOutput>, i: int) -> bool {
    exists|k: int| 0 <= k < outs.len() && (#[trigger] outs[k]).idx == i
}

/// The replies are exactly one per output cell: one reply for each index
/// in `[0, n)`, every index in range, and no index twice.
pub open spec fn is_complete_assembly(outs: Seq<MsgOutput>, n: int) -> bool {
    &&& outs.len() == n
    &&& forall|k: int| 0 <= k < n ==> (#[trigger] outs[k]).idx < n
    &&& forall|k1: int, k2: int|
        0 <= k1 < k2 < n ==> (#[trigger] outs[k1]).idx != (#[trigger] outs[k2]).idx
    &&& forall|i: int| 0 <= i < n ==> #[trigger] index_covered(outs, i)
}

/// Writes each reply's value at its own cell index and returns the
/// assembled `row x col` matrix. The replies must cover every output
/// cell exactly once; a short, duplicated or out-of-range set of replies
/// means some reply was lost or corrupted, and the whole call fails with
/// `ChannelFailure` rather than returning a partial result.
pub fn assemble(row: usize, col: usize, outputs: Vec<MsgOutput>) -> (r: Result<
    Martix,
    MultiplyError,
>)
    requires
        row * col <= usize::MAX,
    ensures
        match r {
            Ok(m) => {
                &&& is_complete_assembly(outputs@, row as int * col as int)
                &&& m.row == row
                &&& m.col == col
                &&& m.wf()
                &&& forall|k: int|
                    0 <= k < outputs@.len() ==> m.data@[(#[trigger] outputs@[k]).idx as int]
                        == outputs@[k].value
            },
            Err(e) => {
                &&& !is_complete_assembly(outputs@, row as int * col as int)
                &&& e == MultiplyError::ChannelFailure
            },
        },
{
    let n = row * col;
    if outputs.len() != n {
        return Err(MultiplyError::ChannelFailure);
    }
    let mut data: Vec<i64> = Vec::new();
    let mut t: usize = 0;
    while t < n
        invariant
            data@.len() == t,
            t <= n,
        decreases n - t,
    {
        data.push(0);
        t = t + 1;
    }
    let mut written: Vec<bool> = Vec::new();
    let mut t: usize = 0;
    while t < n
        invariant
            written@.len() == t,
            t <= n,
            forall|i: int| 0 <= i < t ==> !written@[i],
        decreases n - t,
    {
        written.push(false);
        t = t + 1;
    }
    let mut k: usize = 0;
    while k < n
        invariant
            n == row * col,
            outputs@.len() == n,
            data@.len() == n,
            written@.len() == n,
            k <= n,
            forall|i: int| 0 <= i < n ==> written@[i] == exists|k1: int|
                0 <= k1 < k && (#[trigger] outputs@[k1]).idx == i,
            forall|k1: int| 0 <= k1 < k ==> (#[trigger] outputs@[k1]).idx < n,
            forall|k1: int, k2: int|
                0 <= k1 < k2 < k ==> (#[trigger] outputs@[k1]).idx != (
                #[trigger] outputs@[k2]).idx,
            forall|k1: int|
                0 <= k1 < k ==> data@[(#[trigger] outputs@[k1]).idx as int] == outputs@[k1].value,
        decreases n - k,
    {
        let idx = outputs[k].idx;
        if idx >= n {
            return Err(MultiplyError::ChannelFailure);
        }
        if written[idx] {
            proof {
                let k1 = choose|k1: int| 0 <= k1 < k && (#[trigger] outputs@[k1]).idx == idx;
                assert(outputs@[k1].idx == outputs@[k as int].idx);
            }
            return Err(MultiplyError::ChannelFailure);
        }
        data[idx] = outputs[k].value;
        written[idx] = true;
        k = k + 1;
    }
    let mut i: usize = 0;
    while i < n
        invariant
            n == row * col,
            outputs@.len() == n,
            written@.len() == n,
            i <= n,
            forall|t1: int| 0 <= t1 < n ==> written@[t1] == index_covered(outputs@, t1),
            forall|t1: int| 0 <= t1 < i ==> written@[t1],
        decreases n - i,
    {
        if !written[i] {
            return Err(MultiplyError::ChannelFailure);
        }
        i = i + 1;
    }
    Ok(Martix { data, row, col })
}

/// All tasks of the product `a * b`, one per output cell, in row-major
/// order of the cell index: task `k` computes output cell `k`.
pub fn build_tasks(a: &Martix, b: &Martix) -> (tasks: Vec<MsgInput>)
    requires
        a.wf(),
        b.wf(),
        a.col == b.row,
        a.row * b.col <= usize::MAX,
    ensures
        tasks@.len() == a.row * b.col,
        forall|k: int| 0 <= k < tasks@.len() ==> (#[trigger] tasks@[k]).idx == k,
        forall|k: int|
            0 <= k < tasks@.len() ==> (#[trigger] tasks@[k]).row@ == row_seq(
                *a,
                k / (b.col as int),
            ) && tasks@[k].col@ == col_seq(*b, k % (b.col as int)),
        forall|k: int|
            0 <= k < tasks@.len() ==> (#[trigger] tasks@[k]).row@.len() == a.col
                && tasks@[k].col@.len() == b.row,
{
    let n = a.row * b.col;
    let mut tasks: Vec<MsgInput> = Vec::new();
    let mut idx: usize = 0;
    while idx < n
        invariant
            a.wf(),
            b.wf(),
            a.col == b.row,
            n == a.row * b.col,
            idx <= n,
            tasks@.len() == idx,
            forall|k: int| 0 <= k < idx ==> (#[trigger] tasks@[k]).idx == k,
            forall|k: int|
                0 <= k < idx ==> (#[trigger] tasks@[k]).row@ == row_seq(*a, k / (b.col as int))
                    && tasks@[k].col@ == col_seq(*b, k % (b.col as int)),
            forall|k: int|
                0 <= k < idx ==> (#[trigger] tasks@[k]).row@.len() == a.col
                    && tasks@[k].col@.len() == b.row,
        decreases n - idx,
    {
        let task = make_task(a, b, idx);
        tasks.push(task);
        idx = idx + 1;
    }
    tasks
}

/// The arithmetic of the whole product stays within machine limits:
/// the result buffer length fits `usize`, and no cell's dot product
/// overflows `i64` at any accumulation step.
pub open spec fn mul_fits(a: Martix, b: Martix) -> bool {
    a.col == b.row ==> {
        &&& a.row * b.col <= usize::MAX
        &&& forall|i: int, j: int|
            0 <= i < a.row && 0 <= j < b.col ==> #[trigger] dot_fits(
                row_seq(a, i),
                col_seq(b, j),
            )
    }
}

/// Everything `multiply` promises: it fails with `DimensionMismatch`
/// exactly when the shapes are incompatible, and otherwise returns the
/// `a.row x b.col` matrix whose every cell is the standard mathematical
/// matrix product of its row of `a` and its column of `b`.
pub open spec fn multiply_post(a: Martix, b: Martix, r: Result<Martix, MultiplyError>) -> bool {
    match r {
        Ok(m) => {
            &&& a.col == b.row
            &&& m.row == a.row
            &&& m.col == b.col
            &&& m.wf()
            &&& forall|i: int, j: int|
                0 <= i < a.row && 0 <= j < b.col ==> m.data@[i * b.col + j]
                    == #[trigger] product_cell(a, b, i, j)
        },
        Err(e) => a.col != b.row && e == MultiplyError::DimensionMismatch,
    }
}

/// The multiply orchestrator: validates the shapes, builds one task per
/// output cell, runs the kernel step on each, and assembles the keyed
/// replies into the result matrix.
///
/// A deployment that spreads the tasks over worker threads is built from
/// the same pieces — `build_tasks` to partition, `route` to distribute,
/// `worker_step` on each worker, `assemble` to collect — and `assemble`
/// accepts the replies in whatever order they arrive, since each is keyed
/// by its cell index.
pub fn multiply(a: &Martix, b: &Martix) -> (r: Result<Martix, MultiplyError>)
    requires
        a.wf(),
        b.wf(),
        mul_fits(*a, *b),
    ensures
        multiply_post(*a, *b, r),
        r is Err <==> a.col != b.row,
{
    if a.col != b.row {
        return Err(MultiplyError::DimensionMismatch);
    }
    let n = a.row * b.col;
    let mut outputs: Vec<MsgOutput> = Vec::new();
    let mut idx: usize = 0;
    while idx < n
        invariant
            a.wf(),
            b.wf(),
            a.col == b.row,
            mul_fits(*a, *b),
            n == a.row * b.col,
            idx <= n,
            outputs@.len() == idx,
            forall|k: int|
                0 <= k < idx ==> (#[trigger] outputs@[k]).idx == k && outputs@[k].value
                    == product_cell(*a, *b, k / (b.col as int), k % (b.col as int)),
        decreases n - idx,
    {
        let task = make_task(a, b, idx);
        proof {
            let cb = b.col as int;
            let i = idx as int / cb;
            let j = idx as int % cb;
            assert(cb > 0) by (nonlinear_arith)
                requires
                    (idx as int) < (a.row as int) * (cb as int),
                    idx >= 0,
            ;
            lemma_fundamental_div_mod(idx as int, cb);
            vstd::arithmetic::div_mod::lemma_mod_pos_bound(idx as int, cb);
            assert(0 <= i < a.row) by (nonlinear_arith)
                requires
                    idx as int == cb * i + j,
                    0 <= j < cb,
                    0 <= idx as int,
                    (idx as int) < (a.row as int) * cb,
            ;
            assert(dot_fits(row_seq(*a, i), col_seq(*b, j)));
        }
        let out = match worker_step(task) {
            Ok(o) => o,
            Err(_) => {
                proof {
                    assert(false);
                }
                return Err(MultiplyError::ShapeMismatch);
            },
        };
        proof {
            let cb = b.col as int;
            lemma_dot_is_product_cell(*a, *b, idx as int / cb, idx as int % cb);
        }
        outputs.push(out);
        idx = idx + 1;
    }
    let ghost souts = outputs@;
    let result = assemble(a.row, b.col, outputs);
    match result {
        Ok(m) => {
            proof {
                assert forall|i: int, j: int|
                    0 <= i < a.row && 0 <= j < b.col implies m.data@[i * b.col + j]
                    == #[trigger] product_cell(*a, *b, i, j) by {
                    let cb = b.col as int;
                    let k = i * cb + j;
                    assert(0 <= i * cb + j < n) by (nonlinear_arith)
                        requires
                            0 <= i < a.row as int,
                            0 <= j < cb,
                            n == (a.row as int) * cb,
                    ;
                    lemma_fundamental_div_mod_converse(k, cb, i, j);
                    assert(m.data@[(souts[k]).idx as int] == souts[k].value);
                }
            }
            Ok(m)
        },
        Err(_) => {
            proof {
                assert forall|i: int| 0 <= i < n implies index_covered(souts, i) by {
                    assert(souts[i].idx == i);
                }
                assert(is_complete_assembly(souts, n as int));
                assert(false);
            }
            Err(MultiplyError::ChannelFailure)
        },
    }
}

impl Martix {
    /// The product matrix itself, for operands already known to be
    /// compatible and within machine limits.
    pub fn mul(self, rhs: Martix) -> (m: Martix)
        requires
            self.wf(),
            rhs.wf(),
            self.col == rhs.row,
            mul_fits(self, rhs),
        ensures
            multiply_post(self, rhs, Ok(m)),
    {
        match multiply(&self, &rhs) {
            Ok(m) => m,
            Err(_) => {
                proof {
                    assert(false);
                }
                Martix { data: Vec::new(), row: 0, col: 0 }
            },
        }
    }
}

/// Every output cell index is produced by exactly one task — the task at
/// position `i` of the build order — and round-robin routing hands that
/// task to exactly one worker of the pool, whatever the pool size.
pub proof fn lemma_index_written_once(tasks: Seq<MsgInput>, pool: int, i: int)
    requires
        forall|k: int| 0 <= k < tasks.len() ==> (#[trigger] tasks[k]).idx == k,
        0 < pool,
        0 <= i < tasks.len(),
    ensures
        tasks[i].idx == i,
        forall|k: int| 0 <= k < tasks.len() && (#[trigger] tasks[k]).idx == i ==> k == i,
        0 <= i % pool < pool,
{
    vstd::arithmetic::div_mod::lemma_mod_pos_bound(i, pool);
}

/// Determinism: the multiply contract pins the whole result, so any two
/// outcomes for the same operands agree — cell for cell on success,
/// error for error on failure.
pub proof fn lemma_multiply_deterministic(
    a: Martix,
    b: Martix,
    r1: Result<Martix, MultiplyError>,
    r2: Result<Martix, MultiplyError>,
)
    requires
        multiply_post(a, b, r1),
        multiply_post(a, b, r2),
    ensures
        match (r1, r2) {
            (Ok(m1), Ok(m2)) => m1.row == m2.row && m1.col == m2.col && m1.data@ == m2.data@,
            (Err(e1), Err(e2)) => e1 == e2,
            _ => false,
        },
{
    if r1 is Ok && r2 is Ok {
        let m1 = r1.unwrap();
        let m2 = r2.unwrap();
        assert forall|t: int| 0 <= t < m1.data@.len() implies m1.data@[t] == m2.data@[t] by {
            let cb = b.col as int;
            assert((b.col as int) > 0) by (nonlinear_arith)
                requires
                    0 <= (a.row as int),
                    0 <= t,
                    t < (a.row as int) * (b.col as int),
            ;
            let i = t / cb;
            let j = t % cb;
            lemma_fundamental_div_mod(t, cb);
            vstd::arithmetic::div_mod::lemma_mod_pos_bound(t, cb);
            assert(0 <= i < a.row) by (nonlinear_arith)
                requires
                    t == cb * i + j,
                    0 <= j < cb,
                    0 <= t,
                    t < (a.row as int) * cb,
            ;
            assert(m1.data@[i * cb + j] == product_cell(a, b, i, j));
            assert(m2.data@[i * cb + j] == product_cell(a, b, i, j));
        }
        assert(m1.data@ =~= m2.data@);
    }
}

} // verus!
