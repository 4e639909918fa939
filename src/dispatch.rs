//! The task protocol behind a pooled product: one task per output cell,
//! routed to a worker by its coordinates, and the replies put back together
//! in the order the tasks were handed out.
use vstd::prelude::*;

use crate::error::MatrixError;
use crate::matrix::{cell_value, cells_fit, is_product, lemma_cell_index_bound, lemma_row_seq_len, Matrix};
use crate::vector::{dot_product, dot_result, dot_value, lemma_checked_dot_is_sum, Vector};

verus! {

/// Number of workers a pooled product uses unless told otherwise.
pub const NUM_THREADS: usize = 4;

/// The work for one output cell: the row of the left operand and the column
/// of the right one whose dot product fills cell (`row`, `column`), counted
/// from 1, and the worker that is to compute it.
#[derive(Debug)]
pub struct Task {
    pub row: usize,
    pub column: usize,
    pub row_vector: Vector<i64>,
    pub column_vector: Vector<i64>,
    pub worker: usize,
}

/// A worker's answer for one cell.
#[derive(Debug, Clone, Copy, PartialEq, Eq, Structural)]
pub struct TaskResult {
    pub row: usize,
    pub column: usize,
    pub value: i64,
}

/// What a worker sends back for one task; `None` stands for a reply that
/// never arrived.
pub type Reply = Option<Result<TaskResult, MatrixError>>;

/// The worker that cell (`row`, `column`) is routed to among `workers`.
pub fn worker_for(row: usize, column: usize, workers: usize) -> (r: usize)
    requires
        workers > 0,
    ensures
        r == (row * column) % (workers as int),
        r < workers,
{
    proof {
        assert((row as int) * (column as int) <= 0xffff_ffff_ffff_ffff * 0xffff_ffff_ffff_ffff)
            by (nonlinear_arith)
            requires
                row <= 0xffff_ffff_ffff_ffff,
                column <= 0xffff_ffff_ffff_ffff,
                0 <= row,
                0 <= column,
        ;
    }
    let p: u128 = (row as u128) * (column as u128);
    let r = p % (workers as u128);
    r as usize
}

/// `t` is the task for cell (`i`, `j`), counted from 0, of the product of
/// `a` and `b` among `workers`.
pub open spec fn planned_task(
    t: Task,
    a: Matrix<i64>,
    b: Matrix<i64>,
    i: int,
    j: int,
    workers: usize,
) -> bool {
    &&& t.row == i + 1
    &&& t.column == j + 1
    &&& t.row_vector@ == a.row_seq(i)
    &&& t.column_vector@ == b.column_seq(j)
    &&& t.worker == ((i + 1) * (j + 1)) % (workers as int)
}

/// `tasks` holds one task per cell of the product of `a` and `b`, in row-major
/// order of the cells.
pub open spec fn is_plan(tasks: Seq<Task>, a: Matrix<i64>, b: Matrix<i64>, workers: usize) -> bool {
    &&& tasks.len() == a.row * b.column
    &&& forall|i: int, j: int|
        0 <= i < a.row && 0 <= j < b.column ==> planned_task(
            #[trigger] tasks[i * b.column + j],
            a,
            b,
            i,
            j,
            workers,
        )
}

/// Builds the tasks for the product of `a` and `b`, one per output cell in
/// row-major order, each routed to worker `(row * column) % workers`.
pub fn plan_tasks(a: &Matrix<i64>, b: &Matrix<i64>, workers: usize) -> (r: Result<
    Vec<Task>,
    MatrixError,
>)
    requires
        a.wf(),
        b.wf(),
        workers > 0,
        a.row * b.column <= usize::MAX,
    ensures
        a.column != b.row ==> r is Err,
        r matches Err(e) ==> e == MatrixError::DimensionMismatch,
        a.column == b.row ==> r is Ok,
        r matches Ok(tasks) ==> is_plan(tasks@, *a, *b, workers),
{
    if a.column != b.row {
        return Err(MatrixError::DimensionMismatch);
    }
    let mut tasks: Vec<Task> = Vec::new();
    let mut i: usize = 0;
    while i < a.row
        invariant
            a.wf(),
            b.wf(),
            workers > 0,
            a.row * b.column <= usize::MAX,
            i <= a.row,
            tasks@.len() == i * b.column,
            forall|ii: int, jj: int|
                0 <= ii < i && 0 <= jj < b.column ==> planned_task(
                    #[trigger] tasks@[ii * b.column + jj],
                    *a,
                    *b,
                    ii,
                    jj,
                    workers,
                ),
        decreases a.row - i,
    {
        let mut j: usize = 0;
        while j < b.column
            invariant
                a.wf(),
                b.wf(),
                workers > 0,
                i < a.row,
                j <= b.column,
                tasks@.len() == i * b.column + j,
                forall|ii: int, jj: int|
                    0 <= ii < i && 0 <= jj < b.column ==> planned_task(
                        #[trigger] tasks@[ii * b.column + jj],
                        *a,
                        *b,
                        ii,
                        jj,
                        workers,
                    ),
                forall|jj: int|
                    0 <= jj < j ==> planned_task(
                        #[trigger] tasks@[i * b.column + jj],
                        *a,
                        *b,
                        i as int,
                        jj,
                        workers,
                    ),
            decreases b.column - j,
        {
            let row_vector = Vector::new(a.row(i + 1).unwrap());
            let column_vector = Vector::new(b.column(j + 1).unwrap());
            let worker = worker_for(i + 1, j + 1, workers);
            proof {
                lemma_cell_index_bound(i as int, j as int, a.row as int, b.column as int);
            }
            let ghost old_tasks = tasks@;
            tasks.push(Task { row: i + 1, column: j + 1, row_vector, column_vector, worker });
            proof {
                assert forall|ii: int, jj: int|
                    0 <= ii < i && 0 <= jj < b.column implies planned_task(
                        #[trigger] tasks@[ii * b.column + jj],
                        *a,
                        *b,
                        ii,
                        jj,
                        workers,
                    ) by {
                    lemma_cell_index_bound(ii, jj, i as int, b.column as int);
                    assert(tasks@[ii * b.column + jj] == old_tasks[ii * b.column + jj]);
                }
                assert forall|jj: int|
                    0 <= jj < j + 1 implies planned_task(
                        #[trigger] tasks@[i * b.column + jj],
                        *a,
                        *b,
                        i as int,
                        jj,
                        workers,
                    ) by {
                    if jj < j {
                        assert(tasks@[i * b.column + jj] == old_tasks[i * b.column + jj]);
                    }
                }
            }
            j = j + 1;
        }
        proof {
            assert((i + 1) * b.column == i * b.column + b.column) by (nonlinear_arith);
        }
        i = i + 1;
    }
    Ok(tasks)
}

/// What a worker computes for task `t`.
pub open spec fn task_result(t: Task) -> Result<TaskResult, MatrixError> {
    match dot_result(t.row_vector@, t.column_vector@) {
        Ok(v) => Ok(TaskResult { row: t.row, column: t.column, value: v }),
        Err(e) => Err(e),
    }
}

/// The work one worker does for one task: the dot product of its two vectors,
/// addressed to the task's cell.
pub fn run_task(task: Task) -> (r: Result<TaskResult, MatrixError>)
    ensures
        r == task_result(task),
{
    let row = task.row;
    let column = task.column;
    match dot_product(task.row_vector, task.column_vector) {
        Ok(value) => Ok(TaskResult { row, column, value }),
        Err(e) => Err(e),
    }
}

/// Reply `rep` carries a value for cell (`i`, `j`), counted from 0.
pub open spec fn reply_ok(rep: Reply, i: int, j: int) -> bool {
    rep matches Some(Ok(t)) && t.row == i + 1 && t.column == j + 1
}

/// The value a reply carries.
pub open spec fn reply_value(rep: Reply) -> i64 {
    match rep {
        Some(Ok(t)) => t.value,
        _ => 0,
    }
}

/// The error that a failed reply stands for: the worker's own error, or a
/// communication failure when the reply is missing or addressed elsewhere.
pub open spec fn reply_error(rep: Reply) -> MatrixError {
    match rep {
        Some(Err(e)) => e,
        _ => MatrixError::WorkerCommunicationFailure,
    }
}

/// Every cell of a `rows` by `columns` result has its value among `replies`,
/// which are in row-major order of the cells.
pub open spec fn replies_complete(replies: Seq<Reply>, rows: int, columns: int) -> bool {
    forall|i: int, j: int|
        0 <= i < rows && 0 <= j < columns ==> reply_ok(#[trigger] replies[i * columns + j], i, j)
}

/// Cell (`i`, `j`) is the first cell, in row-major order, whose reply failed.
pub open spec fn first_failure(replies: Seq<Reply>, rows: int, columns: int, i: int, j: int) -> bool {
    &&& 0 <= i < rows
    &&& 0 <= j < columns
    &&& !reply_ok(replies[i * columns + j], i, j)
    &&& forall|ii: int, jj: int|
        0 <= ii < rows && 0 <= jj < columns && (ii < i || (ii == i && jj < j)) ==> reply_ok(
            #[trigger] replies[ii * columns + jj],
            ii,
            jj,
        )
}

/// `m` is the `rows` by `columns` matrix whose cells hold the values of
/// `replies`, taken in row-major order.
pub open spec fn is_assembled(m: Matrix<i64>, replies: Seq<Reply>, rows: usize, columns: usize) -> bool {
    &&& m.wf()
    &&& m.row == rows
    &&& m.column == columns
    &&& forall|i: int, j: int|
        0 <= i < rows && 0 <= j < columns ==> #[trigger] m.at(i, j) == reply_value(
            replies[i * columns + j],
        )
}

/// Puts the replies for a `rows` by `columns` result, given in the order the
/// tasks were handed out, into a matrix. Fails with the first failed reply's
/// error: a missing reply, or one for another cell, fails the whole result.
pub fn assemble(replies: Vec<Reply>, rows: usize, columns: usize) -> (r: Result<
    Matrix<i64>,
    MatrixError,
>)
    requires
        replies@.len() == rows * columns,
    ensures
        r is Ok <==> replies_complete(replies@, rows as int, columns as int),
        r matches Ok(m) ==> is_assembled(m, replies@, rows, columns),
        r matches Err(e) ==> exists|i: int, j: int|
            #[trigger] first_failure(replies@, rows as int, columns as int, i, j) && e
                == reply_error(replies@[i * columns + j]),
{
    let len = replies.len();
    let mut data: Vec<i64> = Vec::new();
    let mut i: usize = 0;
    while i < rows
        invariant
            len == replies@.len() == rows * columns,
            i <= rows,
            data@.len() == i * columns,
            forall|ii: int, jj: int|
                0 <= ii < i && 0 <= jj < columns ==> reply_ok(
                    #[trigger] replies@[ii * columns + jj],
                    ii,
                    jj,
                ),
            forall|ii: int, jj: int|
                0 <= ii < i && 0 <= jj < columns ==> #[trigger] data@[ii * columns + jj]
                    == reply_value(replies@[ii * columns + jj]),
        decreases rows - i,
    {
        let mut j: usize = 0;
        while j < columns
            invariant
                len == replies@.len() == rows * columns,
                i < rows,
                j <= columns,
                data@.len() == i * columns + j,
                forall|ii: int, jj: int|
                    0 <= ii < i && 0 <= jj < columns ==> reply_ok(
                        #[trigger] replies@[ii * columns + jj],
                        ii,
                        jj,
                    ),
                forall|jj: int|
                    0 <= jj < j ==> reply_ok(#[trigger] replies@[i * columns + jj], i as int, jj),
                forall|ii: int, jj: int|
                    0 <= ii < i && 0 <= jj < columns ==> #[trigger] data@[ii * columns + jj]
                        == reply_value(replies@[ii * columns + jj]),
                forall|jj: int|
                    0 <= jj < j ==> #[trigger] data@[i * columns + jj] == reply_value(
                        replies@[i * columns + jj],
                    ),
            decreases columns - j,
        {
            proof {
                lemma_cell_index_bound(i as int, j as int, rows as int, columns as int);
            }
            let k = i * columns + j;
            let failed = match replies[k] {
                Some(Ok(t)) => {
                    if t.row == i + 1 && t.column == j + 1 {
                        None
                    } else {
                        Some(MatrixError::WorkerCommunicationFailure)
                    }
                },
                Some(Err(e)) => Some(e),
                None => Some(MatrixError::WorkerCommunicationFailure),
            };
            if let Some(e) = failed {
                proof {
                    assert(first_failure(replies@, rows as int, columns as int, i as int, j as int));
                }
                return Err(e);
            }
            let ghost old_data = data@;
            data.push(reply_value_of(&replies[k]));
            proof {
                assert forall|ii: int, jj: int|
                    0 <= ii < i && 0 <= jj < columns implies #[trigger] data@[ii * columns + jj]
                        == reply_value(replies@[ii * columns + jj]) by {
                    lemma_cell_index_bound(ii, jj, i as int, columns as int);
                    assert(data@[ii * columns + jj] == old_data[ii * columns + jj]);
                }
                assert forall|jj: int|
                    0 <= jj < j + 1 implies #[trigger] data@[i * columns + jj] == reply_value(
                        replies@[i * columns + jj],
                    ) by {
                    if jj < j {
                        assert(data@[i * columns + jj] == old_data[i * columns + jj]);
                    }
                }
            }
            j = j + 1;
        }
        proof {
            assert((i + 1) * columns == i * columns + columns) by (nonlinear_arith);
        }
        i = i + 1;
    }
    let m = Matrix::new(data, rows, columns);
    Ok(m)
}

fn reply_value_of(rep: &Reply) -> (r: i64)
    ensures
        r == reply_value(*rep),
{
    match rep {
        Some(Ok(t)) => t.value,
        _ => 0,
    }
}

/// The reply a worker sends for task `t`.
pub open spec fn delivered(t: Task) -> Reply {
    Some(task_result(t))
}

/// What the reply for one planned cell says, when the worker answered it.
proof fn lemma_reply_for_cell(
    a: Matrix<i64>,
    b: Matrix<i64>,
    workers: usize,
    tasks: Seq<Task>,
    replies: Seq<Reply>,
    i: int,
    j: int,
)
    requires
        a.wf(),
        b.wf(),
        a.column == b.row,
        is_plan(tasks, a, b, workers),
        replies.len() == tasks.len(),
        forall|k: int| 0 <= k < tasks.len() ==> #[trigger] replies[k] == delivered(tasks[k]),
        0 <= i < a.row,
        0 <= j < b.column,
    ensures
        reply_ok(replies[i * b.column + j], i, j) <==> cell_value(a, b, i, j) is Some,
        cell_value(a, b, i, j) is Some ==> cell_value(a, b, i, j) == Some(
            reply_value(replies[i * b.column + j]) as int,
        ),
        cell_value(a, b, i, j) is None ==> reply_error(replies[i * b.column + j])
            == MatrixError::Overflow,
{
    lemma_cell_index_bound(i, j, a.row as int, b.column as int);
    let k = i * b.column + j;
    let t = tasks[k];
    assert(planned_task(t, a, b, i, j, workers));
    lemma_row_seq_len(a, i);
    assert(replies[k] == delivered(t));
    if dot_value(a.row_seq(i), b.column_seq(j)) is Some {
        lemma_checked_dot_is_sum(a.row_seq(i), b.column_seq(j), a.column as nat);
    }
}

/// A pooled product agrees with the sequential one, whatever the number of
/// workers, once every worker has answered its tasks: all cells come back
/// exactly when `multiply` succeeds, the matrix put together from them is
/// then the product, and otherwise the first failed cell reports an
/// overflow, as `multiply` does.
pub proof fn lemma_pooled_product_matches_sequential(
    a: Matrix<i64>,
    b: Matrix<i64>,
    workers: usize,
    tasks: Seq<Task>,
    replies: Seq<Reply>,
)
    requires
        a.wf(),
        b.wf(),
        a.column == b.row,
        workers > 0,
        is_plan(tasks, a, b, workers),
        replies.len() == tasks.len(),
        forall|k: int| 0 <= k < tasks.len() ==> #[trigger] replies[k] == delivered(tasks[k]),
    ensures
        replies_complete(replies, a.row as int, b.column as int) <==> cells_fit(a, b),
        forall|m: Matrix<i64>|
            cells_fit(a, b) && #[trigger] is_assembled(m, replies, a.row, b.column) ==> is_product(
                m,
                a,
                b,
            ),
        forall|i: int, j: int|
            #[trigger] first_failure(replies, a.row as int, b.column as int, i, j) ==> reply_error(
                replies[i * b.column + j],
            ) == MatrixError::Overflow,
{
    assert forall|i: int, j: int| 0 <= i < a.row && 0 <= j < b.column implies (reply_ok(
        #[trigger] replies[i * b.column + j],
        i,
        j,
    ) <==> cell_value(a, b, i, j) is Some) && (cell_value(a, b, i, j) is Some ==> cell_value(
        a,
        b,
        i,
        j,
    ) == Some(reply_value(replies[i * b.column + j]) as int)) && (cell_value(a, b, i, j) is None
        ==> reply_error(replies[i * b.column + j]) == MatrixError::Overflow) by {
        lemma_reply_for_cell(a, b, workers, tasks, replies, i, j);
    }
    if replies_complete(replies, a.row as int, b.column as int) {
        assert forall|i: int, j: int|
            0 <= i < a.row && 0 <= j < b.column implies (#[trigger] cell_value(a, b, i, j)) is Some by {
            assert(reply_ok(replies[i * b.column + j], i, j));
        }
    }
    if cells_fit(a, b) {
        assert forall|i: int, j: int|
            0 <= i < a.row && 0 <= j < b.column implies reply_ok(
            #[trigger] replies[i * b.column + j],
            i,
            j,
        ) by {
            assert(cell_value(a, b, i, j) is Some);
        }
        assert forall|m: Matrix<i64>| #[trigger]
            is_assembled(m, replies, a.row, b.column) implies is_product(m, a, b) by {
            assert forall|i: int, j: int| 0 <= i < a.row && 0 <= j < b.column implies cell_value(
                a,
                b,
                i,
                j,
            ) == Some(#[trigger] m.at(i, j) as int) by {
                assert(cell_value(a, b, i, j) is Some);
                assert(m.at(i, j) == reply_value(replies[i * b.column + j]));
            }
        }
    }
}

} // verus!
