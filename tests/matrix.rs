use concurrency::dispatch::{assemble, plan_tasks, run_task, worker_for, Reply, TaskResult, NUM_THREADS};
use concurrency::error::MatrixError;
use concurrency::matrix::{multiply, Matrix};
use concurrency::vector::{dot_product, Vector};

#[test]
fn test_multiply() -> Result<(), MatrixError> {
    let a = Matrix::new(vec![1, 2, 1, 2, 1, 2], 3, 2);
    let b = Matrix::new(vec![1, 2, 3, 1, 2, 3], 2, 3);
    let c = multiply(&a, &b)?;
    println!("{}", c.to_string());
    assert_eq!(c.row, 3);
    assert_eq!(c.column, 3);
    Ok(())
}

#[test]
fn test_matrix_value() {
    let matrix = Matrix::new(vec![1, 2, 3, 4, 5, 6], 2, 3);
    assert_eq!(matrix.value(1, 2), Some(&2));
    assert_eq!(matrix.value(2, 2), Some(&5));
    assert_eq!(matrix.value(3, 1), None);
}

#[test]
fn test_matrix_display() {
    let matrix: Matrix<i64> = Matrix::new(vec![1, 2, 3, 4, 5, 6], 2, 3);
    println!("{}", matrix.to_string());
}

#[test]
fn test_matrix_row() {
    let matrix = Matrix::new(vec![1, 2, 3, 4, 5, 6], 2, 3);
    assert_eq!(matrix.row(1), Some(vec![1, 2, 3]));
    assert_eq!(matrix.row(2), Some(vec![4, 5, 6]));
    assert_eq!(matrix.row(3), None);
}

#[test]
fn test_matrix_column() {
    let matrix = Matrix::new(vec![1, 2, 3, 4, 5, 6], 2, 3);
    assert_eq!(matrix.column(1), Some(vec![1, 4]));
    assert_eq!(matrix.column(2), Some(vec![2, 5]));
    assert_eq!(matrix.column(3), Some(vec![3, 6]));
    assert_eq!(matrix.column(4), None);
}

#[test]
fn multiply_two_by_three_with_three_by_two() {
    let a = Matrix::new(vec![1, 2, 3, 4, 5, 6], 2, 3);
    let b = Matrix::new(vec![1, 2, 3, 4, 5, 6], 3, 2);
    let c = multiply(&a, &b).unwrap();
    assert_eq!((c.row, c.column), (2, 2));
    assert_eq!(c.data, vec![22, 28, 49, 64]);
}

#[test]
fn multiply_three_by_two_with_two_by_three() {
    let a = Matrix::new(vec![1, 2, 1, 2, 1, 2], 3, 2);
    let b = Matrix::new(vec![1, 2, 3, 1, 2, 3], 2, 3);
    let c = multiply(&a, &b).unwrap();
    assert_eq!(c.data, vec![3, 6, 9, 3, 6, 9, 3, 6, 9]);
}

#[test]
fn multiply_rejects_mismatched_inner_dimensions() {
    let a = Matrix::new(vec![1, 2, 3, 4, 5, 6], 2, 3);
    let b = Matrix::new(vec![1, 2, 3, 4], 2, 2);
    assert_eq!(multiply(&a, &b).err(), Some(MatrixError::DimensionMismatch));
}

#[test]
fn multiply_reports_overflow() {
    let a = Matrix::new(vec![i64::MAX, 1], 1, 2);
    let b = Matrix::new(vec![1, 1], 2, 1);
    assert_eq!(multiply(&a, &b).err(), Some(MatrixError::Overflow));
}

#[test]
fn multiply_with_empty_inner_dimension_gives_zeros() {
    let a: Matrix<i64> = Matrix::new(vec![], 2, 0);
    let b: Matrix<i64> = Matrix::new(vec![], 0, 3);
    let c = multiply(&a, &b).unwrap();
    assert_eq!(c.data, vec![0; 6]);
}

#[test]
fn dot_product_of_equal_lengths() {
    let r = dot_product(Vector::new(vec![1, 2, 3]), Vector::new(vec![1, 2, 3]));
    assert_eq!(r, Ok(14));
}

#[test]
fn dot_product_of_different_lengths_fails() {
    let r = dot_product(Vector::new(vec![1, 2]), Vector::new(vec![1, 2, 3]));
    assert_eq!(r, Err(MatrixError::DimensionMismatch));
    let r = dot_product(Vector::new(vec![]), Vector::new(vec![7]));
    assert_eq!(r, Err(MatrixError::DimensionMismatch));
}

#[test]
fn dot_product_of_empty_vectors_is_zero() {
    assert_eq!(dot_product(Vector::new(vec![]), Vector::new(vec![])), Ok(0));
}

#[test]
fn dot_product_overflow_is_reported() {
    let r = dot_product(Vector::new(vec![i64::MAX]), Vector::new(vec![2]));
    assert_eq!(r, Err(MatrixError::Overflow));
    let r = dot_product(Vector::new(vec![i64::MAX, 1]), Vector::new(vec![1, 1]));
    assert_eq!(r, Err(MatrixError::Overflow));
    let r = dot_product(Vector::new(vec![i64::MAX, 1, -1]), Vector::new(vec![1, -1, 1]));
    assert_eq!(r, Ok(i64::MAX - 2));
}

#[test]
fn accessors_reject_index_zero_and_beyond() {
    let matrix = Matrix::new(vec![1, 2, 3, 4, 5, 6], 2, 3);
    assert_eq!(matrix.value(0, 1), None);
    assert_eq!(matrix.value(1, 0), None);
    assert_eq!(matrix.value(1, 4), None);
    assert_eq!(matrix.value(2, 3), Some(&6));
    assert_eq!(matrix.row(0), None);
    assert_eq!(matrix.column(0), None);
}

#[test]
fn mut_value_writes_one_cell() {
    let mut matrix = Matrix::new(vec![1, 2, 3, 4, 5, 6], 2, 3);
    *matrix.mut_value(2, 1).unwrap() = 40;
    assert_eq!(matrix.data, vec![1, 2, 3, 40, 5, 6]);
    assert!(matrix.mut_value(3, 1).is_none());
    assert_eq!(matrix.data, vec![1, 2, 3, 40, 5, 6]);
}

#[test]
fn text_form_of_matrices() {
    let matrix: Matrix<i64> = Matrix::new(vec![1, 2, 3, 4, 5, 6], 2, 3);
    assert_eq!(matrix.to_string(), "{1 2 3,4 5 6}");
    let matrix: Matrix<i64> = Matrix::new(vec![-15, 0, 1234567890123], 3, 1);
    assert_eq!(matrix.to_string(), "{-15,0,1234567890123}");
    let matrix: Matrix<i64> = Matrix::new(vec![], 0, 0);
    assert_eq!(matrix.to_string(), "{}");
    let matrix: Matrix<i64> = Matrix::new(vec![i64::MIN], 1, 1);
    assert_eq!(matrix.to_string(), "{-9223372036854775808}");
}

#[test]
fn worker_routing_uses_product_of_coordinates() {
    assert_eq!(worker_for(1, 1, 4), 1);
    assert_eq!(worker_for(2, 3, 4), 2);
    assert_eq!(worker_for(2, 2, 4), 0);
    assert_eq!(worker_for(7, 5, 1), 0);
    assert_eq!(worker_for(usize::MAX, usize::MAX, 10), 5);
}

#[test]
fn plan_has_one_task_per_cell_in_row_major_order() {
    let a = Matrix::new(vec![1, 2, 3, 4, 5, 6], 2, 3);
    let b = Matrix::new(vec![1, 2, 3, 4, 5, 6], 3, 2);
    let tasks = plan_tasks(&a, &b, NUM_THREADS).unwrap();
    let cells: Vec<(usize, usize, usize)> = tasks.iter().map(|t| (t.row, t.column, t.worker)).collect();
    assert_eq!(cells, vec![(1, 1, 1), (1, 2, 2), (2, 1, 2), (2, 2, 0)]);
    assert_eq!(tasks[2].row_vector.as_vec(), &vec![4, 5, 6]);
    assert_eq!(tasks[2].column_vector.as_vec(), &vec![1, 3, 5]);
    assert!(plan_tasks(&a, &a, 4).is_err());
}

/// Hands each task to its worker's queue, lets every worker answer its queue
/// in order, and gathers the replies in the order the tasks were planned.
fn pooled_multiply(a: &Matrix<i64>, b: &Matrix<i64>, workers: usize) -> Result<Matrix<i64>, MatrixError> {
    let tasks = plan_tasks(a, b, workers)?;
    let count = tasks.len();
    let mut queues: Vec<Vec<(usize, concurrency::dispatch::Task)>> = (0..workers).map(|_| Vec::new()).collect();
    for (k, task) in tasks.into_iter().enumerate() {
        let w = task.worker;
        queues[w].push((k, task));
    }
    let mut replies: Vec<Reply> = vec![None; count];
    for queue in queues.into_iter().rev() {
        for (k, task) in queue {
            replies[k] = Some(run_task(task));
        }
    }
    assemble(replies, a.row, b.column)
}

#[test]
fn pooled_product_equals_sequential_for_any_pool_size() {
    let a = Matrix::new(vec![1, 2, 3, 4, 5, 6], 2, 3);
    let b = Matrix::new(vec![1, 2, 3, 4, 5, 6], 3, 2);
    for workers in 1..=6 {
        let c = pooled_multiply(&a, &b, workers).unwrap();
        assert_eq!(c.data, vec![22, 28, 49, 64]);
    }
    let a = Matrix::new(vec![1, 2, 1, 2, 1, 2], 3, 2);
    let b = Matrix::new(vec![1, 2, 3, 1, 2, 3], 2, 3);
    let c = pooled_multiply(&a, &b, 4).unwrap();
    assert_eq!(c.data, multiply(&a, &b).unwrap().data);
}

#[test]
fn pooled_product_reports_overflow_like_sequential() {
    let a = Matrix::new(vec![1, 1, i64::MAX, 1], 2, 2);
    let b = Matrix::new(vec![1, 1, 1, 1], 2, 2);
    assert_eq!(pooled_multiply(&a, &b, 4).err(), Some(MatrixError::Overflow));
    assert_eq!(multiply(&a, &b).err(), Some(MatrixError::Overflow));
}

#[test]
fn assemble_fails_on_missing_or_misaddressed_reply() {
    let ok = |row, column, value| Some(Ok(TaskResult { row, column, value }));
    let full: Vec<Reply> = vec![ok(1, 1, 5), ok(1, 2, 6), ok(2, 1, 7), ok(2, 2, 8)];
    assert_eq!(assemble(full, 2, 2).unwrap().data, vec![5, 6, 7, 8]);

    let missing: Vec<Reply> = vec![ok(1, 1, 5), None, ok(2, 1, 7), ok(2, 2, 8)];
    assert_eq!(assemble(missing, 2, 2).err(), Some(MatrixError::WorkerCommunicationFailure));

    let swapped: Vec<Reply> = vec![ok(1, 1, 5), ok(2, 1, 7), ok(1, 2, 6), ok(2, 2, 8)];
    assert_eq!(assemble(swapped, 2, 2).err(), Some(MatrixError::WorkerCommunicationFailure));

    let failed: Vec<Reply> = vec![ok(1, 1, 5), ok(1, 2, 6), Some(Err(MatrixError::Overflow)), None];
    assert_eq!(assemble(failed, 2, 2).err(), Some(MatrixError::Overflow));
}

struct Lcg(u64);

impl Lcg {
    fn next(&mut self) -> i64 {
        self.0 = self.0.wrapping_mul(6364136223846793005).wrapping_add(1442695040888963407);
        ((self.0 >> 33) % 201) as i64 - 100
    }
}

#[test]
fn stress_pooled_products_are_fully_populated() {
    let mut rng = Lcg(42);
    for round in 0..25 {
        let r = 10 + round % 4;
        let s = 3 + round % 5;
        let k = 10 + round % 3;
        let a = Matrix::new((0..r * s).map(|_| rng.next()).collect::<Vec<i64>>(), r, s);
        let b = Matrix::new((0..s * k).map(|_| rng.next()).collect::<Vec<i64>>(), s, k);
        let pooled = pooled_multiply(&a, &b, 4).unwrap();
        let sequential = multiply(&a, &b).unwrap();
        assert!(pooled.data.len() >= 100);
        assert_eq!(pooled.data, sequential.data);
        for i in 1..=r {
            for j in 1..=k {
                let mut expected = 0i64;
                for t in 1..=s {
                    expected += a.value(i, t).unwrap() * b.value(t, j).unwrap();
                }
                assert_eq!(pooled.value(i, j), Some(&expected));
            }
        }
    }
}
