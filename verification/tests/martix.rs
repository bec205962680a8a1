use martix::martix::{assemble, build_tasks, make_task, multiply, route, worker_step};
use martix::martix::{Martix, MsgInput, MsgOutput};
use martix::{dot_fits_exec, dot_product, MultiplyError, Vector};

#[test]
fn test_multiply() {
    let a = Martix::new(vec![1, 2, 3, 4, 5, 6], 2, 3);
    let b = Martix::new(vec![1, 2, 3, 4, 5, 6], 3, 2);
    let result = a.mul(b);
    assert_eq!(result.data, vec![22, 28, 49, 64]);
}

#[test]
fn test_multiply_fn_matches_mul() {
    let a = Martix::new(vec![1, 2, 3, 4, 5, 6], 2, 3);
    let b = Martix::new(vec![1, 2, 3, 4, 5, 6], 3, 2);
    let result = multiply(&a, &b).unwrap();
    assert_eq!(result.row, 2);
    assert_eq!(result.col, 2);
    assert_eq!(result.data, vec![22, 28, 49, 64]);
}

#[test]
fn test_multiply_one_by_one() {
    let a = Martix::new(vec![5], 1, 1);
    let b = Martix::new(vec![7], 1, 1);
    let result = multiply(&a, &b).unwrap();
    assert_eq!(result.row, 1);
    assert_eq!(result.col, 1);
    assert_eq!(result.data, vec![35]);
}

#[test]
fn test_multiply_dimension_mismatch() {
    let a = Martix::new(vec![1, 2, 3, 4, 5, 6], 2, 3);
    let b = Martix::new(vec![1, 2, 3, 4, 5, 6], 2, 3);
    let result = multiply(&a, &b);
    assert_eq!(result.unwrap_err(), MultiplyError::DimensionMismatch);
}

#[test]
fn test_multiply_result_dimensions() {
    let a = Martix::new(vec![0; 12], 3, 4);
    let b = Martix::new(vec![0; 8], 4, 2);
    let result = multiply(&a, &b).unwrap();
    assert_eq!(result.row, 3);
    assert_eq!(result.col, 2);
    assert_eq!(result.data.len(), 6);
}

#[test]
fn test_multiply_deterministic() {
    let a = Martix::new(vec![3, -1, 4, 1, -5, 9, 2, 6, -5], 3, 3);
    let b = Martix::new(vec![2, 7, 1, -8, 2, 8, 1, -8, 2], 3, 3);
    let r1 = multiply(&a, &b).unwrap();
    let r2 = multiply(&a, &b).unwrap();
    assert_eq!(r1.data, r2.data);
    assert_eq!(r1.row, r2.row);
    assert_eq!(r1.col, r2.col);
}

#[test]
fn test_dot_product_value() {
    let a = Vector::new(vec![1, 2, 3]);
    let b = Vector::new(vec![4, 5, 6]);
    assert_eq!(dot_product(a, b).unwrap(), 32);
}

#[test]
fn test_dot_product_shape_mismatch() {
    let a = Vector::new(vec![1, 2, 3]);
    let b = Vector::new(vec![4, 5]);
    assert_eq!(dot_product(a, b).unwrap_err(), MultiplyError::ShapeMismatch);
}

#[test]
fn test_dot_fits_exec_detects_overflow() {
    let a = Vector::new(vec![i64::MAX, 1]);
    let b = Vector::new(vec![2, 1]);
    assert!(!dot_fits_exec(&a, &b));
    let c = Vector::new(vec![i64::MAX, 1]);
    let d = Vector::new(vec![1, i64::MAX]);
    assert!(!dot_fits_exec(&c, &d));
    let e = Vector::new(vec![1000, -1000]);
    let f = Vector::new(vec![1000, 1000]);
    assert!(dot_fits_exec(&e, &f));
}

#[test]
fn test_vector_len() {
    let v = Vector::new(vec![9, 8, 7]);
    assert_eq!(v.len(), 3);
    assert_eq!(v.data, vec![9, 8, 7]);
}

#[test]
fn test_make_task_views() {
    let a = Martix::new(vec![1, 2, 3, 4, 5, 6], 2, 3);
    let b = Martix::new(vec![1, 2, 3, 4, 5, 6], 3, 2);
    // cell index 3 is cell (1, 1): row 1 of a, column 1 of b
    let task = make_task(&a, &b, 3);
    assert_eq!(task.idx, 3);
    assert_eq!(task.row.data, vec![4, 5, 6]);
    assert_eq!(task.col.data, vec![2, 4, 6]);
}

#[test]
fn test_worker_step_keys_reply() {
    let task = MsgInput::new(11, Vector::new(vec![2, 3]), Vector::new(vec![5, 7]));
    let out = worker_step(task).unwrap();
    assert_eq!(out.idx, 11);
    assert_eq!(out.value, 31);
}

#[test]
fn test_worker_step_shape_mismatch() {
    let task = MsgInput::new(0, Vector::new(vec![2, 3]), Vector::new(vec![5]));
    let err = worker_step(task).unwrap_err();
    assert_eq!(err, MultiplyError::ShapeMismatch);
}

#[test]
fn test_each_index_once_any_pool() {
    let a = Martix::new(vec![1, 2, 3, 4, 5, 6], 2, 3);
    let b = Martix::new(vec![1, 2, 3, 4, 5, 6], 3, 2);
    for pool in [1usize, 2, 4, 17] {
        let tasks = build_tasks(&a, &b);
        assert_eq!(tasks.len(), 4);
        let mut seen = vec![false; tasks.len()];
        for task in &tasks {
            assert!(task.idx < seen.len());
            assert!(!seen[task.idx], "index produced twice");
            seen[task.idx] = true;
            assert!(route(task.idx, pool) < pool);
        }
        assert!(seen.iter().all(|&s| s), "some index never produced");
    }
}

#[test]
fn test_route_round_robin() {
    assert_eq!(route(0, 4), 0);
    assert_eq!(route(3, 4), 3);
    assert_eq!(route(5, 4), 1);
    assert_eq!(route(16, 17), 16);
    assert_eq!(route(17, 17), 0);
    assert_eq!(route(9, 1), 0);
}

#[test]
fn test_assemble_orders_replies() {
    let outputs = vec![
        MsgOutput { idx: 3, value: 30 },
        MsgOutput { idx: 0, value: 0 },
        MsgOutput { idx: 2, value: 20 },
        MsgOutput { idx: 1, value: 10 },
    ];
    let m = assemble(2, 2, outputs).unwrap();
    assert_eq!(m.row, 2);
    assert_eq!(m.col, 2);
    assert_eq!(m.data, vec![0, 10, 20, 30]);
}

#[test]
fn test_assemble_rejects_duplicate() {
    let outputs = vec![
        MsgOutput { idx: 0, value: 1 },
        MsgOutput { idx: 0, value: 2 },
    ];
    assert_eq!(assemble(1, 2, outputs).unwrap_err(), MultiplyError::ChannelFailure);
}

#[test]
fn test_assemble_rejects_short_set() {
    let outputs = vec![MsgOutput { idx: 0, value: 1 }];
    assert_eq!(assemble(1, 2, outputs).unwrap_err(), MultiplyError::ChannelFailure);
}

#[test]
fn test_assemble_rejects_out_of_range() {
    let outputs = vec![
        MsgOutput { idx: 0, value: 1 },
        MsgOutput { idx: 2, value: 2 },
    ];
    assert_eq!(assemble(1, 2, outputs).unwrap_err(), MultiplyError::ChannelFailure);
}

#[test]
fn test_martix_new() {
    let m = Martix::new(vec![1, 2, 3, 4], 2, 2);
    assert_eq!(m.row, 2);
    assert_eq!(m.col, 2);
    assert_eq!(m.data, vec![1, 2, 3, 4]);
}

#[test]
fn test_multiply_empty_dimensions() {
    let a = Martix::new(vec![], 0, 3);
    let b = Martix::new(vec![], 3, 0);
    let result = multiply(&a, &b).unwrap();
    assert_eq!(result.row, 0);
    assert_eq!(result.col, 0);
    assert_eq!(result.data, Vec::<i64>::new());
}

#[test]
fn test_multiply_negative_values() {
    let a = Martix::new(vec![-1, 2, -3, 4], 2, 2);
    let b = Martix::new(vec![5, -6, 7, -8], 2, 2);
    let result = multiply(&a, &b).unwrap();
    // [[-1*5 + 2*7, -1*-6 + 2*-8], [-3*5 + 4*7, -3*-6 + 4*-8]]
    assert_eq!(result.data, vec![9, -10, 13, -14]);
}
