use exec_core::batch::Batch;
use exec_core::cross_join::{
    cross_join_batches, load_left_input, CrossJoinExec, CrossJoinStream, ReplayStep,
};
use exec_core::error::ExecError;
use exec_core::memory::MemoryPool;
use exec_core::metrics::BuildProbeJoinMetrics;
use exec_core::once::OncePoll;
use exec_core::plan::{ChildPlan, Distribution, Partitioning};
use exec_core::scalar::ScalarValue;
use exec_core::schema::{DataType, Field, Schema};
use exec_core::stats::{stats_cartesian_product, ColumnStatistics, Statistics};

fn int32_col(values: &[i32]) -> Vec<ScalarValue> {
    values.iter().map(|v| ScalarValue::Int32(Some(*v))).collect()
}

fn schema_of(names: &[&str]) -> Schema {
    Schema::new(
        names
            .iter()
            .map(|n| Field::new(n, DataType::Int32, false))
            .collect(),
    )
}

fn batch_of(names: &[&str], columns: Vec<Vec<i32>>) -> Batch {
    Batch::try_new(
        schema_of(names),
        columns.iter().map(|c| int32_col(c)).collect(),
    )
    .unwrap()
}

fn rows_of(batch: &Batch) -> Vec<Vec<ScalarValue>> {
    let mut rows = Vec::new();
    for r in 0..batch.num_rows() {
        let mut row = Vec::new();
        for j in 0..batch.num_columns() {
            row.push(batch.column(j)[r].clone());
        }
        rows.push(row);
    }
    rows
}

fn all_rows(batches: &[Batch]) -> Vec<Vec<ScalarValue>> {
    let mut rows = Vec::new();
    for b in batches {
        rows.extend(rows_of(b));
    }
    rows
}

fn int_row(values: &[i32]) -> Vec<ScalarValue> {
    values.iter().map(|v| ScalarValue::Int32(Some(*v))).collect()
}

fn unknown_statistics() -> Statistics {
    Statistics { num_rows: None, total_byte_size: None, column_statistics: None, is_exact: false }
}

fn plan_of(schema: Schema) -> ChildPlan {
    ChildPlan::new(
        schema,
        Partitioning::UnknownPartitioning(1),
        None,
        unknown_statistics(),
        false,
    )
}

#[test]
fn test_stats_cartesian_product() {
    let left_row_count = 11;
    let left_bytes = 23;
    let right_row_count = 7;
    let right_bytes = 27;

    let left = Statistics {
        is_exact: true,
        num_rows: Some(left_row_count),
        total_byte_size: Some(left_bytes),
        column_statistics: Some(vec![
            ColumnStatistics {
                distinct_count: Some(5),
                max_value: Some(ScalarValue::Int64(Some(21))),
                min_value: Some(ScalarValue::Int64(Some(-4))),
                null_count: Some(0),
            },
            ColumnStatistics {
                distinct_count: Some(1),
                max_value: Some(ScalarValue::Utf8(Some(String::from("x")))),
                min_value: Some(ScalarValue::Utf8(Some(String::from("a")))),
                null_count: Some(3),
            },
        ]),
    };

    let right = Statistics {
        is_exact: true,
        num_rows: Some(right_row_count),
        total_byte_size: Some(right_bytes),
        column_statistics: Some(vec![ColumnStatistics {
            distinct_count: Some(3),
            max_value: Some(ScalarValue::Int64(Some(12))),
            min_value: Some(ScalarValue::Int64(Some(0))),
            null_count: Some(2),
        }]),
    };

    let result = stats_cartesian_product(&left, 3, &right, 2);

    let expected = Statistics {
        is_exact: true,
        num_rows: Some(left_row_count * right_row_count),
        total_byte_size: Some(2 * left_bytes * right_bytes),
        column_statistics: Some(vec![
            ColumnStatistics {
                distinct_count: Some(5),
                max_value: Some(ScalarValue::Int64(Some(21))),
                min_value: Some(ScalarValue::Int64(Some(-4))),
                null_count: Some(0),
            },
            ColumnStatistics {
                distinct_count: Some(1),
                max_value: Some(ScalarValue::Utf8(Some(String::from("x")))),
                min_value: Some(ScalarValue::Utf8(Some(String::from("a")))),
                null_count: Some(3 * right_row_count),
            },
            ColumnStatistics {
                distinct_count: Some(3),
                max_value: Some(ScalarValue::Int64(Some(12))),
                min_value: Some(ScalarValue::Int64(Some(0))),
                null_count: Some(2 * left_row_count),
            },
        ]),
    };

    assert_eq!(result, expected);
}

#[test]
fn test_stats_cartesian_product_with_unknwon_size() {
    let left_row_count = 11;

    let left = Statistics {
        is_exact: true,
        num_rows: Some(left_row_count),
        total_byte_size: Some(23),
        column_statistics: Some(vec![
            ColumnStatistics {
                distinct_count: Some(5),
                max_value: Some(ScalarValue::Int64(Some(21))),
                min_value: Some(ScalarValue::Int64(Some(-4))),
                null_count: Some(0),
            },
            ColumnStatistics {
                distinct_count: Some(1),
                max_value: Some(ScalarValue::Utf8(Some(String::from("x")))),
                min_value: Some(ScalarValue::Utf8(Some(String::from("a")))),
                null_count: Some(3),
            },
        ]),
    };

    let right = Statistics {
        is_exact: true,
        num_rows: None,        // not defined!
        total_byte_size: None, // not defined!
        column_statistics: Some(vec![ColumnStatistics {
            distinct_count: Some(3),
            max_value: Some(ScalarValue::Int64(Some(12))),
            min_value: Some(ScalarValue::Int64(Some(0))),
            null_count: Some(2),
        }]),
    };

    let result = stats_cartesian_product(&left, 3, &right, 2);

    let expected = Statistics {
        is_exact: true,
        num_rows: None,
        total_byte_size: None,
        column_statistics: Some(vec![
            ColumnStatistics {
                distinct_count: Some(5),
                max_value: Some(ScalarValue::Int64(Some(21))),
                min_value: Some(ScalarValue::Int64(Some(-4))),
                null_count: None, // we don't know the row count on the right
            },
            ColumnStatistics {
                distinct_count: Some(1),
                max_value: Some(ScalarValue::Utf8(Some(String::from("x")))),
                min_value: Some(ScalarValue::Utf8(Some(String::from("a")))),
                null_count: None, // we don't know the row count on the right
            },
            ColumnStatistics {
                distinct_count: Some(3),
                max_value: Some(ScalarValue::Int64(Some(12))),
                min_value: Some(ScalarValue::Int64(Some(0))),
                null_count: Some(2 * left_row_count),
            },
        ]),
    };

    assert_eq!(result, expected);
}

#[test]
fn test_join() {
    let left = batch_of(
        &["a1", "b1", "c1"],
        vec![vec![1, 2, 3], vec![4, 5, 6], vec![7, 8, 9]],
    );
    let right = batch_of(
        &["a2", "b2", "c2"],
        vec![vec![10, 11], vec![12, 13], vec![14, 15]],
    );

    let mut exec = CrossJoinExec::new(
        plan_of(schema_of(&["a1", "b1", "c1"])),
        plan_of(schema_of(&["a2", "b2", "c2"])),
    );
    let columns: Vec<String> = exec
        .schema()
        .fields
        .iter()
        .map(|f| f.name.clone())
        .collect();
    assert_eq!(columns, vec!["a1", "b1", "c1", "a2", "b2", "c2"]);

    // First execution of a partition initializes the operator reservation and
    // launches the shared build exactly once.
    let mut stream: CrossJoinStream = exec.execute(0);
    assert!(exec.reservation.is_some());
    let mut pool = MemoryPool::new(1_000_000);
    let mut reservation = exec.reservation.take().unwrap();
    let mut build_metrics = BuildProbeJoinMetrics::new();
    assert!(matches!(exec.left_fut.poll(), OncePoll::Launch));
    let built = load_left_input(
        &schema_of(&["a1", "b1", "c1"]),
        vec![left],
        &mut reservation,
        &mut pool,
        &mut build_metrics,
    )
    .unwrap();
    assert_eq!(build_metrics.build_input_batches, 1);
    assert_eq!(build_metrics.build_input_rows, 3);
    assert_eq!(build_metrics.build_mem_used, 36);
    exec.left_fut.complete(Ok(built));
    let built = match exec.left_fut.try_get() {
        Some(Ok(b)) => b.clone(),
        _ => panic!("the shared build value must be ready"),
    };

    // Drive the partition's state machine by hand over one probe batch.
    stream.on_build_ready(built);
    let mut out: Vec<Batch> = Vec::new();
    let mut rights = vec![right].into_iter();
    loop {
        match stream.next_step() {
            ReplayStep::Emit(b) => out.push(b),
            ReplayStep::NeedRight => match rights.next() {
                Some(rb) => out.push(stream.on_right_batch(rb)),
                None => break,
            },
            ReplayStep::Finished => break,
        }
    }

    let expected = vec![
        int_row(&[1, 4, 7, 10, 12, 14]),
        int_row(&[1, 4, 7, 11, 13, 15]),
        int_row(&[2, 5, 8, 10, 12, 14]),
        int_row(&[2, 5, 8, 11, 13, 15]),
        int_row(&[3, 6, 9, 10, 12, 14]),
        int_row(&[3, 6, 9, 11, 13, 15]),
    ];
    assert_eq!(all_rows(&out), expected);
}

#[test]
fn test_overallocation() {
    let left = batch_of(
        &["a1", "b1", "c1"],
        vec![
            vec![1, 2, 3, 4, 5, 6, 7, 8, 9, 0],
            vec![1, 2, 3, 4, 5, 6, 7, 8, 9, 0],
            vec![1, 2, 3, 4, 5, 6, 7, 8, 9, 0],
        ],
    );

    // A pool of 100 bytes cannot hold the 120-byte build side.
    let mut pool = MemoryPool::new(100);
    let mut exec = CrossJoinExec::new(
        plan_of(schema_of(&["a1", "b1", "c1"])),
        plan_of(schema_of(&["a2", "b2", "c2"])),
    );
    let _stream = exec.execute(0);
    let mut reservation = exec.reservation.take().unwrap();
    let mut build_metrics = BuildProbeJoinMetrics::new();
    let err = load_left_input(
        &schema_of(&["a1", "b1", "c1"]),
        vec![left],
        &mut reservation,
        &mut pool,
        &mut build_metrics,
    )
    .unwrap_err();
    // The rejected batch was never reported as consumed.
    assert_eq!(build_metrics.build_input_batches, 0);
    assert_eq!(build_metrics.build_mem_used, 0);

    assert!(matches!(err, ExecError::ResourcesExhausted(_)));
    assert!(err.message().contains("Failed to allocate additional"));
    assert!(err.message().contains("CrossJoinExec"));
    assert_eq!(pool.reserved, 0);
}

#[test]
fn cross_join_driver_emits_probe_outer_build_inner() {
    let left = batch_of(&["l"], vec![vec![1, 2]]);
    let r1 = batch_of(&["r"], vec![vec![10]]);
    let r2 = batch_of(&["r"], vec![vec![20, 30]]);
    let schema = schema_of(&["l", "r"]);
    let out = cross_join_batches(&left, &vec![r1, r2], &schema);
    // Probe batches outer, build rows inner; each output batch replays one
    // build row over one whole probe batch.
    assert_eq!(out.len(), 4);
    let expected = vec![
        int_row(&[1, 10]),
        int_row(&[2, 10]),
        int_row(&[1, 20]),
        int_row(&[1, 30]),
        int_row(&[2, 20]),
        int_row(&[2, 30]),
    ];
    assert_eq!(all_rows(&out), expected);
}

#[test]
fn cross_join_with_empty_side_emits_zero_rows() {
    // Empty build side: completes immediately.
    let empty_left = batch_of(&["l"], vec![vec![]]);
    let right = batch_of(&["r"], vec![vec![10, 20]]);
    let schema = schema_of(&["l", "r"]);
    let out = cross_join_batches(&empty_left, &vec![right], &schema);
    assert_eq!(all_rows(&out).len(), 0);

    // Empty probe side: every emitted batch carries zero rows.
    let left = batch_of(&["l"], vec![vec![1, 2, 3]]);
    let empty_right = batch_of(&["r"], vec![vec![]]);
    let out = cross_join_batches(&left, &vec![empty_right], &schema);
    assert_eq!(all_rows(&out).len(), 0);

    // No probe batches at all.
    let out = cross_join_batches(&left, &vec![], &schema);
    assert_eq!(all_rows(&out).len(), 0);
}

#[test]
fn unbounded_input_is_a_plan_error() {
    let exec = CrossJoinExec::new(plan_of(schema_of(&["l"])), plan_of(schema_of(&["r"])));
    let err = exec.unbounded_output(&vec![true, false]).unwrap_err();
    assert!(matches!(err, ExecError::Plan(_)));
    assert!(err.message().contains("unbounded"));
    assert_eq!(exec.unbounded_output(&vec![false, false]).unwrap(), false);
}

#[test]
fn required_distribution_and_partitioning() {
    let mut right_plan = plan_of(schema_of(&["r1", "r2"]));
    right_plan.partitioning = Partitioning::Hash(vec![0, 1], 4);
    let exec = CrossJoinExec::new(plan_of(schema_of(&["l1", "l2", "l3"])), right_plan);

    let dist = exec.required_input_distribution();
    assert!(matches!(dist[0], Distribution::SinglePartition));
    assert!(matches!(dist[1], Distribution::UnspecifiedDistribution));

    // Hash columns shift past the three prefixed left columns.
    match exec.output_partitioning() {
        Partitioning::Hash(cols, n) => {
            assert_eq!(cols, vec![3, 4]);
            assert_eq!(n, 4);
        }
        other => panic!("expected hash partitioning, got {:?}", other),
    }
    assert!(exec.output_ordering().is_none());
}

#[test]
fn operator_statistics_follow_the_cartesian_rule() {
    let mut left_plan = plan_of(schema_of(&["l"]));
    left_plan.statistics = Statistics {
        is_exact: true,
        num_rows: Some(3),
        total_byte_size: Some(10),
        column_statistics: None,
    };
    let mut right_plan = plan_of(schema_of(&["r"]));
    right_plan.statistics = Statistics {
        is_exact: true,
        num_rows: Some(2),
        total_byte_size: Some(5),
        column_statistics: None,
    };
    let exec = CrossJoinExec::new(left_plan, right_plan);
    let stats = exec.statistics();
    assert_eq!(stats.num_rows, Some(6));
    assert_eq!(stats.total_byte_size, Some(100));
    assert!(stats.is_exact);
    assert!(stats.column_statistics.is_none());
}

#[test]
fn reservation_is_initialized_once_and_reused() {
    let mut exec = CrossJoinExec::new(plan_of(schema_of(&["l"])), plan_of(schema_of(&["r"])));
    assert!(exec.reservation.is_none());
    let _s0 = exec.execute(0);
    assert!(exec.reservation.is_some());
    // A second partition reuses the reservation rather than re-creating it.
    let mut pool = MemoryPool::new(50);
    {
        let res = exec.reservation.as_mut().unwrap();
        res.try_grow(&mut pool, 10).unwrap();
    }
    let _s1 = exec.execute(1);
    assert_eq!(exec.reservation.as_ref().unwrap().size, 10);
}
