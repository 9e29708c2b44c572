use chapterhousedb::data_read::{DataReadOutcome, ResultSetShape};

fn shape(files: Vec<Vec<u64>>) -> ResultSetShape {
    ResultSetShape { files }
}

#[test]
fn forward_read_returns_consecutive_offsets() {
    let s = shape(vec![vec![100], vec![100]]);
    match s.plan_read(0, 0, 0, 50, true) {
        DataReadOutcome::Rows { offsets } => {
            assert_eq!(offsets.len(), 50);
            for (i, off) in offsets.iter().enumerate() {
                assert_eq!(*off, (0, 0, i as u64));
            }
        }
        other => panic!("expected rows, got {:?}", other),
    }
}

#[test]
fn forward_read_rolls_over_row_groups_and_files() {
    let s = shape(vec![vec![2, 2], vec![1]]);
    match s.plan_read(0, 0, 0, 10, true) {
        DataReadOutcome::Rows { offsets } => {
            assert_eq!(offsets, vec![(0, 0, 0), (0, 0, 1), (0, 1, 0), (0, 1, 1), (1, 0, 0)]);
        }
        other => panic!("expected rows, got {:?}", other),
    }
}

#[test]
fn backward_read_from_the_end_pages_in_descending_order() {
    // a 200-row result over two files; start at the maximal sentinel
    let s = shape(vec![vec![100], vec![100]]);
    match s.plan_read(u64::MAX, u64::MAX, u64::MAX, 30, false) {
        DataReadOutcome::Rows { offsets } => {
            assert_eq!(offsets.len(), 30);
            for (i, off) in offsets.iter().enumerate() {
                assert_eq!(*off, (1, 0, 99 - i as u64));
            }
        }
        other => panic!("expected rows, got {:?}", other),
    }
}

#[test]
fn backward_read_rolls_back_across_files() {
    let s = shape(vec![vec![2], vec![2]]);
    match s.plan_read(1, 0, 0, 4, false) {
        DataReadOutcome::Rows { offsets } => {
            assert_eq!(offsets, vec![(1, 0, 0), (0, 0, 1), (0, 0, 0)]);
        }
        other => panic!("expected rows, got {:?}", other),
    }
}

#[test]
fn missing_file_and_missing_row_group_are_told_apart() {
    let s = shape(vec![vec![10]]);
    assert_eq!(s.plan_read(5, 0, 0, 10, true), DataReadOutcome::ReachedEndOfFiles);
    assert_eq!(s.plan_read(0, 3, 0, 10, true), DataReadOutcome::RecordRowGroupNotFound);
    assert_eq!(s.plan_read(0, 0, 10, 10, true), DataReadOutcome::RecordRowGroupNotFound);
}

#[test]
fn a_short_result_stops_at_the_rows() {
    let s = shape(vec![vec![3]]);
    match s.plan_read(0, 0, 0, 10, true) {
        DataReadOutcome::Rows { offsets } => {
            assert_eq!(offsets, vec![(0, 0, 0), (0, 0, 1), (0, 0, 2)]);
        }
        other => panic!("expected rows, got {:?}", other),
    }
}

#[test]
fn a_zero_limit_reads_nothing() {
    let s = shape(vec![vec![10]]);
    match s.plan_read(0, 0, 0, 0, true) {
        DataReadOutcome::Rows { offsets } => assert!(offsets.is_empty()),
        other => panic!("expected empty rows, got {:?}", other),
    }
}
