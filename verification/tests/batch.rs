use groot::batch::{BatchWriter, Step};
use groot::op::OpType;

/// Drives a writer, answering the operation at position `i` with `replies[i]`,
/// and returns the positions handed over and how the batch ended.
fn drive(ops: Vec<OpType>, replies: Vec<Result<bool, String>>) -> (Vec<usize>, Result<bool, String>) {
    let mut w = BatchWriter::new(ops);
    let mut handed = Vec::new();
    loop {
        match w.step() {
            Step::Apply { index, .. } => {
                handed.push(index);
                w.record(replies[index].clone());
            }
            Step::Done(r) => return (handed, r),
        }
    }
}

#[test]
fn empty_batch_reports_no_schema_change() {
    let w = BatchWriter::new(Vec::new());
    assert_eq!(w.step(), Step::Done(Ok(false)));
}

#[test]
fn markers_only_hand_nothing_over() {
    let (handed, r) = drive(vec![OpType::Marker, OpType::Marker], vec![Ok(true), Ok(true)]);
    assert!(handed.is_empty());
    assert_eq!(r, Ok(false));
}

#[test]
fn markers_are_skipped_in_order() {
    let ops = vec![
        OpType::Marker,
        OpType::Marker,
        OpType::UpdateEdge,
        OpType::Marker,
        OpType::DropEdgeType,
        OpType::Marker,
    ];
    let replies = vec![Ok(false), Ok(false), Ok(false), Ok(false), Ok(true), Ok(false)];
    let (handed, r) = drive(ops, replies);
    assert_eq!(handed, vec![2, 4]);
    assert_eq!(r, Ok(true));
}

#[test]
fn first_step_names_the_operation() {
    let w = BatchWriter::new(vec![OpType::Marker, OpType::CreateVertexType]);
    assert_eq!(w.step(), Step::Apply { index: 1, op: OpType::CreateVertexType });
}

#[test]
fn schema_change_is_reported() {
    let (handed, r) = drive(
        vec![OpType::OverwriteVertex, OpType::CreateVertexType, OpType::DeleteEdge],
        vec![Ok(false), Ok(true), Ok(false)],
    );
    assert_eq!(handed, vec![0, 1, 2]);
    assert_eq!(r, Ok(true));
}

#[test]
fn schema_op_without_change_reports_false() {
    let (_, r) = drive(vec![OpType::AddEdgeKind, OpType::CommitDataLoad], vec![Ok(false), Ok(false)]);
    assert_eq!(r, Ok(false));
}

#[test]
fn data_writes_never_report_schema_change() {
    let ops = vec![
        OpType::OverwriteVertex,
        OpType::UpdateVertex,
        OpType::DeleteVertex,
        OpType::OverwriteEdge,
        OpType::UpdateEdge,
        OpType::DeleteEdge,
    ];
    let replies = vec![Ok(true); 6];
    let (handed, r) = drive(ops, replies);
    assert_eq!(handed, vec![0, 1, 2, 3, 4, 5]);
    assert_eq!(r, Ok(false));
}

#[test]
fn every_schema_kind_reports_change() {
    let kinds = [
        OpType::CreateVertexType,
        OpType::CreateEdgeType,
        OpType::AddEdgeKind,
        OpType::DropVertexType,
        OpType::DropEdgeType,
        OpType::RemoveEdgeKind,
        OpType::PrepareDataLoad,
        OpType::CommitDataLoad,
    ];
    for k in kinds {
        let (handed, r) = drive(vec![k], vec![Ok(true)]);
        assert_eq!(handed, vec![0]);
        assert_eq!(r, Ok(true));
    }
}

#[test]
fn refusal_stops_the_batch() {
    let (handed, r) = drive(
        vec![OpType::CreateVertexType, OpType::OverwriteEdge, OpType::DropVertexType],
        vec![Ok(true), Err("no such label".to_string()), Ok(true)],
    );
    assert_eq!(handed, vec![0, 1]);
    assert_eq!(r, Err("no such label".to_string()));
}

#[test]
fn first_refusal_wins() {
    let (handed, r) = drive(
        vec![OpType::Marker, OpType::DeleteVertex, OpType::DeleteVertex],
        vec![Ok(false), Err("first".to_string()), Err("second".to_string())],
    );
    assert_eq!(handed, vec![1]);
    assert_eq!(r, Err("first".to_string()));
}

#[test]
fn answer_after_end_changes_nothing() {
    let mut w = BatchWriter::new(vec![OpType::UpdateVertex]);
    w.record(Err("boom".to_string()));
    assert_eq!(w.step(), Step::Done(Err("boom".to_string())));
    w.record(Ok(true));
    assert_eq!(w.step(), Step::Done(Err("boom".to_string())));
    let mut done = BatchWriter::new(vec![OpType::Marker]);
    done.record(Ok(true));
    assert_eq!(done.step(), Step::Done(Ok(false)));
}
