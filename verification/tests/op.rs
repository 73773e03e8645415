use groot::op::{OpClass, OpType};

#[test]
fn classes_of_all_operation_types() {
    let all = [
        (OpType::Marker, OpClass::Marker),
        (OpType::OverwriteVertex, OpClass::Data),
        (OpType::UpdateVertex, OpClass::Data),
        (OpType::DeleteVertex, OpClass::Data),
        (OpType::OverwriteEdge, OpClass::Data),
        (OpType::UpdateEdge, OpClass::Data),
        (OpType::DeleteEdge, OpClass::Data),
        (OpType::CreateVertexType, OpClass::Schema),
        (OpType::CreateEdgeType, OpClass::Schema),
        (OpType::AddEdgeKind, OpClass::Schema),
        (OpType::DropVertexType, OpClass::Schema),
        (OpType::DropEdgeType, OpClass::Schema),
        (OpType::RemoveEdgeKind, OpClass::Schema),
        (OpType::PrepareDataLoad, OpClass::Schema),
        (OpType::CommitDataLoad, OpClass::Schema),
    ];
    for (op, class) in all {
        assert_eq!(op.class(), class);
        assert_eq!(op.is_marker(), class == OpClass::Marker);
        assert_eq!(op.is_schema_op(), class == OpClass::Schema);
    }
}
