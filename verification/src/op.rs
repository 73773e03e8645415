//! The kinds of operation that a write batch carries, and how the store
//! treats each kind.
use vstd::prelude::*;

verus! {

/// The type of one operation of a write batch.
#[derive(Clone, Copy, Debug, PartialEq, Eq, Structural)]
pub enum OpType {
    /// A position marker: it carries no write and is skipped.
    Marker,
    OverwriteVertex,
    UpdateVertex,
    DeleteVertex,
    OverwriteEdge,
    UpdateEdge,
    DeleteEdge,
    CreateVertexType,
    CreateEdgeType,
    AddEdgeKind,
    DropVertexType,
    DropEdgeType,
    RemoveEdgeKind,
    PrepareDataLoad,
    CommitDataLoad,
}

/// How the store handles an operation of a given type.
#[derive(Clone, Copy, Debug, PartialEq, Eq, Structural)]
pub enum OpClass {
    /// Nothing is handed to the graph.
    Marker,
    /// A vertex or edge write: the graph applies it and reports nothing more.
    Data,
    /// A schema change or data-load step: the graph reports whether the
    /// schema changed.
    Schema,
}

/// The operation is a marker.
pub open spec fn is_marker(op: OpType) -> bool {
    op is Marker
}

/// The operation writes, updates or deletes a vertex or an edge.
pub open spec fn is_data_op(op: OpType) -> bool {
    ||| op is OverwriteVertex
    ||| op is UpdateVertex
    ||| op is DeleteVertex
    ||| op is OverwriteEdge
    ||| op is UpdateEdge
    ||| op is DeleteEdge
}

/// The operation changes the schema or takes part in a data load; the graph
/// answers it with a flag that says whether the schema changed.
pub open spec fn is_schema_op(op: OpType) -> bool {
    ||| op is CreateVertexType
    ||| op is CreateEdgeType
    ||| op is AddEdgeKind
    ||| op is DropVertexType
    ||| op is DropEdgeType
    ||| op is RemoveEdgeKind
    ||| op is PrepareDataLoad
    ||| op is CommitDataLoad
}

/// The class of an operation type, as a spec value.
pub open spec fn class_of(op: OpType) -> OpClass {
    if is_marker(op) {
        OpClass::Marker
    } else if is_data_op(op) {
        OpClass::Data
    } else {
        OpClass::Schema
    }
}

/// Every operation type falls in exactly one of the three classes.
pub proof fn lemma_classes_partition(op: OpType)
    ensures
        is_marker(op) || is_data_op(op) || is_schema_op(op),
        !(is_marker(op) && is_data_op(op)),
        !(is_marker(op) && is_schema_op(op)),
        !(is_data_op(op) && is_schema_op(op)),
{
}

impl OpType {
    /// Whether the operation is a marker.
    pub fn is_marker(&self) -> (b: bool)
        ensures
            b == is_marker(*self),
    {
        match self {
            OpType::Marker => true,
            _ => false,
        }
    }

    /// Whether the graph's answer to this operation can report a schema change.
    pub fn is_schema_op(&self) -> (b: bool)
        ensures
            b == is_schema_op(*self),
    {
        match self {
            OpType::CreateVertexType
            | OpType::CreateEdgeType
            | OpType::AddEdgeKind
            | OpType::DropVertexType
            | OpType::DropEdgeType
            | OpType::RemoveEdgeKind
            | OpType::PrepareDataLoad
            | OpType::CommitDataLoad => true,
            _ => false,
        }
    }

    /// The class of this operation.
    pub fn class(&self) -> (c: OpClass)
        ensures
            c == class_of(*self),
    {
        match self {
            OpType::Marker => OpClass::Marker,
            OpType::OverwriteVertex
            | OpType::UpdateVertex
            | OpType::DeleteVertex
            | OpType::OverwriteEdge
            | OpType::UpdateEdge
            | OpType::DeleteEdge => OpClass::Data,
            _ => OpClass::Schema,
        }
    }
}

} // verus!
