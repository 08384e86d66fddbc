use vstd::prelude::*;

verus! {

/// One edit operation of a replay, decoded from the wire form.
///
/// `count` fields and the insertion text are measured in Unicode scalar
/// values (`char`s); the same unit is used for every cursor move and every
/// bounds check of the replay.
#[derive(Debug, PartialEq, Eq)]
pub enum Operation {
    Skip { count: usize },
    Delete { count: usize },
    Insert { chars: String },
}

/// The mathematical model of an `Operation`: counts as `nat`, text as
/// `Seq<char>`.
pub enum OpModel {
    Skip { count: nat },
    Delete { count: nat },
    Insert { chars: Seq<char> },
}

impl View for Operation {
    type V = OpModel;

    open spec fn view(&self) -> OpModel {
        match self {
            Operation::Skip { count } => (OpModel::Skip { count: *count as nat }),
            Operation::Delete { count } => (OpModel::Delete { count: *count as nat }),
            Operation::Insert { chars } => (OpModel::Insert { chars: chars@ }),
        }
    }
}

/// The model of a decoded operation list, in replay order.
pub open spec fn ops_model(ops: Seq<Operation>) -> Seq<OpModel> {
    ops.map_values(|op: Operation| op@)
}

/// The outcome kinds of one validation call.
///
/// Every failure is a terminal verdict on the submitted edit, never a
/// transient condition.
#[derive(Debug, Clone, Copy, PartialEq, Eq, Structural)]
pub enum ValidationError {
    /// The operation list is syntactically or structurally invalid.
    ParseError,
    /// All operations applied, but the final buffer differs from the
    /// latest text.
    DoesNotMatch,
    /// A skip would move the cursor past the current buffer end.
    SkipPastEnd,
    /// A delete would remove past the current buffer end.
    DeletePastEnd,
}

} // verus!
