//! The failures of query execution.

use vstd::prelude::*;
use vstd::string::*;

verus! {

/// Why a query could not be executed. Every failure aborts the whole
/// operation: no partial result is produced.
#[derive(Debug, Clone, PartialEq, Eq)]
pub enum ExecError {
    /// The strategy name stands for no strategy.
    UnknownStrategy(String),
    /// The strategy is known but has no implementation.
    NotImplemented,
    /// The smallest-table strategy was asked for a join that is not inner.
    InnerJoinOnly,
    /// The smallest-table strategy was asked for the wildcard selection.
    WildcardUnsupported,
    /// The smallest-table strategy has no implementation.
    SmallestNotImplemented,
    /// A selected column is declared by neither source.
    UnknownColumn(String),
    /// The source at `path` could not be read as CSV.
    Source { path: String, detail: String },
    /// The right source at `path` has no column to join on.
    NoKeyColumn { path: String },
    /// The result could not be written as CSV.
    Output { detail: String },
}

/// What a failure of execution holds.
pub enum ExecFailure {
    UnknownStrategy(Seq<char>),
    NotImplemented,
    InnerJoinOnly,
    WildcardUnsupported,
    SmallestNotImplemented,
    UnknownColumn(Seq<char>),
    Source { path: Seq<char>, detail: Seq<char> },
    NoKeyColumn { path: Seq<char> },
    Output { detail: Seq<char> },
}

impl View for ExecError {
    type V = ExecFailure;

    open spec fn view(&self) -> ExecFailure {
        match *self {
            ExecError::UnknownStrategy(name) => ExecFailure::UnknownStrategy(name@),
            ExecError::NotImplemented => ExecFailure::NotImplemented,
            ExecError::InnerJoinOnly => ExecFailure::InnerJoinOnly,
            ExecError::WildcardUnsupported => ExecFailure::WildcardUnsupported,
            ExecError::SmallestNotImplemented => ExecFailure::SmallestNotImplemented,
            ExecError::UnknownColumn(name) => ExecFailure::UnknownColumn(name@),
            ExecError::Source { path, detail } => ExecFailure::Source {
                path: path@,
                detail: detail@,
            },
            ExecError::NoKeyColumn { path } => ExecFailure::NoKeyColumn { path: path@ },
            ExecError::Output { detail } => ExecFailure::Output { detail: detail@ },
        }
    }
}

/// Whether a result is the bytes, or the failure, that was to come.
pub open spec fn is_outcome(
    expected: Result<Seq<u8>, ExecFailure>,
    r: Result<Vec<u8>, ExecError>,
) -> bool {
    match expected {
        Ok(bytes) => r is Ok && r->Ok_0@ == bytes,
        Err(failure) => r is Err && r->Err_0@ == failure,
    }
}

/// The text of each failure.
pub open spec fn message_of(e: ExecError) -> Seq<char> {
    match e {
        ExecError::UnknownStrategy(name) => "Unknown strategy: "@ + name@,
        ExecError::NotImplemented => "This strategy is not implemented yet"@,
        ExecError::InnerJoinOnly => "Стратегия 'only_smallest' поддерживает только 'inner' join"@,
        ExecError::WildcardUnsupported => "Стратегия 'only_smallest' не поддерживает 'SELECT *'"@,
        ExecError::SmallestNotImplemented =>
            "Стратегия 'only_smallest' пока не реализована — используйте 'in_memory'"@,
        ExecError::UnknownColumn(name) => "Unknown column: '"@ + name@ + "'"@,
        ExecError::Source { path, detail } => path@ + ": "@ + detail@,
        ExecError::NoKeyColumn { path } => path@ + ": no key column"@,
        ExecError::Output { detail } => detail@,
    }
}

impl ExecError {
    /// A description of the failure for a human reader; it names the
    /// offending strategy, column or source.
    pub fn message(&self) -> (r: String)
        ensures
            r@ == message_of(*self),
    {
        match self {
            ExecError::UnknownStrategy(name) => String::from_str("Unknown strategy: ").concat(
                name.as_str(),
            ),
            ExecError::NotImplemented => String::from_str("This strategy is not implemented yet"),
            ExecError::InnerJoinOnly => String::from_str(
                "Стратегия 'only_smallest' поддерживает только 'inner' join",
            ),
            ExecError::WildcardUnsupported => String::from_str(
                "Стратегия 'only_smallest' не поддерживает 'SELECT *'",
            ),
            ExecError::SmallestNotImplemented => String::from_str(
                "Стратегия 'only_smallest' пока не реализована — используйте 'in_memory'",
            ),
            ExecError::UnknownColumn(name) => String::from_str("Unknown column: '").concat(
                name.as_str(),
            ).concat("'"),
            ExecError::Source { path, detail } => path.clone().concat(": ").concat(
                detail.as_str(),
            ),
            ExecError::NoKeyColumn { path } => path.clone().concat(": no key column"),
            ExecError::Output { detail } => detail.clone(),
        }
    }
}

} // verus!
