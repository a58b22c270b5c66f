//! The smallest-table strategy, which only states what it would accept.

use vstd::prelude::*;
use vstd::string::*;
use crate::hashjoin::error::{ExecError, ExecFailure};
use crate::hashjoin::strategy::JoinType;
use crate::query::ast::SelectQuery;
use crate::text::{same_text, texts};

verus! {

/// The strategy that would stream the larger source past the smaller one.
#[derive(Debug, Clone, Copy, PartialEq, Eq, Structural)]
pub struct OnlySmallestJoin;

/// Whether some selected column is the wildcard token.
pub open spec fn selects_wildcard(columns: Seq<Seq<char>>) -> bool {
    exists|i: int| 0 <= i < columns.len() && #[trigger] columns[i] == "*"@
}

/// What the smallest-table strategy answers a query with.
pub open spec fn smallest_failure(kind: JoinType, columns: Seq<Seq<char>>) -> ExecFailure {
    if kind != JoinType::Inner {
        ExecFailure::InnerJoinOnly
    } else if selects_wildcard(columns) {
        ExecFailure::WildcardUnsupported
    } else {
        ExecFailure::SmallestNotImplemented
    }
}

/// Whether some selected column is the wildcard token.
pub fn has_wildcard(columns: &Vec<String>) -> (r: bool)
    ensures
        r == selects_wildcard(texts(columns@)),
{
    let mut i: usize = 0;
    while i < columns.len()
        invariant
            i <= columns.len(),
            forall|j: int| 0 <= j < i ==> (#[trigger] texts(columns@)[j]) != "*"@,
        decreases columns.len() - i,
    {
        if same_text(columns[i].as_str(), "*") {
            assert(texts(columns@)[i as int] == "*"@);
            return true;
        }
        i = i + 1;
    }
    false
}

impl OnlySmallestJoin {
    /// Checks the query against what the strategy would accept and then
    /// fails: a join that is not inner is refused first, then a selection
    /// that holds the wildcard, and every other query is answered with the
    /// advice to use the in-memory strategy. No source is read.
    pub fn execute(&self, query: &SelectQuery) -> (r: Result<Vec<u8>, ExecError>)
        ensures
            r is Err,
            r->Err_0@ == smallest_failure(query.join_type, texts(query.columns@)),
    {
        if query.join_type != JoinType::Inner {
            return Err(ExecError::InnerJoinOnly);
        }
        if has_wildcard(&query.columns) {
            return Err(ExecError::WildcardUnsupported);
        }
        Err(ExecError::SmallestNotImplemented)
    }
}

} // verus!
