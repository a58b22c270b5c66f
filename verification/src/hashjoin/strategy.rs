//! Join kinds and the named join strategies.

use vstd::prelude::*;
use vstd::string::*;
use crate::text::{lowercase_of, same_text, to_lower, to_upper, uppercase_of};

verus! {

/// Which unmatched rows a join keeps.
#[derive(Debug, Clone, Copy, PartialEq, Eq, Structural)]
pub enum JoinType {
    Inner,
    Left,
    Right,
    Full,
}

/// The algorithms a command can name.
#[derive(Debug, Clone, Copy, PartialEq, Eq, Structural)]
pub enum JoinStrategy {
    InMemory,
    OnlySmallest,
    StreamProcessing,
    MergeJoin,
    DiskBased,
}

/// The join kind that an upper-case keyword stands for.
pub open spec fn join_type_named(upper: Seq<char>) -> Option<JoinType> {
    if upper == "INNER"@ {
        Some(JoinType::Inner)
    } else if upper == "LEFT"@ || upper == "LEFT OUTER"@ {
        Some(JoinType::Left)
    } else if upper == "RIGHT"@ || upper == "RIGHT OUTER"@ {
        Some(JoinType::Right)
    } else if upper == "FULL"@ || upper == "FULL OUTER"@ {
        Some(JoinType::Full)
    } else {
        None
    }
}

/// The strategy that a lower-case name stands for.
pub open spec fn strategy_named(lower: Seq<char>) -> Option<JoinStrategy> {
    if lower == "in_memory"@ {
        Some(JoinStrategy::InMemory)
    } else if lower == "only_smallest"@ {
        Some(JoinStrategy::OnlySmallest)
    } else if lower == "stream_processing"@ {
        Some(JoinStrategy::StreamProcessing)
    } else if lower == "merge_join"@ {
        Some(JoinStrategy::MergeJoin)
    } else if lower == "disk_based"@ {
        Some(JoinStrategy::DiskBased)
    } else {
        None
    }
}

/// The message for a keyword that names no join kind.
pub open spec fn unknown_join_type_message(s: Seq<char>) -> Seq<char> {
    "Неизвестный тип соединения: "@ + s
}

/// Reads a join kind from a keyword that is already in upper case.
pub fn join_type_from_upper(upper: &str) -> (r: Option<JoinType>)
    ensures
        r == join_type_named(upper@),
{
    if same_text(upper, "INNER") {
        Some(JoinType::Inner)
    } else if same_text(upper, "LEFT") || same_text(upper, "LEFT OUTER") {
        Some(JoinType::Left)
    } else if same_text(upper, "RIGHT") || same_text(upper, "RIGHT OUTER") {
        Some(JoinType::Right)
    } else if same_text(upper, "FULL") || same_text(upper, "FULL OUTER") {
        Some(JoinType::Full)
    } else {
        None
    }
}

/// Reads a join kind from a keyword in any case: `INNER`, `LEFT`,
/// `LEFT OUTER`, `RIGHT`, `RIGHT OUTER`, `FULL` or `FULL OUTER`. Any other
/// keyword is refused with a message that quotes it.
pub fn parse_join_type(s: &str) -> (r: Result<JoinType, String>)
    ensures
        match join_type_named(uppercase_of(s@)) {
            Some(t) => r == Ok::<JoinType, String>(t),
            None => r is Err && r->Err_0@ == unknown_join_type_message(s@),
        },
{
    let upper = to_upper(s);
    match join_type_from_upper(upper.as_str()) {
        Some(t) => Ok(t),
        None => Err(String::from_str("Неизвестный тип соединения: ").concat(s)),
    }
}

/// Reads a strategy from a name that is already in lower case.
pub fn strategy_from_lower(lower: &str) -> (r: Option<JoinStrategy>)
    ensures
        r == strategy_named(lower@),
{
    if same_text(lower, "in_memory") {
        Some(JoinStrategy::InMemory)
    } else if same_text(lower, "only_smallest") {
        Some(JoinStrategy::OnlySmallest)
    } else if same_text(lower, "stream_processing") {
        Some(JoinStrategy::StreamProcessing)
    } else if same_text(lower, "merge_join") {
        Some(JoinStrategy::MergeJoin)
    } else if same_text(lower, "disk_based") {
        Some(JoinStrategy::DiskBased)
    } else {
        None
    }
}

impl JoinStrategy {
    /// Reads a strategy from its name in any case; `None` for a name that
    /// stands for no strategy.
    pub fn from_str(s: &str) -> (r: Option<Self>)
        ensures
            r == strategy_named(lowercase_of(s@)),
    {
        let lower = to_lower(s);
        strategy_from_lower(lower.as_str())
    }
}

} // verus!
