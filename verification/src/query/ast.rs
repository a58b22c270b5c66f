//! The structured form of a parsed command.

use vstd::prelude::*;
use crate::hashjoin::strategy::JoinType;
use crate::text::texts;

verus! {

/// Where the result of a query goes.
#[derive(Debug, Clone)]
pub enum OutputTarget {
    /// The standard output stream.
    Stdout,
    /// The file at this path.
    File(String),
}

/// One join command: what to select, from which two sources, how to join
/// them, with which strategy, and where to write the result.
#[derive(Debug, Clone)]
pub struct SelectQuery {
    /// The selected column names in order; the single name `*` selects
    /// every column of the joined row.
    pub columns: Vec<String>,
    /// The left source.
    pub file1: String,
    /// The right source.
    pub file2: String,
    pub join_type: JoinType,
    /// The strategy's name as written in the command.
    pub strategy_name: String,
    pub output: OutputTarget,
}

/// What an output target holds.
pub enum OutputTargetView {
    Stdout,
    File(Seq<char>),
}

/// What a query holds.
pub struct SelectQueryView {
    pub columns: Seq<Seq<char>>,
    pub file1: Seq<char>,
    pub file2: Seq<char>,
    pub join_type: JoinType,
    pub strategy_name: Seq<char>,
    pub output: OutputTargetView,
}

impl View for OutputTarget {
    type V = OutputTargetView;

    open spec fn view(&self) -> OutputTargetView {
        match *self {
            OutputTarget::Stdout => OutputTargetView::Stdout,
            OutputTarget::File(path) => OutputTargetView::File(path@),
        }
    }
}

impl View for SelectQuery {
    type V = SelectQueryView;

    open spec fn view(&self) -> SelectQueryView {
        SelectQueryView {
            columns: texts(self.columns@),
            file1: self.file1@,
            file2: self.file2@,
            join_type: self.join_type,
            strategy_name: self.strategy_name@,
            output: self.output@,
        }
    }
}

} // verus!
