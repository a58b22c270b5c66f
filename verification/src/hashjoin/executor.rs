//! The execution driver: it chooses the strategy that a query names and
//! runs it.

use vstd::prelude::*;
use vstd::string::*;
use crate::hashjoin::error::{is_outcome, ExecError, ExecFailure};
use crate::hashjoin::in_memory::{executed, load_source, InMemoryJoin};
use crate::hashjoin::smallest::{smallest_failure, OnlySmallestJoin};
use crate::hashjoin::strategy::{strategy_named, JoinStrategy};
use crate::query::ast::{SelectQuery, SelectQueryView};
use crate::storage::csv_reader::{csv_records, fetched, load_error_text, loads};
use crate::text::lowercase_of;

verus! {

/// Whether a strategy reads the sources of a query before it answers.
pub open spec fn strategy_reads_sources(strategy: Option<JoinStrategy>) -> bool {
    strategy == Some(JoinStrategy::InMemory)
}

/// Whether a strategy has an implementation that the driver hands the
/// query to.
pub open spec fn strategy_is_dispatched(strategy: Option<JoinStrategy>) -> bool {
    strategy == Some(JoinStrategy::InMemory) || strategy == Some(JoinStrategy::OnlySmallest)
        || strategy == Some(JoinStrategy::StreamProcessing)
}

/// What a query comes to under a strategy, given the bytes of its sources.
/// A name that stands for no strategy is reported as the query wrote it;
/// the merge and disk strategies fail at once; the smallest-table and
/// stream strategies check the query and fail; the in-memory strategy joins
/// the sources.
pub open spec fn outcome(
    strategy: Option<JoinStrategy>,
    query: SelectQueryView,
    source1: Seq<u8>,
    source2: Seq<u8>,
) -> Result<Seq<u8>, ExecFailure> {
    match strategy {
        None => Err(ExecFailure::UnknownStrategy(query.strategy_name)),
        Some(JoinStrategy::MergeJoin) | Some(JoinStrategy::DiskBased) => Err(
            ExecFailure::NotImplemented,
        ),
        Some(JoinStrategy::OnlySmallest) | Some(JoinStrategy::StreamProcessing) => Err(
            smallest_failure(query.join_type, query.columns),
        ),
        Some(JoinStrategy::InMemory) => executed(
            query.join_type,
            query.columns,
            query.file1,
            query.file2,
            source1,
            source2,
        ),
    }
}

/// What the driver does next with the sources fetched so far.
#[derive(Debug, PartialEq, Eq)]
pub enum Step {
    /// The source at this path is to be fetched.
    Read(String),
    /// The query is answered.
    Done(Result<Vec<u8>, ExecError>),
}

/// What the driver does next, as a value of the model.
pub enum StepView {
    Read(Seq<char>),
    Done(Result<Seq<u8>, ExecFailure>),
}

/// Whether a step is the one that was to come.
pub open spec fn is_step(expected: StepView, step: Step) -> bool {
    match expected {
        StepView::Read(path) => step matches Step::Read(p) && p@ == path,
        StepView::Done(result) => step matches Step::Done(r) && is_outcome(result, r),
    }
}

/// The next step of a query under a strategy. A strategy that reads no
/// source answers at once. The in-memory strategy asks for the left source
/// first; once it has it, a left source that does not load is reported
/// before the right source is asked for; with both sources the query is
/// answered.
pub open spec fn step_of(
    strategy: Option<JoinStrategy>,
    query: SelectQueryView,
    first: Option<Seq<u8>>,
    second: Option<Seq<u8>>,
) -> StepView {
    if !strategy_reads_sources(strategy) {
        StepView::Done(outcome(strategy, query, Seq::<u8>::empty(), Seq::<u8>::empty()))
    } else {
        match first {
            None => StepView::Read(query.file1),
            Some(source1) => if !loads(csv_records(source1)) {
                StepView::Done(
                    Err(
                        ExecFailure::Source {
                            path: query.file1,
                            detail: load_error_text(source1),
                        },
                    ),
                )
            } else {
                match second {
                    None => StepView::Read(query.file2),
                    Some(source2) => StepView::Done(outcome(strategy, query, source1, source2)),
                }
            },
        }
    }
}

/// Stepping agrees with executing: whatever a step answers with fewer than
/// two sources is what the query comes to on every choice of the sources
/// that were not yet fetched.
pub proof fn lemma_early_answer(
    strategy: Option<JoinStrategy>,
    query: SelectQueryView,
    first: Option<Seq<u8>>,
    source1: Seq<u8>,
    source2: Seq<u8>,
)
    requires
        first is Some ==> first == Some(source1),
        step_of(strategy, query, first, None) is Done,
    ensures
        step_of(strategy, query, first, None) == StepView::Done(
            outcome(strategy, query, source1, source2),
        ),
{
}

/// Whether a strategy reads the sources of a query before it answers. A
/// caller that holds no source yet asks this first and reads only then.
pub fn reads_sources(strategy: Option<JoinStrategy>) -> (r: bool)
    ensures
        r == strategy_reads_sources(strategy),
{
    match strategy {
        Some(JoinStrategy::InMemory) => true,
        _ => false,
    }
}

/// Whether a strategy has an implementation that the driver hands the
/// query to. For every other strategy, and for an unknown one, the driver
/// fails before it prepares any output.
pub fn is_dispatched(strategy: Option<JoinStrategy>) -> (r: bool)
    ensures
        r == strategy_is_dispatched(strategy),
{
    match strategy {
        Some(JoinStrategy::InMemory) => true,
        Some(JoinStrategy::OnlySmallest) => true,
        Some(JoinStrategy::StreamProcessing) => true,
        _ => false,
    }
}

/// Runs a query under a strategy. A name that stands for no strategy is
/// reported with the name as the query wrote it; the merge and disk
/// strategies fail at once; the smallest-table and stream strategies check
/// the query and fail; the in-memory strategy joins the sources. Only the
/// in-memory strategy looks at the sources.
pub fn execute_with(
    strategy: Option<JoinStrategy>,
    query: &SelectQuery,
    source1: &[u8],
    source2: &[u8],
) -> (r: Result<Vec<u8>, ExecError>)
    ensures
        is_outcome(outcome(strategy, query@, source1@, source2@), r),
{
    match strategy {
        None => Err(ExecError::UnknownStrategy(query.strategy_name.clone())),
        Some(JoinStrategy::MergeJoin) | Some(JoinStrategy::DiskBased) => Err(
            ExecError::NotImplemented,
        ),
        Some(JoinStrategy::OnlySmallest) | Some(JoinStrategy::StreamProcessing) => {
            let strategy = OnlySmallestJoin;
            strategy.execute(query)
        },
        Some(JoinStrategy::InMemory) => {
            let strategy = InMemoryJoin;
            strategy.execute(query, source1, source2)
        },
    }
}

/// The next step of a query under a strategy, for a caller that fetches
/// the sources one by one: which source to fetch, or the answer. `second`
/// is looked at only where `first` is given.
pub fn next_step(
    strategy: Option<JoinStrategy>,
    query: &SelectQuery,
    first: Option<&[u8]>,
    second: Option<&[u8]>,
) -> (r: Step)
    ensures
        is_step(
            step_of(strategy, query@, fetched(first), fetched(second)),
            r,
        ),
{
    if !reads_sources(strategy) {
        let empty: Vec<u8> = Vec::new();
        return Step::Done(execute_with(strategy, query, empty.as_slice(), empty.as_slice()));
    }
    match first {
        None => Step::Read(query.file1.clone()),
        Some(source1) => match load_source(&query.file1, source1) {
            Err(e) => Step::Done(Err(e)),
            Ok(_) => match second {
                None => Step::Read(query.file2.clone()),
                Some(source2) => Step::Done(execute_with(strategy, query, source1, source2)),
            },
        },
    }
}

/// Executes a query on the bytes of its two sources and gives the bytes of
/// the result: the strategy is the one that the query's strategy name
/// stands for, whatever its case.
pub fn execute_query(query: &SelectQuery, source1: &[u8], source2: &[u8]) -> (r: Result<
    Vec<u8>,
    ExecError,
>)
    ensures
        is_outcome(
            outcome(strategy_named(lowercase_of(query.strategy_name@)), query@, source1@, source2@),
            r,
        ),
{
    let strategy = JoinStrategy::from_str(query.strategy_name.as_str());
    execute_with(strategy, query, source1, source2)
}

} // verus!
