//! The operator form of the engine: a command without an output clause,
//! whose strategy must be the in-memory one and whose wildcard is expanded
//! from the headers of the sources before the join runs.
//!
//! A command is first resolved into the values that the join takes, which
//! for the wildcard needs the headers of both sources, and then the join
//! runs. Both stages can be stepped by a caller that fetches the sources
//! one by one, so that no source is fetched that the command never looks at.

use vstd::prelude::*;
use vstd::string::*;
use crate::hashjoin::in_memory::{
    build_column_index,
    column_index,
    find_missing,
    first_missing,
    full_headers,
    get_full_column_list,
    join_rows,
    output_rows,
};
use crate::hashjoin::strategy::{
    join_type_named,
    parse_join_type,
    strategy_named,
    unknown_join_type_message,
    JoinStrategy,
};
use crate::hashjoin::table::collapse;
use crate::query::parser::{
    captures_of,
    group_texts,
    join_kind_text,
    kind_text,
    list_items,
    pattern_compiles,
    pattern_error,
    regex_captures,
    trim_all,
};
use crate::storage::csv_reader::{
    csv_headers,
    csv_headers_error,
    csv_records,
    fetched,
    load_error_text,
    loads,
    read_csv_to_map,
    read_headers,
};
use crate::storage::csv_writer::{csv_text, write_rows};
use crate::text::{lowercase_of, same_text, split, texts, trim, trimmed, uppercase_of};

verus! {

/// Why an operator command failed.
#[derive(Debug, Clone, PartialEq, Eq)]
pub enum OperatorError {
    /// The grammar's pattern was not accepted; the text says why.
    Pattern(String),
    /// The command does not have the form of a join command.
    Unsupported,
    /// The strategy name stands for no strategy.
    UnknownStrategy(String),
    /// The number of sources after `FROM` is not two.
    SourceCount,
    /// No column is selected.
    EmptyColumns,
    /// A projection was asked of a strategy other than the in-memory one.
    ProjectionStrategy,
    /// The join kind is none of the known ones; the text names it.
    UnknownJoinType(String),
    /// A selected column is declared by neither source.
    UnknownColumn(String),
    /// The source at `path` could not be read as CSV.
    Source { path: String, detail: String },
    /// The right source at `path` has no column to join on.
    NoKeyColumn { path: String },
    /// The result could not be written as CSV.
    Output { detail: String },
}

/// What an operator failure holds.
pub enum OperatorFailure {
    Pattern(Seq<char>),
    Unsupported,
    UnknownStrategy(Seq<char>),
    SourceCount,
    EmptyColumns,
    ProjectionStrategy,
    UnknownJoinType(Seq<char>),
    UnknownColumn(Seq<char>),
    Source { path: Seq<char>, detail: Seq<char> },
    NoKeyColumn { path: Seq<char> },
    Output { detail: Seq<char> },
}

impl View for OperatorError {
    type V = OperatorFailure;

    open spec fn view(&self) -> OperatorFailure {
        match *self {
            OperatorError::Pattern(text) => OperatorFailure::Pattern(text@),
            OperatorError::Unsupported => OperatorFailure::Unsupported,
            OperatorError::UnknownStrategy(name) => OperatorFailure::UnknownStrategy(name@),
            OperatorError::SourceCount => OperatorFailure::SourceCount,
            OperatorError::EmptyColumns => OperatorFailure::EmptyColumns,
            OperatorError::ProjectionStrategy => OperatorFailure::ProjectionStrategy,
            OperatorError::UnknownJoinType(text) => OperatorFailure::UnknownJoinType(text@),
            OperatorError::UnknownColumn(name) => OperatorFailure::UnknownColumn(name@),
            OperatorError::Source { path, detail } => OperatorFailure::Source {
                path: path@,
                detail: detail@,
            },
            OperatorError::NoKeyColumn { path } => OperatorFailure::NoKeyColumn { path: path@ },
            OperatorError::Output { detail } => OperatorFailure::Output { detail: detail@ },
        }
    }
}

/// The text of each failure.
pub open spec fn operator_message_of(e: OperatorFailure) -> Seq<char> {
    match e {
        OperatorFailure::Pattern(text) => text,
        OperatorFailure::Unsupported => "Неподдерживаемая команда"@,
        OperatorFailure::UnknownStrategy(name) => "Неизвестная стратегия: "@ + name,
        OperatorFailure::SourceCount => "Требуется ровно два CSV-файла"@,
        OperatorFailure::EmptyColumns => "Список колонок не может быть пустым"@,
        OperatorFailure::ProjectionStrategy =>
            "Проекция колонок (select ...) поддерживается только со стратегией 'in_memory'"@,
        OperatorFailure::UnknownJoinType(text) => text,
        OperatorFailure::UnknownColumn(name) => "Неизвестная колонка: '"@ + name + "'"@,
        OperatorFailure::Source { path, detail } => path + ": "@ + detail,
        OperatorFailure::NoKeyColumn { path } => path + ": no key column"@,
        OperatorFailure::Output { detail } => detail,
    }
}

impl OperatorError {
    /// A description of the failure for a human reader.
    pub fn message(&self) -> (r: String)
        ensures
            r@ == operator_message_of(self@),
    {
        match self {
            OperatorError::Pattern(text) => text.clone(),
            OperatorError::Unsupported => String::from_str("Неподдерживаемая команда"),
            OperatorError::UnknownStrategy(name) => String::from_str(
                "Неизвестная стратегия: ",
            ).concat(name.as_str()),
            OperatorError::SourceCount => String::from_str("Требуется ровно два CSV-файла"),
            OperatorError::EmptyColumns => String::from_str("Список колонок не может быть пустым"),
            OperatorError::ProjectionStrategy => String::from_str(
                "Проекция колонок (select ...) поддерживается только со стратегией 'in_memory'",
            ),
            OperatorError::UnknownJoinType(text) => text.clone(),
            OperatorError::UnknownColumn(name) => String::from_str(
                "Неизвестная колонка: '",
            ).concat(name.as_str()).concat("'"),
            OperatorError::Source { path, detail } => path.clone().concat(": ").concat(
                detail.as_str(),
            ),
            OperatorError::NoKeyColumn { path } => path.clone().concat(": no key column"),
            OperatorError::Output { detail } => detail.clone(),
        }
    }
}

/// A resolved operator command: the values that the projection join takes.
#[derive(Debug, Clone, PartialEq, Eq)]
pub struct OperatorCommand {
    /// The selected columns, the wildcard already expanded.
    pub columns: Vec<String>,
    /// The left source.
    pub file1: String,
    /// The right source.
    pub file2: String,
    /// The join kind as the command wrote it.
    pub join_type: String,
    pub strategy: JoinStrategy,
}

/// What a resolved operator command holds.
pub struct OperatorCommandView {
    pub columns: Seq<Seq<char>>,
    pub file1: Seq<char>,
    pub file2: Seq<char>,
    pub join_type: Seq<char>,
    pub strategy: JoinStrategy,
}

impl View for OperatorCommand {
    type V = OperatorCommandView;

    open spec fn view(&self) -> OperatorCommandView {
        OperatorCommandView {
            columns: texts(self.columns@),
            file1: self.file1@,
            file2: self.file2@,
            join_type: self.join_type@,
            strategy: self.strategy,
        }
    }
}

/// Whether a result is the bytes, or the failure, that was to come.
pub open spec fn is_result(
    expected: Result<Seq<u8>, OperatorFailure>,
    r: Result<Vec<u8>, OperatorError>,
) -> bool {
    match expected {
        Ok(bytes) => r is Ok && r->Ok_0@ == bytes,
        Err(failure) => r is Err && r->Err_0@ == failure,
    }
}

/// The rows of a projection join, or why there are none. The strategy is
/// checked first, then the join kind, then the sources are loaded, the left
/// one first, and then every selected column must be declared by a source:
/// here the wildcard token is a name like any other.
pub open spec fn projection_rows(
    command: OperatorCommandView,
    source1: Seq<u8>,
    source2: Seq<u8>,
) -> Result<Seq<Seq<Seq<char>>>, OperatorFailure> {
    let kind = join_type_named(uppercase_of(command.join_type));
    if command.strategy != JoinStrategy::InMemory {
        Err(OperatorFailure::ProjectionStrategy)
    } else if kind is None {
        Err(OperatorFailure::UnknownJoinType(unknown_join_type_message(command.join_type)))
    } else if !loads(csv_records(source1)) {
        Err(OperatorFailure::Source { path: command.file1, detail: load_error_text(source1) })
    } else if !loads(csv_records(source2)) {
        Err(OperatorFailure::Source { path: command.file2, detail: load_error_text(source2) })
    } else {
        let (h1, records1) = csv_records(source1)->Some_0;
        let (h2, records2) = csv_records(source2)->Some_0;
        if h2.len() == 0 {
            Err(OperatorFailure::NoKeyColumn { path: command.file2 })
        } else {
            match first_missing(command.columns, column_index(h1, h2).dom()) {
                Some(name) => Err(OperatorFailure::UnknownColumn(name)),
                None => Ok(
                    output_rows(
                        kind->Some_0,
                        command.columns,
                        h1,
                        collapse(records1),
                        h2,
                        collapse(records2),
                    ),
                ),
            }
        }
    }
}

/// The bytes of a projection join, or its failure: the rows written as CSV
/// text.
pub open spec fn projection_outcome(
    command: OperatorCommandView,
    source1: Seq<u8>,
    source2: Seq<u8>,
) -> Result<Seq<u8>, OperatorFailure> {
    match projection_rows(command, source1, source2) {
        Err(failure) => Err(failure),
        Ok(rows) => match csv_text(rows) {
            Ok(bytes) => Ok(bytes),
            Err(detail) => Err(OperatorFailure::Output { detail }),
        },
    }
}

/// Joins two sources with an explicit projection and gives the bytes of
/// the result. Only the in-memory strategy is accepted.
pub fn run_hashjoin_with_projection(
    file1: &str,
    file2: &str,
    source1: &[u8],
    source2: &[u8],
    join_type: &str,
    strategy: JoinStrategy,
    selected_columns: &Vec<String>,
) -> (r: Result<Vec<u8>, OperatorError>)
    ensures
        is_result(
            projection_outcome(
                OperatorCommandView {
                    columns: texts(selected_columns@),
                    file1: file1@,
                    file2: file2@,
                    join_type: join_type@,
                    strategy,
                },
                source1@,
                source2@,
            ),
            r,
        ),
{
    if strategy != JoinStrategy::InMemory {
        return Err(OperatorError::ProjectionStrategy);
    }
    let kind = match parse_join_type(join_type) {
        Ok(kind) => kind,
        Err(text) => {
            return Err(OperatorError::UnknownJoinType(text));
        },
    };
    let left = match read_csv_to_map(source1) {
        Ok(table) => table,
        Err(e) => {
            return Err(OperatorError::Source { path: file1.to_owned(), detail: e.message() });
        },
    };
    let right = match read_csv_to_map(source2) {
        Ok(table) => table,
        Err(e) => {
            return Err(OperatorError::Source { path: file2.to_owned(), detail: e.message() });
        },
    };
    if right.column_names().len() == 0 {
        return Err(OperatorError::NoKeyColumn { path: file2.to_owned() });
    }
    let index = build_column_index(left.column_names(), right.column_names());
    match find_missing(selected_columns, &index) {
        Some(c) => {
            return Err(OperatorError::UnknownColumn(selected_columns[c].clone()));
        },
        None => {},
    }
    let rows = join_rows(kind, selected_columns, &index, &left, &right);
    match write_rows(&rows) {
        Ok(bytes) => Ok(bytes),
        Err(detail) => Err(OperatorError::Output { detail }),
    }
}

/// The grammar of an operator command as a pattern. Its groups are, in
/// order: the column list, the source list, the join kind, the word `OUTER`
/// of a two-word kind and the strategy. The word `OUTER` is taken as part
/// of the kind only where the command does not match without that.
pub fn operator_grammar() -> (r: &'static str)
    ensures
        r@ == operator_grammar_text(),
{
    r"(?i)^\s*select\s+(.+?)\s+from\s+([^,\s]+(?:\s*,\s*[^,\s]+)*)\s+hashjoin\s+(\w+)(?:\s+(outer))??(?:\s+(\w+))?\s*$"
}

/// The text of the operator grammar's pattern.
pub closed spec fn operator_grammar_text() -> Seq<char> {
    r"(?i)^\s*select\s+(.+?)\s+from\s+([^,\s]+(?:\s*,\s*[^,\s]+)*)\s+hashjoin\s+(\w+)(?:\s+(outer))??(?:\s+(\w+))?\s*$"@
}

/// Whether capture groups have the shape of the operator grammar's: six of
/// them, with the column list, the source list and the join kind present.
pub open spec fn has_operator_shape(groups: Seq<Option<Seq<char>>>) -> bool {
    groups.len() == 6 && groups[1] is Some && groups[2] is Some && groups[3] is Some
}

/// The strategy of an operator command: the named one, or the
/// smallest-table strategy where none is named.
pub open spec fn operator_strategy(name: Option<Seq<char>>) -> Option<JoinStrategy> {
    match name {
        Some(s) => strategy_named(lowercase_of(s)),
        None => Some(JoinStrategy::OnlySmallest),
    }
}

/// A stage of resolving an operator command.
pub enum Resolution {
    /// The source at this path is to be fetched.
    Read(Seq<char>),
    /// The command fails.
    Failed(OperatorFailure),
    /// The command is resolved.
    Resolved(OperatorCommandView),
}

/// The columns of an operator command once both headers are at hand, or
/// what is still to do for them.
pub open spec fn wildcard_resolution(
    file1: Seq<char>,
    file2: Seq<char>,
    first: Option<Seq<u8>>,
    second: Option<Seq<u8>>,
) -> Result<Seq<Seq<char>>, Resolution> {
    match first {
        None => Err(Resolution::Read(file1)),
        Some(source1) => match csv_headers(source1) {
            None => Err(
                Resolution::Failed(
                    OperatorFailure::Source { path: file1, detail: csv_headers_error(source1) },
                ),
            ),
            Some(h1) => match second {
                None => Err(Resolution::Read(file2)),
                Some(source2) => match csv_headers(source2) {
                    None => Err(
                        Resolution::Failed(
                            OperatorFailure::Source {
                                path: file2,
                                detail: csv_headers_error(source2),
                            },
                        ),
                    ),
                    Some(h2) => if h2.len() == 0 {
                        Err(Resolution::Failed(OperatorFailure::NoKeyColumn { path: file2 }))
                    } else {
                        Ok(full_headers(h1, h2))
                    },
                },
            },
        },
    }
}

/// How far the capture groups of an operator command resolve with the
/// sources fetched so far. The strategy is read first, then the sources are
/// counted, then the columns are resolved: the names of the list, or for
/// the wildcard the joined header of the two sources, for which the header
/// of the left source is read before the right source is asked for. A
/// selection without columns fails.
pub open spec fn resolution(
    groups: Seq<Option<Seq<char>>>,
    first: Option<Seq<u8>>,
    second: Option<Seq<u8>>,
) -> Resolution {
    if !has_operator_shape(groups) {
        Resolution::Failed(OperatorFailure::Unsupported)
    } else {
        let expr = trimmed(groups[1]->Some_0);
        let files = list_items(groups[2]->Some_0);
        let strategy = operator_strategy(groups[5]);
        if strategy is None {
            Resolution::Failed(OperatorFailure::UnknownStrategy(groups[5]->Some_0))
        } else if files.len() != 2 {
            Resolution::Failed(OperatorFailure::SourceCount)
        } else {
            let columns = if expr == "*"@ {
                wildcard_resolution(files[0], files[1], first, second)
            } else {
                Ok(list_items(expr))
            };
            match columns {
                Err(stage) => stage,
                Ok(columns) => if columns.len() == 0 {
                    Resolution::Failed(OperatorFailure::EmptyColumns)
                } else {
                    Resolution::Resolved(
                        OperatorCommandView {
                            columns,
                            file1: files[0],
                            file2: files[1],
                            join_type: kind_text(groups[3]->Some_0, groups[4]),
                            strategy: strategy->Some_0,
                        },
                    )
                },
            }
        }
    }
}

/// A stage of running a resolved operator command.
pub enum RunStage {
    /// The source at this path is to be fetched.
    Read(Seq<char>),
    /// The command is answered.
    Done(Result<Seq<u8>, OperatorFailure>),
}

/// How far a resolved operator command runs with the sources fetched so
/// far. A strategy other than the in-memory one and an unknown join kind
/// fail before any source is asked for; a left source that does not load is
/// reported before the right source is asked for.
pub open spec fn run_stage(
    command: OperatorCommandView,
    first: Option<Seq<u8>>,
    second: Option<Seq<u8>>,
) -> RunStage {
    if command.strategy != JoinStrategy::InMemory {
        RunStage::Done(Err(OperatorFailure::ProjectionStrategy))
    } else if join_type_named(uppercase_of(command.join_type)) is None {
        RunStage::Done(
            Err(OperatorFailure::UnknownJoinType(unknown_join_type_message(command.join_type))),
        )
    } else {
        match first {
            None => RunStage::Read(command.file1),
            Some(source1) => if !loads(csv_records(source1)) {
                RunStage::Done(
                    Err(
                        OperatorFailure::Source {
                            path: command.file1,
                            detail: load_error_text(source1),
                        },
                    ),
                )
            } else {
                match second {
                    None => RunStage::Read(command.file2),
                    Some(source2) => RunStage::Done(projection_outcome(command, source1, source2)),
                }
            },
        }
    }
}

/// What the capture groups of an operator command come to on the bytes of
/// its sources: the command is resolved and the projection join runs.
pub open spec fn operator_outcome(
    groups: Seq<Option<Seq<char>>>,
    source1: Seq<u8>,
    source2: Seq<u8>,
) -> Result<Seq<u8>, OperatorFailure> {
    match resolution(groups, Some(source1), Some(source2)) {
        Resolution::Resolved(command) => projection_outcome(command, source1, source2),
        Resolution::Failed(failure) => Err(failure),
        Resolution::Read(_) => Err(OperatorFailure::Unsupported),
    }
}

/// What an operator command comes to on the bytes of its sources.
pub open spec fn command_outcome(command: Seq<char>, source1: Seq<u8>, source2: Seq<u8>) -> Result<
    Seq<u8>,
    OperatorFailure,
> {
    if !pattern_compiles(operator_grammar_text()) {
        Err(OperatorFailure::Pattern(pattern_error(operator_grammar_text())))
    } else {
        match captures_of(operator_grammar_text(), trimmed(command)) {
            None => Err(OperatorFailure::Unsupported),
            Some(groups) => operator_outcome(groups, source1, source2),
        }
    }
}

/// How far an operator command resolves with the sources fetched so far.
pub open spec fn command_resolution(
    command: Seq<char>,
    first: Option<Seq<u8>>,
    second: Option<Seq<u8>>,
) -> Resolution {
    if !pattern_compiles(operator_grammar_text()) {
        Resolution::Failed(OperatorFailure::Pattern(pattern_error(operator_grammar_text())))
    } else {
        match captures_of(operator_grammar_text(), trimmed(command)) {
            None => Resolution::Failed(OperatorFailure::Unsupported),
            Some(groups) => resolution(groups, first, second),
        }
    }
}

/// With both sources at hand a command resolves or fails; and what
/// resolving answers with fewer sources is what it answers with both,
/// whatever the sources that were not yet fetched hold.
pub proof fn lemma_resolution_settles(
    groups: Seq<Option<Seq<char>>>,
    first: Option<Seq<u8>>,
    second: Option<Seq<u8>>,
    source1: Seq<u8>,
    source2: Seq<u8>,
)
    requires
        first is Some ==> first == Some(source1),
        first is Some && second is Some ==> second == Some(source2),
    ensures
        !(resolution(groups, Some(source1), Some(source2)) is Read),
        !(resolution(groups, first, second) is Read) ==> resolution(groups, first, second)
            == resolution(groups, Some(source1), Some(source2)),
{
}

/// What running answers with fewer than two sources is what the projection
/// join comes to, whatever the sources that were not yet fetched hold.
pub proof fn lemma_run_settles(
    command: OperatorCommandView,
    first: Option<Seq<u8>>,
    source1: Seq<u8>,
    source2: Seq<u8>,
)
    requires
        first is Some ==> first == Some(source1),
        run_stage(command, first, None) is Done,
    ensures
        run_stage(command, first, None) == RunStage::Done(
            projection_outcome(command, source1, source2),
        ),
{
}

/// A step of resolving an operator command.
#[derive(Debug, Clone, PartialEq, Eq)]
pub enum ResolveStep {
    /// The source at this path is to be fetched.
    Read(String),
    /// The command fails.
    Failed(OperatorError),
    /// The command is resolved.
    Resolved(OperatorCommand),
}

/// A step of running a resolved operator command.
#[derive(Debug, PartialEq, Eq)]
pub enum RunStep {
    /// The source at this path is to be fetched.
    Read(String),
    /// The command is answered.
    Done(Result<Vec<u8>, OperatorError>),
}

impl View for ResolveStep {
    type V = Resolution;

    open spec fn view(&self) -> Resolution {
        match *self {
            ResolveStep::Read(path) => Resolution::Read(path@),
            ResolveStep::Failed(e) => Resolution::Failed(e@),
            ResolveStep::Resolved(command) => Resolution::Resolved(command@),
        }
    }
}

/// Whether a step is the stage that was to come.
pub open spec fn is_run_stage(expected: RunStage, step: RunStep) -> bool {
    match expected {
        RunStage::Read(path) => step matches RunStep::Read(p) && p@ == path,
        RunStage::Done(result) => step matches RunStep::Done(r) && is_result(result, r),
    }
}

/// The failure to read the header of the source at `path`.
fn header_error(path: &str, detail: String) -> (r: ResolveStep)
    ensures
        r@ == Resolution::Failed(OperatorFailure::Source { path: path@, detail: detail@ }),
{
    ResolveStep::Failed(OperatorError::Source { path: path.to_owned(), detail })
}

/// Resolves the operator command that the capture groups stand for, as far
/// as the sources fetched so far allow. `second` is looked at only where
/// `first` is given.
pub fn resolve_groups(groups: &Vec<Option<String>>, first: Option<&[u8]>, second: Option<&[u8]>) -> (r:
    ResolveStep)
    ensures
        r@ == resolution(group_texts(groups@), fetched(first), fetched(second)),
{
    if groups.len() != 6 {
        return ResolveStep::Failed(OperatorError::Unsupported);
    }
    let columns_expr: &str = match &groups[1] {
        Some(s) => trim(s.as_str()),
        None => {
            return ResolveStep::Failed(OperatorError::Unsupported);
        },
    };
    let files_str: &str = match &groups[2] {
        Some(s) => s.as_str(),
        None => {
            return ResolveStep::Failed(OperatorError::Unsupported);
        },
    };
    let join_type: String = match &groups[3] {
        Some(s) => join_kind_text(s.as_str(), &groups[4]),
        None => {
            return ResolveStep::Failed(OperatorError::Unsupported);
        },
    };
    let strategy = match &groups[5] {
        Some(s) => match JoinStrategy::from_str(s.as_str()) {
            Some(strategy) => strategy,
            None => {
                return ResolveStep::Failed(OperatorError::UnknownStrategy(s.clone()));
            },
        },
        None => JoinStrategy::OnlySmallest,
    };
    let files = trim_all(&split(files_str, ','));
    if files.len() != 2 {
        return ResolveStep::Failed(OperatorError::SourceCount);
    }
    let file1: &str = files[0].as_str();
    let file2: &str = files[1].as_str();
    let columns: Vec<String> = if same_text(columns_expr, "*") {
        let source1 = match first {
            Some(bytes) => bytes,
            None => {
                return ResolveStep::Read(file1.to_owned());
            },
        };
        let headers1 = match read_headers(source1) {
            Ok(headers) => headers,
            Err(detail) => {
                return header_error(file1, detail);
            },
        };
        let source2 = match second {
            Some(bytes) => bytes,
            None => {
                return ResolveStep::Read(file2.to_owned());
            },
        };
        let headers2 = match read_headers(source2) {
            Ok(headers) => headers,
            Err(detail) => {
                return header_error(file2, detail);
            },
        };
        if headers2.len() == 0 {
            return ResolveStep::Failed(OperatorError::NoKeyColumn { path: file2.to_owned() });
        }
        proof {
            assert(texts(headers2@).len() == headers2@.len());
        }
        get_full_column_list(&headers1, &headers2)
    } else {
        trim_all(&split(columns_expr, ','))
    };
    if columns.len() == 0 {
        proof {
            assert(texts(columns@).len() == 0);
        }
        return ResolveStep::Failed(OperatorError::EmptyColumns);
    }
    proof {
        assert(texts(columns@).len() == columns@.len());
    }
    ResolveStep::Resolved(
        OperatorCommand {
            columns,
            file1: file1.to_owned(),
            file2: file2.to_owned(),
            join_type,
            strategy,
        },
    )
}

/// Resolves an operator command as far as the sources fetched so far
/// allow. Surrounding white space is ignored; a command that the grammar
/// does not match is unsupported.
pub fn resolve(command: &str, first: Option<&[u8]>, second: Option<&[u8]>) -> (r: ResolveStep)
    ensures
        r@ == command_resolution(command@, fetched(first), fetched(second)),
{
    let cmd = trim(command);
    match regex_captures(operator_grammar(), cmd) {
        Err(message) => ResolveStep::Failed(OperatorError::Pattern(message)),
        Ok(None) => ResolveStep::Failed(OperatorError::Unsupported),
        Ok(Some(groups)) => resolve_groups(&groups, first, second),
    }
}

/// Runs a resolved operator command as far as the sources fetched so far
/// allow: which source to fetch next, or the answer. `second` is looked at
/// only where `first` is given.
pub fn run_step(command: &OperatorCommand, first: Option<&[u8]>, second: Option<&[u8]>) -> (r:
    RunStep)
    ensures
        is_run_stage(run_stage(command@, fetched(first), fetched(second)), r),
{
    if command.strategy != JoinStrategy::InMemory {
        return RunStep::Done(Err(OperatorError::ProjectionStrategy));
    }
    match parse_join_type(command.join_type.as_str()) {
        Ok(_) => {},
        Err(text) => {
            return RunStep::Done(Err(OperatorError::UnknownJoinType(text)));
        },
    }
    let source1 = match first {
        Some(bytes) => bytes,
        None => {
            return RunStep::Read(command.file1.clone());
        },
    };
    match read_csv_to_map(source1) {
        Ok(_) => {},
        Err(e) => {
            return RunStep::Done(
                Err(OperatorError::Source { path: command.file1.clone(), detail: e.message() }),
            );
        },
    }
    let source2 = match second {
        Some(bytes) => bytes,
        None => {
            return RunStep::Read(command.file2.clone());
        },
    };
    RunStep::Done(
        run_hashjoin_with_projection(
            command.file1.as_str(),
            command.file2.as_str(),
            source1,
            source2,
            command.join_type.as_str(),
            command.strategy,
            &command.columns,
        ),
    )
}

/// Runs the operator command that the capture groups stand for.
pub fn execute_groups(groups: &Vec<Option<String>>, source1: &[u8], source2: &[u8]) -> (r: Result<
    Vec<u8>,
    OperatorError,
>)
    ensures
        is_result(operator_outcome(group_texts(groups@), source1@, source2@), r),
{
    match resolve_groups(groups, Some(source1), Some(source2)) {
        ResolveStep::Resolved(command) => run_hashjoin_with_projection(
            command.file1.as_str(),
            command.file2.as_str(),
            source1,
            source2,
            command.join_type.as_str(),
            command.strategy,
            &command.columns,
        ),
        ResolveStep::Failed(e) => Err(e),
        ResolveStep::Read(_) => Err(OperatorError::Unsupported),
    }
}

/// Executes an operator command on the bytes of its two sources and gives
/// the bytes of the result. Surrounding white space is ignored; a command
/// that the grammar does not match is unsupported.
pub fn execute(command: &str, source1: &[u8], source2: &[u8]) -> (r: Result<
    Vec<u8>,
    OperatorError,
>)
    ensures
        is_result(command_outcome(command@, source1@, source2@), r),
{
    let cmd = trim(command);
    match regex_captures(operator_grammar(), cmd) {
        Err(message) => Err(OperatorError::Pattern(message)),
        Ok(None) => Err(OperatorError::Unsupported),
        Ok(Some(groups)) => execute_groups(&groups, source1, source2),
    }
}

} // verus!
