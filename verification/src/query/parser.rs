//! The command parser.
//!
//! A command has the form
//! `SELECT <columns> FROM <file1>, <file2> HASHJOIN <kind> [OUTER] [<strategy>] [> [<output>]]`
//! with keywords in any case. Where one word follows the kind it is the
//! strategy, also where that word is `OUTER`.

use vstd::prelude::*;
use vstd::string::*;
use crate::hashjoin::strategy::{join_type_named, parse_join_type, unknown_join_type_message};
use crate::query::ast::{OutputTarget, OutputTargetView, SelectQuery, SelectQueryView};
use crate::text::{
    lemma_split_on,
    same_text,
    split,
    split_on,
    texts,
    trim,
    trimmed,
    uppercase_of,
};

verus! {

/// Whether the `regex` crate accepts a pattern.
pub uninterp spec fn pattern_compiles(pattern: Seq<char>) -> bool;

/// The capture groups of the leftmost match of a pattern in a text, as the
/// `regex` crate finds them: the whole match first, then every group of the
/// pattern in order, each with its text if it took part in the match.
/// Nothing where the pattern does not match.
pub uninterp spec fn captures_of(pattern: Seq<char>, text: Seq<char>) -> Option<
    Seq<Option<Seq<char>>>,
>;

/// The views of capture groups.
pub open spec fn group_texts(groups: Seq<Option<String>>) -> Seq<Option<Seq<char>>> {
    Seq::new(
        groups.len(),
        |i: int|
            match groups[i] {
                Some(s) => Some(s@),
                None => None,
            },
    )
}

/// The views of the result of a match.
pub open spec fn found_texts(found: Option<Vec<Option<String>>>) -> Option<
    Seq<Option<Seq<char>>>,
> {
    match found {
        Some(groups) => Some(group_texts(groups@)),
        None => None,
    }
}

/// The text with which the `regex` crate describes why it does not accept
/// a pattern.
pub uninterp spec fn pattern_error(pattern: Seq<char>) -> Seq<char>;

/// `regex::Regex::new` and `Regex::captures`: compiles the pattern and
/// matches it against the text; where the pattern is refused, the
/// `Display` text of the error comes back. Whether the pattern compiles,
/// which groups the match has and what the error says are fixed functions
/// of the two texts; the contract names them and claims nothing more.
#[verifier::external_body]
pub(crate) fn regex_captures(pattern: &str, text: &str) -> (out: Result<
    Option<Vec<Option<String>>>,
    String,
>)
    ensures
        match out {
            Ok(found) => pattern_compiles(pattern@) && found_texts(found) == captures_of(
                pattern@,
                text@,
            ),
            Err(message) => !pattern_compiles(pattern@) && message@ == pattern_error(pattern@),
        },
{
    let re = regex::Regex::new(pattern).map_err(|e| e.to_string())?;
    Ok(re.captures(text).map(|c| c.iter().map(|m| m.map(|x| x.as_str().to_string())).collect()))
}

/// Why a command could not be parsed.
#[derive(Debug, Clone, PartialEq, Eq)]
pub enum ParseError {
    /// The command does not have the form of a join command.
    Unsupported,
    /// The number of sources after `FROM` is not two.
    SourceCount,
    /// No column is selected.
    EmptyColumns,
    /// The join kind is none of the known ones; the text names it.
    UnknownJoinType(String),
    /// The grammar's pattern was not accepted; the text says why.
    Pattern(String),
}

/// What a parse failure holds.
pub enum ParseErrorView {
    Unsupported,
    SourceCount,
    EmptyColumns,
    UnknownJoinType(Seq<char>),
    Pattern(Seq<char>),
}

impl View for ParseError {
    type V = ParseErrorView;

    open spec fn view(&self) -> ParseErrorView {
        match *self {
            ParseError::Unsupported => ParseErrorView::Unsupported,
            ParseError::SourceCount => ParseErrorView::SourceCount,
            ParseError::EmptyColumns => ParseErrorView::EmptyColumns,
            ParseError::UnknownJoinType(text) => ParseErrorView::UnknownJoinType(text@),
            ParseError::Pattern(text) => ParseErrorView::Pattern(text@),
        }
    }
}

/// The text of each failure.
pub open spec fn parse_message_of(e: ParseErrorView) -> Seq<char> {
    match e {
        ParseErrorView::Unsupported => "Unsupported command"@,
        ParseErrorView::SourceCount => "Exactly two CSV files are required"@,
        ParseErrorView::EmptyColumns => "Column list cannot be empty"@,
        ParseErrorView::UnknownJoinType(text) => text,
        ParseErrorView::Pattern(text) => text,
    }
}

impl ParseError {
    /// A description of the failure for a human reader.
    pub fn message(&self) -> (r: String)
        ensures
            r@ == parse_message_of(self@),
    {
        match self {
            ParseError::Unsupported => String::from_str("Unsupported command"),
            ParseError::SourceCount => String::from_str("Exactly two CSV files are required"),
            ParseError::EmptyColumns => String::from_str("Column list cannot be empty"),
            ParseError::UnknownJoinType(text) => text.clone(),
            ParseError::Pattern(text) => text.clone(),
        }
    }
}

/// The grammar of a command as a pattern. Its groups are, in order: the
/// column list, the source list, the join kind, the word `OUTER` of a
/// two-word kind, the strategy and the output path. The word `OUTER` is
/// taken as part of the kind only where the command does not match
/// without that.
pub fn grammar() -> (r: &'static str)
    ensures
        r@ == grammar_text(),
{
    r"(?ix)
        ^\s*
        select \s+ (?P<columns>.+?)
        \s+ from \s+ (?P<files>[^,]+(?:\s*,\s*[^,]+)*)
        \s+ hashjoin \s+ (?P<join_type>\w+)
        (?: \s+ (?P<outer>outer) )??
        (?: \s+ (?P<strategy>\w+) )?
        (?: \s* > \s* (?P<output>.*) )?
        \s*$
        "
}

/// The text of the grammar's pattern.
pub closed spec fn grammar_text() -> Seq<char> {
    r"(?ix)
        ^\s*
        select \s+ (?P<columns>.+?)
        \s+ from \s+ (?P<files>[^,]+(?:\s*,\s*[^,]+)*)
        \s+ hashjoin \s+ (?P<join_type>\w+)
        (?: \s+ (?P<outer>outer) )??
        (?: \s+ (?P<strategy>\w+) )?
        (?: \s* > \s* (?P<output>.*) )?
        \s*$
        "@
}

/// The strategy of a command that names none.
pub open spec fn default_strategy() -> Seq<char> {
    "only_smallest"@
}

/// The output file of a command without an output clause, and the file
/// name that is put into an output directory.
pub open spec fn default_output() -> Seq<char> {
    "result.csv"@
}

/// Each text without its leading and trailing white space.
pub open spec fn all_trimmed(pieces: Seq<Seq<char>>) -> Seq<Seq<char>> {
    Seq::new(pieces.len(), |i: int| trimmed(pieces[i]))
}

/// The names of a comma-separated list, each without surrounding white
/// space.
pub open spec fn list_items(list: Seq<char>) -> Seq<Seq<char>> {
    all_trimmed(split_on(list, ','))
}

/// The columns that a column expression selects: the wildcard alone, or
/// the names of the list.
pub open spec fn columns_of(expr: Seq<char>) -> Seq<Seq<char>> {
    if expr == "*"@ {
        seq!["*"@]
    } else {
        list_items(expr)
    }
}

/// A column expression always selects at least one column, so that the
/// check for an empty selection never fails a command.
pub proof fn lemma_columns_of_nonempty(expr: Seq<char>)
    ensures
        columns_of(expr).len() >= 1,
{
    lemma_split_on(expr, ',');
}

/// Whether a path ends in a directory separator.
pub open spec fn is_directory(path: Seq<char>) -> bool {
    path.len() > 0 && (path.last() == '/' || path.last() == '\\')
}

/// The output target of an output clause: no clause means the default
/// file, a clause without a path the standard output, a directory the
/// default file name inside it, and any other path that file.
pub open spec fn output_of(clause: Option<Seq<char>>) -> OutputTargetView {
    match clause {
        None => OutputTargetView::File(default_output()),
        Some(raw) => {
            let path = trimmed(raw);
            if path.len() == 0 {
                OutputTargetView::Stdout
            } else if is_directory(path) {
                OutputTargetView::File(path + default_output())
            } else {
                OutputTargetView::File(path)
            }
        },
    }
}

/// Whether capture groups have the shape of the grammar's: seven of them,
/// with the column list, the source list and the join kind present.
pub open spec fn has_command_shape(groups: Seq<Option<Seq<char>>>) -> bool {
    groups.len() == 7 && groups[1] is Some && groups[2] is Some && groups[3] is Some
}

/// The join kind as the command wrote it: the kind's word, followed by a
/// space and the word `OUTER` where the command has it.
pub open spec fn kind_text(word: Seq<char>, outer: Option<Seq<char>>) -> Seq<char> {
    match outer {
        Some(o) => trimmed(word) + " "@ + o,
        None => trimmed(word),
    }
}

/// The query that the capture groups of a command stand for, or the reason
/// why they stand for none. The number of sources is checked first, then
/// the column list, then the join kind.
pub open spec fn query_of(groups: Seq<Option<Seq<char>>>) -> Result<
    SelectQueryView,
    ParseErrorView,
> {
    if !has_command_shape(groups) {
        Err(ParseErrorView::Unsupported)
    } else {
        let columns = columns_of(trimmed(groups[1]->Some_0));
        let files = list_items(groups[2]->Some_0);
        let kind = kind_text(groups[3]->Some_0, groups[4]);
        if files.len() != 2 {
            Err(ParseErrorView::SourceCount)
        } else if columns.len() == 0 {
            Err(ParseErrorView::EmptyColumns)
        } else {
            match join_type_named(uppercase_of(kind)) {
                None => Err(ParseErrorView::UnknownJoinType(unknown_join_type_message(kind))),
                Some(join_type) => Ok(
                    SelectQueryView {
                        columns,
                        file1: files[0],
                        file2: files[1],
                        join_type,
                        strategy_name: match groups[5] {
                            Some(name) => name,
                            None => default_strategy(),
                        },
                        output: output_of(groups[6]),
                    },
                ),
            }
        }
    }
}

/// Trims every text of a list.
pub fn trim_all(pieces: &Vec<String>) -> (r: Vec<String>)
    ensures
        texts(r@) == all_trimmed(texts(pieces@)),
{
    let mut out: Vec<String> = Vec::new();
    let mut i: usize = 0;
    while i < pieces.len()
        invariant
            i <= pieces.len(),
            out@.len() == i,
            forall|j: int| 0 <= j < i ==> (#[trigger] out@[j])@ == trimmed(pieces@[j]@),
        decreases pieces.len() - i,
    {
        out.push(trim(pieces[i].as_str()).to_owned());
        i = i + 1;
    }
    proof {
        assert(texts(out@) =~= all_trimmed(texts(pieces@)));
    }
    out
}

/// Reads the output target from an output clause.
pub fn parse_output(clause: Option<&str>) -> (r: OutputTarget)
    ensures
        r@ == output_of(
            match clause {
                Some(raw) => Some(raw@),
                None => None,
            },
        ),
{
    match clause {
        None => OutputTarget::File(String::from_str("result.csv")),
        Some(raw) => {
            let path = trim(raw);
            let n: usize = path.unicode_len();
            if n == 0 {
                OutputTarget::Stdout
            } else {
                let last = path.get_char(n - 1);
                if last == '/' || last == '\\' {
                    OutputTarget::File(path.to_owned().concat("result.csv"))
                } else {
                    OutputTarget::File(path.to_owned())
                }
            }
        },
    }
}

/// The join kind as the command wrote it, from the kind's word and the
/// word `OUTER` where the command has it.
pub fn join_kind_text(word: &str, outer: &Option<String>) -> (r: String)
    ensures
        r@ == kind_text(
            word@,
            match *outer {
                Some(o) => Some(o@),
                None => None,
            },
        ),
{
    match outer {
        Some(o) => trim(word).to_owned().concat(" ").concat(o.as_str()),
        None => trim(word).to_owned(),
    }
}

/// Builds the query from the capture groups of a command.
pub fn build_query(groups: &Vec<Option<String>>) -> (r: Result<SelectQuery, ParseError>)
    ensures
        match query_of(group_texts(groups@)) {
            Ok(q) => r is Ok && r->Ok_0@ == q,
            Err(e) => r is Err && r->Err_0@ == e,
        },
{
    if groups.len() != 7 {
        return Err(ParseError::Unsupported);
    }
    let columns_expr: &str = match &groups[1] {
        Some(s) => trim(s.as_str()),
        None => {
            return Err(ParseError::Unsupported);
        },
    };
    let files_str: &str = match &groups[2] {
        Some(s) => s.as_str(),
        None => {
            return Err(ParseError::Unsupported);
        },
    };
    let join_type_str: String = match &groups[3] {
        Some(s) => join_kind_text(s.as_str(), &groups[4]),
        None => {
            return Err(ParseError::Unsupported);
        },
    };
    let strategy_name: String = match &groups[5] {
        Some(s) => s.clone(),
        None => String::from_str("only_smallest"),
    };
    let files = trim_all(&split(files_str, ','));
    if files.len() != 2 {
        return Err(ParseError::SourceCount);
    }
    let selected_columns: Vec<String> = if same_text(columns_expr, "*") {
        let mut only: Vec<String> = Vec::new();
        only.push(String::from_str("*"));
        proof {
            assert(texts(only@) =~= seq!["*"@]);
        }
        only
    } else {
        trim_all(&split(columns_expr, ','))
    };
    if selected_columns.len() == 0 {
        return Err(ParseError::EmptyColumns);
    }
    let join_type = match parse_join_type(join_type_str.as_str()) {
        Ok(t) => t,
        Err(text) => {
            return Err(ParseError::UnknownJoinType(text));
        },
    };
    let output = match &groups[6] {
        Some(s) => parse_output(Some(s.as_str())),
        None => parse_output(None),
    };
    Ok(
        SelectQuery {
            columns: selected_columns,
            file1: files[0].clone(),
            file2: files[1].clone(),
            join_type,
            strategy_name,
            output,
        },
    )
}

/// Parses a command. Surrounding white space is ignored. A command that
/// the grammar does not match is unsupported; one that it matches is read
/// from the grammar's capture groups.
pub fn parse_command(command: &str) -> (r: Result<SelectQuery, ParseError>)
    ensures
        if !pattern_compiles(grammar_text()) {
            r is Err && r->Err_0@ == ParseErrorView::Pattern(pattern_error(grammar_text()))
        } else {
            match captures_of(grammar_text(), trimmed(command@)) {
                None => r is Err && r->Err_0@ == ParseErrorView::Unsupported,
                Some(groups) => match query_of(groups) {
                    Ok(q) => r is Ok && r->Ok_0@ == q,
                    Err(e) => r is Err && r->Err_0@ == e,
                },
            }
        },
{
    let cmd = trim(command);
    match regex_captures(grammar(), cmd) {
        Err(message) => Err(ParseError::Pattern(message)),
        Ok(None) => Err(ParseError::Unsupported),
        Ok(Some(groups)) => build_query(&groups),
    }
}

} // verus!
