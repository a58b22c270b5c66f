//! The in-memory hash join: both sources are held as keyed tables, the
//! candidate keys follow from the join kind, and every candidate key gives
//! one row of the joined shape, from which the selected columns are read.

use vstd::prelude::*;
use vstd::string::*;
use vstd::hash_map::StringHashMap;
use crate::hashjoin::error::{is_outcome, ExecError, ExecFailure};
use crate::hashjoin::strategy::JoinType;
use crate::hashjoin::table::{
    clone_row,
    collapse,
    has_key,
    key_of,
    keys_of,
    lookup,
    row_key,
    rows_of,
    Table,
};
use crate::query::ast::SelectQuery;
use crate::storage::csv_reader::{csv_records, load_error_text, loads, read_csv_to_map};
use crate::storage::csv_writer::{csv_text, write_rows};
use crate::text::{same_text, texts};

verus! {

/// A record without its first field; the empty record stays empty.
pub open spec fn tail(s: Seq<Seq<char>>) -> Seq<Seq<char>> {
    if s.len() == 0 {
        s
    } else {
        s.subrange(1, s.len() as int)
    }
}

/// The column names of a joined row: the left header, then the right
/// header without its key column.
pub open spec fn full_headers(h1: Seq<Seq<char>>, h2: Seq<Seq<char>>) -> Seq<Seq<char>> {
    h1 + tail(h2)
}

/// `n` empty fields.
pub open spec fn blanks(n: nat) -> Seq<Seq<char>> {
    Seq::new(n, |i: int| Seq::<char>::empty())
}

/// Whether a column list is the wildcard selection.
pub open spec fn is_wildcard(columns: Seq<Seq<char>>) -> bool {
    columns.len() == 1 && columns[0] == "*"@
}

/// Whether `i` is the first position at which `name` stands in `names`.
pub open spec fn is_first_position(names: Seq<Seq<char>>, name: Seq<char>, i: int) -> bool {
    &&& 0 <= i < names.len()
    &&& names[i] == name
    &&& forall|j: int| 0 <= j < i ==> names[j] != name
}

/// The first position at which `name` stands in `names`; meaningful where
/// `names` contains it.
pub open spec fn first_position(names: Seq<Seq<char>>, name: Seq<char>) -> int {
    choose|i: int| is_first_position(names, name, i)
}

/// The column index of a join: every name of the joined shape, with the
/// first position at which it stands. A name that both sources declare
/// therefore leads to the left source's column.
pub open spec fn column_index(h1: Seq<Seq<char>>, h2: Seq<Seq<char>>) -> Map<Seq<char>, int> {
    let full = full_headers(h1, h2);
    Map::new(|name: Seq<char>| full.contains(name), |name: Seq<char>| first_position(full, name))
}

/// The positions that a stored index holds, as numbers.
pub open spec fn positions(index: Map<Seq<char>, usize>) -> Map<Seq<char>, int> {
    Map::new(|name: Seq<char>| index.contains_key(name), |name: Seq<char>| index[name] as int)
}

/// The field that a column name selects from a joined row: the field at
/// the name's position, or the empty text where the index has no entry for
/// the name or the row is too short.
pub open spec fn cell(index: Map<Seq<char>, int>, row: Seq<Seq<char>>, name: Seq<char>) -> Seq<
    char,
> {
    if index.contains_key(name) && 0 <= index[name] < row.len() {
        row[index[name]]
    } else {
        Seq::<char>::empty()
    }
}

/// The selected columns of a joined row, in the order of selection.
pub open spec fn projected(
    columns: Seq<Seq<char>>,
    index: Map<Seq<char>, int>,
    row: Seq<Seq<char>>,
) -> Seq<Seq<char>> {
    Seq::new(columns.len(), |c: int| cell(index, row, columns[c]))
}

/// The joined row for one key: the left record, or `left_width` empty
/// fields where the left table lacks the key, followed by the right record
/// without its key, or `right_width - 1` empty fields where the right table
/// lacks the key.
pub open spec fn joined_row(
    left_width: nat,
    right_width: nat,
    l: Option<Seq<Seq<char>>>,
    r: Option<Seq<Seq<char>>>,
) -> Seq<Seq<char>> {
    let left_part = match l {
        Some(x) => x,
        None => blanks(left_width),
    };
    let right_part = match r {
        Some(y) => tail(y),
        None => blanks((right_width - 1) as nat),
    };
    left_part + right_part
}

/// The keys of `source` that `other` holds (`present`) or lacks (not
/// `present`), in the order of `source`.
pub open spec fn keys_with(
    source: Seq<Seq<Seq<char>>>,
    other: Seq<Seq<Seq<char>>>,
    present: bool,
) -> Seq<Seq<char>> {
    keys_of(source).filter(|k: Seq<char>| has_key(other, k) == present)
}

/// The keys that a join of the given kind produces a row for: the keys of
/// both tables for an inner join, of the left table for a left join, of the
/// right table for a right join, and of either table for a full join (the
/// left table's keys first, then those only the right table has).
pub open spec fn candidate_keys(
    kind: JoinType,
    left: Seq<Seq<Seq<char>>>,
    right: Seq<Seq<Seq<char>>>,
) -> Seq<Seq<char>> {
    match kind {
        JoinType::Inner => keys_with(left, right, true),
        JoinType::Left => keys_of(left),
        JoinType::Right => keys_of(right),
        JoinType::Full => keys_of(left) + keys_with(right, left, false),
    }
}

/// The first selected column that is not among the known names, if there
/// is one.
pub open spec fn first_missing(columns: Seq<Seq<char>>, known: Set<Seq<char>>) -> Option<
    Seq<char>,
>
    decreases columns.len(),
{
    if columns.len() == 0 {
        None
    } else if !known.contains(columns[0]) {
        Some(columns[0])
    } else {
        first_missing(columns.drop_first(), known)
    }
}

/// The columns that a selection stands for: the whole joined shape for the
/// wildcard, the selection itself otherwise.
pub open spec fn selected_columns(
    columns: Seq<Seq<char>>,
    h1: Seq<Seq<char>>,
    h2: Seq<Seq<char>>,
) -> Seq<Seq<char>> {
    if is_wildcard(columns) {
        full_headers(h1, h2)
    } else {
        columns
    }
}

/// The data rows of a join: one per candidate key, in their order.
pub open spec fn data_rows(
    kind: JoinType,
    selected: Seq<Seq<char>>,
    h1: Seq<Seq<char>>,
    rows1: Seq<Seq<Seq<char>>>,
    h2: Seq<Seq<char>>,
    rows2: Seq<Seq<Seq<char>>>,
) -> Seq<Seq<Seq<char>>> {
    let keys = candidate_keys(kind, rows1, rows2);
    Seq::new(
        keys.len(),
        |j: int|
            projected(
                selected,
                column_index(h1, h2),
                joined_row(h1.len(), h2.len(), lookup(rows1, keys[j]), lookup(rows2, keys[j])),
            ),
    )
}

/// The header row of the selected columns followed by the data rows.
pub open spec fn output_rows(
    kind: JoinType,
    selected: Seq<Seq<char>>,
    h1: Seq<Seq<char>>,
    rows1: Seq<Seq<Seq<char>>>,
    h2: Seq<Seq<char>>,
    rows2: Seq<Seq<Seq<char>>>,
) -> Seq<Seq<Seq<char>>> {
    seq![selected] + data_rows(kind, selected, h1, rows1, h2, rows2)
}

/// The result of a join: the header row followed by the data rows, or the
/// first selected name that neither source declares. The wildcard selection
/// is never refused.
pub open spec fn join_result(
    kind: JoinType,
    columns: Seq<Seq<char>>,
    h1: Seq<Seq<char>>,
    rows1: Seq<Seq<Seq<char>>>,
    h2: Seq<Seq<char>>,
    rows2: Seq<Seq<Seq<char>>>,
) -> Result<Seq<Seq<Seq<char>>>, Seq<char>> {
    let selected = selected_columns(columns, h1, h2);
    let missing = first_missing(columns, column_index(h1, h2).dom());
    if !is_wildcard(columns) && missing is Some {
        Err(missing->Some_0)
    } else {
        Ok(output_rows(kind, selected, h1, rows1, h2, rows2))
    }
}

/// The fields of one record followed by those of another without its first.
pub fn join_fields(headers1: &Vec<String>, headers2: &Vec<String>) -> (r: Vec<String>)
    ensures
        texts(r@) == full_headers(texts(headers1@), texts(headers2@)),
{
    let mut full = clone_row(headers1);
    if headers2.len() == 0 {
        proof {
            assert(texts(full@) =~= texts(headers1@) + tail(texts(headers2@)));
        }
        return full;
    }
    let mut i: usize = 1;
    proof {
        assert(texts(full@) =~= texts(headers1@) + texts(headers2@).subrange(1, 1));
    }
    while i < headers2.len()
        invariant
            1 <= i <= headers2@.len(),
            texts(full@) == texts(headers1@) + texts(headers2@).subrange(1, i as int),
        decreases headers2.len() - i,
    {
        let ghost before = texts(full@);
        let name = headers2[i].clone();
        full.push(name);
        proof {
            assert(texts(full@) =~= before.push(name@));
            assert(texts(headers2@).subrange(1, i + 1) =~= texts(headers2@).subrange(
                1,
                i as int,
            ).push(name@));
            assert(texts(full@) =~= texts(headers1@) + texts(headers2@).subrange(1, i + 1));
        }
        i = i + 1;
    }
    full
}

/// The column names of a joined row: the left header followed by the right
/// header without its first name. For headers of `m` and `n >= 1` names
/// these are `m + n - 1` names.
pub fn get_full_column_list(headers1: &Vec<String>, headers2: &Vec<String>) -> (r: Vec<String>)
    ensures
        texts(r@) == full_headers(texts(headers1@), texts(headers2@)),
        headers2@.len() >= 1 ==> r@.len() == headers1@.len() + headers2@.len() - 1,
{
    let full = join_fields(headers1, headers2);
    proof {
        assert(texts(full@).len() == full@.len());
        assert(texts(headers1@).len() == headers1@.len());
        assert(texts(headers2@).len() == headers2@.len());
    }
    full
}

/// Builds the column index of a join: every name of the joined shape is
/// entered with its position unless an earlier position already holds the
/// name, so that the left source's column wins over a right column of the
/// same name.
pub fn build_column_index(headers1: &Vec<String>, headers2: &Vec<String>) -> (r: StringHashMap<
    usize,
>)
    ensures
        positions(r@) == column_index(texts(headers1@), texts(headers2@)),
{
    let full = join_fields(headers1, headers2);
    let ghost names = texts(full@);
    let mut index: StringHashMap<usize> = StringHashMap::new();
    let mut i: usize = 0;
    while i < full.len()
        invariant
            i <= full.len(),
            names == texts(full@),
            forall|name: Seq<char>| #[trigger]
                index@.contains_key(name) ==> index@[name] < i && is_first_position(
                    names,
                    name,
                    index@[name] as int,
                ),
            forall|j: int| 0 <= j < i ==> index@.contains_key(#[trigger] names[j]),
        decreases full.len() - i,
    {
        if !index.contains_key(full[i].as_str()) {
            index.insert(full[i].clone(), i);
        }
        i = i + 1;
    }
    proof {
        let target = column_index(texts(headers1@), texts(headers2@));
        assert forall|name: Seq<char>| index@.contains_key(name) == target.contains_key(
            name,
        ) by {
            if names.contains(name) {
                let j = choose|j: int| 0 <= j < names.len() && names[j] == name;
                assert(index@.contains_key(names[j]));
            }
        }
        assert forall|name: Seq<char>| index@.contains_key(name) implies index@[name] as int
            == target[name] by {
            let p = index@[name] as int;
            assert(is_first_position(names, name, p));
            let q = first_position(names, name);
            assert(is_first_position(names, name, q));
            assert(p == q);
        }
        assert(positions(index@) =~= target);
    }
    index
}

/// Reads the selected columns from a joined row. A name without an entry
/// in the index, or with a position beyond the row, gives an empty field.
pub fn project(columns: &Vec<String>, index: &StringHashMap<usize>, full_row: &Vec<String>) -> (r:
    Vec<String>)
    ensures
        texts(r@) == projected(texts(columns@), positions(index@), texts(full_row@)),
{
    let mut out: Vec<String> = Vec::new();
    let mut c: usize = 0;
    while c < columns.len()
        invariant
            c <= columns.len(),
            out@.len() == c,
            forall|j: int|
                0 <= j < c ==> (#[trigger] out@[j])@ == cell(
                    positions(index@),
                    texts(full_row@),
                    columns@[j]@,
                ),
        decreases columns.len() - c,
    {
        let value = match index.get(columns[c].as_str()) {
            Some(p) => {
                if *p < full_row.len() {
                    full_row[*p].clone()
                } else {
                    String::new()
                }
            },
            None => String::new(),
        };
        out.push(value);
        c = c + 1;
    }
    proof {
        assert(texts(out@) =~= projected(texts(columns@), positions(index@), texts(full_row@)));
    }
    out
}

/// Appends `n` empty fields to a record.
pub fn with_blanks(row: Vec<String>, n: usize) -> (r: Vec<String>)
    ensures
        texts(r@) == texts(row@) + blanks(n as nat),
{
    let mut out = row;
    let mut i: usize = 0;
    proof {
        assert(texts(out@) =~= texts(row@) + blanks(0));
    }
    while i < n
        invariant
            i <= n,
            texts(out@) == texts(row@) + blanks(i as nat),
        decreases n - i,
    {
        let ghost before = texts(out@);
        let blank = String::new();
        out.push(blank);
        proof {
            assert(texts(out@) =~= before.push(blank@));
            assert(before.push(blank@) =~= texts(row@) + blanks((i + 1) as nat));
        }
        i = i + 1;
    }
    out
}

/// The joined row for a key: each side's record where the table holds the
/// key, and empty fields of the side's width where it does not.
pub fn resolve_row(left: &Table, right: &Table, key: &str) -> (r: Vec<String>)
    requires
        left.wf(),
        right.wf(),
        right.headers_view().len() >= 1,
    ensures
        texts(r@) == joined_row(
            left.headers_view().len(),
            right.headers_view().len(),
            lookup(left.rows_view(), key@),
            lookup(right.rows_view(), key@),
        ),
{
    let left_width: usize = left.column_names().len();
    let right_width: usize = right.column_names().len();
    let left_part: Vec<String> = match left.get(key) {
        Some(row) => clone_row(row),
        None => {
            let pad = with_blanks(Vec::new(), left_width);
            proof {
                assert(texts(Seq::<String>::empty()) + blanks(left_width as nat) =~= blanks(
                    left_width as nat,
                ));
            }
            pad
        },
    };
    match right.get(key) {
        Some(row) => join_fields(&left_part, row),
        None => with_blanks(left_part, right_width - 1),
    }
}

/// The keys of a table, in the order of its records.
pub fn table_keys(t: &Table) -> (r: Vec<String>)
    ensures
        texts(r@) == keys_of(t.rows_view()),
{
    let mut out: Vec<String> = Vec::new();
    let mut i: usize = 0;
    while i < t.len()
        invariant
            i <= t.rows_view().len(),
            out@.len() == i,
            forall|j: int| 0 <= j < i ==> (#[trigger] out@[j])@ == key_of(t.rows_view()[j]),
        decreases t.rows_view().len() - i,
    {
        out.push(row_key(t.row(i)));
        i = i + 1;
    }
    proof {
        assert(texts(out@) =~= keys_of(t.rows_view()));
    }
    out
}

/// The keys of `source` that `other` holds, or those that it lacks, in the
/// order of `source`.
pub fn table_keys_with(source: &Table, other: &Table, present: bool) -> (r: Vec<String>)
    requires
        other.wf(),
    ensures
        texts(r@) == keys_with(source.rows_view(), other.rows_view(), present),
{
    let ghost keys = keys_of(source.rows_view());
    let ghost pred = |k: Seq<char>| has_key(other.rows_view(), k) == present;
    let mut out: Vec<String> = Vec::new();
    let mut i: usize = 0;
    proof {
        reveal(Seq::filter);
        assert(keys.take(0) =~= Seq::<Seq<char>>::empty());
        assert(texts(out@) =~= keys.take(0).filter(pred));
    }
    while i < source.len()
        invariant
            i <= source.rows_view().len(),
            other.wf(),
            keys == keys_of(source.rows_view()),
            pred == (|k: Seq<char>| has_key(other.rows_view(), k) == present),
            texts(out@) == keys.take(i as int).filter(pred),
        decreases source.rows_view().len() - i,
    {
        let key = row_key(source.row(i));
        let ghost before = texts(out@);
        proof {
            assert(keys.take(i + 1) =~= keys.take(i as int).push(key@));
            keys.take(i as int).lemma_filter_push(key@, pred);
        }
        if other.contains_key(key.as_str()) == present {
            out.push(key);
            proof {
                assert(texts(out@) =~= before.push(key@));
            }
        }
        i = i + 1;
    }
    proof {
        assert(keys.take(i as int) =~= keys);
    }
    out
}

/// The keys that a join of the given kind produces a row for.
pub fn candidate_key_list(kind: JoinType, left: &Table, right: &Table) -> (r: Vec<String>)
    requires
        left.wf(),
        right.wf(),
    ensures
        texts(r@) == candidate_keys(kind, left.rows_view(), right.rows_view()),
{
    match kind {
        JoinType::Inner => table_keys_with(left, right, true),
        JoinType::Left => table_keys(left),
        JoinType::Right => table_keys(right),
        JoinType::Full => {
            let mut keys = table_keys(left);
            let mut rest = table_keys_with(right, left, false);
            let ghost first = texts(keys@);
            let ghost second = texts(rest@);
            keys.append(&mut rest);
            proof {
                assert(texts(keys@) =~= first + second);
            }
            keys
        },
    }
}

/// The position of the first selected column that the index does not
/// know, if there is one.
pub fn find_missing(columns: &Vec<String>, index: &StringHashMap<usize>) -> (r: Option<usize>)
    ensures
        match r {
            Some(c) => c < columns@.len() && first_missing(
                texts(columns@),
                positions(index@).dom(),
            ) == Some(columns@[c as int]@),
            None => first_missing(texts(columns@), positions(index@).dom()) is None,
        },
{
    let ghost names = texts(columns@);
    let ghost known = positions(index@).dom();
    let mut c: usize = 0;
    proof {
        assert(names.subrange(0, names.len() as int) =~= names);
    }
    while c < columns.len()
        invariant
            c <= columns.len(),
            names == texts(columns@),
            known == positions(index@).dom(),
            first_missing(names, known) == first_missing(
                names.subrange(c as int, names.len() as int),
                known,
            ),
        decreases columns.len() - c,
    {
        proof {
            let rest = names.subrange(c as int, names.len() as int);
            assert(rest[0] == columns@[c as int]@);
            assert(rest.drop_first() =~= names.subrange(c + 1, names.len() as int));
        }
        if !index.contains_key(columns[c].as_str()) {
            return Some(c);
        }
        c = c + 1;
    }
    None
}

/// The rows of a join of two sources given as bytes, or why there are
/// none: both sources are loaded, the left one first, then the right one
/// must have a key column, and then the selection is checked.
pub open spec fn joined(
    kind: JoinType,
    columns: Seq<Seq<char>>,
    file1: Seq<char>,
    file2: Seq<char>,
    source1: Seq<u8>,
    source2: Seq<u8>,
) -> Result<Seq<Seq<Seq<char>>>, ExecFailure> {
    if !loads(csv_records(source1)) {
        Err(ExecFailure::Source { path: file1, detail: load_error_text(source1) })
    } else if !loads(csv_records(source2)) {
        Err(ExecFailure::Source { path: file2, detail: load_error_text(source2) })
    } else {
        let (h1, records1) = csv_records(source1)->Some_0;
        let (h2, records2) = csv_records(source2)->Some_0;
        if h2.len() == 0 {
            Err(ExecFailure::NoKeyColumn { path: file2 })
        } else {
            match join_result(kind, columns, h1, collapse(records1), h2, collapse(records2)) {
                Ok(rows) => Ok(rows),
                Err(name) => Err(ExecFailure::UnknownColumn(name)),
            }
        }
    }
}

/// The bytes that executing a join on two sources gives, or its failure:
/// the rows of the join written as CSV text.
pub open spec fn executed(
    kind: JoinType,
    columns: Seq<Seq<char>>,
    file1: Seq<char>,
    file2: Seq<char>,
    source1: Seq<u8>,
    source2: Seq<u8>,
) -> Result<Seq<u8>, ExecFailure> {
    match joined(kind, columns, file1, file2, source1, source2) {
        Err(failure) => Err(failure),
        Ok(rows) => match csv_text(rows) {
            Ok(bytes) => Ok(bytes),
            Err(detail) => Err(ExecFailure::Output { detail }),
        },
    }
}

/// Loads the source at `path` from its bytes.
pub fn load_source(path: &String, data: &[u8]) -> (r: Result<Table, ExecError>)
    ensures
        match r {
            Ok(table) => {
                &&& loads(csv_records(data@))
                &&& table.wf()
                &&& table.headers_view() == csv_records(data@)->Some_0.0
                &&& table.rows_view() == collapse(csv_records(data@)->Some_0.1)
            },
            Err(e) => !loads(csv_records(data@)) && e@ == (ExecFailure::Source {
                path: path@,
                detail: load_error_text(data@),
            }),
        },
{
    match read_csv_to_map(data) {
        Ok(table) => Ok(table),
        Err(e) => Err(ExecError::Source { path: path.clone(), detail: e.message() }),
    }
}

/// The header row of the selected columns and one row for every candidate
/// key of the join kind, read through the given column index.
pub fn join_rows(
    kind: JoinType,
    selected: &Vec<String>,
    index: &StringHashMap<usize>,
    left: &Table,
    right: &Table,
) -> (r: Vec<Vec<String>>)
    requires
        left.wf(),
        right.wf(),
        right.headers_view().len() >= 1,
        positions(index@) == column_index(left.headers_view(), right.headers_view()),
    ensures
        rows_of(r@) == output_rows(
            kind,
            texts(selected@),
            left.headers_view(),
            left.rows_view(),
            right.headers_view(),
            right.rows_view(),
        ),
{
    let ghost h1 = left.headers_view();
    let ghost h2 = right.headers_view();
    let ghost rows1 = left.rows_view();
    let ghost rows2 = right.rows_view();
    let keys = candidate_key_list(kind, left, right);
    let ghost wanted = data_rows(kind, texts(selected@), h1, rows1, h2, rows2);
    let mut out: Vec<Vec<String>> = Vec::new();
    out.push(clone_row(selected));
    let mut j: usize = 0;
    proof {
        assert(texts(keys@).len() == keys@.len());
    }
    while j < keys.len()
        invariant
            j <= keys@.len(),
            left.wf(),
            right.wf(),
            h1 == left.headers_view(),
            h2 == right.headers_view(),
            rows1 == left.rows_view(),
            rows2 == right.rows_view(),
            h2.len() >= 1,
            positions(index@) == column_index(h1, h2),
            texts(keys@) == candidate_keys(kind, rows1, rows2),
            wanted == data_rows(kind, texts(selected@), h1, rows1, h2, rows2),
            out@.len() == j + 1,
            texts(out@[0]@) == texts(selected@),
            forall|i: int| 0 <= i < j ==> texts((#[trigger] out@[i + 1])@) == wanted[i],
        decreases keys@.len() - j,
    {
        proof {
            assert(texts(keys@)[j as int] == keys@[j as int]@);
        }
        let full_row = resolve_row(left, right, keys[j].as_str());
        let row = project(selected, index, &full_row);
        out.push(row);
        j = j + 1;
    }
    proof {
        let target = seq![texts(selected@)] + wanted;
        assert(wanted.len() == keys@.len());
        assert(rows_of(out@).len() == target.len());
        assert forall|k: int| 0 <= k < target.len() implies rows_of(out@)[k] == target[k] by {
            if k > 0 {
                assert(texts(out@[(k - 1) + 1]@) == wanted[k - 1]);
            }
        }
        assert(rows_of(out@) =~= target);
    }
    out
}

/// The strategy that holds both sources in memory.
#[derive(Debug, Clone, Copy, PartialEq, Eq, Structural)]
pub struct InMemoryJoin;

impl InMemoryJoin {
    /// Joins two tables as the query asks: the header row of the selected
    /// columns, then one row for every candidate key of the join kind. An
    /// explicit selection is checked first, and the first name that neither
    /// table declares is reported instead of any row.
    pub fn join(&self, query: &SelectQuery, left: &Table, right: &Table) -> (r: Result<
        Vec<Vec<String>>,
        ExecError,
    >)
        requires
            left.wf(),
            right.wf(),
            right.headers_view().len() >= 1,
        ensures
            match join_result(
                query.join_type,
                texts(query.columns@),
                left.headers_view(),
                left.rows_view(),
                right.headers_view(),
                right.rows_view(),
            ) {
                Ok(rows) => r is Ok && rows_of(r->Ok_0@) == rows,
                Err(name) => r is Err && r->Err_0@ == ExecFailure::UnknownColumn(name),
            },
    {
        let index = build_column_index(left.column_names(), right.column_names());
        let wildcard = query.columns.len() == 1 && same_text(query.columns[0].as_str(), "*");
        proof {
            assert(wildcard == is_wildcard(texts(query.columns@)));
        }
        if wildcard {
            let selected = get_full_column_list(left.column_names(), right.column_names());
            Ok(join_rows(query.join_type, &selected, &index, left, right))
        } else {
            match find_missing(&query.columns, &index) {
                Some(c) => Err(ExecError::UnknownColumn(query.columns[c].clone())),
                None => Ok(join_rows(query.join_type, &query.columns, &index, left, right)),
            }
        }
    }

    /// Joins two loaded tables as the query asks and gives the result as
    /// CSV text. A right table without columns has no key to join on and is
    /// refused under the query's right source.
    pub fn join_tables(&self, query: &SelectQuery, left: &Table, right: &Table) -> (r: Result<
        Vec<u8>,
        ExecError,
    >)
        requires
            left.wf(),
            right.wf(),
        ensures
            is_outcome(
                if right.headers_view().len() == 0 {
                    Err(ExecFailure::NoKeyColumn { path: query.file2@ })
                } else {
                    match join_result(
                        query.join_type,
                        texts(query.columns@),
                        left.headers_view(),
                        left.rows_view(),
                        right.headers_view(),
                        right.rows_view(),
                    ) {
                        Err(name) => Err(ExecFailure::UnknownColumn(name)),
                        Ok(rows) => match csv_text(rows) {
                            Ok(bytes) => Ok(bytes),
                            Err(detail) => Err(ExecFailure::Output { detail }),
                        },
                    }
                },
                r,
            ),
    {
        if right.column_names().len() == 0 {
            return Err(ExecError::NoKeyColumn { path: query.file2.clone() });
        }
        let rows = match self.join(query, left, right) {
            Ok(rows) => rows,
            Err(e) => {
                return Err(e);
            },
        };
        match write_rows(&rows) {
            Ok(bytes) => Ok(bytes),
            Err(detail) => Err(ExecError::Output { detail }),
        }
    }

    /// Executes a query on the bytes of its two sources and gives the bytes
    /// of the result. Both sources are loaded before any row is produced,
    /// and a failure leaves no partial result: the left source is reported
    /// before the right one, a right source without columns before an
    /// unknown column, and an unknown column before any output.
    pub fn execute(&self, query: &SelectQuery, source1: &[u8], source2: &[u8]) -> (r: Result<
        Vec<u8>,
        ExecError,
    >)
        ensures
            is_outcome(
                executed(
                    query.join_type,
                    texts(query.columns@),
                    query.file1@,
                    query.file2@,
                    source1@,
                    source2@,
                ),
                r,
            ),
    {
        let left = match load_source(&query.file1, source1) {
            Ok(table) => table,
            Err(e) => {
                return Err(e);
            },
        };
        let right = match load_source(&query.file2, source2) {
            Ok(table) => table,
            Err(e) => {
                return Err(e);
            },
        };
        self.join_tables(query, &left, &right)
    }
}

} // verus!
