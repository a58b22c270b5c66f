//! What holds of every join: the shape of the joined header, the precedence
//! of the left source's columns, which keys a join of each kind answers,
//! and what loading keeps of records that share a key.

use vstd::prelude::*;
use crate::hashjoin::in_memory::{
    blanks,
    candidate_keys,
    cell,
    column_index,
    data_rows,
    first_missing,
    first_position,
    full_headers,
    is_first_position,
    is_wildcard,
    join_result,
    joined_row,
    keys_with,
    projected,
    selected_columns,
    tail,
};
use crate::hashjoin::strategy::JoinType;
use crate::hashjoin::table::{
    collapse,
    distinct_keys,
    has_key,
    key_of,
    keys_of,
    lookup,
    position_of,
    uniform,
};

verus! {

/// A filtered sequence holds exactly the elements of the sequence that
/// satisfy the predicate, and repeats none if the sequence repeats none.
pub proof fn lemma_filter_members<A>(s: Seq<A>, pred: spec_fn(A) -> bool)
    ensures
        forall|x: A| #[trigger] s.filter(pred).contains(x) <==> s.contains(x) && pred(x),
        s.no_duplicates() ==> s.filter(pred).no_duplicates(),
    decreases s.len(),
{
    reveal(Seq::filter);
    if s.len() > 0 {
        let rest = s.drop_last();
        let last = s.last();
        lemma_filter_members(rest, pred);
        let f = s.filter(pred);
        let fr = rest.filter(pred);
        assert forall|x: A| #[trigger] f.contains(x) <==> s.contains(x) && pred(x) by {
            if f.contains(x) {
                let i = choose|i: int| 0 <= i < f.len() && f[i] == x;
                if pred(last) && i == f.len() - 1 {
                    assert(s[s.len() - 1] == x);
                } else {
                    assert(fr[i] == x);
                    assert(fr.contains(x));
                    let j = choose|j: int| 0 <= j < rest.len() && rest[j] == x;
                    assert(s[j] == x);
                }
            }
            if s.contains(x) && pred(x) {
                let j = choose|j: int| 0 <= j < s.len() && s[j] == x;
                if j == s.len() - 1 {
                    assert(f[f.len() - 1] == x);
                } else {
                    assert(rest[j] == x);
                    assert(rest.contains(x));
                    assert(fr.contains(x));
                    let i = choose|i: int| 0 <= i < fr.len() && fr[i] == x;
                    assert(f[i] == x);
                }
            }
        }
        if s.no_duplicates() {
            assert(rest.no_duplicates());
            if pred(last) {
                assert forall|i: int, j: int| 0 <= i < f.len() && 0 <= j < f.len() && i != j implies f[i]
                    != f[j] by {
                    if i == f.len() - 1 || j == f.len() - 1 {
                        let other = if i == f.len() - 1 {
                            j
                        } else {
                            i
                        };
                        assert(fr[other] == f[other]);
                        assert(fr.contains(f[other]));
                        assert(rest.contains(f[other]));
                        let k = choose|k: int| 0 <= k < rest.len() && rest[k] == f[other];
                        assert(s[k] == f[other]);
                    }
                }
            }
        }
    }
}

/// A key stands among the keys of some records exactly when one of the
/// records carries it.
pub proof fn lemma_keys_contain(rows: Seq<Seq<Seq<char>>>, key: Seq<char>)
    ensures
        keys_of(rows).contains(key) <==> has_key(rows, key),
{
    if keys_of(rows).contains(key) {
        let i = choose|i: int| 0 <= i < keys_of(rows).len() && keys_of(rows)[i] == key;
        assert(key_of(rows[i]) == key);
    }
    if has_key(rows, key) {
        let i = position_of(rows, key);
        assert(key_of(rows[i]) == key);
        assert(keys_of(rows)[i] == key);
    }
}

/// Records with distinct keys have a key list without repetition.
pub proof fn lemma_keys_distinct(rows: Seq<Seq<Seq<char>>>)
    requires
        distinct_keys(rows),
    ensures
        keys_of(rows).no_duplicates(),
{
    assert forall|i: int, j: int|
        0 <= i < keys_of(rows).len() && 0 <= j < keys_of(rows).len() && i != j implies keys_of(
        rows,
    )[i] != keys_of(rows)[j] by {
        if i < j {
            assert(key_of(rows[i]) != key_of(rows[j]));
        } else {
            assert(key_of(rows[j]) != key_of(rows[i]));
        }
    }
}

/// Among records with distinct keys, the record under a key is the one
/// that carries it.
pub proof fn lemma_lookup_at(rows: Seq<Seq<Seq<char>>>, i: int)
    requires
        distinct_keys(rows),
        0 <= i < rows.len(),
    ensures
        lookup(rows, key_of(rows[i])) == Some(rows[i]),
{
    let key = key_of(rows[i]);
    assert(has_key(rows, key));
    let p = position_of(rows, key);
    assert(key_of(rows[p]) == key);
    if p < i {
        assert(key_of(rows[p]) != key_of(rows[i]));
    } else if i < p {
        assert(key_of(rows[i]) != key_of(rows[p]));
    }
}

/// Loading keeps one record per key: the kept records have distinct keys
/// and carry exactly the keys of the loaded records.
pub proof fn lemma_collapse_keys(records: Seq<Seq<Seq<char>>>)
    ensures
        distinct_keys(collapse(records)),
        forall|k: Seq<char>| has_key(collapse(records), k) <==> has_key(records, k),
    decreases records.len(),
{
    let kept = collapse(records);
    if records.len() == 0 {
        assert forall|k: Seq<char>| has_key(kept, k) <==> has_key(records, k) by {
            if has_key(records, k) {
                let i = position_of(records, k);
                assert(key_of(records[i]) == k);
            }
            if has_key(kept, k) {
                let i = position_of(kept, k);
                assert(key_of(kept[i]) == k);
            }
        }
    } else {
        let rest = records.drop_last();
        let before = collapse(rest);
        let r = records.last();
        lemma_collapse_keys(rest);
        if has_key(before, key_of(r)) {
            let p = position_of(before, key_of(r));
            assert(key_of(before[p]) == key_of(r));
            assert(kept == before.update(p, r));
            assert forall|i: int| 0 <= i < kept.len() implies key_of(#[trigger] kept[i]) == key_of(
                before[i],
            ) by {}
            assert forall|i: int, j: int| 0 <= i < j < kept.len() implies #[trigger] key_of(
                kept[i],
            ) != #[trigger] key_of(kept[j]) by {
                assert(key_of(before[i]) != key_of(before[j]));
            }
        } else {
            assert(kept == before.push(r));
            assert forall|i: int, j: int| 0 <= i < j < kept.len() implies #[trigger] key_of(
                kept[i],
            ) != #[trigger] key_of(kept[j]) by {
                if j == kept.len() - 1 {
                    assert(key_of(before[i]) != key_of(r));
                } else {
                    assert(key_of(before[i]) != key_of(before[j]));
                }
            }
        }
        assert forall|k: Seq<char>| has_key(kept, k) <==> has_key(records, k) by {
            if has_key(kept, k) {
                let i = position_of(kept, k);
                assert(key_of(kept[i]) == k);
                if k == key_of(r) {
                    assert(key_of(records[records.len() - 1]) == k);
                } else {
                    assert(key_of(before[i]) == k);
                    assert(has_key(before, k));
                    assert(has_key(rest, k));
                    let j = position_of(rest, k);
                    assert(key_of(rest[j]) == k);
                    assert(key_of(records[j]) == k);
                }
            }
            if has_key(records, k) {
                let j = position_of(records, k);
                assert(key_of(records[j]) == k);
                if j == records.len() - 1 {
                    if has_key(before, key_of(r)) {
                        let p = position_of(before, key_of(r));
                        assert(key_of(before[p]) == key_of(r));
                        assert(key_of(kept[p]) == k);
                    } else {
                        assert(key_of(kept[kept.len() - 1]) == k);
                    }
                } else {
                    assert(key_of(rest[j]) == k);
                    assert(has_key(rest, k));
                    assert(has_key(before, k));
                    let i = position_of(before, k);
                    assert(key_of(before[i]) == k);
                    assert(key_of(kept[i]) == k);
                }
            }
        }
    }
}

/// Loading keeps the width of the records.
pub proof fn lemma_collapse_uniform(records: Seq<Seq<Seq<char>>>, w: nat)
    requires
        uniform(w, records),
    ensures
        uniform(w, collapse(records)),
    decreases records.len(),
{
    let kept = collapse(records);
    if records.len() > 0 {
        let rest = records.drop_last();
        let before = collapse(rest);
        let r = records.last();
        assert(records[records.len() - 1].len() == w);
        assert forall|i: int| 0 <= i < rest.len() implies (#[trigger] rest[i]).len() == w by {
            assert(records[i].len() == w);
        }
        lemma_collapse_uniform(rest, w);
        assert forall|i: int| 0 <= i < kept.len() implies (#[trigger] kept[i]).len() == w by {
            if has_key(before, key_of(r)) {
                let p = position_of(before, key_of(r));
                assert(key_of(before[p]) == key_of(r));
                if i != p {
                    assert(before[i].len() == w);
                }
            } else {
                if i < before.len() {
                    assert(before[i].len() == w);
                }
            }
        }
    }
}

/// Of the records that share a key, only the last one loaded is kept: the
/// record under the key is the one after which no record carries that key.
pub proof fn lemma_collapse_keeps_last(records: Seq<Seq<Seq<char>>>, i: int)
    requires
        0 <= i < records.len(),
        forall|j: int| i < j < records.len() ==> key_of(#[trigger] records[j]) != key_of(records[i]),
    ensures
        lookup(collapse(records), key_of(records[i])) == Some(records[i]),
    decreases records.len(),
{
    let kept = collapse(records);
    let rest = records.drop_last();
    let before = collapse(rest);
    let r = records.last();
    let key = key_of(records[i]);
    lemma_collapse_keys(records);
    lemma_collapse_keys(rest);
    if i == records.len() - 1 {
        if has_key(before, key) {
            let p = position_of(before, key);
            assert(key_of(before[p]) == key);
            assert(kept[p] == r);
            lemma_lookup_at(kept, p);
        } else {
            assert(kept[kept.len() - 1] == r);
            lemma_lookup_at(kept, kept.len() - 1);
        }
    } else {
        assert(rest[i] == records[i]);
        assert forall|j: int| i < j < rest.len() implies key_of(#[trigger] rest[j]) != key_of(
            rest[i],
        ) by {
            assert(rest[j] == records[j]);
        }
        lemma_collapse_keeps_last(rest, i);
        assert(has_key(before, key));
        let p = position_of(before, key);
        assert(key_of(before[p]) == key);
        lemma_lookup_at(before, p);
        assert(before[p] == records[i]);
        assert(key_of(r) != key);
        if has_key(before, key_of(r)) {
            let q = position_of(before, key_of(r));
            assert(key_of(before[q]) == key_of(r));
            assert(kept[p] == before[p]);
        } else {
            assert(kept[p] == before[p]);
        }
        assert(key_of(kept[p]) == key);
        lemma_lookup_at(kept, p);
    }
}

/// A position that is the first of a name is the name's first position.
pub proof fn lemma_first_position(names: Seq<Seq<char>>, name: Seq<char>, i: int)
    requires
        is_first_position(names, name, i),
    ensures
        first_position(names, name) == i,
{
    let q = first_position(names, name);
    assert(is_first_position(names, name, q));
    if q < i {
        assert(names[q] != name);
    } else if i < q {
        assert(names[i] != name);
    }
}

/// A name that stands in a sequence has a first position there.
pub proof fn lemma_first_position_exists(names: Seq<Seq<char>>, name: Seq<char>)
    requires
        names.contains(name),
    ensures
        is_first_position(names, name, first_position(names, name)),
    decreases names.len(),
{
    let j = choose|j: int| 0 <= j < names.len() && names[j] == name;
    let rest = names.drop_last();
    if j < names.len() - 1 {
        assert(rest[j] == name);
        assert(rest.contains(name));
        lemma_first_position_exists(rest, name);
        let q = first_position(rest, name);
        assert(is_first_position(names, name, q)) by {
            assert(names[q] == rest[q]);
            assert forall|k: int| 0 <= k < q implies names[k] != name by {
                assert(rest[k] != name);
            }
        }
    } else if rest.contains(name) {
        lemma_first_position_exists(rest, name);
        let q = first_position(rest, name);
        assert(is_first_position(names, name, q)) by {
            assert(names[q] == rest[q]);
            assert forall|k: int| 0 <= k < q implies names[k] != name by {
                assert(rest[k] != name);
            }
        }
    } else {
        assert(is_first_position(names, name, names.len() - 1)) by {
            assert forall|k: int| 0 <= k < names.len() - 1 implies names[k] != name by {
                if names[k] == name {
                    assert(rest[k] == name);
                    assert(rest.contains(name));
                }
            }
        }
    }
}

/// The shape of the joined header: for a left header of `m` names and a
/// right header of `n >= 1` names it has `m + n - 1` names, the left
/// header's first and then the right header's without its first; and this
/// is what the wildcard selects.
pub proof fn lemma_header_shape(h1: Seq<Seq<char>>, h2: Seq<Seq<char>>)
    requires
        h2.len() >= 1,
    ensures
        full_headers(h1, h2).len() == h1.len() + h2.len() - 1,
        forall|i: int| 0 <= i < h1.len() ==> full_headers(h1, h2)[i] == h1[i],
        forall|j: int| 1 <= j < h2.len() ==> full_headers(h1, h2)[h1.len() + j - 1] == h2[j],
        selected_columns(seq!["*"@], h1, h2) == full_headers(h1, h2),
{
}

/// The left source's column wins: a name that the left header declares
/// stands in the index at its first position in the left header, whatever
/// the right header declares, and selects the left record's field there.
pub proof fn lemma_left_column_wins(
    h1: Seq<Seq<char>>,
    h2: Seq<Seq<char>>,
    name: Seq<char>,
    l: Seq<Seq<char>>,
    r: Option<Seq<Seq<char>>>,
)
    requires
        h1.contains(name),
        l.len() == h1.len(),
    ensures
        column_index(h1, h2).contains_key(name),
        column_index(h1, h2)[name] == first_position(h1, name),
        0 <= first_position(h1, name) < h1.len(),
        cell(column_index(h1, h2), joined_row(h1.len(), h2.len(), Some(l), r), name)
            == l[first_position(h1, name)],
{
    let full = full_headers(h1, h2);
    lemma_first_position_exists(h1, name);
    let p = first_position(h1, name);
    assert(full[p] == name);
    assert(full.contains(name));
    assert(is_first_position(full, name, p)) by {
        assert forall|k: int| 0 <= k < p implies full[k] != name by {
            assert(h1[k] != name);
        }
    }
    lemma_first_position(full, name, p);
}

/// A name that only the right header declares selects the right record's
/// field, and an empty field where the right table lacks the key.
pub proof fn lemma_right_column(
    h1: Seq<Seq<char>>,
    h2: Seq<Seq<char>>,
    name: Seq<char>,
    l: Seq<Seq<char>>,
    r: Option<Seq<Seq<char>>>,
)
    requires
        !h1.contains(name),
        tail(h2).contains(name),
        l.len() == h1.len(),
        r is Some ==> r->Some_0.len() == h2.len(),
    ensures
        column_index(h1, h2).contains_key(name),
        column_index(h1, h2)[name] == h1.len() + first_position(tail(h2), name),
        cell(column_index(h1, h2), joined_row(h1.len(), h2.len(), Some(l), r), name) == match r {
            Some(y) => y[1 + first_position(tail(h2), name)],
            None => Seq::<char>::empty(),
        },
{
    let full = full_headers(h1, h2);
    let t = tail(h2);
    lemma_first_position_exists(t, name);
    let q = first_position(t, name);
    let p = h1.len() + q;
    assert(full[p] == t[q]);
    assert(full.contains(name));
    assert(is_first_position(full, name, p)) by {
        assert forall|k: int| 0 <= k < p implies full[k] != name by {
            if k < h1.len() {
                if h1[k] == name {
                    assert(h1.contains(name));
                }
            } else {
                assert(full[k] == t[k - h1.len()]);
                assert(t[k - h1.len()] != name);
            }
        }
    }
    lemma_first_position(full, name, p);
}

/// A selection is refused exactly when it is explicit and names a column
/// that is not known; the refusal names the first such column.
pub proof fn lemma_first_missing(columns: Seq<Seq<char>>, known: Set<Seq<char>>)
    ensures
        first_missing(columns, known) is None <==> forall|c: int|
            0 <= c < columns.len() ==> known.contains(#[trigger] columns[c]),
        first_missing(columns, known) matches Some(name) ==> exists|c: int|
            0 <= c < columns.len() && #[trigger] columns[c] == name && !known.contains(name)
                && forall|b: int| 0 <= b < c ==> known.contains(#[trigger] columns[b]),
    decreases columns.len(),
{
    if columns.len() > 0 {
        let rest = columns.drop_first();
        lemma_first_missing(rest, known);
        if known.contains(columns[0]) {
            if first_missing(rest, known) is None {
                assert forall|c: int| 0 <= c < columns.len() implies known.contains(
                    #[trigger] columns[c],
                ) by {
                    if c > 0 {
                        assert(rest[c - 1] == columns[c]);
                    }
                }
            } else {
                let name = first_missing(rest, known)->Some_0;
                let c = choose|c: int|
                    0 <= c < rest.len() && #[trigger] rest[c] == name && !known.contains(name)
                        && forall|b: int| 0 <= b < c ==> known.contains(#[trigger] rest[b]);
                assert(columns[c + 1] == name);
                assert forall|b: int| 0 <= b < c + 1 implies known.contains(
                    #[trigger] columns[b],
                ) by {
                    if b > 0 {
                        assert(rest[b - 1] == columns[b]);
                    }
                }
            }
        } else {
            assert(columns[0] == first_missing(columns, known)->Some_0);
        }
    }
}

/// Selecting a column that neither source declares fails, whatever the
/// join kind and the records, so that no row is produced.
pub proof fn lemma_unknown_column_fails(
    kind: JoinType,
    columns: Seq<Seq<char>>,
    h1: Seq<Seq<char>>,
    rows1: Seq<Seq<Seq<char>>>,
    h2: Seq<Seq<char>>,
    rows2: Seq<Seq<Seq<char>>>,
    c: int,
)
    requires
        !is_wildcard(columns),
        0 <= c < columns.len(),
        !h1.contains(columns[c]),
        !h2.contains(columns[c]),
    ensures
        join_result(kind, columns, h1, rows1, h2, rows2) is Err,
{
    let known = column_index(h1, h2).dom();
    let full = full_headers(h1, h2);
    lemma_first_missing(columns, known);
    if full.contains(columns[c]) {
        let i = choose|i: int| 0 <= i < full.len() && full[i] == columns[c];
        if i < h1.len() {
            assert(h1[i] == columns[c]);
        } else {
            assert(h2[i - h1.len() + 1] == columns[c]);
        }
    }
    assert(!known.contains(columns[c]));
}

/// A selection of which every name is declared by a source, and the
/// wildcard selection, are accepted: the result is the header row of the
/// selected columns and one row for each candidate key.
pub proof fn lemma_known_columns_join(
    kind: JoinType,
    columns: Seq<Seq<char>>,
    h1: Seq<Seq<char>>,
    rows1: Seq<Seq<Seq<char>>>,
    h2: Seq<Seq<char>>,
    rows2: Seq<Seq<Seq<char>>>,
)
    requires
        is_wildcard(columns) || forall|c: int|
            0 <= c < columns.len() ==> full_headers(h1, h2).contains(#[trigger] columns[c]),
    ensures
        join_result(kind, columns, h1, rows1, h2, rows2) matches Ok(rows) && rows.len() == 1
            + candidate_keys(kind, rows1, rows2).len() && rows[0] == selected_columns(
            columns,
            h1,
            h2,
        ),
{
    lemma_first_missing(columns, column_index(h1, h2).dom());
}

/// An inner join of tables that share no key has no data row.
pub proof fn lemma_inner_disjoint(
    selected: Seq<Seq<char>>,
    h1: Seq<Seq<char>>,
    rows1: Seq<Seq<Seq<char>>>,
    h2: Seq<Seq<char>>,
    rows2: Seq<Seq<Seq<char>>>,
)
    requires
        forall|k: Seq<char>| !(has_key(rows1, k) && has_key(rows2, k)),
    ensures
        candidate_keys(JoinType::Inner, rows1, rows2).len() == 0,
        data_rows(JoinType::Inner, selected, h1, rows1, h2, rows2).len() == 0,
{
    let keys = candidate_keys(JoinType::Inner, rows1, rows2);
    let pred = |k: Seq<char>| has_key(rows2, k) == true;
    lemma_filter_members(keys_of(rows1), pred);
    if keys.len() > 0 {
        assert(keys.contains(keys[0]));
        lemma_keys_contain(rows1, keys[0]);
        assert(has_key(rows1, keys[0]) && has_key(rows2, keys[0]));
    }
}

/// The keys of an inner join are those that both tables hold, each once.
pub proof fn lemma_inner_keys(rows1: Seq<Seq<Seq<char>>>, rows2: Seq<Seq<Seq<char>>>)
    requires
        distinct_keys(rows1),
    ensures
        candidate_keys(JoinType::Inner, rows1, rows2).no_duplicates(),
        forall|k: Seq<char>| #[trigger]
            candidate_keys(JoinType::Inner, rows1, rows2).contains(k) <==> has_key(rows1, k)
                && has_key(rows2, k),
{
    let keys = candidate_keys(JoinType::Inner, rows1, rows2);
    let pred = |k: Seq<char>| has_key(rows2, k) == true;
    lemma_filter_members(keys_of(rows1), pred);
    lemma_keys_distinct(rows1);
    assert forall|k: Seq<char>| #[trigger] keys.contains(k) <==> has_key(rows1, k) && has_key(
        rows2,
        k,
    ) by {
        lemma_keys_contain(rows1, k);
    }
}

/// A left join answers every key of the left table exactly once, in the
/// table's order, whether or not the right table holds the key.
pub proof fn lemma_left_join_total(
    selected: Seq<Seq<char>>,
    h1: Seq<Seq<char>>,
    rows1: Seq<Seq<Seq<char>>>,
    h2: Seq<Seq<char>>,
    rows2: Seq<Seq<Seq<char>>>,
)
    requires
        distinct_keys(rows1),
    ensures
        candidate_keys(JoinType::Left, rows1, rows2) == keys_of(rows1),
        candidate_keys(JoinType::Left, rows1, rows2).no_duplicates(),
        forall|k: Seq<char>| #[trigger]
            candidate_keys(JoinType::Left, rows1, rows2).contains(k) <==> has_key(rows1, k),
        data_rows(JoinType::Left, selected, h1, rows1, h2, rows2).len() == rows1.len(),
{
    lemma_keys_distinct(rows1);
    assert forall|k: Seq<char>| #[trigger] keys_of(rows1).contains(k) <==> has_key(rows1, k) by {
        lemma_keys_contain(rows1, k);
    }
}

/// The row that a left join gives for the left record at position `j`: a
/// selected column that the left header declares holds the record's field,
/// and where the right table lacks the record's key, every other selected
/// column is empty.
pub proof fn lemma_left_join_row(
    selected: Seq<Seq<char>>,
    h1: Seq<Seq<char>>,
    rows1: Seq<Seq<Seq<char>>>,
    h2: Seq<Seq<char>>,
    rows2: Seq<Seq<Seq<char>>>,
    j: int,
    c: int,
)
    requires
        distinct_keys(rows1),
        uniform(h1.len(), rows1),
        h2.len() >= 1,
        0 <= j < rows1.len(),
        0 <= c < selected.len(),
    ensures
        data_rows(JoinType::Left, selected, h1, rows1, h2, rows2)[j].len() == selected.len(),
        h1.contains(selected[c]) ==> data_rows(JoinType::Left, selected, h1, rows1, h2, rows2)[j][c]
            == rows1[j][first_position(h1, selected[c])],
        !h1.contains(selected[c]) && !has_key(rows2, key_of(rows1[j])) ==> data_rows(
            JoinType::Left,
            selected,
            h1,
            rows1,
            h2,
            rows2,
        )[j][c] == Seq::<char>::empty(),
{
    let key = key_of(rows1[j]);
    lemma_lookup_at(rows1, j);
    let l = rows1[j];
    let r = lookup(rows2, key);
    let name = selected[c];
    let index = column_index(h1, h2);
    let row = joined_row(h1.len(), h2.len(), Some(l), r);
    assert(data_rows(JoinType::Left, selected, h1, rows1, h2, rows2)[j] == projected(
        selected,
        index,
        row,
    ));
    if h1.contains(name) {
        lemma_left_column_wins(h1, h2, name, l, r);
    } else if !has_key(rows2, key) {
        if index.contains_key(name) {
            let full = full_headers(h1, h2);
            lemma_first_position_exists(full, name);
            let p = first_position(full, name);
            if p < h1.len() {
                assert(h1[p] == name);
            }
            if p < row.len() {
                assert(row[p] == blanks((h2.len() - 1) as nat)[p - h1.len()]);
            }
        }
    }
}

/// A full join answers exactly the keys that either table holds, each
/// once: no key is left out and none comes twice.
pub proof fn lemma_full_join_total(
    selected: Seq<Seq<char>>,
    h1: Seq<Seq<char>>,
    rows1: Seq<Seq<Seq<char>>>,
    h2: Seq<Seq<char>>,
    rows2: Seq<Seq<Seq<char>>>,
)
    requires
        distinct_keys(rows1),
        distinct_keys(rows2),
    ensures
        candidate_keys(JoinType::Full, rows1, rows2).no_duplicates(),
        forall|k: Seq<char>| #[trigger]
            candidate_keys(JoinType::Full, rows1, rows2).contains(k) <==> has_key(rows1, k)
                || has_key(rows2, k),
        candidate_keys(JoinType::Full, rows1, rows2).to_set() == keys_of(rows1).to_set().union(
            keys_of(rows2).to_set(),
        ),
        data_rows(JoinType::Full, selected, h1, rows1, h2, rows2).len() == candidate_keys(
            JoinType::Full,
            rows1,
            rows2,
        ).len(),
{
    let keys = candidate_keys(JoinType::Full, rows1, rows2);
    let first = keys_of(rows1);
    let pred = |k: Seq<char>| has_key(rows1, k) == false;
    let second = keys_of(rows2).filter(pred);
    assert(second == keys_with(rows2, rows1, false));
    lemma_filter_members(keys_of(rows2), pred);
    lemma_keys_distinct(rows1);
    lemma_keys_distinct(rows2);
    assert forall|k: Seq<char>| #[trigger] keys.contains(k) <==> has_key(rows1, k) || has_key(
        rows2,
        k,
    ) by {
        lemma_keys_contain(rows1, k);
        lemma_keys_contain(rows2, k);
        if keys.contains(k) {
            let i = choose|i: int| 0 <= i < keys.len() && keys[i] == k;
            if i < first.len() {
                assert(first[i] == k);
                assert(first.contains(k));
            } else {
                assert(second[i - first.len()] == k);
                assert(second.contains(k));
            }
        }
        if has_key(rows1, k) {
            let i = choose|i: int| 0 <= i < first.len() && first[i] == k;
            assert(keys[i] == k);
        } else if has_key(rows2, k) {
            assert(second.contains(k));
            let i = choose|i: int| 0 <= i < second.len() && second[i] == k;
            assert(keys[first.len() + i] == k);
        }
    }
    assert forall|i: int, j: int| 0 <= i < keys.len() && 0 <= j < keys.len() && i != j implies keys[i]
        != keys[j] by {
        if i < first.len() && j < first.len() {
            assert(first[i] != first[j]);
        } else if i >= first.len() && j >= first.len() {
            assert(second[i - first.len()] != second[j - first.len()]);
        } else {
            let a = if i < first.len() {
                i
            } else {
                j
            };
            let b = if i < first.len() {
                j
            } else {
                i
            };
            assert(first.contains(first[a]));
            lemma_keys_contain(rows1, first[a]);
            assert(second.contains(second[b - first.len()]));
        }
    }
    assert forall|k: Seq<char>| keys.to_set().contains(k) <==> keys_of(rows1).to_set().union(
        keys_of(rows2).to_set(),
    ).contains(k) by {
        lemma_keys_contain(rows1, k);
        lemma_keys_contain(rows2, k);
    }
    assert(keys.to_set() =~= keys_of(rows1).to_set().union(keys_of(rows2).to_set()));
}

/// A predicate that holds of every element filters nothing out.
pub proof fn lemma_filter_all<A>(s: Seq<A>, pred: spec_fn(A) -> bool)
    requires
        forall|i: int| 0 <= i < s.len() ==> pred(#[trigger] s[i]),
    ensures
        s.filter(pred) == s,
    decreases s.len(),
{
    reveal(Seq::filter);
    if s.len() > 0 {
        let rest = s.drop_last();
        assert forall|i: int| 0 <= i < rest.len() implies pred(#[trigger] rest[i]) by {
            assert(rest[i] == s[i]);
        }
        lemma_filter_all(rest, pred);
        assert(pred(s[s.len() - 1]));
        assert(rest.push(s.last()) =~= s);
    }
}

/// The round trip through a self-join: the inner join of a table with
/// itself gives, under the wildcard, each record followed by its fields
/// after the key; and selecting the table's own columns, from that result
/// or in the join itself, gives the table's records back in their order.
/// The column names must be distinct, since a name selects its first column.
pub proof fn lemma_self_join_round_trip(h: Seq<Seq<char>>, rows: Seq<Seq<Seq<char>>>)
    requires
        h.len() >= 1,
        h.no_duplicates(),
        uniform(h.len(), rows),
        distinct_keys(rows),
    ensures
        data_rows(JoinType::Inner, full_headers(h, h), h, rows, h, rows) == Seq::new(
            rows.len(),
            |j: int| rows[j] + tail(rows[j]),
        ),
        forall|j: int|
            0 <= j < rows.len() ==> projected(
                h,
                column_index(h, h),
                #[trigger] (rows[j] + tail(rows[j])),
            ) == rows[j],
        data_rows(JoinType::Inner, h, h, rows, h, rows) == rows,
{
    let keys = candidate_keys(JoinType::Inner, rows, rows);
    let pred = |k: Seq<char>| has_key(rows, k) == true;
    assert forall|i: int| 0 <= i < keys_of(rows).len() implies pred(#[trigger] keys_of(rows)[i]) by {
        assert(key_of(rows[i]) == keys_of(rows)[i]);
    }
    lemma_filter_all(keys_of(rows), pred);
    assert(keys == keys_of(rows));
    let full = full_headers(h, h);
    let index = column_index(h, h);
    let m = h.len() as int;
    assert forall|c: int| 0 <= c < m implies index.contains_key(#[trigger] h[c]) && index[h[c]]
        == c by {
        assert(full[c] == h[c]);
        assert(is_first_position(full, h[c], c)) by {
            assert forall|k: int| 0 <= k < c implies full[k] != h[c] by {
                assert(full[k] == h[k]);
            }
        }
        lemma_first_position(full, h[c], c);
    }
    assert forall|c: int| 0 <= c < full.len() implies index.contains_key(#[trigger] full[c])
        && index[full[c]] == (if c < m {
        c
    } else {
        c - m + 1
    }) by {
        if c >= m {
            assert(full[c] == h[c - m + 1]);
        } else {
            assert(full[c] == h[c]);
        }
    }
    assert forall|j: int| 0 <= j < rows.len() implies projected(
        h,
        index,
        #[trigger] (rows[j] + tail(rows[j])),
    ) == rows[j] by {
        let wide = rows[j] + tail(rows[j]);
        assert(rows[j].len() == m);
        assert(projected(h, index, wide) =~= rows[j]);
    }
    let wanted = Seq::new(rows.len(), |j: int| rows[j] + tail(rows[j]));
    let got = data_rows(JoinType::Inner, full, h, rows, h, rows);
    assert forall|j: int| 0 <= j < rows.len() implies got[j] == wanted[j] by {
        lemma_lookup_at(rows, j);
        let wide = rows[j] + tail(rows[j]);
        assert(rows[j].len() == m);
        assert(joined_row(h.len(), h.len(), Some(rows[j]), Some(rows[j])) == wide);
        assert(projected(full, index, wide) =~= wide);
    }
    assert(got =~= wanted);
    let back = data_rows(JoinType::Inner, h, h, rows, h, rows);
    assert forall|j: int| 0 <= j < rows.len() implies back[j] == rows[j] by {
        lemma_lookup_at(rows, j);
        assert(joined_row(h.len(), h.len(), Some(rows[j]), Some(rows[j])) == rows[j] + tail(
            rows[j],
        ));
    }
    assert(back =~= rows);
}

} // verus!
