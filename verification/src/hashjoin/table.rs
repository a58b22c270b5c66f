//! The keyed table that a join is built from: the column names of one
//! source and, for every key value, the last record loaded under it.

use vstd::prelude::*;
use vstd::string::*;
use vstd::hash_map::StringHashMap;
use crate::text::texts;

verus! {

/// The views of a sequence of records.
pub open spec fn rows_of(v: Seq<Vec<String>>) -> Seq<Seq<Seq<char>>> {
    Seq::new(v.len(), |i: int| texts(v[i]@))
}

/// The join key of a record: its first field, or the empty text for a
/// record without fields.
pub open spec fn key_of(row: Seq<Seq<char>>) -> Seq<char> {
    if row.len() > 0 {
        row[0]
    } else {
        Seq::<char>::empty()
    }
}

/// The keys of a sequence of records, in order.
pub open spec fn keys_of(rows: Seq<Seq<Seq<char>>>) -> Seq<Seq<char>> {
    Seq::new(rows.len(), |i: int| key_of(rows[i]))
}

/// Whether some record carries the key.
pub open spec fn has_key(rows: Seq<Seq<Seq<char>>>, key: Seq<char>) -> bool {
    exists|i: int| 0 <= i < rows.len() && #[trigger] key_of(rows[i]) == key
}

/// A position at which the key stands; meaningful where `has_key` holds.
pub open spec fn position_of(rows: Seq<Seq<Seq<char>>>, key: Seq<char>) -> int {
    choose|i: int| 0 <= i < rows.len() && #[trigger] key_of(rows[i]) == key
}

/// The record under a key, if there is one.
pub open spec fn lookup(rows: Seq<Seq<Seq<char>>>, key: Seq<char>) -> Option<Seq<Seq<char>>> {
    if has_key(rows, key) {
        Some(rows[position_of(rows, key)])
    } else {
        None
    }
}

/// No two records share a key.
pub open spec fn distinct_keys(rows: Seq<Seq<Seq<char>>>) -> bool {
    forall|i: int, j: int|
        0 <= i < j < rows.len() ==> #[trigger] key_of(rows[i]) != #[trigger] key_of(rows[j])
}

/// Every record has the given number of fields.
pub open spec fn uniform(width: nat, rows: Seq<Seq<Seq<char>>>) -> bool {
    forall|i: int| 0 <= i < rows.len() ==> (#[trigger] rows[i]).len() == width
}

/// What loading keeps of a sequence of records: one record per key. A
/// record whose key was seen before replaces the earlier one in its place;
/// a record with a new key goes to the end.
pub open spec fn collapse(records: Seq<Seq<Seq<char>>>) -> Seq<Seq<Seq<char>>>
    decreases records.len(),
{
    if records.len() == 0 {
        Seq::<Seq<Seq<char>>>::empty()
    } else {
        let before = collapse(records.drop_last());
        let r = records.last();
        if has_key(before, key_of(r)) {
            before.update(position_of(before, key_of(r)), r)
        } else {
            before.push(r)
        }
    }
}

/// Why a table could not be built from records.
#[derive(Debug, Clone, Copy, PartialEq, Eq, Structural)]
pub enum LoadError {
    /// The record at position `record` has `len` fields where the header
    /// has `expected_len`.
    UnequalLengths { record: usize, expected_len: usize, len: usize },
}

/// One source, keyed by the first field of its records.
pub struct Table {
    headers: Vec<String>,
    rows: Vec<Vec<String>>,
    index: StringHashMap<usize>,
}

/// Copies a record.
pub fn clone_row(row: &Vec<String>) -> (r: Vec<String>)
    ensures
        texts(r@) == texts(row@),
{
    let mut out: Vec<String> = Vec::new();
    let mut i: usize = 0;
    while i < row.len()
        invariant
            i <= row.len(),
            out@.len() == i,
            forall|j: int| 0 <= j < i ==> out@[j]@ == row@[j]@,
        decreases row.len() - i,
    {
        out.push(row[i].clone());
        i = i + 1;
    }
    assert(texts(out@) =~= texts(row@));
    out
}

/// The join key of a record, as an owned text.
pub fn row_key(row: &Vec<String>) -> (r: String)
    ensures
        r@ == key_of(texts(row@)),
{
    if row.len() > 0 {
        row[0].clone()
    } else {
        String::new()
    }
}

impl Table {
    /// The column names, in order.
    pub closed spec fn headers_view(&self) -> Seq<Seq<char>> {
        texts(self.headers@)
    }

    /// The records, one per key, in the order in which their keys first
    /// appeared. Together with the column names they are all that a table
    /// holds: its hash index follows from them under `wf`.
    pub closed spec fn rows_view(&self) -> Seq<Seq<Seq<char>>> {
        rows_of(self.rows@)
    }

    /// The table's invariant: every record is as wide as the header, and
    /// the hash index sends each key to the one record that carries it.
    pub closed spec fn wf(&self) -> bool {
        &&& uniform(self.headers@.len(), self.rows_view())
        &&& forall|k: Seq<char>| #[trigger]
            self.index@.contains_key(k) ==> has_key(self.rows_view(), k)
        &&& forall|i: int|
            0 <= i < self.rows@.len() ==> self.index@.contains_key(
                #[trigger] key_of(self.rows_view()[i]),
            ) && self.index@[key_of(self.rows_view()[i])] == i
    }

    /// What the invariant gives its users.
    pub proof fn lemma_wf(&self)
        requires
            self.wf(),
        ensures
            uniform(self.headers_view().len(), self.rows_view()),
            distinct_keys(self.rows_view()),
    {
    }

    /// Builds a table from a header and the records that follow it. Records
    /// are taken in order and a later record replaces an earlier one with the
    /// same key. A record whose width differs from the header's is refused.
    pub fn from_records(headers: Vec<String>, records: &Vec<Vec<String>>) -> (r: Result<
        Table,
        LoadError,
    >)
        ensures
            match r {
                Ok(t) => {
                    &&& t.wf()
                    &&& uniform(headers@.len(), rows_of(records@))
                    &&& t.headers_view() == texts(headers@)
                    &&& t.rows_view() == collapse(rows_of(records@))
                },
                Err(LoadError::UnequalLengths { record, expected_len, len }) => {
                    &&& record < records@.len()
                    &&& expected_len == headers@.len()
                    &&& len == records@[record as int]@.len()
                    &&& len != expected_len
                    &&& forall|j: int| 0 <= j < record ==> (#[trigger] records@[j])@.len() == headers@.len()
                },
            },
    {
        let width: usize = headers.len();
        let mut table = Table { headers, rows: Vec::new(), index: StringHashMap::new() };
        let ghost all = rows_of(records@);
        let mut i: usize = 0;
        proof {
            assert(all.take(0) =~= Seq::<Seq<Seq<char>>>::empty());
            assert(table.rows_view() =~= Seq::<Seq<Seq<char>>>::empty());
        }
        while i < records.len()
            invariant
                i <= records.len(),
                all == rows_of(records@),
                width == headers@.len(),
                table.headers@ == headers@,
                table.wf(),
                table.rows_view() == collapse(all.take(i as int)),
                forall|j: int| 0 <= j < i ==> (#[trigger] records@[j])@.len() == width,
            decreases records.len() - i,
        {
            let rec: &Vec<String> = &records[i];
            if rec.len() != width {
                return Err(
                    LoadError::UnequalLengths { record: i, expected_len: width, len: rec.len() },
                );
            }
            let row = clone_row(rec);
            let key = row_key(&row);
            let ghost before = table.rows_view();
            let ghost r = texts(row@);
            proof {
                assert(all.take(i + 1).drop_last() =~= all.take(i as int));
                assert(all.take(i + 1).last() == r);
            }
            let found: Option<usize> = match table.index.get(key.as_str()) {
                Some(j) => Some(*j),
                None => None,
            };
            match found {
                Some(j) => {
                    proof {
                        let c = position_of(before, key@);
                        assert(key_of(before[c]) == key@);
                        assert(c == j);
                    }
                    table.rows.set(j, row);
                    proof {
                        assert(table.rows_view() =~= before.update(j as int, r));
                        assert forall|k: Seq<char>| #[trigger]
                            table.index@.contains_key(k) implies has_key(table.rows_view(), k) by {
                            let p = position_of(before, k);
                            assert(key_of(before[p]) == k);
                            assert(key_of(table.rows_view()[p]) == k);
                        }
                    }
                },
                None => {
                    proof {
                        if has_key(before, key@) {
                            let c = position_of(before, key@);
                            assert(key_of(before[c]) == key@);
                        }
                    }
                    let n: usize = table.rows.len();
                    table.index.insert(key, n);
                    table.rows.push(row);
                    proof {
                        assert(table.rows_view() =~= before.push(r));
                        assert forall|k: Seq<char>| #[trigger]
                            table.index@.contains_key(k) implies has_key(table.rows_view(), k) by {
                            if k == key@ {
                                assert(key_of(table.rows_view()[n as int]) == k);
                            } else {
                                let p = position_of(before, k);
                                assert(key_of(before[p]) == k);
                                assert(key_of(table.rows_view()[p]) == k);
                            }
                        }
                    }
                },
            }
            i = i + 1;
        }
        proof {
            assert(all.take(i as int) =~= all);
        }
        Ok(table)
    }

    /// The column names.
    pub fn column_names(&self) -> (r: &Vec<String>)
        ensures
            texts(r@) == self.headers_view(),
            r@.len() == self.headers_view().len(),
    {
        &self.headers
    }

    /// The number of records, which is the number of distinct keys.
    pub fn len(&self) -> (r: usize)
        ensures
            r == self.rows_view().len(),
    {
        self.rows.len()
    }

    /// The record at a position.
    pub fn row(&self, i: usize) -> (r: &Vec<String>)
        requires
            i < self.rows_view().len(),
        ensures
            texts(r@) == self.rows_view()[i as int],
    {
        &self.rows[i]
    }

    /// Whether a record is stored under the key.
    pub fn contains_key(&self, key: &str) -> (r: bool)
        requires
            self.wf(),
        ensures
            r == has_key(self.rows_view(), key@),
    {
        proof {
            if has_key(self.rows_view(), key@) {
                let c = position_of(self.rows_view(), key@);
                assert(key_of(self.rows_view()[c]) == key@);
            }
        }
        self.index.contains_key(key)
    }

    /// The record stored under the key, if there is one.
    pub fn get(&self, key: &str) -> (r: Option<&Vec<String>>)
        requires
            self.wf(),
        ensures
            match r {
                Some(row) => lookup(self.rows_view(), key@) == Some(texts(row@)),
                None => lookup(self.rows_view(), key@) is None,
            },
    {
        proof {
            if has_key(self.rows_view(), key@) {
                let c = position_of(self.rows_view(), key@);
                assert(key_of(self.rows_view()[c]) == key@);
            }
        }
        match self.index.get(key) {
            Some(j) => {
                proof {
                    let c = position_of(self.rows_view(), key@);
                    assert(key_of(self.rows_view()[c]) == key@);
                    assert(c == *j);
                }
                Some(&self.rows[*j])
            },
            None => None,
        }
    }
}

} // verus!
