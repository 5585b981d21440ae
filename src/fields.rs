//! The field resolver: `table.column` paths checked against the catalog.
use vstd::prelude::*;
use crate::models::{Column, Table};
use crate::text::{same_text, views};

verus! {

/// `i` is the one position of a `.` in `f`.
pub open spec fn sole_dot_at(f: Seq<char>, i: int) -> bool {
    &&& 0 <= i < f.len()
    &&& f[i] == '.'
    &&& forall|j: int| 0 <= j < f.len() && j != i ==> f[j] != '.'
}

/// `i` is the first position of a `.` in `f`.
pub open spec fn first_dot_at(f: Seq<char>, i: int) -> bool {
    &&& 0 <= i < f.len()
    &&& f[i] == '.'
    &&& forall|j: int| 0 <= j < i ==> f[j] != '.'
}

/// A field `table.column` as its two parts; `None` unless `f` holds exactly one `.`.
pub open spec fn split_field(f: Seq<char>) -> Option<(Seq<char>, Seq<char>)> {
    if exists|i: int| sole_dot_at(f, i) {
        let i = choose|i: int| sole_dot_at(f, i);
        Some((f.take(i), f.skip(i + 1)))
    } else {
        None
    }
}

/// What comes before the first `.` of `f` (all of `f` when it holds none).
pub open spec fn table_part(f: Seq<char>) -> Seq<char> {
    if exists|i: int| first_dot_at(f, i) {
        f.take(choose|i: int| first_dot_at(f, i))
    } else {
        f
    }
}

/// `i` is the first table of `tables` named `name`.
pub open spec fn first_table(tables: Seq<Table>, name: Seq<char>, i: int) -> bool {
    &&& 0 <= i < tables.len()
    &&& tables[i].name@ == name
    &&& forall|j: int| 0 <= j < i ==> tables[j].name@ != name
}

/// `k` is the first column of `columns` named `name`.
pub open spec fn first_column(columns: Seq<Column>, name: Seq<char>, k: int) -> bool {
    &&& 0 <= k < columns.len()
    &&& columns[k].name@ == name
    &&& forall|j: int| 0 <= j < k ==> columns[j].name@ != name
}

/// The position of the catalog's first table named `name`.
pub open spec fn table_index(tables: Seq<Table>, name: Seq<char>) -> Option<int> {
    if exists|i: int| first_table(tables, name, i) {
        Some(choose|i: int| first_table(tables, name, i))
    } else {
        None
    }
}

/// The datatype of the first column named `name`.
pub open spec fn datatype_in(columns: Seq<Column>, name: Seq<char>) -> Option<Seq<char>> {
    if exists|k: int| first_column(columns, name, k) {
        Some(columns[choose|k: int| first_column(columns, name, k)].datatype@)
    } else {
        None
    }
}

/// The datatype of `field` in the catalog: the field names a table and a
/// column of the first table of that name.
pub open spec fn column_datatype(tables: Seq<Table>, field: Seq<char>) -> Option<Seq<char>> {
    match split_field(field) {
        None => None,
        Some(parts) => match table_index(tables, parts.0) {
            None => None,
            Some(i) => datatype_in(tables[i].columns@, parts.1),
        },
    }
}

/// The elements of `s` without repetitions, each where it first occurs.
pub open spec fn distinct(s: Seq<Seq<char>>) -> Seq<Seq<char>>
    decreases s.len(),
{
    if s.len() == 0 {
        Seq::empty()
    } else {
        let d = distinct(s.drop_last());
        if d.contains(s.last()) {
            d
        } else {
            d.push(s.last())
        }
    }
}

proof fn lemma_first_table_unique(tables: Seq<Table>, name: Seq<char>, i: int, j: int)
    requires
        first_table(tables, name, i),
        first_table(tables, name, j),
    ensures
        i == j,
{
}

proof fn lemma_first_column_unique(columns: Seq<Column>, name: Seq<char>, i: int, j: int)
    requires
        first_column(columns, name, i),
        first_column(columns, name, j),
    ensures
        i == j,
{
}

/// Finds the one `.` of `f`: `Some(i)` exactly when `f` holds a single dot, at `i`.
fn find_sole_dot(f: &str) -> (r: Option<usize>)
    ensures
        match r {
            Some(i) => sole_dot_at(f@, i as int),
            None => forall|i: int| !sole_dot_at(f@, i),
        },
{
    let n = f.unicode_len();
    let mut first: Option<usize> = None;
    let mut idx: usize = 0;
    while idx < n
        invariant
            n == f@.len(),
            idx <= n,
            match first {
                None => forall|j: int| 0 <= j < idx ==> f@[j] != '.',
                Some(p) => p < idx && f@[p as int] == '.' && forall|j: int|
                    0 <= j < idx && j != p ==> f@[j] != '.',
            },
        decreases n - idx,
    {
        if f.get_char(idx) == '.' {
            match first {
                None => {
                    first = Some(idx);
                },
                Some(p) => {
                    proof {
                        assert forall|i: int| !sole_dot_at(f@, i) by {
                            if sole_dot_at(f@, i) {
                                assert(f@[p as int] == '.' && f@[idx as int] == '.');
                            }
                        }
                    }
                    return None;
                },
            }
        }
        idx = idx + 1;
    }
    proof {
        if first is None {
            assert forall|i: int| !sole_dot_at(f@, i) by {
                if sole_dot_at(f@, i) {
                    assert(f@[i] == '.');
                }
            }
        }
    }
    first
}

/// The index of the first `.` of `f`, if any.
fn find_first_dot(f: &str) -> (r: Option<usize>)
    ensures
        match r {
            Some(i) => first_dot_at(f@, i as int),
            None => forall|i: int| 0 <= i < f@.len() ==> f@[i] != '.',
        },
{
    let n = f.unicode_len();
    let mut idx: usize = 0;
    while idx < n
        invariant
            n == f@.len(),
            idx <= n,
            forall|j: int| 0 <= j < idx ==> f@[j] != '.',
        decreases n - idx,
    {
        if f.get_char(idx) == '.' {
            return Some(idx);
        }
        idx = idx + 1;
    }
    None
}

/// The table part of a field: what precedes its first `.`.
pub fn table_of_field(f: &str) -> (r: String)
    ensures
        r@ == table_part(f@),
{
    match find_first_dot(f) {
        Some(i) => {
            proof {
                let c = choose|c: int| first_dot_at(f@, c);
                assert(c == i as int) by {
                    if c < i as int {
                        assert(f@[c] != '.');
                    } else if c > i as int {
                        assert(f@[i as int] != '.');
                    }
                }
            }
            String::from_str(f.substring_char(0, i))
        },
        None => {
            proof {
                assert(!exists|i: int| first_dot_at(f@, i));
            }
            String::from_str(f)
        },
    }
}

/// The datatype of the column that `column_name` (`table.column`) names, if
/// the catalog has it.
pub fn find_column_datatype<'a>(tables: &'a [Table], column_name: &str) -> (r: Option<&'a str>)
    ensures
        match r {
            Some(d) => column_datatype(tables@, column_name@) == Some(d@),
            None => column_datatype(tables@, column_name@) is None,
        },
{
    let dot = match find_sole_dot(column_name) {
        Some(i) => i,
        None => {
            return None;
        },
    };
    let n = column_name.unicode_len();
    let table_name = column_name.substring_char(0, dot);
    let col_name = column_name.substring_char(dot + 1, n);
    let ghost parts = (column_name@.take(dot as int), column_name@.skip(dot + 1));
    proof {
        let c = choose|c: int| sole_dot_at(column_name@, c);
        assert(c == dot as int);
        assert(split_field(column_name@) == Some(parts));
        assert(table_name@ == parts.0);
        assert(col_name@ =~= parts.1);
    }
    let mut i: usize = 0;
    while i < tables.len()
        invariant
            i <= tables@.len(),
            forall|j: int| 0 <= j < i ==> tables@[j].name@ != parts.0,
            table_name@ == parts.0,
            col_name@ == parts.1,
            split_field(column_name@) == Some(parts),
        decreases tables@.len() - i,
    {
        if same_text(tables[i].name.as_str(), table_name) {
            proof {
                assert(first_table(tables@, parts.0, i as int));
                let c = choose|c: int| first_table(tables@, parts.0, c);
                lemma_first_table_unique(tables@, parts.0, c, i as int);
            }
            let columns = &tables[i].columns;
            let mut k: usize = 0;
            while k < columns.len()
                invariant
                    k <= columns@.len(),
                    i < tables@.len(),
                    columns@ == tables@[i as int].columns@,
                    forall|j: int| 0 <= j < k ==> columns@[j].name@ != parts.1,
                    col_name@ == parts.1,
                    split_field(column_name@) == Some(parts),
                    first_table(tables@, parts.0, i as int),
                    (choose|c: int| first_table(tables@, parts.0, c)) == i as int,
                decreases columns@.len() - k,
            {
                if same_text(columns[k].name.as_str(), col_name) {
                    proof {
                        assert(first_column(columns@, parts.1, k as int));
                        let c = choose|c: int| first_column(columns@, parts.1, c);
                        lemma_first_column_unique(columns@, parts.1, c, k as int);
                    }
                    return Some(columns[k].datatype.as_str());
                }
                k = k + 1;
            }
            return None;
        }
        i = i + 1;
    }
    None
}

/// The position of the catalog's first table named `name`.
pub fn find_table(tables: &[Table], name: &str) -> (r: Option<usize>)
    ensures
        match r {
            Some(i) => table_index(tables@, name@) == Some(i as int),
            None => table_index(tables@, name@) is None,
        },
{
    let mut i: usize = 0;
    while i < tables.len()
        invariant
            i <= tables@.len(),
            forall|j: int| 0 <= j < i ==> tables@[j].name@ != name@,
        decreases tables@.len() - i,
    {
        if same_text(tables[i].name.as_str(), name) {
            proof {
                assert(first_table(tables@, name@, i as int));
                let c = choose|c: int| first_table(tables@, name@, c);
                lemma_first_table_unique(tables@, name@, c, i as int);
            }
            return Some(i);
        }
        i = i + 1;
    }
    proof {
        if exists|c: int| first_table(tables@, name@, c) {
            let c = choose|c: int| first_table(tables@, name@, c);
            assert(tables@[c].name@ != name@);
        }
    }
    None
}

/// Whether `list` holds a string equal to `x`.
pub fn contains_text(list: &Vec<String>, x: &str) -> (r: bool)
    ensures
        r == views(list@).contains(x@),
{
    let mut i: usize = 0;
    while i < list.len()
        invariant
            i <= list@.len(),
            forall|j: int| 0 <= j < i ==> list@[j]@ != x@,
        decreases list@.len() - i,
    {
        if same_text(list[i].as_str(), x) {
            proof {
                assert(views(list@)[i as int] == x@);
            }
            return true;
        }
        i = i + 1;
    }
    proof {
        if views(list@).contains(x@) {
            let j = choose|j: int| 0 <= j < views(list@).len() && views(list@)[j] == x@;
            assert(list@[j]@ == x@);
        }
    }
    false
}

/// The tables that `columns` (fields `table.column`) refer to, each once, in
/// the order in which they first occur.
pub fn extract_table_columns(columns: Vec<String>) -> (r: Vec<String>)
    ensures
        views(r@) == distinct(views(columns@).map_values(|f: Seq<char>| table_part(f))),
{
    let ghost parts = views(columns@).map_values(|f: Seq<char>| table_part(f));
    let mut table_list: Vec<String> = Vec::new();
    let mut i: usize = 0;
    while i < columns.len()
        invariant
            i <= columns@.len(),
            parts == views(columns@).map_values(|f: Seq<char>| table_part(f)),
            views(table_list@) == distinct(parts.take(i as int)),
        decreases columns@.len() - i,
    {
        let table_name = table_of_field(columns[i].as_str());
        proof {
            assert(parts.take(i + 1).drop_last() == parts.take(i as int));
            assert(parts.take(i + 1).last() == table_name@);
        }
        if !contains_text(&table_list, table_name.as_str()) {
            table_list.push(table_name);
            proof {
                assert(views(table_list@) =~= distinct(parts.take(i as int)).push(parts[i as int]));
            }
        }
        i = i + 1;
    }
    proof {
        assert(parts.take(columns@.len() as int) == parts);
    }
    table_list
}

} // verus!
