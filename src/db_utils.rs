//! Request and catalog utilities: result column names, and merging the
//! relationship-augmentation feed into a catalog.
use vstd::prelude::*;
use crate::fields::{find_table, table_index};
use crate::models::{relationship_view, DataRequest, Dimension, Metric, Relationship, Table};
use crate::text::views;

verus! {

/// The name a dimension's column is answered under: its alias, else its field.
pub open spec fn dimension_header(d: Dimension) -> Seq<char> {
    match d.name {
        Some(n) => n@,
        None => d.field@,
    }
}

/// The name a metric's column is answered under: its alias, else its field.
pub open spec fn metric_header(m: Metric) -> Seq<char> {
    match m.name {
        Some(n) => n@,
        None => m.field@,
    }
}

/// The names of the result columns, in SELECT order: dimensions, then metrics.
pub open spec fn column_headers(req: DataRequest) -> Seq<Seq<char>> {
    (match req.dimensions {
        Some(ds) => ds@.map_values(|d: Dimension| dimension_header(d)),
        None => Seq::empty(),
    }) + (match req.metrics {
        Some(ms) => ms@.map_values(|m: Metric| metric_header(m)),
        None => Seq::empty(),
    })
}

/// The names the result columns of `json_query` are answered under.
pub fn get_column_headers(json_query: &DataRequest) -> (r: Vec<String>)
    ensures
        views(r@) == column_headers(*json_query),
{
    let mut headers: Vec<String> = Vec::new();
    if let Some(ds) = &json_query.dimensions {
        let mut i: usize = 0;
        while i < ds.len()
            invariant
                i <= ds@.len(),
                views(headers@) == ds@.take(i as int).map_values(|d: Dimension| dimension_header(d)),
            decreases ds@.len() - i,
        {
            let h = match &ds[i].name {
                Some(n) => n.clone(),
                None => ds[i].field.clone(),
            };
            let ghost before = headers@;
            headers.push(h);
            proof {
                assert(h@ == dimension_header(ds@[i as int]));
                assert(views(headers@) =~= views(before).push(h@));
                assert(ds@.take(i + 1) =~= ds@.take(i as int).push(ds@[i as int]));
                assert(views(headers@) =~= ds@.take(i + 1).map_values(|d: Dimension| dimension_header(d)));
            }
            i = i + 1;
        }
        proof {
            assert(ds@.take(ds@.len() as int) =~= ds@);
        }
    }
    let ghost after_dims = views(headers@);
    if let Some(ms) = &json_query.metrics {
        let mut i: usize = 0;
        while i < ms.len()
            invariant
                i <= ms@.len(),
                views(headers@) == after_dims + ms@.take(i as int).map_values(|m: Metric| metric_header(m)),
            decreases ms@.len() - i,
        {
            let h = match &ms[i].name {
                Some(n) => n.clone(),
                None => ms[i].field.clone(),
            };
            let ghost before = headers@;
            headers.push(h);
            proof {
                assert(h@ == metric_header(ms@[i as int]));
                assert(views(headers@) =~= views(before).push(h@));
                assert(ms@.take(i + 1) =~= ms@.take(i as int).push(ms@[i as int]));
                assert(views(headers@) =~= after_dims + ms@.take(i + 1).map_values(|m: Metric| metric_header(m)));
            }
            i = i + 1;
        }
        proof {
            assert(ms@.take(ms@.len() as int) =~= ms@);
        }
    }
    proof {
        assert(views(headers@) =~= column_headers(*json_query));
    }
    headers
}

/// Appends the feed record `relationship` to the catalog: the first table
/// named like its parent table gains one relationship,
/// `child_table -> (parent_column, child_column)`. A record whose parent table
/// is not in the catalog changes nothing.
pub fn update_relationship(tables: &mut Vec<Table>, relationship: &Relationship)
    ensures
        final(tables)@.len() == old(tables)@.len(),
        match table_index(old(tables)@, relationship.parent_table@) {
            None => final(tables)@ == old(tables)@,
            Some(i) => {
                &&& forall|j: int| 0 <= j < old(tables)@.len() && j != i ==> final(tables)@[j] == old(tables)@[j]
                &&& final(tables)@[i].name == old(tables)@[i].name
                &&& final(tables)@[i].columns == old(tables)@[i].columns
                &&& final(tables)@[i].relationships@.len() == old(tables)@[i].relationships@.len() + 1
                &&& forall|k: int|
                    0 <= k < old(tables)@[i].relationships@.len() ==> #[trigger] final(tables)@[i].relationships@[k]
                        == old(tables)@[i].relationships@[k]
                &&& relationship_view(final(tables)@[i].relationships@.last()) == seq![
                    (relationship.child_table@, (relationship.parent_column@, relationship.child_column@)),
                ]
            },
        },
{
    match find_table(tables.as_slice(), relationship.parent_table.as_str()) {
        None => {},
        Some(i) => {
            let mut table = tables.remove(i);
            table.add_relationship(
                relationship.child_table.as_str(),
                relationship.parent_column.as_str(),
                relationship.child_column.as_str(),
            );
            tables.insert(i, table);
        },
    }
}

} // verus!
