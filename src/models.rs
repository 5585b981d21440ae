//! The catalog (tables, columns, relationships) and the request model.
use vstd::prelude::*;
use crate::config::AppConfig;

verus! {

/// One column of a catalog table, with its normalised datatype tag.
#[derive(Debug, Clone)]
pub struct Column {
    pub name: String,
    pub datatype: String,
}

/// A relationship as declared on a parent table: each entry maps a child
/// table's name to the pair (parent column, child column) that joins them.
pub type RelationshipMap = Vec<(String, (String, String))>;

/// A catalog table: its columns and the relationships it declares towards
/// child tables, in declaration order.
#[derive(Debug, Clone)]
pub struct Table {
    pub name: String,
    pub columns: Vec<Column>,
    pub relationships: Vec<RelationshipMap>,
}

/// A record of the relationship-augmentation feed.
#[derive(Debug, Clone)]
pub struct Relationship {
    pub parent_table: String,
    pub child_table: String,
    pub parent_column: String,
    pub child_column: String,
}

/// A requested metric: a `table.column` field, optionally aggregated and aliased.
#[derive(Debug, Clone)]
pub struct Metric {
    pub field: String,
    pub aggregate_operator: Option<String>,
    pub name: Option<String>,
    pub distinct: Option<bool>,
}

/// Sort direction of an `OrderBy`.
#[derive(Debug, Clone, Copy, PartialEq, Eq)]
pub enum Order {
    Asc,
    Desc,
}

/// Requested ordering: the fields to sort by and the direction.
#[derive(Debug, Clone)]
pub struct OrderBy {
    pub field: Vec<String>,
    pub order: Order,
}

/// A requested dimension: a `table.column` field, optionally transformed and aliased.
#[derive(Debug, Clone)]
pub struct Dimension {
    pub field: String,
    pub transformation: Option<String>,
    pub name: Option<String>,
}

/// A filter: a dimension compared with a literal value.
#[derive(Debug, Clone)]
pub struct Filter {
    pub dimension: Dimension,
    pub filter_operator: String,
    pub filter_value: String,
}

/// A backend-agnostic read query.
#[derive(Debug, Clone)]
pub struct DataRequest {
    pub metrics: Option<Vec<Metric>>,
    pub dimensions: Option<Vec<Dimension>>,
    pub filters: Option<Vec<Filter>>,
    pub orderby: Option<OrderBy>,
    pub limit: Option<i32>,
}

/// What the service holds for its lifetime: the catalog and the configuration.
#[derive(Debug, Clone)]
pub struct AppState {
    pub app_name: String,
    pub tables: Vec<Table>,
    pub is_caching: bool,
    pub caching_expiry: u32,
    pub app_config: AppConfig,
}

/// The catalog entry `(child, (parent_column, child_column))` as values.
pub open spec fn entry_view(e: (String, (String, String))) -> (Seq<char>, (Seq<char>, Seq<char>)) {
    (e.0@, (e.1.0@, e.1.1@))
}

/// The entries of one relationship as values.
pub open spec fn relationship_view(r: RelationshipMap) -> Seq<(Seq<char>, (Seq<char>, Seq<char>))> {
    r@.map_values(|e: (String, (String, String))| entry_view(e))
}

/// The line describing one relationship entry.
pub open spec fn entry_line(e: (Seq<char>, (Seq<char>, Seq<char>))) -> Seq<char> {
    "\n  -> Child Table: "@ + e.0 + ", Parent Column: "@ + e.1.0 + ", Child Column: "@ + e.1.1
}

/// The lines of a relationship's entries, in order.
pub open spec fn entry_lines(entries: Seq<(Seq<char>, (Seq<char>, Seq<char>))>) -> Seq<char>
    decreases entries.len(),
{
    if entries.len() == 0 {
        Seq::empty()
    } else {
        entry_lines(entries.drop_last()) + entry_line(entries.last())
    }
}

/// The lines of all relationships' entries, in order.
pub open spec fn relationship_lines(rels: Seq<RelationshipMap>) -> Seq<char>
    decreases rels.len(),
{
    if rels.len() == 0 {
        Seq::empty()
    } else {
        relationship_lines(rels.drop_last()) + entry_lines(relationship_view(rels.last()))
    }
}

/// `Table: <name>` followed by one line per relationship entry.
pub open spec fn table_description(t: Table) -> Seq<char> {
    "Table: "@ + t.name@ + relationship_lines(t.relationships@)
}

impl Table {
    /// A table with the given name, no columns and no relationships.
    pub fn new(name: &str) -> (r: Table)
        ensures
            r.name@ == name@,
            r.columns@.len() == 0,
            r.relationships@.len() == 0,
    {
        Table { name: String::from_str(name), columns: Vec::new(), relationships: Vec::new() }
    }

    /// Appends a relationship with one entry, `child -> (parent_column, child_column)`.
    pub fn add_relationship(&mut self, child: &str, parent_column: &str, child_column: &str)
        ensures
            final(self).name == old(self).name,
            final(self).columns == old(self).columns,
            final(self).relationships@.len() == old(self).relationships@.len() + 1,
            forall|k: int|
                0 <= k < old(self).relationships@.len() ==> #[trigger] final(self).relationships@[k]
                    == old(self).relationships@[k],
            relationship_view(final(self).relationships@.last()) == seq![
                (child@, (parent_column@, child_column@)),
            ],
    {
        let mut entry: RelationshipMap = Vec::new();
        entry.push((String::from_str(child), (String::from_str(parent_column), String::from_str(child_column))));
        proof {
            assert(relationship_view(entry) =~= seq![(child@, (parent_column@, child_column@))]);
        }
        self.relationships.push(entry);
    }

    /// A description of the table and its relationships, one line per
    /// relationship entry, for the service log.
    pub fn print_tables(&self) -> (r: String)
        ensures
            r@ == table_description(*self),
    {
        let mut out = String::from_str("Table: ");
        out.append(self.name.as_str());
        let ghost head = out@;
        let mut k: usize = 0;
        while k < self.relationships.len()
            invariant
                k <= self.relationships@.len(),
                head == "Table: "@ + self.name@,
                out@ == head + relationship_lines(self.relationships@.take(k as int)),
            decreases self.relationships@.len() - k,
        {
            let rel = &self.relationships[k];
            let ghost entries = relationship_view(*rel);
            let ghost before = out@;
            let mut e: usize = 0;
            while e < rel.len()
                invariant
                    e <= rel@.len(),
                    entries == relationship_view(*rel),
                    out@ == before + entry_lines(entries.take(e as int)),
                decreases rel@.len() - e,
            {
                let ghost prior = out@;
                out.append("\n  -> Child Table: ");
                out.append(rel[e].0.as_str());
                out.append(", Parent Column: ");
                out.append(rel[e].1.0.as_str());
                out.append(", Child Column: ");
                out.append(rel[e].1.1.as_str());
                proof {
                    assert(entries.take(e + 1).drop_last() =~= entries.take(e as int));
                    assert(entries[e as int] == entry_view(rel@[e as int]));
                    assert(out@ =~= prior + entry_line(entries[e as int]));
                }
                e = e + 1;
            }
            proof {
                assert(entries.take(entries.len() as int) =~= entries);
                assert(self.relationships@.take(k + 1).drop_last() =~= self.relationships@.take(k as int));
            }
            k = k + 1;
        }
        proof {
            assert(self.relationships@.take(self.relationships@.len() as int) =~= self.relationships@);
        }
        out
    }
}

} // verus!
