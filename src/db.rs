//! Backend selection, schema-introspection statements, and the row
//! normaliser's plan: which raw column lands under which requested name, read
//! as what.
use vstd::prelude::*;
use crate::text::{same_text, views};

verus! {

/// The supported backend engines.
#[derive(Debug, Clone, Copy, PartialEq, Eq)]
pub enum Backend {
    Mysql,
    Postgres,
    Clickhouse,
}

/// The backend a configuration value names.
pub open spec fn backend_named(name: Seq<char>) -> Option<Backend> {
    if name == "mysql"@ {
        Some(Backend::Mysql)
    } else if name == "postgres"@ {
        Some(Backend::Postgres)
    } else if name == "clickhouse"@ {
        Some(Backend::Clickhouse)
    } else {
        None
    }
}

/// The backend that `db_type` selects, if it is supported.
pub fn backend_of(db_type: &str) -> (r: Option<Backend>)
    ensures
        r == backend_named(db_type@),
{
    if same_text(db_type, "mysql") {
        Some(Backend::Mysql)
    } else if same_text(db_type, "postgres") {
        Some(Backend::Postgres)
    } else if same_text(db_type, "clickhouse") {
        Some(Backend::Clickhouse)
    } else {
        None
    }
}

/// The statement listing a MySQL database's columns of `table_name`.
pub open spec fn mysql_column_query(table_name: Seq<char>) -> Seq<char> {
    "SELECT column_name, data_type FROM information_schema.columns WHERE table_schema = DATABASE() AND table_name = '"@
        + table_name + "'"@
}

/// The statement listing a PostgreSQL schema's columns of `table_name`.
pub open spec fn postgres_column_query(table_name: Seq<char>) -> Seq<char> {
    "SELECT column_name, data_type FROM information_schema.columns WHERE table_schema = current_schema() AND table_name = '"@
        + table_name + "'"@
}

/// The statement listing a ClickHouse database's columns of `table_name`.
pub open spec fn clickhouse_column_query(table_name: Seq<char>) -> Seq<char> {
    "SELECT name AS column_name, type AS data_type FROM system.columns WHERE database = currentDatabase() AND table = '"@
        + table_name + "'"@
}

/// The column-listing statement of `backend` for `table_name`.
pub open spec fn column_query_spec(backend: Backend, table_name: Seq<char>) -> Seq<char> {
    match backend {
        Backend::Mysql => mysql_column_query(table_name),
        Backend::Postgres => postgres_column_query(table_name),
        Backend::Clickhouse => clickhouse_column_query(table_name),
    }
}

/// `prefix`, then `table_name`, then a closing quote.
fn quoted_query(prefix: &str, table_name: &str) -> (r: String)
    ensures
        r@ == prefix@ + table_name@ + "'"@,
{
    let mut r = String::from_str(prefix);
    r.append(table_name);
    r.append("'");
    r
}

/// The MySQL statement that lists the columns of `table_name` with their types.
pub fn column_query(table_name: &str) -> (r: String)
    ensures
        r@ == mysql_column_query(table_name@),
{
    quoted_query(
        "SELECT column_name, data_type FROM information_schema.columns WHERE table_schema = DATABASE() AND table_name = '",
        table_name,
    )
}

/// The statement of `backend` that lists the columns of `table_name` with
/// their types.
pub fn column_query_for(backend: Backend, table_name: &str) -> (r: String)
    ensures
        r@ == column_query_spec(backend, table_name@),
{
    match backend {
        Backend::Mysql => column_query(table_name),
        Backend::Postgres => quoted_query(
            "SELECT column_name, data_type FROM information_schema.columns WHERE table_schema = current_schema() AND table_name = '",
            table_name,
        ),
        Backend::Clickhouse => quoted_query(
            "SELECT name AS column_name, type AS data_type FROM system.columns WHERE database = currentDatabase() AND table = '",
            table_name,
        ),
    }
}

/// The statement of `backend` that lists the tables of the current database.
pub fn table_query(backend: Backend) -> (r: &'static str)
    ensures
        r@ == match backend {
            Backend::Mysql => "SELECT table_name FROM information_schema.tables WHERE table_schema = DATABASE()"@,
            Backend::Postgres => "SELECT table_name FROM information_schema.tables WHERE table_schema = current_schema() AND table_name NOT LIKE 'sys_%' AND table_name NOT LIKE 'pg_%' AND table_name NOT IN ('geography_columns', 'geometry_columns')"@,
            Backend::Clickhouse => "SELECT name FROM system.tables WHERE database = currentDatabase()"@,
        },
{
    match backend {
        Backend::Mysql => "SELECT table_name FROM information_schema.tables WHERE table_schema = DATABASE()",
        Backend::Postgres => "SELECT table_name FROM information_schema.tables WHERE table_schema = current_schema() AND table_name NOT LIKE 'sys_%' AND table_name NOT LIKE 'pg_%' AND table_name NOT IN ('geography_columns', 'geometry_columns')",
        Backend::Clickhouse => "SELECT name FROM system.tables WHERE database = currentDatabase()",
    }
}

/// How a raw cell of a recognised native type is read from a driver row.
#[derive(Debug, Clone, Copy, PartialEq, Eq)]
pub enum NativeKind {
    Text,
    Uuid,
    Timestamp,
    Int8,
    Int16,
    Int32,
    Int64,
    Float32,
    Float64,
}

/// The canonical value a native kind normalises to.
#[derive(Debug, Clone, Copy, PartialEq, Eq)]
pub enum ValueClass {
    /// `AttributeValue::String`: text, identifiers, timestamps.
    Text,
    /// `AttributeValue::Float`: every integer and floating type.
    Number,
}

/// Identifier-like, text-like and temporal kinds become text; integer and
/// floating kinds become numbers.
pub open spec fn class_of(kind: NativeKind) -> ValueClass {
    match kind {
        NativeKind::Text | NativeKind::Uuid | NativeKind::Timestamp => ValueClass::Text,
        _ => ValueClass::Number,
    }
}

/// The canonical class of `kind`.
pub fn value_class(kind: NativeKind) -> (r: ValueClass)
    ensures
        r == class_of(kind),
{
    match kind {
        NativeKind::Text | NativeKind::Uuid | NativeKind::Timestamp => ValueClass::Text,
        _ => ValueClass::Number,
    }
}

/// MySQL's column types (as `ColumnType` names them) that the normaliser reads.
pub open spec fn mysql_kind(tag: Seq<char>) -> Option<NativeKind> {
    if tag == "MYSQL_TYPE_TINY"@ || tag == "MYSQL_TYPE_SHORT"@ || tag == "MYSQL_TYPE_LONG"@
        || tag == "MYSQL_TYPE_LONGLONG"@ || tag == "MYSQL_TYPE_INT24"@ || tag == "MYSQL_TYPE_YEAR"@ {
        Some(NativeKind::Int64)
    } else if tag == "MYSQL_TYPE_FLOAT"@ || tag == "MYSQL_TYPE_DOUBLE"@ || tag == "MYSQL_TYPE_DECIMAL"@
        || tag == "MYSQL_TYPE_NEWDECIMAL"@ {
        Some(NativeKind::Float64)
    } else if tag == "MYSQL_TYPE_VARCHAR"@ || tag == "MYSQL_TYPE_VAR_STRING"@ || tag == "MYSQL_TYPE_STRING"@
        || tag == "MYSQL_TYPE_ENUM"@ || tag == "MYSQL_TYPE_SET"@ || tag == "MYSQL_TYPE_JSON"@
        || tag == "MYSQL_TYPE_BLOB"@ || tag == "MYSQL_TYPE_TINY_BLOB"@ || tag == "MYSQL_TYPE_MEDIUM_BLOB"@
        || tag == "MYSQL_TYPE_LONG_BLOB"@ {
        Some(NativeKind::Text)
    } else if tag == "MYSQL_TYPE_DATE"@ || tag == "MYSQL_TYPE_DATETIME"@ || tag == "MYSQL_TYPE_TIMESTAMP"@
        || tag == "MYSQL_TYPE_TIME"@ {
        Some(NativeKind::Timestamp)
    } else {
        None
    }
}

/// PostgreSQL's type names that the normaliser reads.
pub open spec fn postgres_kind(tag: Seq<char>) -> Option<NativeKind> {
    if tag == "uuid"@ {
        Some(NativeKind::Uuid)
    } else if tag == "text"@ || tag == "varchar"@ {
        Some(NativeKind::Text)
    } else if tag == "timestamp"@ {
        Some(NativeKind::Timestamp)
    } else if tag == "int2"@ {
        Some(NativeKind::Int16)
    } else if tag == "int4"@ {
        Some(NativeKind::Int32)
    } else if tag == "int8"@ {
        Some(NativeKind::Int64)
    } else if tag == "float4"@ {
        Some(NativeKind::Float32)
    } else if tag == "float8"@ {
        Some(NativeKind::Float64)
    } else {
        None
    }
}

/// ClickHouse's type names that the normaliser reads.
pub open spec fn clickhouse_kind(tag: Seq<char>) -> Option<NativeKind> {
    if tag == "String"@ {
        Some(NativeKind::Text)
    } else if tag == "Int8"@ {
        Some(NativeKind::Int8)
    } else if tag == "Int16"@ {
        Some(NativeKind::Int16)
    } else if tag == "Int32"@ {
        Some(NativeKind::Int32)
    } else if tag == "Int64"@ {
        Some(NativeKind::Int64)
    } else if tag == "Float32"@ {
        Some(NativeKind::Float32)
    } else if tag == "Float64"@ {
        Some(NativeKind::Float64)
    } else {
        None
    }
}

/// The kind of a native type tag of `backend`; `None` for types the
/// normaliser does not recognise.
pub open spec fn kind_of(backend: Backend, tag: Seq<char>) -> Option<NativeKind> {
    match backend {
        Backend::Mysql => mysql_kind(tag),
        Backend::Postgres => postgres_kind(tag),
        Backend::Clickhouse => clickhouse_kind(tag),
    }
}

fn mysql_kind_of(tag: &str) -> (r: Option<NativeKind>)
    ensures
        r == mysql_kind(tag@),
{
    if same_text(tag, "MYSQL_TYPE_TINY") || same_text(tag, "MYSQL_TYPE_SHORT") || same_text(tag, "MYSQL_TYPE_LONG")
        || same_text(tag, "MYSQL_TYPE_LONGLONG") || same_text(tag, "MYSQL_TYPE_INT24") || same_text(
        tag,
        "MYSQL_TYPE_YEAR",
    ) {
        Some(NativeKind::Int64)
    } else if same_text(tag, "MYSQL_TYPE_FLOAT") || same_text(tag, "MYSQL_TYPE_DOUBLE") || same_text(
        tag,
        "MYSQL_TYPE_DECIMAL",
    ) || same_text(tag, "MYSQL_TYPE_NEWDECIMAL") {
        Some(NativeKind::Float64)
    } else if same_text(tag, "MYSQL_TYPE_VARCHAR") || same_text(tag, "MYSQL_TYPE_VAR_STRING") || same_text(
        tag,
        "MYSQL_TYPE_STRING",
    ) || same_text(tag, "MYSQL_TYPE_ENUM") || same_text(tag, "MYSQL_TYPE_SET") || same_text(tag, "MYSQL_TYPE_JSON")
        || same_text(tag, "MYSQL_TYPE_BLOB") || same_text(tag, "MYSQL_TYPE_TINY_BLOB") || same_text(
        tag,
        "MYSQL_TYPE_MEDIUM_BLOB",
    ) || same_text(tag, "MYSQL_TYPE_LONG_BLOB") {
        Some(NativeKind::Text)
    } else if same_text(tag, "MYSQL_TYPE_DATE") || same_text(tag, "MYSQL_TYPE_DATETIME") || same_text(
        tag,
        "MYSQL_TYPE_TIMESTAMP",
    ) || same_text(tag, "MYSQL_TYPE_TIME") {
        Some(NativeKind::Timestamp)
    } else {
        None
    }
}

fn postgres_kind_of(tag: &str) -> (r: Option<NativeKind>)
    ensures
        r == postgres_kind(tag@),
{
    if same_text(tag, "uuid") {
        Some(NativeKind::Uuid)
    } else if same_text(tag, "text") || same_text(tag, "varchar") {
        Some(NativeKind::Text)
    } else if same_text(tag, "timestamp") {
        Some(NativeKind::Timestamp)
    } else if same_text(tag, "int2") {
        Some(NativeKind::Int16)
    } else if same_text(tag, "int4") {
        Some(NativeKind::Int32)
    } else if same_text(tag, "int8") {
        Some(NativeKind::Int64)
    } else if same_text(tag, "float4") {
        Some(NativeKind::Float32)
    } else if same_text(tag, "float8") {
        Some(NativeKind::Float64)
    } else {
        None
    }
}

fn clickhouse_kind_of(tag: &str) -> (r: Option<NativeKind>)
    ensures
        r == clickhouse_kind(tag@),
{
    if same_text(tag, "String") {
        Some(NativeKind::Text)
    } else if same_text(tag, "Int8") {
        Some(NativeKind::Int8)
    } else if same_text(tag, "Int16") {
        Some(NativeKind::Int16)
    } else if same_text(tag, "Int32") {
        Some(NativeKind::Int32)
    } else if same_text(tag, "Int64") {
        Some(NativeKind::Int64)
    } else if same_text(tag, "Float32") {
        Some(NativeKind::Float32)
    } else if same_text(tag, "Float64") {
        Some(NativeKind::Float64)
    } else {
        None
    }
}

/// The kind of the native type `tag` of `backend`, if the normaliser reads it.
pub fn native_kind(backend: Backend, tag: &str) -> (r: Option<NativeKind>)
    ensures
        r == kind_of(backend, tag@),
{
    match backend {
        Backend::Mysql => mysql_kind_of(tag),
        Backend::Postgres => postgres_kind_of(tag),
        Backend::Clickhouse => clickhouse_kind_of(tag),
    }
}

/// What a driver reports of one raw cell: its native type tag and whether it
/// holds null.
#[derive(Debug, Clone)]
pub struct RawCell {
    pub type_tag: String,
    pub is_null: bool,
}

/// One entry of a normalised row: the requested name it goes under, the raw
/// position it comes from, and how it is read (`None`: it is null).
#[derive(Debug, Clone)]
pub struct CellSlot {
    pub key: String,
    pub index: usize,
    pub read: Option<NativeKind>,
}

/// The entry for raw position `i`: kept when a requested name exists at that
/// position and the cell is null or of a recognised type.
pub open spec fn slot_at(backend: Backend, headers: Seq<Seq<char>>, cells: Seq<RawCell>, i: int) -> Option<
    (Seq<char>, Option<NativeKind>),
> {
    if i >= headers.len() {
        None
    } else if cells[i].is_null {
        Some((headers[i], None))
    } else {
        match kind_of(backend, cells[i].type_tag@) {
            Some(k) => Some((headers[i], Some(k))),
            None => None,
        }
    }
}

/// The entries of the first `n` raw positions, in position order.
pub open spec fn row_plan(backend: Backend, headers: Seq<Seq<char>>, cells: Seq<RawCell>, n: int) -> Seq<
    (Seq<char>, int, Option<NativeKind>),
>
    decreases n,
{
    if n <= 0 {
        Seq::empty()
    } else {
        let before = row_plan(backend, headers, cells, n - 1);
        match slot_at(backend, headers, cells, n - 1) {
            Some(s) => before.push((s.0, n - 1, s.1)),
            None => before,
        }
    }
}

/// Slots as values.
pub open spec fn slots_view(slots: Seq<CellSlot>) -> Seq<(Seq<char>, int, Option<NativeKind>)> {
    slots.map_values(|s: CellSlot| (s.key@, s.index as int, s.read))
}

/// How to normalise one raw row: for each raw position that has a requested
/// name (`headers`, by position), in order, the name and how to read the
/// cell — null cells become null values, cells of a type the backend's table
/// does not recognise are left out, positions beyond the names are ignored.
pub fn plan_row(backend: Backend, headers: &Vec<String>, cells: &Vec<RawCell>) -> (r: Vec<CellSlot>)
    ensures
        slots_view(r@) == row_plan(backend, views(headers@), cells@, cells@.len() as int),
{
    let ghost hs = views(headers@);
    let mut slots: Vec<CellSlot> = Vec::new();
    let mut i: usize = 0;
    while i < cells.len()
        invariant
            i <= cells@.len(),
            hs == views(headers@),
            slots_view(slots@) == row_plan(backend, hs, cells@, i as int),
        decreases cells@.len() - i,
    {
        if i < headers.len() {
            let read = if cells[i].is_null {
                Some(None)
            } else {
                match native_kind(backend, cells[i].type_tag.as_str()) {
                    Some(k) => Some(Some(k)),
                    None => None,
                }
            };
            if let Some(read) = read {
                let ghost before = slots@;
                slots.push(CellSlot { key: headers[i].clone(), index: i, read });
                proof {
                    assert(slots_view(slots@) =~= slots_view(before).push((hs[i as int], i as int, read)));
                }
            }
        }
        i = i + 1;
    }
    slots
}

/// The row plan of the first `n` raw positions keeps, in increasing
/// position order, exactly the positions that have a requested name and hold
/// null or a recognised type: each under the name at its position, a null
/// cell as null, any other as its type's kind. Cells of unrecognised types
/// are left out, and nothing fails.
pub proof fn lemma_row_plan_cells(backend: Backend, headers: Seq<Seq<char>>, cells: Seq<RawCell>, n: int)
    requires
        0 <= n <= cells.len(),
    ensures
        forall|k: int|
            0 <= k < row_plan(backend, headers, cells, n).len() ==> {
                let (key, i, read) = #[trigger] row_plan(backend, headers, cells, n)[k];
                &&& 0 <= i < n
                &&& i < headers.len()
                &&& key == headers[i]
                &&& if cells[i].is_null {
                    read is None
                } else {
                    read is Some && read == kind_of(backend, cells[i].type_tag@)
                }
            },
        forall|k: int, l: int|
            0 <= k < l < row_plan(backend, headers, cells, n).len() ==> (#[trigger] row_plan(
                backend,
                headers,
                cells,
                n,
            )[k]).1 < (#[trigger] row_plan(backend, headers, cells, n)[l]).1,
        forall|i: int|
            0 <= i < n && i < headers.len() ==> ((cells[i].is_null || kind_of(backend, cells[i].type_tag@) is Some)
                <==> exists|k: int|
                0 <= k < row_plan(backend, headers, cells, n).len() && (#[trigger] row_plan(
                    backend,
                    headers,
                    cells,
                    n,
                )[k]).1 == i),
    decreases n,
{
    if n > 0 {
        lemma_row_plan_cells(backend, headers, cells, n - 1);
        let before = row_plan(backend, headers, cells, n - 1);
        let now = row_plan(backend, headers, cells, n);
        assert forall|i: int|
            0 <= i < n && i < headers.len() implies ((cells[i].is_null || kind_of(backend, cells[i].type_tag@) is Some)
            <==> exists|k: int| 0 <= k < now.len() && (#[trigger] now[k]).1 == i) by {
            if i < n - 1 {
                if exists|k: int| 0 <= k < now.len() && (#[trigger] now[k]).1 == i {
                    let k = choose|k: int| 0 <= k < now.len() && (#[trigger] now[k]).1 == i;
                    if k < before.len() {
                        assert(now[k] == before[k]);
                    }
                }
                if exists|k: int| 0 <= k < before.len() && (#[trigger] before[k]).1 == i {
                    let k = choose|k: int| 0 <= k < before.len() && (#[trigger] before[k]).1 == i;
                    assert(now[k] == before[k]);
                }
            } else {
                if cells[i].is_null || kind_of(backend, cells[i].type_tag@) is Some {
                    assert(now[before.len() as int].1 == i);
                } else {
                    assert(now == before);
                }
            }
        }
        assert forall|k: int, l: int| 0 <= k < l < now.len() implies (#[trigger] now[k]).1 < (#[trigger] now[l]).1 by {
            if l < before.len() {
                assert(now[k] == before[k] && now[l] == before[l]);
            } else if now.len() > before.len() {
                assert(now[k] == before[k]);
            }
        }
    }
}

} // verus!
