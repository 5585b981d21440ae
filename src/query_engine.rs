//! The query compiler: a `DataRequest` checked against the catalog and
//! rendered to one SQL statement.
use vstd::prelude::*;
use crate::error::{text_result, Failure, PersistenceError};
use crate::fields::{column_datatype, distinct, extract_table_columns, find_column_datatype, table_part};
use crate::join::{handle_required_table, required_join};
use crate::models::{DataRequest, Dimension, Filter, Metric, Order, OrderBy, Table};
use crate::render::{
    dimensions_sql, dimensions_to_sql, filters_sql, filters_to_sql, metrics_sql, metrics_to_sql,
    types_view,
};
use crate::text::{decimal, decimal_text, join_seq, views};

verus! {

/// The fields of the metrics, in order.
pub open spec fn metric_fields(req: DataRequest) -> Seq<Seq<char>> {
    match req.metrics {
        Some(ms) => ms@.map_values(|m: Metric| m.field@),
        None => Seq::empty(),
    }
}

/// The fields of the dimensions, in order.
pub open spec fn dimension_fields(req: DataRequest) -> Seq<Seq<char>> {
    match req.dimensions {
        Some(ds) => ds@.map_values(|d: Dimension| d.field@),
        None => Seq::empty(),
    }
}

/// The fields of the filters' dimensions, in order.
pub open spec fn filter_fields(req: DataRequest) -> Seq<Seq<char>> {
    match req.filters {
        Some(fs) => fs@.map_values(|f: Filter| f.dimension.field@),
        None => Seq::empty(),
    }
}

/// Every field the request references: metrics, then dimensions, then filters.
pub open spec fn referenced_fields(req: DataRequest) -> Seq<Seq<char>> {
    metric_fields(req) + dimension_fields(req) + filter_fields(req)
}

/// The keys of a field→datatype list.
pub open spec fn keys(types: Seq<(Seq<char>, Seq<char>)>) -> Seq<Seq<char>> {
    types.map_values(|e: (Seq<char>, Seq<char>)| e.0)
}

/// The field→datatype list of `fields`: each field once, where it first
/// occurs, with its catalog datatype; or the first field the catalog lacks.
pub open spec fn resolve(tables: Seq<Table>, fields: Seq<Seq<char>>) -> Result<
    Seq<(Seq<char>, Seq<char>)>,
    Failure,
>
    decreases fields.len(),
{
    if fields.len() == 0 {
        Ok(Seq::empty())
    } else {
        match resolve(tables, fields.drop_last()) {
            Err(e) => Err(e),
            Ok(types) => match column_datatype(tables, fields.last()) {
                None => Err(Failure::FieldNotFound(fields.last())),
                Some(dt) => if keys(types).contains(fields.last()) {
                    Ok(types)
                } else {
                    Ok(types.push((fields.last(), dt)))
                },
            },
        }
    }
}

/// `i` is the first ordering field that the request does not reference.
pub open spec fn first_unreferenced(order: Seq<Seq<char>>, fields: Seq<Seq<char>>, i: int) -> bool {
    &&& 0 <= i < order.len()
    &&& !fields.contains(order[i])
    &&& forall|j: int| 0 <= j < i ==> fields.contains(order[j])
}

/// The ORDER BY clause; its fields must be among those the request references.
pub open spec fn order_sql(ob: Option<OrderBy>, fields: Seq<Seq<char>>) -> Result<Seq<char>, Failure> {
    match ob {
        None => Ok(Seq::empty()),
        Some(o) => {
            let order = views(o.field@);
            if exists|i: int| first_unreferenced(order, fields, i) {
                Err(Failure::FieldNotFound(order[choose|i: int| first_unreferenced(order, fields, i)]))
            } else if order.len() == 0 {
                Ok(Seq::empty())
            } else {
                Ok(
                    " order by "@ + join_seq(order, ", "@) + match o.order {
                        Order::Asc => " asc"@,
                        Order::Desc => " desc"@,
                    },
                )
            }
        },
    }
}

/// The LIMIT clause.
pub open spec fn limit_sql(limit: Option<i32>) -> Seq<char> {
    match limit {
        None => Seq::empty(),
        Some(n) => " limit "@ + decimal(n as int),
    }
}

/// `text` preceded by `lead`, or nothing when `text` is empty.
pub open spec fn clause(lead: Seq<char>, text: Seq<char>) -> Seq<char> {
    if text.len() == 0 {
        Seq::empty()
    } else {
        lead + text
    }
}

/// `SELECT <dims> , <metrics> FROM <joins> [where ...] [group by ...] [order by ...] [limit ...] ;`
pub open spec fn statement(
    dims: Seq<char>,
    metrics: Seq<char>,
    from: Seq<char>,
    filters: Seq<char>,
    group: Seq<char>,
    order: Seq<char>,
    limit: Seq<char>,
) -> Seq<char> {
    "SELECT "@ + dims + (if dims.len() > 0 && metrics.len() > 0 {
        " , "@
    } else {
        Seq::empty()
    }) + metrics + " FROM "@ + from + clause(" "@, filters) + clause(" group by "@, group) + order + limit
        + " ;"@
}

/// The metrics' list, empty when the request has none.
pub open spec fn request_metrics_sql(req: DataRequest) -> Result<Seq<char>, Failure> {
    match req.metrics {
        Some(ms) => metrics_sql(ms@),
        None => Ok(Seq::empty()),
    }
}

/// The dimensions' list, empty when the request has none.
pub open spec fn request_dimensions_sql(req: DataRequest, group: bool) -> Result<Seq<char>, Failure> {
    match req.dimensions {
        Some(ds) => dimensions_sql(ds@, group),
        None => Ok(Seq::empty()),
    }
}

/// The WHERE clause, empty when the request has no filter.
pub open spec fn request_filters_sql(req: DataRequest, types: Seq<(Seq<char>, Seq<char>)>) -> Result<
    Seq<char>,
    Failure,
> {
    match req.filters {
        Some(fs) => filters_sql(fs@, types),
        None => Ok(Seq::empty()),
    }
}

/// The tables that the request's fields name, each once, in first-seen order.
pub open spec fn required_table_names(req: DataRequest) -> Seq<Seq<char>> {
    distinct(referenced_fields(req).map_values(|f: Seq<char>| table_part(f)))
}

/// The SQL statement for `req` over the catalog, or the first failure: an
/// unknown field, then the allow-lists of metrics, dimensions and filters,
/// then the ordering fields, then the join path.
pub open spec fn compile(req: DataRequest, tables: Seq<Table>) -> Result<Seq<char>, Failure> {
    let fields = referenced_fields(req);
    match resolve(tables, fields) {
        Err(e) => Err(e),
        Ok(types) => match request_metrics_sql(req) {
            Err(e) => Err(e),
            Ok(ms) => match request_dimensions_sql(req, false) {
                Err(e) => Err(e),
                Ok(ds) => match request_dimensions_sql(req, true) {
                    Err(e) => Err(e),
                    Ok(gs) => match request_filters_sql(req, types) {
                        Err(e) => Err(e),
                        Ok(ws) => match order_sql(req.orderby, fields) {
                            Err(e) => Err(e),
                            Ok(os) => match required_join(tables, required_table_names(req)) {
                                Err(e) => Err(e),
                                Ok(from) => Ok(statement(ds, ms, from, ws, gs, os, limit_sql(req.limit))),
                            },
                        },
                    },
                },
            },
        },
    }
}

/// Every field that `query` references: metrics, then dimensions, then filters.
pub fn referenced_field_list(query: &DataRequest) -> (r: Vec<String>)
    ensures
        views(r@) == referenced_fields(*query),
{
    let mut all: Vec<String> = Vec::new();
    if let Some(ms) = &query.metrics {
        let mut i: usize = 0;
        while i < ms.len()
            invariant
                i <= ms@.len(),
                views(all@) == ms@.take(i as int).map_values(|m: Metric| m.field@),
            decreases ms@.len() - i,
        {
            let f = ms[i].field.clone();
            let ghost before = all@;
            all.push(f);
            proof {
                assert(f@ == ms@[i as int].field@);
                assert(all@ == before.push(f));
                assert(views(all@) =~= views(before).push(f@));
                assert(ms@.take(i + 1) =~= ms@.take(i as int).push(ms@[i as int]));
                assert(views(all@) =~= ms@.take(i + 1).map_values(|m: Metric| m.field@));
            }
            i = i + 1;
        }
        proof {
            assert(ms@.take(ms@.len() as int) =~= ms@);
        }
    }
    proof {
        assert(views(all@) =~= metric_fields(*query));
    }
    let ghost after_metrics = views(all@);
    if let Some(ds) = &query.dimensions {
        let mut i: usize = 0;
        while i < ds.len()
            invariant
                i <= ds@.len(),
                views(all@) == after_metrics + ds@.take(i as int).map_values(|d: Dimension| d.field@),
            decreases ds@.len() - i,
        {
            let f = ds[i].field.clone();
            let ghost before = all@;
            all.push(f);
            proof {
                assert(f@ == ds@[i as int].field@);
                assert(all@ == before.push(f));
                assert(views(all@) =~= views(before).push(f@));
                assert(ds@.take(i + 1) =~= ds@.take(i as int).push(ds@[i as int]));
                assert(views(all@) =~= after_metrics + ds@.take(i + 1).map_values(|d: Dimension| d.field@));
            }
            i = i + 1;
        }
        proof {
            assert(ds@.take(ds@.len() as int) =~= ds@);
        }
    }
    proof {
        assert(views(all@) =~= metric_fields(*query) + dimension_fields(*query));
    }
    let ghost after_dims = views(all@);
    if let Some(fs) = &query.filters {
        let mut i: usize = 0;
        while i < fs.len()
            invariant
                i <= fs@.len(),
                views(all@) == after_dims + fs@.take(i as int).map_values(|f: Filter| f.dimension.field@),
            decreases fs@.len() - i,
        {
            let f = fs[i].dimension.field.clone();
            let ghost before = all@;
            all.push(f);
            proof {
                assert(f@ == fs@[i as int].dimension.field@);
                assert(all@ == before.push(f));
                assert(views(all@) =~= views(before).push(f@));
                assert(fs@.take(i + 1) =~= fs@.take(i as int).push(fs@[i as int]));
                assert(views(all@) =~= after_dims + fs@.take(i + 1).map_values(
                    |f: Filter| f.dimension.field@,
                ));
            }
            i = i + 1;
        }
        proof {
            assert(fs@.take(fs@.len() as int) =~= fs@);
        }
    }
    proof {
        assert(views(all@) =~= referenced_fields(*query));
    }
    all
}

proof fn lemma_resolve_step(tables: Seq<Table>, fields: Seq<Seq<char>>, i: int)
    requires
        0 <= i < fields.len(),
    ensures
        resolve(tables, fields.take(i + 1)) == match resolve(tables, fields.take(i)) {
            Err(e) => Err(e),
            Ok(types) => match column_datatype(tables, fields[i]) {
                None => Err(Failure::FieldNotFound(fields[i])),
                Some(dt) => if keys(types).contains(fields[i]) {
                    Ok(types)
                } else {
                    Ok(types.push((fields[i], dt)))
                },
            },
        },
{
    assert(fields.take(i + 1).drop_last() =~= fields.take(i));
}

proof fn lemma_resolve_fails(tables: Seq<Table>, fields: Seq<Seq<char>>, i: int)
    requires
        0 <= i < fields.len(),
        resolve(tables, fields.take(i + 1)) is Err,
    ensures
        resolve(tables, fields) == resolve(tables, fields.take(i + 1)),
    decreases fields.len() - i,
{
    if i + 1 < fields.len() {
        lemma_resolve_step(tables, fields, i + 1);
        lemma_resolve_fails(tables, fields, i + 1);
    } else {
        assert(fields.take(i + 1) =~= fields);
    }
}

/// Whether `types` has an entry for `key`.
fn has_key(types: &Vec<(String, String)>, key: &str) -> (r: bool)
    ensures
        r == keys(types_view(types@)).contains(key@),
{
    let ghost ks = keys(types_view(types@));
    let mut i: usize = 0;
    while i < types.len()
        invariant
            i <= types@.len(),
            ks == keys(types_view(types@)),
            forall|j: int| 0 <= j < i ==> ks[j] != key@,
        decreases types@.len() - i,
    {
        if crate::text::same_text(types[i].0.as_str(), key) {
            proof {
                assert(ks[i as int] == key@);
            }
            return true;
        }
        i = i + 1;
    }
    false
}

/// The datatype of each of `fields` in the catalog, each field once, in the
/// order in which fields first occur; fails with the first field that does
/// not resolve.
pub fn resolve_fields(tables: &[Table], fields: &Vec<String>) -> (r: Result<Vec<(String, String)>, PersistenceError>)
    ensures
        match r {
            Ok(types) => resolve(tables@, views(fields@)) == Ok::<Seq<(Seq<char>, Seq<char>)>, Failure>(types_view(types@)),
            Err(e) => resolve(tables@, views(fields@)) == Err::<Seq<(Seq<char>, Seq<char>)>, Failure>(e@),
        },
{
    let ghost fs = views(fields@);
    let mut types: Vec<(String, String)> = Vec::new();
    proof {
        assert(fs.take(0) =~= Seq::<Seq<char>>::empty());
        assert(types_view(types@) =~= Seq::<(Seq<char>, Seq<char>)>::empty());
    }
    let mut i: usize = 0;
    while i < fields.len()
        invariant
            i <= fields@.len(),
            fs == views(fields@),
            resolve(tables@, fs.take(i as int)) == Ok::<Seq<(Seq<char>, Seq<char>)>, Failure>(types_view(types@)),
        decreases fields@.len() - i,
    {
        proof {
            lemma_resolve_step(tables@, fs, i as int);
        }
        let field = fields[i].as_str();
        match find_column_datatype(tables, field) {
            None => {
                proof {
                    lemma_resolve_fails(tables@, fs, i as int);
                }
                return Err(PersistenceError::FieldNotFound(fields[i].clone()));
            },
            Some(dt) => {
                if !has_key(&types, field) {
                    let ghost before = types@;
                    types.push((fields[i].clone(), String::from_str(dt)));
                    proof {
                        assert(types_view(types@) =~= types_view(before).push((fs[i as int], dt@)));
                    }
                }
            },
        }
        i = i + 1;
    }
    proof {
        assert(fs.take(fs.len() as int) =~= fs);
    }
    Ok(types)
}

/// The ORDER BY clause of `orderby`, whose fields must be among `fields`.
pub fn order_clause(orderby: &Option<OrderBy>, fields: &Vec<String>) -> (r: Result<String, PersistenceError>)
    ensures
        text_result(r) == order_sql(*orderby, views(fields@)),
{
    let o = match orderby {
        None => {
            return Ok(String::new());
        },
        Some(o) => o,
    };
    let ghost order = views(o.field@);
    let ghost fs = views(fields@);
    let mut out = String::new();
    let mut i: usize = 0;
    while i < o.field.len()
        invariant
            i <= o.field@.len(),
            order == views(o.field@),
            fs == views(fields@),
            *orderby == Some(*o),
            forall|j: int| 0 <= j < i ==> fs.contains(order[j]),
            out@ == join_seq(order.take(i as int), ", "@),
        decreases o.field@.len() - i,
    {
        if !crate::fields::contains_text(fields, o.field[i].as_str()) {
            proof {
                assert(first_unreferenced(order, fs, i as int));
                let c = choose|c: int| first_unreferenced(order, fs, c);
                assert(c == i as int) by {
                    if c < i {
                        assert(fs.contains(order[c]));
                    } else if c > i {
                        assert(fs.contains(order[i as int]));
                    }
                }
            }
            let missing = o.field[i].clone();
            proof {
                assert(missing@ == order[i as int]);
                assert(exists|c: int| first_unreferenced(order, fs, c));
                assert(*orderby == Some(*o));
                assert(order_sql(*orderby, fs) == Err::<Seq<char>, Failure>(Failure::FieldNotFound(order[i as int])));
            }
            return Err(PersistenceError::FieldNotFound(missing));
        }
        let ghost before = out@;
        if i > 0 {
            out.append(", ");
        }
        out.append(o.field[i].as_str());
        proof {
            assert(order.take(i + 1).drop_last() =~= order.take(i as int));
            if i == 0 {
                assert(out@ =~= order[0]);
            } else {
                assert(out@ =~= before + ", "@ + order[i as int]);
            }
        }
        i = i + 1;
    }
    proof {
        assert(order.take(order.len() as int) =~= order);
        assert(!exists|c: int| first_unreferenced(order, fs, c));
    }
    if o.field.len() == 0 {
        return Ok(String::new());
    }
    let mut clause = String::from_str(" order by ");
    clause.append(out.as_str());
    match o.order {
        Order::Asc => clause.append(" asc"),
        Order::Desc => clause.append(" desc"),
    }
    Ok(clause)
}

/// The LIMIT clause of `limit`.
pub fn limit_clause(limit: Option<i32>) -> (r: String)
    ensures
        r@ == limit_sql(limit),
{
    match limit {
        None => String::new(),
        Some(n) => {
            let mut r = String::from_str(" limit ");
            let digits = decimal_text(n as i64);
            r.append(digits.as_str());
            r
        },
    }
}

/// The statement built from its rendered clauses.
fn assemble(
    dims: &String,
    metrics: &String,
    from: &String,
    filters: &String,
    group: &String,
    order: &String,
    limit: &String,
) -> (r: String)
    ensures
        r@ == statement(dims@, metrics@, from@, filters@, group@, order@, limit@),
{
    let mut sql = String::from_str("SELECT ");
    sql.append(dims.as_str());
    if dims.as_str().unicode_len() > 0 && metrics.as_str().unicode_len() > 0 {
        sql.append(" , ");
    }
    sql.append(metrics.as_str());
    sql.append(" FROM ");
    sql.append(from.as_str());
    if filters.as_str().unicode_len() > 0 {
        sql.append(" ");
        sql.append(filters.as_str());
    }
    if group.as_str().unicode_len() > 0 {
        sql.append(" group by ");
        sql.append(group.as_str());
    }
    sql.append(order.as_str());
    sql.append(limit.as_str());
    sql.append(" ;");
    proof {
        assert(sql@ =~= statement(dims@, metrics@, from@, filters@, group@, order@, limit@));
    }
    sql
}

/// Compiles `query` against the catalog `tables` into one SQL statement:
/// `SELECT <dims> , <metrics> FROM <joins> [where ...] [group by ...]
/// [order by ...] [limit ...] ;`. Fails, rendering nothing, on the first
/// unknown field, operator or transformation, or when no join path exists.
pub fn get_query(query: &DataRequest, tables: &Vec<Table>) -> (r: Result<String, PersistenceError>)
    ensures
        text_result(r) == compile(*query, tables@),
{
    let fields = referenced_field_list(query);
    let types = match resolve_fields(tables.as_slice(), &fields) {
        Err(e) => {
            return Err(e);
        },
        Ok(t) => t,
    };
    let metrics_sql = match &query.metrics {
        Some(ms) => match metrics_to_sql(ms) {
            Err(e) => {
                return Err(e);
            },
            Ok(s) => s,
        },
        None => String::new(),
    };
    let dimensions_sql = match &query.dimensions {
        Some(ds) => match dimensions_to_sql(ds, false) {
            Err(e) => {
                return Err(e);
            },
            Ok(s) => s,
        },
        None => String::new(),
    };
    let group_sql = match &query.dimensions {
        Some(ds) => match dimensions_to_sql(ds, true) {
            Err(e) => {
                return Err(e);
            },
            Ok(s) => s,
        },
        None => String::new(),
    };
    let filters_sql = match &query.filters {
        Some(fs) => match filters_to_sql(fs, &types) {
            Err(e) => {
                return Err(e);
            },
            Ok(s) => s,
        },
        None => String::new(),
    };
    let order_sql = match order_clause(&query.orderby, &fields) {
        Err(e) => {
            return Err(e);
        },
        Ok(s) => s,
    };
    let table_names = extract_table_columns(fields);
    let from_sql = match handle_required_table(tables.as_slice(), &table_names) {
        Err(e) => {
            return Err(e);
        },
        Ok(s) => s,
    };
    let limit_sql = limit_clause(query.limit);
    let sql = assemble(&dimensions_sql, &metrics_sql, &from_sql, &filters_sql, &group_sql, &order_sql, &limit_sql);
    Ok(sql)
}

/// When every field resolves, the field→datatype list holds each field once,
/// holds no other key, and records each field's catalog datatype.
pub proof fn lemma_resolve_complete(tables: Seq<Table>, fields: Seq<Seq<char>>)
    requires
        forall|i: int| 0 <= i < fields.len() ==> (#[trigger] column_datatype(tables, fields[i])) is Some,
    ensures
        resolve(tables, fields) is Ok,
        forall|f: Seq<char>| keys(resolve(tables, fields)->Ok_0).contains(f) <==> fields.contains(f),
        keys(resolve(tables, fields)->Ok_0).no_duplicates(),
        forall|k: int|
            0 <= k < resolve(tables, fields)->Ok_0.len() ==> column_datatype(tables, (#[trigger] resolve(tables, fields)->Ok_0[k]).0)
                == Some(resolve(tables, fields)->Ok_0[k].1),
    decreases fields.len(),
{
    if fields.len() > 0 {
        let prefix = fields.drop_last();
        assert forall|i: int| 0 <= i < prefix.len() implies (#[trigger] column_datatype(tables, prefix[i])) is Some by {
            assert(prefix[i] == fields[i]);
        }
        lemma_resolve_complete(tables, prefix);
        let types = resolve(tables, prefix)->Ok_0;
        let last = fields.last();
        assert(column_datatype(tables, fields[fields.len() - 1]) is Some);
        let dt = column_datatype(tables, last)->Some_0;
        assert forall|f: Seq<char>| fields.contains(f) <==> (prefix.contains(f) || f == last) by {
            if fields.contains(f) {
                let i = choose|i: int| 0 <= i < fields.len() && fields[i] == f;
                if i < fields.len() - 1 {
                    assert(prefix[i] == f);
                }
            }
            if prefix.contains(f) {
                let i = choose|i: int| 0 <= i < prefix.len() && prefix[i] == f;
                assert(fields[i] == f);
            }
            if f == last {
                assert(fields[fields.len() - 1] == f);
            }
        }
        if !keys(types).contains(last) {
            let pushed = types.push((last, dt));
            assert(keys(pushed) =~= keys(types).push(last));
            assert forall|f: Seq<char>| keys(pushed).contains(f) <==> (keys(types).contains(f) || f == last) by {
                if keys(pushed).contains(f) {
                    let i = choose|i: int| 0 <= i < keys(pushed).len() && keys(pushed)[i] == f;
                    if i < types.len() {
                        assert(keys(types)[i] == f);
                    }
                }
                if keys(types).contains(f) {
                    let i = choose|i: int| 0 <= i < keys(types).len() && keys(types)[i] == f;
                    assert(keys(pushed)[i] == f);
                }
                if f == last {
                    assert(keys(pushed)[types.len() as int] == f);
                }
            }
            assert forall|k: int| 0 <= k < pushed.len() implies column_datatype(tables, (#[trigger] pushed[k]).0)
                == Some(pushed[k].1) by {
                if k < types.len() {
                    assert(pushed[k] == types[k]);
                }
            }
        }
    }
}

/// For a request whose fields all resolve, the field→datatype list has as
/// keys exactly the fields of its metrics, dimensions and filters, each once,
/// each with its catalog datatype.
pub proof fn lemma_field_types_exact(req: DataRequest, tables: Seq<Table>)
    requires
        forall|i: int|
            0 <= i < referenced_fields(req).len() ==> (#[trigger] column_datatype(tables, referenced_fields(req)[i])) is Some,
    ensures
        resolve(tables, referenced_fields(req)) is Ok,
        forall|f: Seq<char>|
            keys(resolve(tables, referenced_fields(req))->Ok_0).contains(f) <==> referenced_fields(req).contains(f),
        keys(resolve(tables, referenced_fields(req))->Ok_0).no_duplicates(),
        forall|k: int|
            0 <= k < resolve(tables, referenced_fields(req))->Ok_0.len() ==> column_datatype(
                tables,
                (#[trigger] resolve(tables, referenced_fields(req))->Ok_0[k]).0,
            ) == Some(resolve(tables, referenced_fields(req))->Ok_0[k].1),
{
    lemma_resolve_complete(tables, referenced_fields(req));
}

/// The position of the first field of `fields` that does not resolve, no
/// later than `i`, which does not.
proof fn lemma_first_unresolved(tables: Seq<Table>, fields: Seq<Seq<char>>, i: int) -> (j: int)
    requires
        0 <= i < fields.len(),
        column_datatype(tables, fields[i]) is None,
    ensures
        0 <= j <= i,
        column_datatype(tables, fields[j]) is None,
        forall|k: int| 0 <= k < j ==> (#[trigger] column_datatype(tables, fields[k])) is Some,
    decreases i,
{
    if forall|k: int| 0 <= k < i ==> (#[trigger] column_datatype(tables, fields[k])) is Some {
        i
    } else {
        let k = choose|k: int| 0 <= k < i && (#[trigger] column_datatype(tables, fields[k])) is None;
        lemma_first_unresolved(tables, fields, k)
    }
}

/// A request that references a field absent from the catalog does not
/// compile: the failure is `FieldNotFound` naming a referenced field that the
/// catalog lacks, the first such one (so exactly that field when it is the
/// only one), and no SQL is produced.
pub proof fn lemma_unknown_field_rejected(req: DataRequest, tables: Seq<Table>, i: int)
    requires
        0 <= i < referenced_fields(req).len(),
        column_datatype(tables, referenced_fields(req)[i]) is None,
    ensures
        exists|j: int|
            0 <= j <= i && column_datatype(tables, referenced_fields(req)[j]) is None && (forall|k: int|
                0 <= k < j ==> (#[trigger] column_datatype(tables, referenced_fields(req)[k])) is Some)
                && compile(req, tables) == Err::<Seq<char>, Failure>(
                Failure::FieldNotFound(referenced_fields(req)[j]),
            ),
{
    let fields = referenced_fields(req);
    let j = lemma_first_unresolved(tables, fields, i);
    let prefix = fields.take(j);
    assert forall|k: int| 0 <= k < prefix.len() implies (#[trigger] column_datatype(tables, prefix[k])) is Some by {
        assert(prefix[k] == fields[k]);
    }
    lemma_resolve_complete(tables, prefix);
    lemma_resolve_step(tables, fields, j);
    lemma_resolve_fails(tables, fields, j);
    assert(compile(req, tables) == Err::<Seq<char>, Failure>(Failure::FieldNotFound(fields[j])));
}

/// Compiling the same request against the same catalog twice gives the same
/// text: any two results that `get_query` may return for them are equal.
pub proof fn lemma_compile_idempotent(
    req: DataRequest,
    tables: Seq<Table>,
    first: Result<String, PersistenceError>,
    second: Result<String, PersistenceError>,
)
    requires
        text_result(first) == compile(req, tables),
        text_result(second) == compile(req, tables),
    ensures
        text_result(first) == text_result(second),
        first is Ok <==> second is Ok,
        first is Ok ==> first->Ok_0@ == second->Ok_0@,
{
}

} // verus!
