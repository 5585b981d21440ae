//! The SQL renderer: metric, dimension and filter expressions. Every dynamic
//! value passes an allow-list (operators, transformations, aggregates) or the
//! datatype-driven quoting rule for literals.
use vstd::prelude::*;
use crate::error::{text_result, Failure, PersistenceError};
use crate::models::{Dimension, Filter, Metric};
use crate::text::{join_seq, same_text};

verus! {

/// What an allow-listed item renders to, or the first failure among `items`.
pub open spec fn render_all<T>(items: Seq<T>, render: spec_fn(T) -> Result<Seq<char>, Failure>) -> Result<
    Seq<Seq<char>>,
    Failure,
>
    decreases items.len(),
{
    if items.len() == 0 {
        Ok(Seq::empty())
    } else {
        match render_all(items.drop_last(), render) {
            Err(e) => Err(e),
            Ok(parts) => match render(items.last()) {
                Err(e) => Err(e),
                Ok(p) => Ok(parts.push(p)),
            },
        }
    }
}

/// The rendered items joined by `sep`, or the first failure.
pub open spec fn render_joined<T>(
    items: Seq<T>,
    render: spec_fn(T) -> Result<Seq<char>, Failure>,
    sep: Seq<char>,
) -> Result<Seq<char>, Failure> {
    match render_all(items, render) {
        Err(e) => Err(e),
        Ok(parts) => Ok(join_seq(parts, sep)),
    }
}

/// The SQL keyword of an allow-listed aggregate operator.
pub open spec fn aggregate_keyword(op: Seq<char>) -> Option<Seq<char>> {
    if op == "sum"@ {
        Some("SUM"@)
    } else if op == "avg"@ {
        Some("AVG"@)
    } else if op == "count"@ {
        Some("COUNT"@)
    } else if op == "max"@ {
        Some("MAX"@)
    } else if op == "min"@ {
        Some("MIN"@)
    } else {
        None
    }
}

/// The SQL keyword of an allow-listed transformation.
pub open spec fn transformation_keyword(t: Seq<char>) -> Option<Seq<char>> {
    if t == "year"@ {
        Some("YEAR"@)
    } else if t == "month"@ {
        Some("MONTH"@)
    } else {
        None
    }
}

/// The allow-listed filter operators.
pub open spec fn is_filter_operator(op: Seq<char>) -> bool {
    op == ">"@ || op == "<"@ || op == "="@
}

/// How a literal compared with a column of datatype `dt` is written:
/// `Some(true)` quoted (text and temporal kinds), `Some(false)` bare (numeric
/// kinds), `None` for datatypes without a rule.
pub open spec fn quoting_of(dt: Seq<char>) -> Option<bool> {
    if dt == "varchar"@ || dt == "datetime"@ {
        Some(true)
    } else if dt == "int"@ || dt == "bigint"@ || dt == "float"@ {
        Some(false)
    } else {
        None
    }
}

/// `(field)`, `KEYWORD(field)` or `KEYWORD(field) as alias`.
pub open spec fn call_expr(keyword: Seq<char>, field: Seq<char>) -> Seq<char> {
    keyword + "("@ + field + ")"@
}

/// `expr as alias`.
pub open spec fn aliased(expr: Seq<char>, alias: Seq<char>) -> Seq<char> {
    expr + " as "@ + alias
}

/// A metric's select expression.
pub open spec fn metric_sql(m: Metric) -> Result<Seq<char>, Failure> {
    match m.aggregate_operator {
        None => Ok(call_expr(Seq::empty(), m.field@)),
        Some(op) => match aggregate_keyword(op@) {
            None => Err(Failure::UnknownAggregate(op@)),
            Some(kw) => match m.name {
                Some(n) => Ok(aliased(call_expr(kw, m.field@), n@)),
                None => Ok(call_expr(kw, m.field@)),
            },
        },
    }
}

/// A dimension's expression; in a GROUP BY list (`group`) it carries no alias.
pub open spec fn dimension_sql(d: Dimension, group: bool) -> Result<Seq<char>, Failure> {
    match d.transformation {
        None => Ok(call_expr(Seq::empty(), d.field@)),
        Some(t) => match transformation_keyword(t@) {
            None => Err(Failure::UnknownTransformation(t@)),
            Some(kw) => match d.name {
                Some(n) => if group {
                    Ok(call_expr(kw, d.field@))
                } else {
                    Ok(aliased(call_expr(kw, d.field@), n@))
                },
                None => Ok(call_expr(kw, d.field@)),
            },
        },
    }
}

/// `i` is the first entry of `types` for `key`.
pub open spec fn first_entry(types: Seq<(Seq<char>, Seq<char>)>, key: Seq<char>, i: int) -> bool {
    &&& 0 <= i < types.len()
    &&& types[i].0 == key
    &&& forall|j: int| 0 <= j < i ==> types[j].0 != key
}

/// The datatype that `types` records for `key` (its first entry).
pub open spec fn lookup_type(types: Seq<(Seq<char>, Seq<char>)>, key: Seq<char>) -> Option<Seq<char>> {
    if exists|i: int| first_entry(types, key, i) {
        Some(types[choose|i: int| first_entry(types, key, i)].1)
    } else {
        None
    }
}

/// A field→datatype list as values.
pub open spec fn types_view(types: Seq<(String, String)>) -> Seq<(Seq<char>, Seq<char>)> {
    types.map_values(|e: (String, String)| (e.0@, e.1@))
}

/// A filter's condition `expr OP literal`, the literal quoted by the
/// datatype recorded for the field in `types`.
pub open spec fn filter_sql(f: Filter, types: Seq<(Seq<char>, Seq<char>)>) -> Result<Seq<char>, Failure> {
    match lookup_type(types, f.dimension.field@) {
        None => Err(Failure::FieldNotFound(f.dimension.field@)),
        Some(dt) => if !is_filter_operator(f.filter_operator@) {
            Err(Failure::UnknownFilterOperator(f.filter_operator@))
        } else {
            match quoting_of(dt) {
                None => Err(Failure::UnsupportedDatatype(f.dimension.field@)),
                Some(quoted) => match dimension_sql(f.dimension, true) {
                    Err(e) => Err(e),
                    Ok(expr) => Ok(
                        expr + " "@ + f.filter_operator@ + " "@ + if quoted {
                            seq!['"'] + f.filter_value@ + seq!['"']
                        } else {
                            f.filter_value@
                        },
                    ),
                },
            }
        },
    }
}

/// The metrics' select list.
pub open spec fn metrics_sql(ms: Seq<Metric>) -> Result<Seq<char>, Failure> {
    render_joined(ms, |m: Metric| metric_sql(m), ", "@)
}

/// The dimensions' list, for SELECT or (with `group`) for GROUP BY.
pub open spec fn dimensions_sql(ds: Seq<Dimension>, group: bool) -> Result<Seq<char>, Failure> {
    render_joined(ds, |d: Dimension| dimension_sql(d, group), ", "@)
}

/// The WHERE clause of `fs`: empty when there is no filter.
pub open spec fn filters_sql(fs: Seq<Filter>, types: Seq<(Seq<char>, Seq<char>)>) -> Result<Seq<char>, Failure> {
    if fs.len() == 0 {
        Ok(Seq::empty())
    } else {
        match render_joined(fs, |f: Filter| filter_sql(f, types), " and "@) {
            Err(e) => Err(e),
            Ok(conds) => Ok("where "@ + conds),
        }
    }
}

proof fn lemma_join_push(parts: Seq<Seq<char>>, sep: Seq<char>, p: Seq<char>)
    ensures
        join_seq(parts.push(p), sep) == if parts.len() == 0 {
            p
        } else {
            join_seq(parts, sep) + sep + p
        },
{
    assert(parts.push(p).drop_last() =~= parts);
}

proof fn lemma_render_fails<T>(items: Seq<T>, render: spec_fn(T) -> Result<Seq<char>, Failure>, i: int)
    requires
        0 <= i < items.len(),
        render_all(items.take(i + 1), render) is Err,
    ensures
        render_all(items, render) == render_all(items.take(i + 1), render),
    decreases items.len() - i,
{
    if i + 1 < items.len() {
        lemma_render_step(items, render, i + 1);
        lemma_render_fails(items, render, i + 1);
    } else {
        assert(items.take(i + 1) =~= items);
    }
}

proof fn lemma_render_step<T>(items: Seq<T>, render: spec_fn(T) -> Result<Seq<char>, Failure>, i: int)
    requires
        0 <= i < items.len(),
    ensures
        render_all(items.take(i + 1), render) == match render_all(items.take(i), render) {
            Err(e) => Err(e),
            Ok(parts) => match render(items[i]) {
                Err(e) => Err(e),
                Ok(p) => Ok(parts.push(p)),
            },
        },
{
    assert(items.take(i + 1).drop_last() =~= items.take(i));
}

/// `keyword(field)`.
fn call_text(keyword: &str, field: &str) -> (r: String)
    ensures
        r@ == call_expr(keyword@, field@),
{
    let mut r = String::from_str(keyword);
    r.append("(");
    r.append(field);
    r.append(")");
    r
}

/// `(field)`.
fn bare_text(field: &str) -> (r: String)
    ensures
        r@ == call_expr(Seq::empty(), field@),
{
    let mut r = String::new();
    r.append("(");
    r.append(field);
    r.append(")");
    proof {
        assert(r@ =~= call_expr(Seq::empty(), field@));
    }
    r
}

fn aggregate_keyword_of(op: &str) -> (r: Option<&'static str>)
    ensures
        match r {
            Some(k) => aggregate_keyword(op@) == Some(k@),
            None => aggregate_keyword(op@) is None,
        },
{
    if same_text(op, "sum") {
        Some("SUM")
    } else if same_text(op, "avg") {
        Some("AVG")
    } else if same_text(op, "count") {
        Some("COUNT")
    } else if same_text(op, "max") {
        Some("MAX")
    } else if same_text(op, "min") {
        Some("MIN")
    } else {
        None
    }
}

fn transformation_keyword_of(t: &str) -> (r: Option<&'static str>)
    ensures
        match r {
            Some(k) => transformation_keyword(t@) == Some(k@),
            None => transformation_keyword(t@) is None,
        },
{
    if same_text(t, "year") {
        Some("YEAR")
    } else if same_text(t, "month") {
        Some("MONTH")
    } else {
        None
    }
}

/// The select expression of one metric.
pub fn metric_to_sql(m: &Metric) -> (r: Result<String, PersistenceError>)
    ensures
        text_result(r) == metric_sql(*m),
{
    match &m.aggregate_operator {
        None => Ok(bare_text(m.field.as_str())),
        Some(op) => match aggregate_keyword_of(op.as_str()) {
            None => Err(PersistenceError::UnknownAggregate(op.clone())),
            Some(kw) => {
                let mut r = call_text(kw, m.field.as_str());
                match &m.name {
                    Some(n) => {
                        r.append(" as ");
                        r.append(n.as_str());
                    },
                    None => {},
                }
                Ok(r)
            },
        },
    }
}

/// The expression of one dimension; with `group`, without its alias.
pub fn dimension_to_sql(d: &Dimension, group: bool) -> (r: Result<String, PersistenceError>)
    ensures
        text_result(r) == dimension_sql(*d, group),
{
    match &d.transformation {
        None => Ok(bare_text(d.field.as_str())),
        Some(t) => match transformation_keyword_of(t.as_str()) {
            None => Err(PersistenceError::UnknownTransformation(t.clone())),
            Some(kw) => {
                let mut r = call_text(kw, d.field.as_str());
                match &d.name {
                    Some(n) => {
                        if !group {
                            r.append(" as ");
                            r.append(n.as_str());
                        }
                    },
                    None => {},
                }
                Ok(r)
            },
        },
    }
}

/// The datatype recorded for `key` in `types`.
pub fn find_type<'a>(types: &'a Vec<(String, String)>, key: &str) -> (r: Option<&'a String>)
    ensures
        match r {
            Some(d) => lookup_type(types_view(types@), key@) == Some(d@),
            None => lookup_type(types_view(types@), key@) is None,
        },
{
    let ghost tv = types_view(types@);
    let mut i: usize = 0;
    while i < types.len()
        invariant
            i <= types@.len(),
            tv == types_view(types@),
            forall|j: int| 0 <= j < i ==> tv[j].0 != key@,
        decreases types@.len() - i,
    {
        if same_text(types[i].0.as_str(), key) {
            proof {
                assert(first_entry(tv, key@, i as int));
                let c = choose|c: int| first_entry(tv, key@, c);
                assert(c == i as int) by {
                    if c < i {
                        assert(tv[c].0 != key@);
                    } else if c > i {
                        assert(tv[i as int].0 != key@);
                    }
                }
            }
            return Some(&types[i].1);
        }
        i = i + 1;
    }
    proof {
        if exists|c: int| first_entry(tv, key@, c) {
            let c = choose|c: int| first_entry(tv, key@, c);
            assert(tv[c].0 != key@);
        }
    }
    None
}

/// The condition of one filter, its literal quoted by the datatype that
/// `types` records for the field.
pub fn filter_to_sql(f: &Filter, types: &Vec<(String, String)>) -> (r: Result<String, PersistenceError>)
    ensures
        text_result(r) == filter_sql(*f, types_view(types@)),
{
    let field = f.dimension.field.as_str();
    let dt = match find_type(types, field) {
        None => {
            return Err(PersistenceError::FieldNotFound(f.dimension.field.clone()));
        },
        Some(dt) => dt.as_str(),
    };
    let op = f.filter_operator.as_str();
    if !(same_text(op, ">") || same_text(op, "<") || same_text(op, "=")) {
        return Err(PersistenceError::UnknownFilterOperator(f.filter_operator.clone()));
    }
    let quoted = if same_text(dt, "varchar") || same_text(dt, "datetime") {
        true
    } else if same_text(dt, "int") || same_text(dt, "bigint") || same_text(dt, "float") {
        false
    } else {
        return Err(PersistenceError::UnsupportedDatatype(f.dimension.field.clone()));
    };
    let mut r = match dimension_to_sql(&f.dimension, true) {
        Err(e) => {
            return Err(e);
        },
        Ok(expr) => expr,
    };
    let ghost expr = r@;
    r.append(" ");
    r.append(op);
    r.append(" ");
    if quoted {
        r.push('"');
        r.append(f.filter_value.as_str());
        r.push('"');
        proof {
            assert(r@ =~= expr + " "@ + op@ + " "@ + (seq!['"'] + f.filter_value@ + seq!['"']));
        }
    } else {
        r.append(f.filter_value.as_str());
    }
    Ok(r)
}

/// The metrics' select list, `, `-separated; fails on the first metric whose
/// aggregate operator is not allow-listed.
pub fn metrics_to_sql(metrics: &Vec<Metric>) -> (r: Result<String, PersistenceError>)
    ensures
        text_result(r) == metrics_sql(metrics@),
{
    let ghost render = |m: Metric| metric_sql(m);
    let mut out = String::new();
    let mut i: usize = 0;
    while i < metrics.len()
        invariant
            i <= metrics@.len(),
            render == (|m: Metric| metric_sql(m)),
            render_all(metrics@.take(i as int), render) is Ok,
            out@ == join_seq(render_all(metrics@.take(i as int), render)->Ok_0, ", "@),
        decreases metrics@.len() - i,
    {
        proof {
            lemma_render_step(metrics@, render, i as int);
        }
        let part = match metric_to_sql(&metrics[i]) {
            Err(e) => {
                proof {
                    lemma_render_fails(metrics@, render, i as int);
                }
                return Err(e);
            },
            Ok(p) => p,
        };
        let ghost parts = render_all(metrics@.take(i as int), render)->Ok_0;
        proof {
            lemma_join_push(parts, ", "@, part@);
        }
        if i > 0 {
            out.append(", ");
        } else {
            proof {
                assert(out@ =~= Seq::<char>::empty());
            }
        }
        out.append(part.as_str());
        proof {
            if i == 0 {
                assert(out@ =~= part@);
            }
        }
        i = i + 1;
    }
    proof {
        assert(metrics@.take(metrics@.len() as int) =~= metrics@);
    }
    Ok(out)
}

/// The dimensions' list, `, `-separated; with `group` for a GROUP BY clause
/// (no aliases). Fails on the first transformation that is not allow-listed.
pub fn dimensions_to_sql(dimensions: &Vec<Dimension>, group: bool) -> (r: Result<String, PersistenceError>)
    ensures
        text_result(r) == dimensions_sql(dimensions@, group),
{
    let ghost render = |d: Dimension| dimension_sql(d, group);
    let mut out = String::new();
    let mut i: usize = 0;
    while i < dimensions.len()
        invariant
            i <= dimensions@.len(),
            render == (|d: Dimension| dimension_sql(d, group)),
            render_all(dimensions@.take(i as int), render) is Ok,
            out@ == join_seq(render_all(dimensions@.take(i as int), render)->Ok_0, ", "@),
        decreases dimensions@.len() - i,
    {
        proof {
            lemma_render_step(dimensions@, render, i as int);
        }
        let part = match dimension_to_sql(&dimensions[i], group) {
            Err(e) => {
                proof {
                    lemma_render_fails(dimensions@, render, i as int);
                }
                return Err(e);
            },
            Ok(p) => p,
        };
        let ghost parts = render_all(dimensions@.take(i as int), render)->Ok_0;
        proof {
            lemma_join_push(parts, ", "@, part@);
        }
        if i > 0 {
            out.append(", ");
        } else {
            proof {
                assert(out@ =~= Seq::<char>::empty());
            }
        }
        out.append(part.as_str());
        proof {
            if i == 0 {
                assert(out@ =~= part@);
            }
        }
        i = i + 1;
    }
    proof {
        assert(dimensions@.take(dimensions@.len() as int) =~= dimensions@);
    }
    Ok(out)
}

/// The WHERE clause of `filters` (`where c1 and c2 ...`), empty when there is
/// none. Fails on the first filter that cannot be rendered.
pub fn filters_to_sql(filters: &Vec<Filter>, types: &Vec<(String, String)>) -> (r: Result<String, PersistenceError>)
    ensures
        text_result(r) == filters_sql(filters@, types_view(types@)),
{
    if filters.len() == 0 {
        return Ok(String::new());
    }
    let ghost tv = types_view(types@);
    let ghost render = |f: Filter| filter_sql(f, tv);
    let mut out = String::new();
    let mut i: usize = 0;
    while i < filters.len()
        invariant
            i <= filters@.len(),
            tv == types_view(types@),
            render == (|f: Filter| filter_sql(f, tv)),
            render_all(filters@.take(i as int), render) is Ok,
            out@ == join_seq(render_all(filters@.take(i as int), render)->Ok_0, " and "@),
        decreases filters@.len() - i,
    {
        proof {
            lemma_render_step(filters@, render, i as int);
        }
        let part = match filter_to_sql(&filters[i], types) {
            Err(e) => {
                proof {
                    lemma_render_fails(filters@, render, i as int);
                }
                return Err(e);
            },
            Ok(p) => p,
        };
        let ghost parts = render_all(filters@.take(i as int), render)->Ok_0;
        proof {
            lemma_join_push(parts, " and "@, part@);
        }
        if i > 0 {
            out.append(" and ");
        } else {
            proof {
                assert(out@ =~= Seq::<char>::empty());
            }
        }
        out.append(part.as_str());
        proof {
            if i == 0 {
                assert(out@ =~= part@);
            }
        }
        i = i + 1;
    }
    proof {
        assert(filters@.take(filters@.len() as int) =~= filters@);
    }
    let mut clause = String::from_str("where ");
    clause.append(out.as_str());
    Ok(clause)
}

} // verus!
