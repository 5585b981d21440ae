use query_layer::error::PersistenceError;
use query_layer::fields::{extract_table_columns, find_column_datatype, table_of_field};
use query_layer::join::{generate_join_query, handle_required_table};
use query_layer::models::{Column, DataRequest, Dimension, Filter, Metric, Order, OrderBy, Table};
use query_layer::query_engine::{get_query, limit_clause, order_clause, referenced_field_list, resolve_fields};
use query_layer::render::{
    dimension_to_sql, dimensions_to_sql, filter_to_sql, filters_to_sql, metric_to_sql, metrics_to_sql,
};

fn table(name: &str, columns: &[(&str, &str)]) -> Table {
    let mut t = Table::new(name);
    for (c, d) in columns {
        t.columns.push(Column { name: c.to_string(), datatype: d.to_string() });
    }
    t
}

fn metric(field: &str, op: Option<&str>, name: Option<&str>) -> Metric {
    Metric {
        field: field.to_string(),
        aggregate_operator: op.map(|s| s.to_string()),
        name: name.map(|s| s.to_string()),
        distinct: None,
    }
}

fn dimension(field: &str, transformation: Option<&str>, name: Option<&str>) -> Dimension {
    Dimension {
        field: field.to_string(),
        transformation: transformation.map(|s| s.to_string()),
        name: name.map(|s| s.to_string()),
    }
}

fn filter(field: &str, op: &str, value: &str) -> Filter {
    Filter { dimension: dimension(field, None, None), filter_operator: op.to_string(), filter_value: value.to_string() }
}

fn request(metrics: Option<Vec<Metric>>, dimensions: Option<Vec<Dimension>>, filters: Option<Vec<Filter>>) -> DataRequest {
    DataRequest { metrics, dimensions, filters, orderby: None, limit: None }
}

fn shop_catalog() -> Vec<Table> {
    let mut users = table("users", &[("id", "int"), ("country", "varchar"), ("created", "datetime")]);
    users.add_relationship("orders", "id", "user_id");
    let mut orders = table("orders", &[("id", "int"), ("user_id", "int"), ("total", "float"), ("status", "varchar")]);
    orders.add_relationship("items", "id", "order_id");
    let items = table("items", &[("id", "int"), ("order_id", "int"), ("sku", "varchar")]);
    vec![users, orders, items]
}

#[test]
fn metric_with_aggregate_and_alias() {
    let r = metric_to_sql(&metric("orders.total", Some("sum"), Some("total_sum"))).unwrap();
    assert_eq!(r, "SUM(orders.total) as total_sum");
}

#[test]
fn metric_with_unknown_aggregate_is_rejected() {
    let r = metric_to_sql(&metric("orders.id", Some("bogus"), None));
    assert!(matches!(r, Err(PersistenceError::UnknownAggregate(ref op)) if op == "bogus"));
}

#[test]
fn metric_without_operator_is_passthrough() {
    assert_eq!(metric_to_sql(&metric("orders.total", None, Some("t"))).unwrap(), "(orders.total)");
    assert_eq!(metric_to_sql(&metric("orders.id", Some("count"), None)).unwrap(), "COUNT(orders.id)");
}

#[test]
fn aggregate_names_are_case_sensitive() {
    assert!(metric_to_sql(&metric("orders.id", Some("SUM"), None)).is_err());
}

#[test]
fn metrics_are_comma_separated() {
    let ms = vec![metric("orders.total", Some("avg"), None), metric("orders.id", Some("max"), Some("m"))];
    assert_eq!(metrics_to_sql(&ms).unwrap(), "AVG(orders.total), MAX(orders.id) as m");
    assert_eq!(metrics_to_sql(&vec![]).unwrap(), "");
}

#[test]
fn dimension_rendering() {
    let d = dimension("users.created", Some("year"), Some("y"));
    assert_eq!(dimension_to_sql(&d, false).unwrap(), "YEAR(users.created) as y");
    assert_eq!(dimension_to_sql(&d, true).unwrap(), "YEAR(users.created)");
    assert_eq!(dimension_to_sql(&dimension("users.country", None, Some("c")), false).unwrap(), "(users.country)");
    let ds = vec![dimension("users.created", Some("month"), None), dimension("users.country", None, None)];
    assert_eq!(dimensions_to_sql(&ds, false).unwrap(), "MONTH(users.created), (users.country)");
}

#[test]
fn unknown_transformation_is_rejected() {
    let r = dimension_to_sql(&dimension("users.created", Some("week"), None), false);
    assert!(matches!(r, Err(PersistenceError::UnknownTransformation(ref t)) if t == "week"));
}

fn types() -> Vec<(String, String)> {
    vec![
        ("users.country".to_string(), "varchar".to_string()),
        ("orders.total".to_string(), "float".to_string()),
        ("users.created".to_string(), "datetime".to_string()),
        ("items.weight".to_string(), "decimal".to_string()),
    ]
}

#[test]
fn text_filter_is_quoted() {
    assert_eq!(filter_to_sql(&filter("users.country", "=", "US"), &types()).unwrap(), "(users.country) = \"US\"");
}

#[test]
fn numeric_filter_is_bare() {
    assert_eq!(filter_to_sql(&filter("orders.total", "=", "100"), &types()).unwrap(), "(orders.total) = 100");
}

#[test]
fn filter_errors() {
    let r = filter_to_sql(&filter("users.country", "LIKE", "US"), &types());
    assert!(matches!(r, Err(PersistenceError::UnknownFilterOperator(ref o)) if o == "LIKE"));
    let r = filter_to_sql(&filter("users.name", "=", "x"), &types());
    assert!(matches!(r, Err(PersistenceError::FieldNotFound(ref f)) if f == "users.name"));
    let r = filter_to_sql(&filter("items.weight", ">", "3"), &types());
    assert!(matches!(r, Err(PersistenceError::UnsupportedDatatype(ref f)) if f == "items.weight"));
}

#[test]
fn filters_are_conjoined() {
    let fs = vec![filter("users.country", "=", "US"), filter("orders.total", ">", "10")];
    assert_eq!(filters_to_sql(&fs, &types()).unwrap(), "where (users.country) = \"US\" and (orders.total) > 10");
    assert_eq!(filters_to_sql(&vec![], &types()).unwrap(), "");
}

#[test]
fn column_datatype_lookup() {
    let cat = shop_catalog();
    assert_eq!(find_column_datatype(&cat, "orders.total"), Some("float"));
    assert_eq!(find_column_datatype(&cat, "users.country"), Some("varchar"));
    assert_eq!(find_column_datatype(&cat, "orders.missing"), None);
    assert_eq!(find_column_datatype(&cat, "nobody.id"), None);
    assert_eq!(find_column_datatype(&cat, "orders"), None);
    assert_eq!(find_column_datatype(&cat, "a.orders.id"), None);
}

#[test]
fn table_names_first_seen_and_unique() {
    let fields = vec!["orders.id".to_string(), "users.country".to_string(), "orders.total".to_string(), "plain".to_string()];
    assert_eq!(extract_table_columns(fields), vec!["orders".to_string(), "users".to_string(), "plain".to_string()]);
    assert_eq!(table_of_field("a.b.c"), "a");
}

#[test]
fn field_map_holds_each_referenced_field_once() {
    let cat = shop_catalog();
    let req = request(
        Some(vec![metric("orders.total", Some("sum"), None)]),
        Some(vec![dimension("users.country", None, None)]),
        Some(vec![filter("orders.total", ">", "5")]),
    );
    let fields = referenced_field_list(&req);
    assert_eq!(fields, vec!["orders.total", "users.country", "orders.total"]);
    let map = resolve_fields(&cat, &fields).unwrap();
    assert_eq!(
        map,
        vec![("orders.total".to_string(), "float".to_string()), ("users.country".to_string(), "varchar".to_string())]
    );
}

#[test]
fn unknown_field_fails_compilation() {
    let cat = shop_catalog();
    let req = request(
        Some(vec![metric("orders.total", Some("bogus"), None)]),
        Some(vec![dimension("users.nickname", None, None), dimension("users.height", None, None)]),
        None,
    );
    let r = get_query(&req, &cat);
    assert!(matches!(r, Err(PersistenceError::FieldNotFound(ref f)) if f == "users.nickname"));
}

fn three_tables() -> Vec<Table> {
    let mut a = table("a", &[("id", "int")]);
    let mut b = table("b", &[("id", "int"), ("a_id", "int")]);
    let c = table("c", &[("id", "int"), ("b_id", "int")]);
    a.add_relationship("b", "id", "a_id");
    b.add_relationship("c", "id", "b_id");
    vec![a, b, c]
}

#[test]
fn chain_of_relationships_joins() {
    let cat = three_tables();
    let refs: Vec<&Table> = cat.iter().collect();
    assert_eq!(generate_join_query(&refs).unwrap(), "a JOIN b ON a.id = b.a_id JOIN c ON b.id = c.b_id");
}

#[test]
fn missing_relationship_fails_join() {
    let cat = three_tables();
    let names = vec!["a".to_string(), "c".to_string()];
    let r = handle_required_table(&cat, &names);
    assert!(matches!(r, Err(PersistenceError::JoinPathNotFound(ref t)) if t == "c"));
}

#[test]
fn join_prefers_most_recent_parent_and_first_relationship() {
    let mut a = table("a", &[]);
    a.add_relationship("c", "x", "ax");
    let mut b = table("b", &[]);
    b.add_relationship("c", "y", "by");
    b.add_relationship("c", "z", "bz");
    a.add_relationship("b", "id", "a_id");
    let c = table("c", &[]);
    let refs = vec![&a, &b, &c];
    assert_eq!(generate_join_query(&refs).unwrap(), "a JOIN b ON a.id = b.a_id JOIN c ON b.y = c.by");
}

#[test]
fn multi_pair_relationship_is_and_combined() {
    let mut a = table("a", &[]);
    a.relationships.push(vec![
        ("b".to_string(), ("k1".to_string(), "j1".to_string())),
        ("b2".to_string(), ("k2".to_string(), "j2".to_string())),
    ]);
    let b = table("b", &[]);
    let refs = vec![&a, &b];
    assert_eq!(generate_join_query(&refs).unwrap(), "a JOIN b ON a.k1 = b.j1 AND a.k2 = b.j2");
}

#[test]
fn join_errors() {
    assert!(matches!(generate_join_query(&[]), Err(PersistenceError::JoinPathNotFound(_))));
    let cat = three_tables();
    let r = handle_required_table(&cat, &vec!["a".to_string(), "zz".to_string()]);
    assert!(matches!(r, Err(PersistenceError::FieldNotFound(ref t)) if t == "zz"));
    assert_eq!(handle_required_table(&cat, &vec!["b".to_string()]).unwrap(), "b");
}

#[test]
fn end_to_end_orders_by_status() {
    let cat = vec![table("orders", &[("id", "int"), ("status", "varchar")])];
    let req = request(
        Some(vec![metric("orders.id", Some("count"), Some("n"))]),
        Some(vec![dimension("orders.status", None, None)]),
        None,
    );
    assert_eq!(
        get_query(&req, &cat).unwrap(),
        "SELECT (orders.status) , COUNT(orders.id) as n FROM orders group by (orders.status) ;"
    );
}

#[test]
fn compiling_twice_gives_identical_sql() {
    let cat = shop_catalog();
    let req = request(
        Some(vec![metric("users.id", Some("count"), Some("n"))]),
        Some(vec![dimension("users.created", Some("year"), Some("y")), dimension("orders.status", None, None)]),
        Some(vec![filter("users.country", "=", "US")]),
    );
    let first = get_query(&req, &cat).unwrap();
    let second = get_query(&req, &cat).unwrap();
    assert_eq!(first, second);
    assert_eq!(
        first,
        "SELECT YEAR(users.created) as y, (orders.status) , COUNT(users.id) as n FROM users JOIN orders ON users.id = orders.user_id where (users.country) = \"US\" group by YEAR(users.created), (orders.status) ;"
    );
}

#[test]
fn order_and_limit_are_appended() {
    let cat = shop_catalog();
    let mut req = request(Some(vec![metric("orders.total", None, None)]), None, None);
    req.orderby = Some(OrderBy { field: vec!["orders.total".to_string()], order: Order::Desc });
    req.limit = Some(10);
    assert_eq!(get_query(&req, &cat).unwrap(), "SELECT (orders.total) FROM orders order by orders.total desc limit 10 ;");
    req.orderby = Some(OrderBy { field: vec!["orders.id".to_string()], order: Order::Asc });
    let r = get_query(&req, &cat);
    assert!(matches!(r, Err(PersistenceError::FieldNotFound(ref f)) if f == "orders.id"));
}

#[test]
fn order_and_limit_clauses() {
    let fields = vec!["a.x".to_string(), "a.y".to_string()];
    let ob = Some(OrderBy { field: vec!["a.y".to_string(), "a.x".to_string()], order: Order::Asc });
    assert_eq!(order_clause(&ob, &fields).unwrap(), " order by a.y, a.x asc");
    assert_eq!(order_clause(&None, &fields).unwrap(), "");
    assert_eq!(limit_clause(Some(-2147483648)), " limit -2147483648");
    assert_eq!(limit_clause(Some(0)), " limit 0");
    assert_eq!(limit_clause(None), "");
}

#[test]
fn empty_request_has_no_join_plan() {
    let cat = shop_catalog();
    let r = get_query(&request(None, None, None), &cat);
    assert!(matches!(r, Err(PersistenceError::JoinPathNotFound(_))));
}

#[test]
fn three_table_request_compiles_through_chain() {
    let cat = shop_catalog();
    let req = request(
        Some(vec![metric("items.id", Some("count"), Some("n"))]),
        Some(vec![dimension("users.country", None, None)]),
        None,
    );
    let r = get_query(&req, &cat);
    assert!(matches!(r, Err(PersistenceError::JoinPathNotFound(ref t)) if t == "users"));
    let req = request(
        Some(vec![metric("users.id", Some("count"), Some("n"))]),
        Some(vec![dimension("orders.status", None, None), dimension("items.sku", None, None)]),
        None,
    );
    assert_eq!(
        get_query(&req, &cat).unwrap(),
        "SELECT (orders.status), (items.sku) , COUNT(users.id) as n FROM users JOIN orders ON users.id = orders.user_id JOIN items ON orders.id = items.order_id group by (orders.status), (items.sku) ;"
    );
}
