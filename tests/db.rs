use query_layer::db::{
    backend_of, column_query, column_query_for, native_kind, plan_row, table_query, value_class, Backend, NativeKind,
    RawCell, ValueClass,
};
use query_layer::db_utils::{get_column_headers, update_relationship};
use query_layer::models::{DataRequest, Dimension, Metric, Relationship, Table};

fn cell(tag: &str, is_null: bool) -> RawCell {
    RawCell { type_tag: tag.to_string(), is_null }
}

#[test]
fn backend_selection() {
    assert_eq!(backend_of("mysql"), Some(Backend::Mysql));
    assert_eq!(backend_of("postgres"), Some(Backend::Postgres));
    assert_eq!(backend_of("clickhouse"), Some(Backend::Clickhouse));
    assert_eq!(backend_of("oracle"), None);
    assert_eq!(backend_of("MySQL"), None);
}

#[test]
fn int4_normalizes_to_number() {
    let k = native_kind(Backend::Postgres, "int4").unwrap();
    assert_eq!(k, NativeKind::Int32);
    assert_eq!(value_class(k), ValueClass::Number);
    assert_eq!(value_class(NativeKind::Timestamp), ValueClass::Text);
    assert_eq!(native_kind(Backend::Clickhouse, "Int64"), Some(NativeKind::Int64));
    assert_eq!(native_kind(Backend::Mysql, "MYSQL_TYPE_LONG"), Some(NativeKind::Int64));
    assert_eq!(native_kind(Backend::Postgres, "uuid"), Some(NativeKind::Uuid));
    assert_eq!(native_kind(Backend::Postgres, "jsonb"), None);
}

#[test]
fn row_plan_maps_positions_to_names() {
    let headers = vec!["status".to_string(), "n".to_string()];
    let cells = vec![cell("text", false), cell("int8", false), cell("int4", false)];
    let plan = plan_row(Backend::Postgres, &headers, &cells);
    assert_eq!(plan.len(), 2);
    assert_eq!((plan[0].key.as_str(), plan[0].index, plan[0].read), ("status", 0, Some(NativeKind::Text)));
    assert_eq!((plan[1].key.as_str(), plan[1].index, plan[1].read), ("n", 1, Some(NativeKind::Int64)));
}

#[test]
fn row_plan_nulls_and_unknown_types() {
    let headers = vec!["a".to_string(), "b".to_string(), "c".to_string()];
    let cells = vec![cell("int4", true), cell("geometry", false), cell("float8", false)];
    let plan = plan_row(Backend::Postgres, &headers, &cells);
    assert_eq!(plan.len(), 2);
    assert_eq!((plan[0].key.as_str(), plan[0].index, plan[0].read), ("a", 0, None));
    assert_eq!((plan[1].key.as_str(), plan[1].index, plan[1].read), ("c", 2, Some(NativeKind::Float64)));
    assert!(plan_row(Backend::Postgres, &vec![], &cells).is_empty());
}

#[test]
fn schema_queries() {
    assert_eq!(
        column_query("orders"),
        "SELECT column_name, data_type FROM information_schema.columns WHERE table_schema = DATABASE() AND table_name = 'orders'"
    );
    assert_eq!(
        column_query_for(Backend::Clickhouse, "t"),
        "SELECT name AS column_name, type AS data_type FROM system.columns WHERE database = currentDatabase() AND table = 't'"
    );
    assert_eq!(table_query(Backend::Mysql), "SELECT table_name FROM information_schema.tables WHERE table_schema = DATABASE()");
}

#[test]
fn column_headers_dimensions_then_metrics() {
    let req = DataRequest {
        metrics: Some(vec![Metric {
            field: "orders.id".to_string(),
            aggregate_operator: Some("count".to_string()),
            name: Some("n".to_string()),
            distinct: None,
        }]),
        dimensions: Some(vec![
            Dimension { field: "orders.status".to_string(), transformation: None, name: None },
            Dimension { field: "orders.created".to_string(), transformation: Some("year".to_string()), name: Some("y".to_string()) },
        ]),
        filters: None,
        orderby: None,
        limit: None,
    };
    assert_eq!(get_column_headers(&req), vec!["orders.status", "y", "n"]);
}

#[test]
fn relationship_feed_is_merged_into_first_parent() {
    let mut tables = vec![Table::new("users"), Table::new("orders"), Table::new("users")];
    let rel = Relationship {
        parent_table: "users".to_string(),
        child_table: "orders".to_string(),
        parent_column: "id".to_string(),
        child_column: "user_id".to_string(),
    };
    update_relationship(&mut tables, &rel);
    update_relationship(&mut tables, &rel);
    assert_eq!(tables.len(), 3);
    assert_eq!(tables[0].relationships.len(), 2);
    assert_eq!(tables[0].relationships[1], vec![("orders".to_string(), ("id".to_string(), "user_id".to_string()))]);
    assert!(tables[2].relationships.is_empty());
    let mut other = Relationship { parent_table: "nobody".to_string(), ..rel.clone() };
    other.child_table = "x".to_string();
    update_relationship(&mut tables, &other);
    assert_eq!(tables[0].relationships.len(), 2);
    assert_eq!(tables[1].relationships.len(), 0);
}

#[test]
fn table_description_lists_relationships() {
    let mut t = Table::new("users");
    assert_eq!(t.print_tables(), "Table: users");
    t.add_relationship("orders", "id", "user_id");
    assert_eq!(t.print_tables(), "Table: users\n  -> Child Table: orders, Parent Column: id, Child Column: user_id");
}
