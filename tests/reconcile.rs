use data_pipeline::reconcile::{reconcile, Table};
use data_pipeline::schema::{schema_from_document, ColumnMapping, ColumnType, SchemaError};
use data_pipeline::value::Value;

fn text(s: &str) -> Value {
    Value::Text(s.to_string())
}

fn obj(pairs: Vec<(&str, Value)>) -> Value {
    Value::Object(pairs.into_iter().map(|(k, v)| (k.to_string(), v)).collect())
}

fn same(a: &Value, b: &Value) -> bool {
    match (a, b) {
        (Value::Null, Value::Null) => true,
        (Value::Bool(x), Value::Bool(y)) => x == y,
        (Value::Number(x), Value::Number(y)) => x == y,
        (Value::Text(x), Value::Text(y)) => x == y,
        (Value::Array(x), Value::Array(y)) => {
            x.len() == y.len() && x.iter().zip(y.iter()).all(|(p, q)| same(p, q))
        }
        (Value::Object(x), Value::Object(y)) => {
            x.len() == y.len()
                && x.iter().zip(y.iter()).all(|(p, q)| p.0 == q.0 && same(&p.1, &q.1))
        }
        _ => false,
    }
}

fn mapping(source: &str, target: &str, t: ColumnType) -> ColumnMapping {
    ColumnMapping {
        source_field: source.to_string(),
        target_field: target.to_string(),
        target_type: t,
    }
}

fn tables_equal(a: &Table, b: &Table) -> bool {
    a.columns.len() == b.columns.len()
        && a.columns.iter().zip(b.columns.iter()).all(|(x, y)| {
            x.name == y.name
                && x.column_type == y.column_type
                && x.cells.len() == y.cells.len()
                && x.cells.iter().zip(y.cells.iter()).all(|(p, q)| same(p, q))
        })
}

fn sample_records() -> Vec<Value> {
    vec![
        obj(vec![
            ("id", text("rec1")),
            (
                "fields",
                obj(vec![
                    ("Name", text("Widget")),
                    ("Tags", Value::Array(vec![text("a"), text("b"), text("c")])),
                    ("Extra", text("dropped")),
                ]),
            ),
        ]),
        obj(vec![
            ("id", text("rec2")),
            ("fields", obj(vec![("Tags", Value::Array(vec![]))])),
        ]),
        obj(vec![("id", text("rec3")), ("fields", obj(vec![]))]),
    ]
}

fn sample_schema() -> Vec<ColumnMapping> {
    vec![
        mapping("Name", "name", ColumnType::Text),
        mapping("Tags", "first_tag", ColumnType::List),
        mapping("Missing", "missing", ColumnType::List),
        mapping("id", "record_id", ColumnType::Text),
    ]
}

#[test]
fn reconcile_yields_one_column_per_schema_entry() {
    let t = reconcile(&sample_records(), &sample_schema()).unwrap();
    let names: Vec<&str> = t.columns.iter().map(|c| c.name.as_str()).collect();
    assert_eq!(names, vec!["name", "first_tag", "missing", "record_id"]);
    for c in &t.columns {
        assert_eq!(c.cells.len(), 3);
    }
}

#[test]
fn reconcile_with_empty_schema_has_no_columns() {
    let t = reconcile(&sample_records(), &Vec::new()).unwrap();
    assert_eq!(t.columns.len(), 0);
}

#[test]
fn reconcile_fills_absent_field_with_null_text_column() {
    let t = reconcile(&sample_records(), &sample_schema()).unwrap();
    let missing = &t.columns[2];
    assert_eq!(missing.column_type, ColumnType::Text);
    assert!(missing.cells.iter().all(|c| same(c, &Value::Null)));
}

#[test]
fn reconcile_unwraps_first_list_element() {
    let t = reconcile(&sample_records(), &sample_schema()).unwrap();
    let tags = &t.columns[1];
    assert_eq!(tags.column_type, ColumnType::List);
    assert!(same(&tags.cells[0], &text("a")));
    assert!(same(&tags.cells[1], &Value::Null));
    assert!(same(&tags.cells[2], &Value::Null));
}

#[test]
fn reconcile_reads_fields_wrapper_and_top_level() {
    let t = reconcile(&sample_records(), &sample_schema()).unwrap();
    assert!(same(&t.columns[0].cells[0], &text("Widget")));
    assert!(same(&t.columns[0].cells[1], &Value::Null));
    assert!(same(&t.columns[3].cells[2], &text("rec3")));
}

#[test]
fn reconcile_twice_gives_same_table() {
    let records = sample_records();
    let schema = sample_schema();
    let first = reconcile(&records, &schema).unwrap();
    let second = reconcile(&records, &schema).unwrap();
    assert!(tables_equal(&first, &second));
}

#[test]
fn reconcile_rejects_shared_target() {
    let schema = vec![
        mapping("a", "out", ColumnType::Text),
        mapping("b", "out", ColumnType::Text),
    ];
    match reconcile(&sample_records(), &schema) {
        Err(SchemaError::AmbiguousTarget(t)) => assert_eq!(t, "out"),
        _ => panic!("expected an ambiguous target"),
    }
}

#[test]
fn reconcile_makes_null_of_scalar_under_list_type() {
    let schema = vec![mapping("Name", "name", ColumnType::List)];
    let t = reconcile(&sample_records(), &schema).unwrap();
    assert_eq!(t.columns.len(), 1);
    assert_eq!(t.columns[0].name, "name");
    assert!(t.columns[0].cells.iter().all(|c| same(c, &Value::Null)));
}

#[test]
fn reconcile_of_no_records_gives_empty_columns() {
    let t = reconcile(&Vec::new(), &sample_schema()).unwrap();
    assert_eq!(t.columns.len(), 4);
    assert!(t.columns.iter().all(|c| c.cells.is_empty() && c.column_type == ColumnType::Text));
}

#[test]
fn schema_document_is_read_in_order() {
    let doc = obj(vec![
        ("Name", obj(vec![("new", text("name")), ("type", text("str"))])),
        ("Tags", obj(vec![("new", text("tags")), ("type", text("list"))])),
    ]);
    let s = schema_from_document(&doc).unwrap();
    assert_eq!(s.len(), 2);
    assert_eq!(s[0], mapping("Name", "name", ColumnType::Text));
    assert_eq!(s[1], mapping("Tags", "tags", ColumnType::List));
}

#[test]
fn schema_document_must_be_object() {
    assert_eq!(schema_from_document(&text("x")).unwrap_err(), SchemaError::NotAnObject);
}

#[test]
fn schema_document_entry_needs_new_and_type() {
    let doc = obj(vec![("Name", obj(vec![("new", text("name"))]))]);
    assert_eq!(
        schema_from_document(&doc).unwrap_err(),
        SchemaError::MalformedEntry("Name".to_string())
    );
}

#[test]
fn value_clone_is_deep() {
    let v = sample_records().remove(0);
    let c = v.clone();
    assert!(same(&v, &c));
}

#[test]
fn reconcile_with_distinct_targets_always_succeeds() {
    let records = vec![
        obj(vec![("a", Value::Number("1".to_string())), ("b", Value::Bool(true))]),
        text("not a record"),
    ];
    let schema = vec![
        mapping("a", "x", ColumnType::List),
        mapping("b", "y", ColumnType::Text),
        mapping("c", "z", ColumnType::List),
    ];
    let t = reconcile(&records, &schema).unwrap();
    assert_eq!(t.columns.len(), 3);
    assert!(same(&t.columns[0].cells[0], &Value::Null));
    assert!(same(&t.columns[1].cells[0], &Value::Bool(true)));
    assert!(same(&t.columns[1].cells[1], &Value::Null));
}
