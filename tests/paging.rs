use data_pipeline::paging::{record_store_page, record_store_url, report_page, FetchError, Page, Pagination};
use data_pipeline::value::Value;

fn text(s: &str) -> Value {
    Value::Text(s.to_string())
}

fn obj(pairs: Vec<(&str, Value)>) -> Value {
    Value::Object(pairs.into_iter().map(|(k, v)| (k.to_string(), v)).collect())
}

fn record(id: &str) -> Value {
    obj(vec![("id", text(id))])
}

fn record_id(v: &Value) -> String {
    match v {
        Value::Object(es) => match &es[0].1 {
            Value::Text(t) => t.clone(),
            _ => String::new(),
        },
        _ => String::new(),
    }
}

fn serve(offset: &str) -> Value {
    if offset.is_empty() {
        obj(vec![
            ("records", Value::Array(vec![record("a"), record("b")])),
            ("offset", text("itr2")),
        ])
    } else {
        obj(vec![("records", Value::Array(vec![record("c")])), ("offset", text("None"))])
    }
}

#[test]
fn pagination_stops_after_terminal_page() {
    let mut p = Pagination::new();
    let mut requested = Vec::new();
    while let Some(offset) = p.next_offset() {
        requested.push(offset.clone());
        let page = record_store_page(&serve(&offset)).unwrap();
        p.receive(page);
    }
    assert_eq!(requested, vec!["".to_string(), "itr2".to_string()]);
    assert_eq!(p.pages_fetched(), 2);
    assert!(p.is_done());
    let ids: Vec<String> = p.into_records().iter().map(record_id).collect();
    assert_eq!(ids, vec!["a", "b", "c"]);
}

#[test]
fn pagination_starts_with_empty_offset() {
    let p = Pagination::new();
    assert_eq!(p.next_offset(), Some(String::new()));
    assert!(!p.is_done());
    assert_eq!(p.pages_fetched(), 0);
}

#[test]
fn page_offset_is_continuation() {
    let page = record_store_page(&serve("")).unwrap();
    assert_eq!(page.next, Some("itr2".to_string()));
    assert_eq!(page.records.len(), 2);
}

#[test]
fn page_offset_none_text_is_terminal() {
    let page = record_store_page(&serve("itr2")).unwrap();
    assert_eq!(page.next, None);
}

#[test]
fn page_without_offset_is_terminal() {
    let body = obj(vec![("records", Value::Array(vec![]))]);
    let page = record_store_page(&body).unwrap();
    assert_eq!(page.next, None);
    assert!(page.records.is_empty());
}

#[test]
fn page_without_records_is_error() {
    let body = obj(vec![("offset", text("x"))]);
    assert_eq!(record_store_page(&body).err(), Some(FetchError::MissingRecords));
}

#[test]
fn page_with_numeric_offset_is_error() {
    let body = obj(vec![
        ("records", Value::Array(vec![])),
        ("offset", Value::Number("3".to_string())),
    ]);
    assert_eq!(record_store_page(&body).err(), Some(FetchError::MalformedOffset));
}

#[test]
fn report_page_never_continues() {
    let body = obj(vec![("Records", Value::Array(vec![record("x")])), ("@page", text("1"))]);
    let page = report_page(&body).unwrap();
    assert_eq!(page.next, None);
    assert_eq!(page.records.len(), 1);
}

#[test]
fn report_page_without_records_is_empty() {
    let page = report_page(&obj(vec![("Message", text("bad"))])).unwrap();
    assert!(page.records.is_empty());
    assert_eq!(page.next, None);
}

#[test]
fn report_page_with_non_list_records_is_error() {
    let body = obj(vec![("Records", text("x"))]);
    assert_eq!(report_page(&body).err(), Some(FetchError::MissingRecords));
}

#[test]
fn record_store_url_shape() {
    assert_eq!(
        record_store_url("https://api.example.com/v0/app", "tbl1", "itr2"),
        "https://api.example.com/v0/app/tbl1?pageSize=100&offset=itr2"
    );
}

#[test]
fn receive_counts_pages() {
    let mut p = Pagination::new();
    p.receive(Page { records: vec![record("a")], next: Some("t".to_string()) });
    assert_eq!(p.next_offset(), Some("t".to_string()));
    assert_eq!(p.pages_fetched(), 1);
}

#[test]
fn page_with_null_offset_is_error() {
    let body = obj(vec![("records", Value::Array(vec![record("a")])), ("offset", Value::Null)]);
    assert_eq!(record_store_page(&body).err(), Some(FetchError::MalformedOffset));
}
