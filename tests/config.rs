use data_pipeline::config::{config_text, resolve_record_store_job, schema_path, ConfigError};
use data_pipeline::jobs::{AtJobDetail, Impact};
use data_pipeline::report::{prepare_report, report_names, report_parameters, strip_quotes};
use data_pipeline::value::Value;

fn text(s: &str) -> Value {
    Value::Text(s.to_string())
}

fn obj(pairs: Vec<(&str, Value)>) -> Value {
    Value::Object(pairs.into_iter().map(|(k, v)| (k.to_string(), v)).collect())
}

fn config() -> Value {
    obj(vec![
        ("url_2024", text("https://api.example.com/v0/app2024")),
        ("job_config_path", text("/etc/jobs")),
        ("auth_token", text("Bearer test-token")),
        (
            "api_endpoint_launch",
            obj(vec![("order_sheet", text("tblOrders"))]),
        ),
        ("impact_acc_sid_v2", obj(vec![("k1", text("IR\"abc\""))])),
        ("impact_auth_token_v2", obj(vec![("k1", text("tok"))])),
        ("impact_queries_path", text("/etc/queries")),
    ])
}

fn job(kind: &str, endpoint: &str, year: &str) -> AtJobDetail {
    let mut j = AtJobDetail::new();
    j.airtables_type = kind.to_string();
    j.airtable_endpoint = endpoint.to_string();
    j.year = year.to_string();
    j
}

fn impact_base(key: &str) -> Impact {
    Impact {
        execution_date: String::new(),
        api_url: String::new(),
        report: String::new(),
        parameters: String::new(),
        auth_sid: String::new(),
        auth_token: String::new(),
        sub_account_name: String::new(),
        key: key.to_string(),
    }
}

#[test]
fn record_store_job_resolves() {
    let (j, path) = resolve_record_store_job(&config(), &job("launch", "order_sheet", "2024")).unwrap();
    assert_eq!(j.airtable_url, "https://api.example.com/v0/app2024");
    assert_eq!(j.api_endpoint, "tblOrders");
    assert_eq!(j.auth_token, "Bearer test-token");
    assert_eq!(j.airtable_endpoint, "order_sheet");
    assert_eq!(path, "/etc/jobs");
}

#[test]
fn record_store_job_missing_year_url() {
    let r = resolve_record_store_job(&config(), &job("launch", "order_sheet", "2022"));
    assert_eq!(r.err(), Some(ConfigError::Missing("url_2022".to_string())));
}

#[test]
fn record_store_job_missing_endpoint() {
    let r = resolve_record_store_job(&config(), &job("launch", "child_product", "2024"));
    assert_eq!(r.err(), Some(ConfigError::Missing("child_product".to_string())));
}

#[test]
fn config_text_needs_text() {
    let c = obj(vec![("n", Value::Number("3".to_string()))]);
    assert_eq!(config_text(&c, "n"), Err(ConfigError::Missing("n".to_string())));
}

#[test]
fn schema_path_shape() {
    assert_eq!(
        schema_path("/etc/jobs", "airtable", "2024", "order_sheet"),
        "/etc/jobs/airtable/2024/order_sheet.json"
    );
}

#[test]
fn quotes_are_stripped() {
    assert_eq!(strip_quotes("\"a\"b\"\""), "ab");
    assert_eq!(strip_quotes(""), "");
}

#[test]
fn report_parameters_by_report() {
    let p = report_parameters("adv_action_listing_pm_only", "k1", "USD");
    assert!(p.starts_with("&subaid=k1&CONV_CURRENCY=USD&SHOW_DATE=1&SHOW_GROUP=1"));
    assert!(p.ends_with("&SUPERSTATUS_MS=REVERSED"));
    assert_eq!(
        report_parameters("partner_funds_transfer_listing_", "k1", "USD"),
        "&subaid=k1&ADV_CAMPAIGN=0&INITIATED_BY=0&RECIPIENT_ACCOUNT_ID=0&PARTNER_RADIUS_SOLR=0&MP_GROUP_ADV=0"
    );
}

#[test]
fn report_names_in_order() {
    assert_eq!(
        report_names(),
        vec!["adv_action_listing_pm_only".to_string(), "partner_funds_transfer_listing_".to_string()]
    );
}

#[test]
fn report_is_prepared_from_config() {
    let campaigns = obj(vec![("k1", Value::Array(vec![text("USD"), text("Main")]))]);
    let (j, query) = prepare_report(
        &impact_base("k1"),
        &config(),
        &campaigns,
        "2024-03-15",
        "partner_funds_transfer_listing_",
    )
    .unwrap();
    assert_eq!(query, "/etc/queries/partner_funds_transfer_listing_.sql");
    assert_eq!(j.api_url, "https://api.impact.com/Advertisers/IRabc/Reports/");
    assert_eq!(j.auth_sid, "IRabc");
    assert_eq!(j.auth_token, "tok");
    assert_eq!(j.sub_account_name, "Main");
    assert_eq!(j.execution_date, "2024-03-15");
    assert_eq!(j.key, "k1");
    assert!(j.parameters.starts_with("&subaid=k1&ADV_CAMPAIGN=0"));
}

#[test]
fn report_for_unknown_campaign_fails() {
    let campaigns = obj(vec![]);
    let r = prepare_report(&impact_base("k9"), &config(), &campaigns, "2024-03-15", "x");
    assert_eq!(r.err(), Some(ConfigError::Missing("k9".to_string())));
}

#[test]
fn text_entries_in_order() {
    let doc = obj(vec![("t1", text("a,b")), ("t2", text("c"))]);
    let es = data_pipeline::config::text_entries(&doc).unwrap();
    assert_eq!(es, vec![("t1".to_string(), "a,b".to_string()), ("t2".to_string(), "c".to_string())]);
}

#[test]
fn text_entries_reject_non_text() {
    let doc = obj(vec![("t1", text("a")), ("t2", Value::Bool(true))]);
    assert_eq!(
        data_pipeline::config::text_entries(&doc),
        Err(ConfigError::Missing("t2".to_string()))
    );
    assert_eq!(data_pipeline::config::text_entries(&text("x")), Err(ConfigError::NotAnObject));
}

#[test]
fn source_tables_fill_templates() {
    let doc = obj(vec![(
        "sends",
        text("{EMARSYS_GOOGLE_PROJECT}.{SRC_DATASET}.email_sends {SQL_FILTER}"),
    )]);
    let qs = data_pipeline::config::source_tables(&doc, "proj", "ds", "2024-03-15").unwrap();
    assert_eq!(qs.len(), 1);
    assert_eq!(qs[0].0, "sends");
    assert_eq!(
        qs[0].1,
        "proj.ds.email_sends where date(loaded_at, \"Asia/Singapore\") = \"2024-03-15\""
    );
}

#[test]
fn text_entries_reject_repeated_name() {
    let doc = obj(vec![("t1", text("a")), ("t2", text("b")), ("t1", text("c"))]);
    assert_eq!(
        data_pipeline::config::text_entries(&doc),
        Err(ConfigError::DuplicateName("t1".to_string()))
    );
}

#[test]
fn report_without_query_directory_fails() {
    let campaigns = obj(vec![("k1", Value::Array(vec![text("USD"), text("Main")]))]);
    let mut c = config();
    if let Value::Object(es) = &mut c {
        es.retain(|(k, _)| k != "impact_queries_path");
    }
    let r = prepare_report(&impact_base("k1"), &c, &campaigns, "2024-03-15", "x");
    assert_eq!(r.err(), Some(ConfigError::Missing("impact_queries_path".to_string())));
}
