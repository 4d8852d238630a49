use data_pipeline::templates::{
    cell_text, column_count, replace_all, report_query, select_query, source_query, table_queries,
};

#[test]
fn replace_all_left_to_right() {
    assert_eq!(replace_all("aaa", "aa", "b"), "ba");
    assert_eq!(replace_all("x{A}y{A}", "{A}", "1"), "x1y1");
    assert_eq!(replace_all("none here", "{A}", "1"), "none here");
    assert_eq!(replace_all("", "{A}", "1"), "");
}

#[test]
fn source_query_fills_placeholders() {
    let q = source_query(
        "select * from {EMARSYS_GOOGLE_PROJECT}.{SRC_DATASET}.t {SQL_FILTER}",
        "proj",
        "ds",
        "2024-03-15",
    );
    assert_eq!(
        q,
        "select * from proj.ds.t where date(loaded_at, \"Asia/Singapore\") = \"2024-03-15\""
    );
}

#[test]
fn select_query_shape() {
    assert_eq!(select_query("a,b", "p.d.t"), "SELECT a,b FROM p.d.t");
}

#[test]
fn report_query_fills_placeholders() {
    assert_eq!(
        report_query("select * from df_{report}_{auth_sid} -- {sub_account_name}", "Main", "IRx", "r1"),
        "select * from df_r1_IRx -- Main"
    );
}

#[test]
fn column_count_counts_commas() {
    assert_eq!(column_count("a,b,c"), 3);
    assert_eq!(column_count("a"), 1);
    assert_eq!(column_count(""), 1);
}

#[test]
fn missing_cell_reads_none() {
    assert_eq!(cell_text(None), "None");
    assert_eq!(cell_text(Some("x".to_string())), "x");
}

#[test]
fn table_queries_pair_sources_with_columns() {
    let sources = vec![
        ("sends".to_string(), "p.d.sends".to_string()),
        ("opens".to_string(), "p.d.opens".to_string()),
        ("clicks".to_string(), "p.d.clicks".to_string()),
    ];
    let columns = vec![
        ("clicks".to_string(), "id,url".to_string()),
        ("sends".to_string(), "id,email,sent_at".to_string()),
    ];
    let qs = table_queries(&sources, &columns);
    assert_eq!(qs.len(), 2);
    assert_eq!(qs[0].table, "sends");
    assert_eq!(qs[0].query, "SELECT id,email,sent_at FROM p.d.sends");
    assert_eq!(qs[0].columns, 3);
    assert_eq!(qs[1].table, "clicks");
    assert_eq!(qs[1].query, "SELECT id,url FROM p.d.clicks");
    assert_eq!(qs[1].columns, 2);
}

#[test]
fn replace_all_with_empty_pattern_surrounds_each_character() {
    assert_eq!(replace_all("ab", "", "x"), "xaxbx");
    assert_eq!(replace_all("", "", "x"), "x");
}
