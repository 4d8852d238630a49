use data_pipeline::jobs::{
    expand_record_store_jobs, expand_report_jobs, expand_table_jobs, record_store_dimensions,
    Airtable, AtJobDetail, EmarsysBq, Impact, Tasks,
};

fn s(x: &str) -> String {
    x.to_string()
}

fn impact_base() -> Impact {
    Impact {
        execution_date: s("2024-03-15"),
        api_url: s("u"),
        report: s("r"),
        parameters: s("p"),
        auth_sid: s("sid"),
        auth_token: s("tok"),
        sub_account_name: s("sub"),
        key: s(""),
    }
}

#[test]
fn new_job_detail_is_empty() {
    let j = AtJobDetail::new();
    assert!(j.airtables_type.is_empty());
    assert!(j.airtable_endpoint.is_empty());
    assert!(j.year.is_empty());
    assert!(j.api_endpoint.is_empty());
    assert!(j.airtable_url.is_empty());
    assert!(j.auth_token.is_empty());
    assert!(j.offset_value.is_empty());
}

#[test]
fn record_store_jobs_follow_compatible_pairs() {
    let years = vec![s("2024"), s("2023"), s("2022")];
    let kinds = vec![s("product"), s("launch")];
    let groups = vec![
        (s("launch"), vec![s("order_sheet")]),
        (s("product"), vec![s("child_product")]),
    ];
    let jobs = expand_record_store_jobs(&years, &kinds, &groups);
    let got: Vec<(String, String, String)> = jobs
        .iter()
        .map(|j| (j.year.clone(), j.airtables_type.clone(), j.airtable_endpoint.clone()))
        .collect();
    let want = vec![
        (s("2024"), s("product"), s("child_product")),
        (s("2024"), s("launch"), s("order_sheet")),
        (s("2023"), s("product"), s("child_product")),
        (s("2023"), s("launch"), s("order_sheet")),
        (s("2022"), s("product"), s("child_product")),
        (s("2022"), s("launch"), s("order_sheet")),
    ];
    assert_eq!(got, want);
    assert!(jobs.iter().all(|j| j.api_endpoint.is_empty() && j.auth_token.is_empty()));
}

#[test]
fn record_store_jobs_skip_incompatible_groups() {
    let years = vec![s("2024")];
    let kinds = vec![s("launch")];
    let groups = vec![
        (s("launch"), vec![s("a"), s("b")]),
        (s("product"), vec![s("c")]),
        (s("launch"), vec![s("d")]),
    ];
    let jobs = expand_record_store_jobs(&years, &kinds, &groups);
    let names: Vec<String> = jobs.iter().map(|j| j.airtable_endpoint.clone()).collect();
    assert_eq!(names, vec![s("a"), s("b"), s("d")]);
}

#[test]
fn record_store_jobs_of_no_years_is_empty() {
    let jobs = expand_record_store_jobs(&vec![], &vec![s("launch")], &vec![]);
    assert!(jobs.is_empty());
}

#[test]
fn report_jobs_one_per_key() {
    let jobs = expand_report_jobs(&impact_base(), &vec![s("k1"), s("k2")]);
    assert_eq!(jobs.len(), 2);
    assert_eq!(jobs[0].key, "k1");
    assert_eq!(jobs[1].key, "k2");
    assert_eq!(jobs[1].auth_token, "tok");
    assert_eq!(jobs[1].sub_account_name, "sub");
}

#[test]
fn table_jobs_one_per_table() {
    let jobs = expand_table_jobs(&vec![s("t1"), s("t2")]);
    let names: Vec<String> = jobs.iter().map(|j| j.table_name.clone()).collect();
    assert_eq!(names, vec![s("t1"), s("t2")]);
}

#[test]
fn airtable_file_names() {
    let mut d = AtJobDetail::new();
    d.airtable_endpoint = s("order_sheet");
    d.year = s("2024");
    let a = Airtable { job_details: d };
    assert_eq!(a.extract_file(), "order_sheet_output_2024.json");
    assert_eq!(a.result_file(), "result_order_sheet_2024.csv");
}

#[test]
fn impact_file_names() {
    let mut i = impact_base();
    i.report = s("adv_action_listing_pm_only");
    i.auth_sid = s("IRabc");
    assert_eq!(i.extract_file(), "adv_action_listing_pm_only_IRabc_impact.json");
    assert_eq!(i.result_file(), "result_adv_action_listing_pm_only_IRabc_impact.csv");
}

#[test]
fn warehouse_file_names() {
    let e = EmarsysBq { table_name: s("email_sends") };
    assert_eq!(e.extract_file(), "email_sends.csv");
    assert_eq!(e.result_file(), "email_sends.csv");
}

#[test]
fn job_keys_join_dimensions() {
    let mut d = AtJobDetail::new();
    d.airtables_type = s("launch");
    d.airtable_endpoint = s("order_sheet");
    d.year = s("2024");
    assert_eq!(Airtable { job_details: d }.job_key(), "launch/order_sheet/2024");
    let mut i = impact_base();
    i.key = s("k1");
    i.report = s("adv_action_listing_pm_only");
    assert_eq!(i.job_key(), "k1/adv_action_listing_pm_only");
    assert_eq!(EmarsysBq { table_name: s("email_sends") }.job_key(), "email_sends");
}

#[test]
fn record_store_dimensions_expand_to_six_jobs() {
    let (years, kinds, groups) = record_store_dimensions();
    assert_eq!(years, vec![s("2024"), s("2023"), s("2022")]);
    assert_eq!(kinds, vec![s("product"), s("launch")]);
    assert_eq!(
        groups,
        vec![(s("launch"), vec![s("order_sheet")]), (s("product"), vec![s("child_product")])]
    );
    assert_eq!(expand_record_store_jobs(&years, &kinds, &groups).len(), 6);
}
