use data_pipeline::jobs::Impact;
use data_pipeline::report::{report_request, report_url, RequestError};
use data_pipeline::window::{parse_date, show_date, window_start, Date};

fn date(year: i32, month: u32, day: u32) -> Date {
    Date { year, month, day }
}

fn job(report: &str, execution_date: &str) -> Impact {
    Impact {
        execution_date: execution_date.to_string(),
        api_url: "https://api.impact.com/Advertisers/IRx/Reports/".to_string(),
        report: report.to_string(),
        parameters: "&subaid=k".to_string(),
        auth_sid: "IRx".to_string(),
        auth_token: "t".to_string(),
        sub_account_name: "s".to_string(),
        key: "k".to_string(),
    }
}

#[test]
fn window_at_month_end_starts_ninety_days_back_month() {
    assert_eq!(window_start(&date(2024, 3, 31)), Some(date(2024, 1, 1)));
}

#[test]
fn window_inside_month_starts_three_days_back() {
    assert_eq!(window_start(&date(2024, 3, 15)), Some(date(2024, 3, 12)));
}

#[test]
fn window_early_in_month_crosses_month() {
    assert_eq!(window_start(&date(2024, 3, 2)), Some(date(2024, 2, 28)));
}

#[test]
fn window_on_leap_day_is_inside_month() {
    assert_eq!(window_start(&date(2024, 2, 28)), Some(date(2024, 2, 25)));
    assert_eq!(window_start(&date(2024, 2, 29)), Some(date(2023, 12, 1)));
}

#[test]
fn window_at_year_end() {
    assert_eq!(window_start(&date(2023, 12, 31)), Some(date(2023, 10, 1)));
}

#[test]
fn dates_read_and_write() {
    assert_eq!(parse_date("2024-03-31"), Some(date(2024, 3, 31)));
    assert_eq!(parse_date("2024-02-30"), None);
    assert_eq!(parse_date("yesterday"), None);
    assert_eq!(show_date(&date(2024, 1, 1)), "2024-01-01");
}

#[test]
fn report_request_uses_window() {
    let u = report_request(&job("adv_action_listing_pm_only", "2024-03-31")).unwrap();
    assert_eq!(
        u,
        "https://api.impact.com/Advertisers/IRx/Reports/adv_action_listing_pm_only.json?start_date=2024-01-01&end_date=2024-03-31&subaid=k"
    );
}

#[test]
fn report_request_for_fund_transfers_uses_year() {
    let u = report_request(&job("partner_funds_transfer_listing_", "2024-03-15")).unwrap();
    assert_eq!(
        u,
        "https://api.impact.com/Advertisers/IRx/Reports/partner_funds_transfer_listing_.json?year_no_all_fin=2024&subaid=k"
    );
}

#[test]
fn report_request_rejects_bad_date() {
    assert_eq!(
        report_request(&job("adv_action_listing_pm_only", "03/15/2024")),
        Err(RequestError::UnreadableDate)
    );
}

#[test]
fn report_url_with_short_date_is_none() {
    assert_eq!(report_url(&job("partner_funds_transfer_listing_", "24"), "x"), None);
    assert_eq!(
        report_url(&job("other", "2024-03-15"), "2024-03-12"),
        Some("https://api.impact.com/Advertisers/IRx/Reports/other.json?start_date=2024-03-12&end_date=2024-03-15&subaid=k".to_string())
    );
}
