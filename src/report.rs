//! Requests to the reporting API: one per campaign key and report, bounded by
//! the extraction window.
use vstd::prelude::*;
use crate::value::{Json, Value, get_member, member, same_text};
use crate::config::{ConfigError, config_text, member_of, nested_text, text_of};
use crate::jobs::Impact;
use crate::window::{
    Date, date_text, day_number, ends_month, in_range, inside_month, is_correction_start, parse_date,
    parsed_date, show_date, valid_date, window_start,
};

verus! {

/// The report of actions, filtered by campaign and currency.
pub const ACTION_LISTING_REPORT: &'static str = "adv_action_listing_pm_only";

/// The report of fund transfers, requested for a whole year.
pub const FUNDS_TRANSFER_REPORT: &'static str = "partner_funds_transfer_listing_";

/// The columns and statuses that the action report asks for.
pub const ACTION_LISTING_COLUMNS: &'static str = "&SHOW_DATE=1&SHOW_GROUP=1&SHOW_ACTION_BATCH_DATE=1&SHOW_ACTION_BATCH_ID=1&SHOW_AD=1&SHOW_AD_PLACEMENT=1&SHOW_AD_POSITION=1&SHOW_AD_RANK=1&SHOW_BONUS_COST=1&SHOW_BUSINESS_REGION=1&SHOW_MP_BUSINESS_REGION=1&SHOW_ACTION_CATEGORY=1&SHOW_SUBCATEGORY=1&SHOW_CLIENT_COST=1&SHOW_CHANNEL=1&SHOW_PROPERTY_ID=1&SHOW_PROPERTY_NAME=1&SHOW_USER_AGENT2=1&SHOW_ACTUAL_CLEARING_DATE=1&SHOW_GEO_LOCATION=1&SHOW_LOCATION_NAME=1&SHOW_CLICK_TO_ACTION=1&SHOW_LOCATION_ID=1&SHOW_LOCATION_TYPE=1&SHOW_MP_VALUE1=1&SHOW_MP_VALUE2=1&SHOW_MP_VALUE3=1&SHOW_PROPERTY_TYPE=1&SHOW_TEXT3=1&SHOW_TEXT2=1&SHOW_TEXT1=1&SHOW_STATUS_DETAIL=1&SHOW_REFERRING_URL=1&SHOW_RELATIONSHIP=1&SHOW_SCHEDULED_CLEARING_DATE=1&SHOW_SHIPPING=1&SHOW_SITE_CATEGORY=1&SHOW_SITE_VERSION=1&SHOW_PARAM1=1&SHOW_PARAM2=1&SHOW_PARAM3=1&SHOW_MP__PROPERTY=1&SHOW_REFERRAL_TRAFFIC_SOURCE=1&SHOW_REFERRAL_TRAFFIC_TYPE=1&SHOW_REFERRAL_TYPE=1&SHOW_NOTES=1&SHOW_PROMO_DESCRIPTION=1&SHOW_ORIGINAL_PAYOUT2=1&SHOW_ORIGINAL_SALEAMOUNT=1&SHOW_PAYMENT_TYPE=1&SHOW_POST_CODE=1&SHOW_PROPERTY=1&SHOW_REBATE=1&SHOW_REDIRECT_RULE_ID=1&SHOW_REDIRECT_RULE=1&SHOW_REFERRAL_DATE=1&SHOW_MODIFICATION_REASON=1&SHOW_MONEY1=1&SHOW_MONEY2=1&SHOW_MONEY3=1&SHOW_NUMERIC1=1&SHOW_NUMERIC2=1&SHOW_NUMERIC3=1&SHOW_DISPOSITION=1&SHOW_HEAR_ABOUT=1&SHOW_LANDING_PAGE=1&SHOW_LINE_BUSINESS=1&SHOW_MP_LINE_BUSINESS=1&SHOW_MODIFICATION_DATE=1&SHOW_LOCKING_DATE=1&SHOW_SUBTOTAL=1&SHOW_ADV_CUST_REGION=1&SHOW_CUST_COUNTRY=1&SHOW_ADV_CUST_CITY=1&SHOW_CUST_EMAIL=1&SHOW_CUSTOMER_ID=1&SHOW_CUSTOMER_STATUS=1&SHOW_CUSTDATE2=1&SHOW_CUSTDATE1=1&SHOW_CUSTDATE3=1&SHOW_DISCOUNT=1&SHOW_IO=1&SHOW_CURRENCY_CONV=1&SUPERSTATUS_MS=APPROVED&SUPERSTATUS_MS=NA&SUPERSTATUS_MS=PENDING&SUPERSTATUS_MS=REVERSED";

/// The filters that the fund-transfer report asks for.
pub const FUNDS_TRANSFER_FILTERS: &'static str = "&ADV_CAMPAIGN=0&INITIATED_BY=0&RECIPIENT_ACCOUNT_ID=0&PARTNER_RADIUS_SOLR=0&MP_GROUP_ADV=0";

/// The address under which an advertiser's reports are served.
pub const ADVERTISER_BASE: &'static str = "https://api.impact.com/Advertisers/";

/// The reports requested for each campaign key, in order.
pub fn report_names() -> (r: Vec<String>)
    ensures
        r@.len() == 2,
        r@[0]@ == ACTION_LISTING_REPORT@,
        r@[1]@ == FUNDS_TRANSFER_REPORT@,
{
    let mut names: Vec<String> = Vec::new();
    names.push(String::from_str(ACTION_LISTING_REPORT));
    names.push(String::from_str(FUNDS_TRANSFER_REPORT));
    names
}

/// `s` without its double quotes.
pub open spec fn without_quotes(s: Seq<char>) -> Seq<char>
    decreases s.len(),
{
    if s.len() == 0 {
        s
    } else if s.last() == '"' {
        without_quotes(s.drop_last())
    } else {
        without_quotes(s.drop_last()).push(s.last())
    }
}

/// Removes every double quote from `s`.
pub fn strip_quotes(s: &str) -> (r: String)
    ensures
        r@ == without_quotes(s@),
{
    let n = s.unicode_len();
    let mut out = String::new();
    let mut i: usize = 0;
    assert(s@.subrange(0, 0) =~= Seq::<char>::empty());
    while i < n
        invariant
            n == s@.len(),
            i <= n,
            out@ == without_quotes(s@.subrange(0, i as int)),
        decreases n - i,
    {
        let ghost prefix = s@.subrange(0, i + 1);
        assert(prefix.drop_last() =~= s@.subrange(0, i as int));
        assert(prefix.last() == s@[i as int]);
        let c = s.get_char(i);
        if c != '"' {
            let piece = s.substring_char(i, i + 1);
            assert(piece@ =~= seq![c]);
            out.append(piece);
        }
        i = i + 1;
    }
    assert(s@.subrange(0, n as int) =~= s@);
    out
}

/// The query parameters of a report for a campaign key: the action report
/// filters by currency and names its columns, the other report its filters.
pub open spec fn parameters_for(report: Seq<char>, key: Seq<char>, currency: Seq<char>) -> Seq<char> {
    if report == ACTION_LISTING_REPORT@ {
        "&subaid="@ + key + "&CONV_CURRENCY="@ + currency + ACTION_LISTING_COLUMNS@
    } else {
        "&subaid="@ + key + FUNDS_TRANSFER_FILTERS@
    }
}

/// The query parameters of `report` for campaign `key`.
pub fn report_parameters(report: &str, key: &str, currency: &str) -> (r: String)
    ensures
        r@ == parameters_for(report@, key@, currency@),
{
    let mut p = String::from_str("&subaid=");
    p.append(key);
    if same_text(report, ACTION_LISTING_REPORT) {
        p.append("&CONV_CURRENCY=");
        p.append(currency);
        p.append(ACTION_LISTING_COLUMNS);
    } else {
        p.append(FUNDS_TRANSFER_FILTERS);
    }
    p
}

/// The address of the reports of an advertiser account.
pub open spec fn advertiser_url(sid: Seq<char>) -> Seq<char> {
    ADVERTISER_BASE@ + sid + "/Reports/"@
}

/// Element `i` of a looked-up list.
pub open spec fn element_of(j: Option<Json>, i: int) -> Option<Json> {
    match j {
        Some(Json::Array(items)) => if 0 <= i < items.len() {
            Some(items[i])
        } else {
            None
        },
        _ => None,
    }
}

fn campaign_text(campaigns: &Value, key: &str, i: usize) -> (r: Result<String, ConfigError>)
    ensures
        match r {
            Ok(t) => text_of(element_of(member(campaigns@, key@), i as int)) == Some(t@),
            Err(ConfigError::Missing(k)) => k@ == key@ && text_of(
                element_of(member(campaigns@, key@), i as int),
            ) is None,
            Err(ConfigError::NotAnObject) => false,
            Err(ConfigError::DuplicateName(_)) => false,
        },
{
    match get_member(campaigns, key) {
        Some(v) => {
            match v {
                Value::Array(items) => {
                    if i < items.len() {
                        assert(v@->Array_0[i as int] == items@[i as int]@);
                        match &items[i] {
                            Value::Text(t) => {
                                return Ok(t.clone());
                            },
                            _ => {},
                        }
                    }
                },
                _ => {},
            }
        },
        None => {},
    }
    Err(ConfigError::Missing(key.to_owned()))
}

/// The file that holds a report's query, in the configured query directory.
pub open spec fn query_file(dir: Seq<char>, report: Seq<char>) -> Seq<char> {
    dir + "/"@ + report + ".sql"@
}

/// Prepares the request settings of one report for the campaign key of
/// `base`: the advertiser account and token configured for the key, the
/// sub-account and currency of the campaign (`[currency, sub_account]`),
/// and the report's parameters, every text without double quotes. Also
/// returns the file of the report's query, under `impact_queries_path`.
pub fn prepare_report(
    base: &Impact,
    config: &Value,
    campaigns: &Value,
    execution_date: &str,
    report: &str,
) -> (r: Result<(Impact, String), ConfigError>)
    ensures
        match r {
            Ok((job, query)) => {
                let key = base.key@;
                let dir = text_of(member(config@, "impact_queries_path"@));
                let sid = text_of(member_of(member(config@, "impact_acc_sid_v2"@), key));
                let token = text_of(member_of(member(config@, "impact_auth_token_v2"@), key));
                let currency = text_of(element_of(member(campaigns@, key), 0));
                let sub = text_of(element_of(member(campaigns@, key), 1));
                &&& sid is Some && token is Some && currency is Some && sub is Some && dir is Some
                &&& query@ == query_file(dir->Some_0, report@)
                &&& job.key@ == key
                &&& job.sub_account_name@ == sub->Some_0
                &&& job.api_url@ == without_quotes(advertiser_url(sid->Some_0))
                &&& job.auth_sid@ == without_quotes(sid->Some_0)
                &&& job.auth_token@ == without_quotes(token->Some_0)
                &&& job.execution_date@ == without_quotes(execution_date@)
                &&& job.report@ == without_quotes(report@)
                &&& job.parameters@ == without_quotes(parameters_for(report@, key, currency->Some_0))
            },
            Err(ConfigError::Missing(k)) => {
                ||| k@ == "impact_queries_path"@ && text_of(member(config@, k@)) is None
                ||| k@ == base.key@ && {
                    ||| text_of(element_of(member(campaigns@, k@), 0)) is None
                    ||| text_of(element_of(member(campaigns@, k@), 1)) is None
                    ||| text_of(member_of(member(config@, "impact_acc_sid_v2"@), k@)) is None
                    ||| text_of(member_of(member(config@, "impact_auth_token_v2"@), k@)) is None
                }
            },
            Err(ConfigError::NotAnObject) => false,
            Err(ConfigError::DuplicateName(_)) => false,
        },
{
    let key = base.key.as_str();
    let currency = campaign_text(campaigns, key, 0)?;
    let sub_account = campaign_text(campaigns, key, 1)?;
    let dir = config_text(config, "impact_queries_path")?;
    let mut query = dir;
    query.append("/");
    query.append(report);
    query.append(".sql");
    let sid = nested_text(config, "impact_acc_sid_v2", key)?;
    let token = nested_text(config, "impact_auth_token_v2", key)?;
    let mut url = String::from_str(ADVERTISER_BASE);
    url.append(sid.as_str());
    url.append("/Reports/");
    let parameters = report_parameters(report, key, currency.as_str());
    Ok(
        (Impact {
            execution_date: strip_quotes(execution_date),
            api_url: strip_quotes(url.as_str()),
            report: strip_quotes(report),
            parameters: strip_quotes(parameters.as_str()),
            auth_sid: strip_quotes(sid.as_str()),
            auth_token: strip_quotes(token.as_str()),
            sub_account_name: sub_account,
            key: base.key.clone(),
        }, query),
    )
}

/// The address of a report request whose window starts at `start`: the
/// fund-transfer report asks for the year of the execution date (its first
/// four characters), every other report for the window up to that date.
pub open spec fn request_url(job: Impact, start: Seq<char>) -> Option<Seq<char>> {
    if job.report@ == FUNDS_TRANSFER_REPORT@ {
        if job.execution_date@.len() >= 4 {
            Some(
                job.api_url@ + job.report@ + ".json?year_no_all_fin="@ + job.execution_date@.subrange(0, 4)
                    + job.parameters@,
            )
        } else {
            None
        }
    } else {
        Some(
            job.api_url@ + job.report@ + ".json?start_date="@ + start + "&end_date="@
                + job.execution_date@ + job.parameters@,
        )
    }
}

/// The address of the request of `job` whose window starts at `start`.
pub fn report_url(job: &Impact, start: &str) -> (r: Option<String>)
    ensures
        match r {
            Some(u) => request_url(*job, start@) == Some(u@),
            None => request_url(*job, start@) is None,
        },
{
    let mut url = job.api_url.clone();
    url.append(job.report.as_str());
    if same_text(job.report.as_str(), FUNDS_TRANSFER_REPORT) {
        if job.execution_date.as_str().unicode_len() < 4 {
            return None;
        }
        url.append(".json?year_no_all_fin=");
        url.append(job.execution_date.as_str().substring_char(0, 4));
    } else {
        url.append(".json?start_date=");
        url.append(start);
        url.append("&end_date=");
        url.append(job.execution_date.as_str());
    }
    url.append(job.parameters.as_str());
    Some(url)
}

/// Why a report request cannot be made.
#[derive(Debug, PartialEq)]
pub enum RequestError {
    /// The execution date is not a date, or too short to name a year.
    UnreadableDate,
    /// The window reaches beyond the dates that can be held.
    OutOfRange,
}

/// The date that `chrono` reads from a text, as a [`Date`].
pub open spec fn parsed_as(s: Seq<char>, d: Date) -> bool {
    parsed_date(s) == Some((d.year as int, d.month as int, d.day as int))
}

/// Whether `w` is the start of the window that ends at `d`.
pub open spec fn starts_window(d: Date, w: Date) -> bool {
    &&& valid_date(w)
    &&& ends_month(d) ==> is_correction_start(d, w)
    &&& inside_month(d) ==> day_number(w) == day_number(d) - 3
}

/// The address of the request of `job`: its execution date is read, the
/// window that ends there computed, and the address built from its start.
pub fn report_request(job: &Impact) -> (r: Result<String, RequestError>)
    ensures
        match r {
            Ok(u) => exists|d: Date, w: Date|
                parsed_as(job.execution_date@, d) && valid_date(d) && starts_window(d, w) && request_url(
                    *job,
                    date_text(w.year as int, w.month as int, w.day as int),
                ) == Some(u@),
            Err(RequestError::UnreadableDate) => parsed_date(job.execution_date@) is None || (
            job.report@ == FUNDS_TRANSFER_REPORT@ && job.execution_date@.len() < 4),
            Err(RequestError::OutOfRange) => exists|d: Date|
                parsed_as(job.execution_date@, d) && valid_date(d) && !(in_range(day_number(d) + 1)
                    && in_range(day_number(d) - 90)),
        },
{
    let d = match parse_date(job.execution_date.as_str()) {
        Some(d) => d,
        None => {
            return Err(RequestError::UnreadableDate);
        },
    };
    let w = match window_start(&d) {
        Some(w) => w,
        None => {
            assert(parsed_as(job.execution_date@, d));
            return Err(RequestError::OutOfRange);
        },
    };
    let start = show_date(&w);
    match report_url(job, start.as_str()) {
        Some(u) => {
            assert(parsed_as(job.execution_date@, d) && starts_window(d, w));
            Ok(u)
        },
        None => Err(RequestError::UnreadableDate),
    }
}

} // verus!
