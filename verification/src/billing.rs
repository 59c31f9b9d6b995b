//! The billing side of a pass: the chart and deployment-costs
//! fetch paths, whose time window comes from the system clock through
//! chrono, and the pure pipeline from a fetched body to emissions.
use vstd::prelude::*;
use chrono::Datelike;
use chrono::SecondsFormat;
use chrono::TimeZone;
use chrono::Utc;
use crate::FetchError;
use crate::json::parse_doc;
use crate::mapper::{Emission, EmV, ems_model, chart_emissions, costs_emissions, map_chart_series,
    map_deployment_costs};
use crate::schema::{dec_chart_series, dec_deployment_costs, decode_chart_series,
    decode_deployment_costs};

verus! {

/// The last representable second: the end of year 9999, which the
/// upstream timestamp formatting supports.
pub open spec fn max_epoch() -> int {
    253402300800
}

/// The RFC 3339 rendering, in UTC with seconds precision and a `Z`
/// suffix, of an epoch second. A function of the epoch alone.
pub uninterp spec fn rfc3339_of(epoch: int) -> Seq<char>;

/// The epoch second at which the UTC month holding `epoch` began. A
/// function of the epoch alone.
pub uninterp spec fn month_start_of(epoch: int) -> int;

/// Relies on chrono's TimeZone::with_ymd_and_hms and Datelike: the
/// first second of the UTC month holding `epoch`. That second is
/// never after `epoch`, never more than thirty-one days before it,
/// and never before the epoch origin for a non-negative input.
#[verifier::external_body]
fn month_start_epoch(epoch: i64) -> (r: i64)
    requires
        0 <= epoch < max_epoch(),
    ensures
        r == month_start_of(epoch as int),
        0 <= r <= epoch,
        epoch - r < 2678400,
{
    let d = Utc.timestamp_opt(epoch, 0).unwrap();
    Utc.with_ymd_and_hms(d.year(), d.month(), 1, 0, 0, 0).unwrap().timestamp()
}

/// Relies on chrono's DateTime::to_rfc3339_opts with seconds
/// precision and a `Z` suffix: the RFC 3339 rendering of an epoch
/// second in UTC.
#[verifier::external_body]
fn rfc3339_utc(epoch: i64) -> (r: String)
    requires
        0 <= epoch < max_epoch(),
    ensures
        r@ == rfc3339_of(epoch as int),
{
    Utc.timestamp_opt(epoch, 0).unwrap().to_rfc3339_opts(SecondsFormat::Secs, true)
}

/// The path of the monthly deployment-costs fetch: costs from the
/// start of the current UTC month.
pub fn deployments_path(now: i64) -> (r: String)
    requires
        0 <= now < max_epoch(),
    ensures
        r@ == "deployments?from="@ + rfc3339_of(month_start_of(now as int)),
{
    let start = month_start_epoch(now);
    let mut s = String::from_str("deployments?from=");
    let ts = rfc3339_utc(start);
    s.append(ts.as_str());
    s
}

/// The path of the hourly billing-chart fetch: the window from one
/// hour ago to now.
pub fn charts_path(now: i64) -> (r: String)
    requires
        3600 <= now < max_epoch(),
    ensures
        r@ == "charts?from="@ + rfc3339_of(now - 3600) + "&to="@ + rfc3339_of(now as int),
{
    let from = rfc3339_utc(now - 3600);
    let to = rfc3339_utc(now);
    let mut s = String::from_str("charts?from=");
    s.append(from.as_str());
    s.append("&to=");
    s.append(to.as_str());
    proof {
        assert(s@ =~= "charts?from="@ + rfc3339_of(now - 3600) + "&to="@ + rfc3339_of(now as int));
    }
    s
}

/// What a chart body maps to, if it decodes.
pub open spec fn chart_emissions_of_body(body: Seq<char>) -> Option<Seq<EmV>> {
    match parse_doc(body) {
        Some(d) => match dec_chart_series(d) {
            Some(bm) => Some(chart_emissions(bm)),
            None => None,
        },
        None => None,
    }
}

/// Decodes a chart body and maps it to its emissions. An empty chart
/// yields no emissions; a malformed body is an error.
pub fn process_chart_body(body: &str) -> (r: Result<Vec<Emission>, FetchError>)
    ensures
        r matches Ok(ems) ==> chart_emissions_of_body(body@) == Some(ems_model(ems@)),
        r matches Err(e) ==> e is Malformed && chart_emissions_of_body(body@) is None,
{
    match decode_chart_series(body) {
        Ok(c) => Ok(map_chart_series(&c)),
        Err(e) => Err(e),
    }
}

/// What a deployment-costs body maps to, if it decodes.
pub open spec fn costs_emissions_of_body(body: Seq<char>) -> Option<Seq<EmV>> {
    match parse_doc(body) {
        Some(d) => match dec_deployment_costs(d) {
            Some(cm) => Some(costs_emissions(cm.1, 0)),
            None => None,
        },
        None => None,
    }
}

/// Decodes a deployment-costs body and maps it to its emissions.
pub fn process_costs_body(body: &str) -> (r: Result<Vec<Emission>, FetchError>)
    ensures
        r matches Ok(ems) ==> costs_emissions_of_body(body@) == Some(ems_model(ems@)),
        r matches Err(e) ==> e is Malformed && costs_emissions_of_body(body@) is None,
{
    match decode_deployment_costs(body) {
        Ok(c) => Ok(map_deployment_costs(&c)),
        Err(e) => Err(e),
    }
}

} // verus!
