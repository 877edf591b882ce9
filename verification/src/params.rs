//! The query parameters of the history and PromQL endpoints of the dashboard
//! API, and what a request with them asks for.
//!
//! Times are milliseconds since the Unix epoch; `now_ms` is the time at
//! which the request is served.
use vstd::prelude::*;

use crate::number::{parse_i64, spec_parse_i64};
use crate::text::owned;

verus! {

/// An optional text as its chars.
pub open spec fn opt_text(v: Option<&str>) -> Option<Seq<char>> {
    match v {
        Some(t) => Some(t@),
        None => None,
    }
}

/// The value of a numeric parameter: the parameter parsed, or `default`
/// when it is absent or does not parse.
pub open spec fn spec_param_or(v: Option<Seq<char>>, default: i64) -> int {
    match v {
        Some(t) => match spec_parse_i64(t) {
            Some(n) => n,
            None => default as int,
        },
        None => default as int,
    }
}

/// The value of a numeric parameter, or `default` when it is absent or
/// does not parse.
pub fn param_or(v: Option<&str>, default: i64) -> (r: i64)
    ensures
        r == spec_param_or(opt_text(v), default),
{
    match v {
        Some(t) => match parse_i64(t) {
            Some(n) => n,
            None => default,
        },
        None => default,
    }
}

/// A request for the points of one metric of one host.
#[derive(Debug, Clone)]
pub struct HistoryQuery {
    pub metric: String,
    pub hostname: String,
    pub start_ms: i64,
    pub end_ms: i64,
}

/// The history request that the parameters ask for: none when the metric or
/// the host name is missing or empty; the range runs from `start` (0 by
/// default) to `end` (now by default).
pub fn history_query(
    metric: Option<&str>,
    hostname: Option<&str>,
    start: Option<&str>,
    end: Option<&str>,
    now_ms: i64,
) -> (r: Option<HistoryQuery>)
    ensures
        r is None <==> (opt_text(metric) matches Some(m) ==> m.len() == 0) || (opt_text(hostname) matches Some(
            h,
        ) ==> h.len() == 0),
        r matches Some(q) ==> {
            &&& opt_text(metric) == Some(q.metric@)
            &&& opt_text(hostname) == Some(q.hostname@)
            &&& q.start_ms == spec_param_or(opt_text(start), 0)
            &&& q.end_ms == spec_param_or(opt_text(end), now_ms)
        },
{
    let m = match metric {
        Some(t) => t,
        None => {
            return None;
        },
    };
    let h = match hostname {
        Some(t) => t,
        None => {
            return None;
        },
    };
    if m.unicode_len() == 0 || h.unicode_len() == 0 {
        return None;
    }
    Some(
        HistoryQuery {
            metric: owned(m),
            hostname: owned(h),
            start_ms: param_or(start, 0),
            end_ms: param_or(end, now_ms),
        },
    )
}

/// What a PromQL request asks for.
#[derive(Debug, Clone)]
pub enum QueryPlan {
    /// Evaluate the expression at one time.
    Instant { expr: String, time_ms: i64 },
    /// Evaluate the expression over a range, at every step.
    Range { expr: String, start_ms: i64, end_ms: i64, step_ms: i64 },
}

/// The PromQL request that the parameters ask for: none when the expression
/// is missing or empty; a range query when `start` or `end` is given (from
/// 0 and up to now by default, every 5000 ms by default), else an instant
/// query at `time` (now by default).
pub fn plan_query(
    q: Option<&str>,
    time: Option<&str>,
    start: Option<&str>,
    end: Option<&str>,
    step: Option<&str>,
    now_ms: i64,
) -> (r: Option<QueryPlan>)
    ensures
        r is None <==> (opt_text(q) matches Some(e) ==> e.len() == 0),
        r matches Some(QueryPlan::Range { expr, start_ms, end_ms, step_ms }) ==> {
            &&& opt_text(q) == Some(expr@)
            &&& (start is Some || end is Some)
            &&& start_ms == spec_param_or(opt_text(start), 0)
            &&& end_ms == spec_param_or(opt_text(end), now_ms)
            &&& step_ms == spec_param_or(opt_text(step), 5000)
        },
        r matches Some(QueryPlan::Instant { expr, time_ms }) ==> {
            &&& opt_text(q) == Some(expr@)
            &&& start is None && end is None
            &&& time_ms == spec_param_or(opt_text(time), now_ms)
        },
{
    let e = match q {
        Some(t) => t,
        None => {
            return None;
        },
    };
    if e.unicode_len() == 0 {
        return None;
    }
    if start.is_some() || end.is_some() {
        Some(
            QueryPlan::Range {
                expr: owned(e),
                start_ms: param_or(start, 0),
                end_ms: param_or(end, now_ms),
                step_ms: param_or(step, 5000),
            },
        )
    } else {
        Some(QueryPlan::Instant { expr: owned(e), time_ms: param_or(time, now_ms) })
    }
}

} // verus!
