//! Alerts: which failed background jobs raise one, and how the alert list is
//! paged.
use vstd::prelude::*;
use crate::paging::{page_window, window};

verus! {

/// Alert groups per page when nothing is asked for, and the most per page.
pub const PAGE: i64 = 8;

pub const MAX_PAGE: i64 = 50;

/// How long alerts are kept, in days.
pub const RETAIN_DAYS: i32 = 30;

pub struct ListQuery {
    pub q: Option<String>,
    pub limit: Option<i64>,
    pub offset: Option<i64>,
}

impl ListQuery {
    /// Eight groups by default, within `1..=50`; offset at least 0.
    pub fn page(&self) -> (r: (i64, i64))
        ensures
            r.0 == window(self.limit, self.offset, PAGE, 1, MAX_PAGE).0,
            r.1 == window(self.limit, self.offset, PAGE, 1, MAX_PAGE).1,
    {
        page_window(self.limit, self.offset, PAGE, 1, MAX_PAGE)
    }
}

/// What an alert is about.
#[derive(Clone, Copy, Debug, PartialEq, Eq, Structural)]
pub enum AlertKind {
    /// The model endpoint keeps refusing for rate limits.
    LlmRateLimited,
    /// The model endpoint cannot be reached.
    LlmUnreachable,
}

#[derive(Clone, Copy, Debug, PartialEq, Eq, Structural)]
pub enum Severity {
    Warning,
    Error,
}

/// The alert a failed job raises. Only a job that has used up its attempts
/// raises one, and only for a model endpoint that rate-limits (a warning; this
/// is checked first, because a rate limit is not an unreachable endpoint) or
/// cannot be reached (an error). Any other failure raises nothing.
pub open spec fn job_alert_of(attempts: i32, max_attempts: i32, rate_limited: bool, unreachable: bool) -> Option<
    (AlertKind, Severity),
> {
    if attempts < max_attempts {
        None
    } else if rate_limited {
        Some((AlertKind::LlmRateLimited, Severity::Warning))
    } else if unreachable {
        Some((AlertKind::LlmUnreachable, Severity::Error))
    } else {
        None
    }
}

pub fn job_alert(attempts: i32, max_attempts: i32, rate_limited: bool, unreachable: bool) -> (r: Option<
    (AlertKind, Severity),
>)
    ensures
        r == job_alert_of(attempts, max_attempts, rate_limited, unreachable),
{
    if attempts < max_attempts {
        return None;
    }
    if rate_limited {
        return Some((AlertKind::LlmRateLimited, Severity::Warning));
    }
    if unreachable {
        return Some((AlertKind::LlmUnreachable, Severity::Error));
    }
    None
}

} // verus!
