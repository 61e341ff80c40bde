//! The review desk: which queues exist, how a page of one is read, which
//! decisions each kind of item accepts, and the steps a decided axiom
//! violation takes. The store work (lookups, the decisions themselves, the
//! audit rows) is done by the caller, in the order these functions give.
use vstd::prelude::*;
use uuid::Uuid;
use crate::paging::{numbered_page, page_offset, page_window, window};
use crate::search::{find_chars, find_first};
use crate::text::{chars_of, str_eq, string_of};

verus! {

/// Review items per page when nothing is asked for.
pub const REVIEW_PAGE: i64 = 10;

/// The review queues.
#[derive(Clone, Copy, Debug, PartialEq, Eq, Structural)]
pub enum Queue {
    Pending,
    Duplicates,
    Conflicts,
    Unconfirmed,
    LowConfidence,
    Mappings,
    Violations,
    Defects,
    Merges,
}

pub open spec fn queue_named(name: Seq<char>) -> Option<Queue> {
    if name == "pending"@ {
        Some(Queue::Pending)
    } else if name == "duplicates"@ {
        Some(Queue::Duplicates)
    } else if name == "conflicts"@ {
        Some(Queue::Conflicts)
    } else if name == "unconfirmed"@ {
        Some(Queue::Unconfirmed)
    } else if name == "lowconf"@ {
        Some(Queue::LowConfidence)
    } else if name == "mappings"@ {
        Some(Queue::Mappings)
    } else if name == "violations"@ {
        Some(Queue::Violations)
    } else if name == "defects"@ {
        Some(Queue::Defects)
    } else if name == "merges"@ {
        Some(Queue::Merges)
    } else {
        None
    }
}

fn parse_queue(name: &str) -> (r: Option<Queue>)
    ensures
        r == queue_named(name@),
{
    if str_eq(name, "pending") {
        Some(Queue::Pending)
    } else if str_eq(name, "duplicates") {
        Some(Queue::Duplicates)
    } else if str_eq(name, "conflicts") {
        Some(Queue::Conflicts)
    } else if str_eq(name, "unconfirmed") {
        Some(Queue::Unconfirmed)
    } else if str_eq(name, "lowconf") {
        Some(Queue::LowConfidence)
    } else if str_eq(name, "mappings") {
        Some(Queue::Mappings)
    } else if str_eq(name, "violations") {
        Some(Queue::Violations)
    } else if str_eq(name, "defects") {
        Some(Queue::Defects)
    } else if str_eq(name, "merges") {
        Some(Queue::Merges)
    } else {
        None
    }
}

/// Why a review request is turned down.
#[derive(Debug)]
pub enum ReviewRefusal {
    /// No queue has that name.
    UnknownQueue(String),
    /// A mapping decision other than `confirmed` or `rejected`.
    BadStatus,
    /// A violation resolution outside the four known ones.
    BadViolationResolution,
    /// The violation is not open, or not in this knowledge base.
    NotFound,
    /// `fact_closed` without the day to close on.
    CloseAtRequired,
    /// The fact to close already has an end, or was retracted.
    NotOpen,
    /// `fact_closed` on a violation that is not a derived contradiction.
    ClosedOnlyForDerived,
    /// A defect resolution other than `fixed` or `accepted`.
    BadDefectResolution,
    /// A pending decision other than `confirm` or `reject`.
    UnknownAction(String),
}

impl ReviewRefusal {
    pub fn code(&self) -> (c: &'static str)
        ensures
            c@ == match self {
                ReviewRefusal::UnknownQueue(_) => "unknown_queue"@,
                ReviewRefusal::BadStatus => "bad_status"@,
                ReviewRefusal::BadViolationResolution => "bad_resolution"@,
                ReviewRefusal::NotFound => "not_found"@,
                ReviewRefusal::CloseAtRequired => "close_at_required"@,
                ReviewRefusal::NotOpen => "not_open"@,
                ReviewRefusal::ClosedOnlyForDerived => "bad_resolution"@,
                ReviewRefusal::BadDefectResolution => "bad_resolution"@,
                ReviewRefusal::UnknownAction(_) => "unknown_action"@,
            },
    {
        match self {
            ReviewRefusal::UnknownQueue(_) => "unknown_queue",
            ReviewRefusal::BadStatus => "bad_status",
            ReviewRefusal::BadViolationResolution => "bad_resolution",
            ReviewRefusal::NotFound => "not_found",
            ReviewRefusal::CloseAtRequired => "close_at_required",
            ReviewRefusal::NotOpen => "not_open",
            ReviewRefusal::ClosedOnlyForDerived => "bad_resolution",
            ReviewRefusal::BadDefectResolution => "bad_resolution",
            ReviewRefusal::UnknownAction(_) => "unknown_action",
        }
    }
}

fn joined(head: &str, tail: &str) -> (r: String)
    ensures
        r@ == head@ + tail@,
{
    let mut a = chars_of(head);
    let mut b = chars_of(tail);
    let ghost x = a@;
    let ghost y = b@;
    a.append(&mut b);
    proof {
        assert(a@ =~= x + y);
    }
    string_of(&a)
}

pub struct ReviewQuery {
    pub queue: Option<String>,
    pub limit: Option<i64>,
    pub offset: Option<i64>,
}

impl ReviewQuery {
    /// The queue asked for (`duplicates` when none), with the page size (10 by
    /// default, within `1..=200`) and the offset (at least 0).
    pub fn read(&self) -> (r: Result<(Queue, i64, i64), ReviewRefusal>)
        ensures
            ({
                let name = match self.queue {
                    Some(q) => q@,
                    None => "duplicates"@,
                };
                match queue_named(name) {
                    Some(q) => r matches Ok((k, l, o)) && k == q && l == window(
                        self.limit,
                        self.offset,
                        REVIEW_PAGE,
                        1,
                        200,
                    ).0 && o == window(self.limit, self.offset, REVIEW_PAGE, 1, 200).1,
                    None => r matches Err(ReviewRefusal::UnknownQueue(m)) && m@
                        == "no review queue named "@ + name,
                }
            }),
    {
        let name: &str = match &self.queue {
            Some(q) => q.as_str(),
            None => "duplicates",
        };
        match parse_queue(name) {
            Some(q) => {
                let (l, o) = page_window(self.limit, self.offset, REVIEW_PAGE, 1, 200);
                Ok((q, l, o))
            },
            None => Err(ReviewRefusal::UnknownQueue(joined("no review queue named ", name))),
        }
    }
}

pub struct DecideBody {
    pub action: String,
}

impl DecideBody {
    /// The audit action a duplicate decision is recorded under.
    pub fn audit_action(&self) -> (r: &'static str)
        ensures
            self.action@ == "merge"@ ==> r@ == "review.merge"@,
            self.action@ != "merge"@ ==> r@ == "review.keep"@,
    {
        if str_eq(self.action.as_str(), "merge") {
            "review.merge"
        } else {
            "review.keep"
        }
    }
}

/// The audit action a conflict decision is recorded under.
pub fn conflict_audit_action(action: &str) -> (r: &'static str)
    ensures
        action@ == "close"@ ==> r@ == "conflict.close_old"@,
        action@ == "keep"@ ==> r@ == "conflict.keep_both"@,
        action@ != "close"@ && action@ != "keep"@ ==> r@ == "conflict.reject_new"@,
{
    proof {
        reveal_strlit("close");
        reveal_strlit("keep");
        assert("keep"@[0] != "close"@[0]);
    }
    if str_eq(action, "close") {
        "conflict.close_old"
    } else if str_eq(action, "keep") {
        "conflict.keep_both"
    } else {
        "conflict.reject_new"
    }
}

pub struct ManualMergeBody {
    pub source: Uuid,
    pub target: Uuid,
}

/// The two names of a merge as the store reports them, `source → target`: the
/// text before the first arrow and the text after it, or the whole text and
/// nothing when there is no arrow.
pub open spec fn merge_names(pair: Seq<char>) -> (Seq<char>, Seq<char>) {
    let sep = " \u{2192} "@;
    match find_first(pair, sep) {
        Some(i) => (pair.take(i), pair.skip(i + sep.len())),
        None => (pair, Seq::empty()),
    }
}

pub fn split_merge_names(pair: &str) -> (r: (String, String))
    ensures
        r.0@ == merge_names(pair@).0,
        r.1@ == merge_names(pair@).1,
{
    let p = chars_of(pair);
    let n = p.len();
    let sep: Vec<char> = vec![' ', '\u{2192}', ' '];
    proof {
        reveal_strlit(" \u{2192} ");
        assert(sep@ =~= " \u{2192} "@);
    }
    match find_chars(&p, &sep) {
        Some(i) => {
            proof {
                assert(i + 3 <= p@.len());
            }
            let a = crate::text::slice_chars(&p, 0, i);
            let b = crate::text::slice_chars(&p, i + 3, n);
            proof {
                assert(a@ =~= p@.take(i as int));
                assert(b@ =~= p@.skip(i + 3));
            }
            (string_of(&a), string_of(&b))
        },
        None => {
            proof {
                assert(Seq::<char>::empty() =~= Seq::empty());
            }
            (string_of(&p), string_of(&Vec::new()))
        },
    }
}

pub struct HistoryQuery {
    pub page: i64,
    pub per: i64,
}

/// How many review events a history page shows when nothing is asked for.
pub fn default_history_per() -> (r: i64)
    ensures
        r == 20,
{
    20
}

impl HistoryQuery {
    /// The page size within `1..=100` and the offset of the page asked for.
    pub fn window(&self) -> (r: (i64, i64))
        requires
            numbered_page(self.page, self.per, 100).1 <= i64::MAX,
        ensures
            r.0 == numbered_page(self.page, self.per, 100).0,
            r.1 == numbered_page(self.page, self.per, 100).1,
    {
        page_offset(self.page, self.per, 100)
    }
}

pub struct DecideMappingReq {
    pub status: String,
}

impl DecideMappingReq {
    /// A mapping is confirmed or rejected, nothing else.
    pub fn check(&self) -> (r: Result<(), ReviewRefusal>)
        ensures
            r is Ok <==> (self.status@ == "confirmed"@ || self.status@ == "rejected"@),
            r is Err ==> r matches Err(ReviewRefusal::BadStatus),
    {
        if str_eq(self.status.as_str(), "confirmed") || str_eq(self.status.as_str(), "rejected") {
            Ok(())
        } else {
            Err(ReviewRefusal::BadStatus)
        }
    }
}

pub struct DecideDefectReq {
    pub resolution: String,
}

impl DecideDefectReq {
    /// A defect is fixed or accepted, nothing else.
    pub fn check(&self) -> (r: Result<(), ReviewRefusal>)
        ensures
            r is Ok <==> (self.resolution@ == "fixed"@ || self.resolution@ == "accepted"@),
            r is Err ==> r matches Err(ReviewRefusal::BadDefectResolution),
    {
        if str_eq(self.resolution.as_str(), "fixed") || str_eq(self.resolution.as_str(), "accepted") {
            Ok(())
        } else {
            Err(ReviewRefusal::BadDefectResolution)
        }
    }
}

pub struct PendingQuery {
    pub chunk_id: Uuid,
}

pub struct DecidePendingBody {
    pub action: String,
}

/// What a pending fact's decision does.
#[derive(Clone, Copy, Debug, PartialEq, Eq, Structural)]
pub enum PendingDecision {
    Confirm,
    Reject,
}

impl DecidePendingBody {
    pub fn decision(&self) -> (r: Result<PendingDecision, ReviewRefusal>)
        ensures
            self.action@ == "confirm"@ ==> r matches Ok(PendingDecision::Confirm),
            self.action@ == "reject"@ ==> r matches Ok(PendingDecision::Reject),
            self.action@ != "confirm"@ && self.action@ != "reject"@ ==> (r matches Err(
                ReviewRefusal::UnknownAction(m),
            ) && m@ == "action must be confirm or reject, got "@ + self.action@),
    {
        proof {
            reveal_strlit("confirm");
            reveal_strlit("reject");
            assert("reject"@[0] != "confirm"@[0]);
        }
        if str_eq(self.action.as_str(), "confirm") {
            Ok(PendingDecision::Confirm)
        } else if str_eq(self.action.as_str(), "reject") {
            Ok(PendingDecision::Reject)
        } else {
            Err(
                ReviewRefusal::UnknownAction(
                    joined("action must be confirm or reject, got ", self.action.as_str()),
                ),
            )
        }
    }
}

// ---------------------------------------------------------------------------
// Axiom violations
// ---------------------------------------------------------------------------

/// How a violation was resolved.
#[derive(Clone, Copy, Debug, PartialEq, Eq, Structural)]
pub enum Resolution {
    FactRetracted,
    FactClosed,
    AxiomRelaxed,
    Accepted,
}

pub open spec fn resolution_named(name: Seq<char>) -> Option<Resolution> {
    if name == "fact_retracted"@ {
        Some(Resolution::FactRetracted)
    } else if name == "fact_closed"@ {
        Some(Resolution::FactClosed)
    } else if name == "axiom_relaxed"@ {
        Some(Resolution::AxiomRelaxed)
    } else if name == "accepted"@ {
        Some(Resolution::Accepted)
    } else {
        None
    }
}

/// The resolution a violation decision names.
pub fn parse_resolution(name: &str) -> (r: Result<Resolution, ReviewRefusal>)
    ensures
        match resolution_named(name@) {
            Some(x) => r matches Ok(y) && y == x,
            None => r matches Err(ReviewRefusal::BadViolationResolution),
        },
{
    if str_eq(name, "fact_retracted") {
        Ok(Resolution::FactRetracted)
    } else if str_eq(name, "fact_closed") {
        Ok(Resolution::FactClosed)
    } else if str_eq(name, "axiom_relaxed") {
        Ok(Resolution::AxiomRelaxed)
    } else if str_eq(name, "accepted") {
        Ok(Resolution::Accepted)
    } else {
        Err(ReviewRefusal::BadViolationResolution)
    }
}

/// What deciding a violation does to its left-hand fact before the decision
/// is recorded.
#[derive(Clone, Copy, Debug, PartialEq, Eq, Structural)]
pub enum FactRepair {
    /// Nothing: only the decision is recorded.
    Keep,
    /// Retract the fact.
    Retract,
    /// Close the fact on the given day, once it is checked to be still open.
    Close,
}

/// The plan for a decided violation: what happens to its fact, and whether
/// derived facts are worked out again afterwards. Only a derived contradiction
/// is repaired through its fact; `fact_closed` needs a day and applies to
/// nothing else. `kind` is the open violation's kind, `None` when no open
/// violation has that id.
pub open spec fn violation_plan(resolution: Resolution, kind: Option<Seq<char>>, close_at_given: bool) -> Result<
    (FactRepair, bool),
    int,
> {
    match kind {
        None => Err(0),
        Some(k) => {
            let repaired = k == "derived_contradiction"@;
            if repaired && resolution == Resolution::FactRetracted {
                Ok((FactRepair::Retract, true))
            } else if repaired && resolution == Resolution::FactClosed {
                if close_at_given {
                    Ok((FactRepair::Close, true))
                } else {
                    Err(1)
                }
            } else if !repaired && resolution == Resolution::FactClosed {
                Err(2)
            } else {
                Ok((FactRepair::Keep, repaired))
            }
        },
    }
}

pub fn plan_violation(resolution: Resolution, kind: Option<&str>, close_at_given: bool) -> (r: Result<
    (FactRepair, bool),
    ReviewRefusal,
>)
    ensures
        match violation_plan(
            resolution,
            match kind {
                Some(k) => Some(k@),
                None => None,
            },
            close_at_given,
        ) {
            Ok(p) => r matches Ok(q) && q == p,
            Err(c) => match r {
                Err(e) => c == 0 && e is NotFound || c == 1 && e is CloseAtRequired || c == 2
                    && e is ClosedOnlyForDerived,
                Ok(_) => false,
            },
        },
{
    let k = match kind {
        None => return Err(ReviewRefusal::NotFound),
        Some(k) => k,
    };
    let repaired = str_eq(k, "derived_contradiction");
    if repaired && resolution == Resolution::FactRetracted {
        Ok((FactRepair::Retract, true))
    } else if repaired && resolution == Resolution::FactClosed {
        if close_at_given {
            Ok((FactRepair::Close, true))
        } else {
            Err(ReviewRefusal::CloseAtRequired)
        }
    } else if !repaired && resolution == Resolution::FactClosed {
        Err(ReviewRefusal::ClosedOnlyForDerived)
    } else {
        Ok((FactRepair::Keep, repaired))
    }
}

/// A decision on an axiom violation: how it was resolved, and for
/// `fact_closed` the day the old assertion ended.
pub struct DecideViolationReq {
    pub resolution: String,
    pub close_at: Option<crate::dates::Instant>,
}

impl DecideViolationReq {
    /// The resolution is read first (`bad_resolution` for any other name), then
    /// planned against the open violation's kind (`None` when there is no open
    /// violation with that id).
    pub fn plan(&self, kind: Option<&str>) -> (r: Result<(Resolution, FactRepair, bool), ReviewRefusal>)
        ensures
            resolution_named(self.resolution@) is None ==> r matches Err(
                ReviewRefusal::BadViolationResolution,
            ),
            resolution_named(self.resolution@) matches Some(res) ==> match violation_plan(
                res,
                match kind {
                    Some(k) => Some(k@),
                    None => None,
                },
                self.close_at is Some,
            ) {
                Ok(p) => r matches Ok(q) && q == (res, p.0, p.1),
                Err(c) => match r {
                    Err(e) => c == 0 && e is NotFound || c == 1 && e is CloseAtRequired || c == 2
                        && e is ClosedOnlyForDerived,
                    Ok(_) => false,
                },
            },
    {
        let res = match parse_resolution(self.resolution.as_str()) {
            Ok(x) => x,
            Err(e) => return Err(e),
        };
        match plan_violation(res, kind, self.close_at.is_some()) {
            Ok((repair, again)) => Ok((res, repair, again)),
            Err(e) => Err(e),
        }
    }
}

/// A temporal conflict decided by a person: `close` the old fact, `keep`
/// both, or reject the new one; `close_at` when closing a fact that has no
/// start.
pub struct ConflictBody {
    pub action: String,
    pub close_at: Option<crate::dates::Instant>,
}

impl ConflictBody {
    /// The audit action the decision is recorded under.
    pub fn audit_action(&self) -> (r: &'static str)
        ensures
            self.action@ == "close"@ ==> r@ == "conflict.close_old"@,
            self.action@ == "keep"@ ==> r@ == "conflict.keep_both"@,
            self.action@ != "close"@ && self.action@ != "keep"@ ==> r@ == "conflict.reject_new"@,
    {
        conflict_audit_action(self.action.as_str())
    }
}

/// A fact closed by hand: the instant it stopped holding.
pub struct CloseFactBody {
    pub valid_to: crate::dates::Instant,
}

/// Closing a fact goes ahead only while the fact is still open.
pub fn close_check(still_open: bool) -> (r: Result<(), ReviewRefusal>)
    ensures
        still_open ==> r is Ok,
        !still_open ==> r matches Err(ReviewRefusal::NotOpen),
{
    if still_open {
        Ok(())
    } else {
        Err(ReviewRefusal::NotOpen)
    }
}

/// A violation that is not a derived contradiction never touches its fact, and
/// nothing derived is worked out again for it.
pub proof fn law_only_derived_contradictions_are_repaired(
    resolution: Resolution,
    kind: Seq<char>,
    close_at_given: bool,
)
    requires
        kind != "derived_contradiction"@,
    ensures
        match violation_plan(resolution, Some(kind), close_at_given) {
            Ok((repair, rederive)) => repair == FactRepair::Keep && !rederive,
            Err(c) => c == 2 && resolution == Resolution::FactClosed,
        },
{
}

} // verus!
