//! The graph views' parameters: how many nodes an overview draws, how far a
//! neighbourhood reaches, how entity search and history pages read, and what
//! an entity edit must carry.
use vstd::prelude::*;
use uuid::Uuid;
use crate::paging::{clamp, clamp_i64, numbered_page, page_offset, page_window, window};
use crate::text::trim_seq;

verus! {

/// How many nodes an overview draws when nothing is asked for.
pub const GRAPH_NODE_CAP: i64 = 150;

/// The most an overview ever draws: past this the layout, not the reader, is
/// what gives out.
pub const GRAPH_NODE_CAP_MAX: i64 = 1000;

pub struct OverviewQuery {
    pub at: Option<String>,
    pub as_of: Option<String>,
    pub limit: Option<i64>,
}

impl OverviewQuery {
    /// The node budget: the limit asked for (or 150), clamped into `10..=1000`.
    pub fn node_limit(&self) -> (r: i64)
        ensures
            r == clamp(
                match self.limit {
                    Some(x) => x as int,
                    None => GRAPH_NODE_CAP as int,
                },
                10,
                GRAPH_NODE_CAP_MAX as int,
            ),
    {
        let l = match self.limit {
            Some(x) => x,
            None => GRAPH_NODE_CAP,
        };
        clamp_i64(l, 10, GRAPH_NODE_CAP_MAX)
    }
}

pub struct NeighborhoodQuery {
    pub entity: Uuid,
    pub hops: Option<u8>,
    pub at: Option<String>,
    pub as_of: Option<String>,
}

impl NeighborhoodQuery {
    /// How many hops out a neighbourhood reaches: as asked, else two.
    pub fn hop_count(&self) -> (r: u8)
        ensures
            r == match self.hops {
                Some(h) => h,
                None => 2,
            },
    {
        match self.hops {
            Some(h) => h,
            None => 2,
        }
    }
}

pub struct EntitySearchQuery {
    pub q: String,
    pub limit: Option<i64>,
    pub offset: Option<i64>,
}

impl EntitySearchQuery {
    /// Whether there is anything to search for: a blank query answers with no
    /// entities and a total of zero without asking the store.
    pub fn is_blank(&self) -> (r: bool)
        ensures
            r == (trim_seq(self.q@).len() == 0),
    {
        crate::text::trim_str(self.q.as_str()).unicode_len() == 0
    }

    /// Page size 10 by default, within `1..=100`; offset at least 0.
    pub fn page(&self) -> (r: (i64, i64))
        ensures
            r.0 == window(self.limit, self.offset, 10, 1, 100).0,
            r.1 == window(self.limit, self.offset, 10, 1, 100).1,
    {
        page_window(self.limit, self.offset, 10, 1, 100)
    }
}

pub struct EntityDetailQuery {
    pub as_of: Option<String>,
}

/// An edit of an entity: a new type, a new canonical name, or both.
pub struct EntityPatch {
    pub type_id: Option<Uuid>,
    pub canonical_name: Option<String>,
}

impl EntityPatch {
    /// An edit that changes nothing is refused (`nothing_to_update`).
    pub fn has_changes(&self) -> (r: bool)
        ensures
            r == (self.type_id is Some || self.canonical_name is Some),
    {
        self.type_id.is_some() || self.canonical_name.is_some()
    }
}

pub struct HistoryQuery {
    pub page: i64,
    pub per: i64,
}

/// How many history events a page shows when nothing is asked for.
pub fn default_history_per() -> (r: i64)
    ensures
        r == 30,
{
    30
}

impl HistoryQuery {
    /// The page size within `1..=200` and the offset of the page asked for.
    pub fn window(&self) -> (r: (i64, i64))
        requires
            numbered_page(self.page, self.per, 200).1 <= i64::MAX,
        ensures
            r.0 == numbered_page(self.page, self.per, 200).0,
            r.1 == numbered_page(self.page, self.per, 200).1,
    {
        page_offset(self.page, self.per, 200)
    }
}

} // verus!
