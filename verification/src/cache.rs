//! The capture cache: a single slot holding the most recent capture result
//! set. An explicitly owned object, created at application start and passed
//! to whatever orchestrates capture sessions; writers replace the slot
//! wholesale and readers see either the prior or the new set, never a
//! partial one, because every access goes through `&mut` or `&`.

use vstd::prelude::*;
use crate::capture::MonitorScreenshotInfo;

verus! {

/// The single most-recent-capture slot. Empty is a distinct "not yet
/// captured" condition, not an empty result set.
pub struct CaptureCache {
    last: Option<Vec<MonitorScreenshotInfo>>,
}

/// The slot's mathematical content: the retained capture set, if any.
pub open spec fn spec_cache_new() -> Option<Seq<MonitorScreenshotInfo>> {
    None
}

pub open spec fn spec_cache_store(
    slot: Option<Seq<MonitorScreenshotInfo>>,
    captures: Seq<MonitorScreenshotInfo>,
) -> Option<Seq<MonitorScreenshotInfo>> {
    Some(captures)
}

pub open spec fn spec_cache_clear(
    slot: Option<Seq<MonitorScreenshotInfo>>,
) -> Option<Seq<MonitorScreenshotInfo>> {
    None
}

pub open spec fn spec_cache_get(
    slot: Option<Seq<MonitorScreenshotInfo>>,
) -> Option<Seq<MonitorScreenshotInfo>> {
    slot
}

impl View for CaptureCache {
    type V = Option<Seq<MonitorScreenshotInfo>>;

    closed spec fn view(&self) -> Option<Seq<MonitorScreenshotInfo>> {
        match self.last {
            Some(ref v) => Some(v@),
            None => None,
        }
    }
}

impl CaptureCache {
    /// A fresh cache holds nothing.
    pub fn new() -> (cache: CaptureCache)
        ensures
            cache@ == spec_cache_new(),
    {
        CaptureCache { last: None }
    }

    /// Replace whatever the slot held with the given capture set.
    pub fn store_last_captures(&mut self, captures: Vec<MonitorScreenshotInfo>)
        ensures
            final(self)@ == spec_cache_store(old(self)@, captures@),
    {
        self.last = Some(captures);
    }

    /// Empty the slot; a later read finds "not yet captured" again.
    pub fn clear_last_captures(&mut self)
        ensures
            final(self)@ == spec_cache_clear(old(self)@),
    {
        self.last = None;
    }

    /// The retained capture set, or nothing when no capture has been
    /// stored since the cache was created or last cleared.
    pub fn get_last_captures(&self) -> (out: Option<&Vec<MonitorScreenshotInfo>>)
        ensures
            out is Some <==> spec_cache_get(self@) is Some,
            out is Some ==> out->Some_0@ == spec_cache_get(self@)->Some_0,
    {
        match self.last {
            Some(ref v) => Some(v),
            None => None,
        }
    }
}

/// Law: reading a fresh cache yields nothing; after storing `a` and then
/// `b`, reading yields exactly `b`; after clearing, reading yields nothing
/// again — whatever the slot held before.
pub proof fn lemma_cache_round_trip(
    slot: Option<Seq<MonitorScreenshotInfo>>,
    a: Seq<MonitorScreenshotInfo>,
    b: Seq<MonitorScreenshotInfo>,
)
    ensures
        spec_cache_get(spec_cache_new()) is None,
        spec_cache_get(spec_cache_store(spec_cache_store(slot, a), b)) == Some(b),
        spec_cache_get(spec_cache_clear(slot)) is None,
{
}

} // verus!
