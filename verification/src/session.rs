//! Recompute bookkeeping: edge-triggered recomputes, stale-result
//! discarding, and the retain-last-good policy.
//!
//! The host reports the viewport size every frame; a recompute is due
//! only when the size differs from the last one observed. Each due
//! recompute gets a fresh generation token; a completion carrying a
//! stale token is discarded unconditionally. A failed attempt leaves the
//! previously successful output on display; only a successful attempt
//! replaces it.

use vstd::prelude::*;

use crate::document::DocumentPage;
use crate::overlay::Overlay;

verus! {

/// One successful recompute's output: the displayed page and its
/// interactive areas.
pub struct Snapshot {
    pub document: DocumentPage,
    pub areas: Vec<Overlay>,
}

/// The recompute state the host loop drives.
pub struct RecomputeState {
    last_size: Option<(u32, u32)>,
    generation: u64,
    current: Option<Snapshot>,
}

impl RecomputeState {
    /// The last viewport size observed.
    pub closed spec fn spec_last_size(self) -> Option<(u32, u32)> {
        self.last_size
    }

    /// The token of the most recently requested recompute.
    pub closed spec fn spec_generation(self) -> u64 {
        self.generation
    }

    /// The output currently on display.
    pub closed spec fn spec_current(self) -> Option<Snapshot> {
        self.current
    }

    /// A fresh state: no size seen, nothing displayed.
    pub fn new() -> (r: RecomputeState)
        ensures
            r.spec_last_size() is None,
            r.spec_generation() == 0,
            r.spec_current() is None,
    {
        RecomputeState { last_size: None, generation: 0, current: None }
    }

    /// Report the viewport size seen this frame. Returns the token of a
    /// newly due recompute exactly when the size differs from the last
    /// observed one; an unchanged size changes nothing. The token wraps
    /// around at the numeric limit.
    pub fn observe_size(&mut self, w: u32, h: u32) -> (r: Option<u64>)
        ensures
            final(self).spec_current() == old(self).spec_current(),
            final(self).spec_last_size() == Some((w, h)),
            old(self).spec_last_size() == Some((w, h)) ==> r is None && *final(self) == *old(
                self,
            ),
            old(self).spec_last_size() != Some((w, h)) ==> {
                &&& final(self).spec_generation() == (if old(self).spec_generation() == u64::MAX {
                    0u64
                } else {
                    (old(self).spec_generation() + 1) as u64
                })
                &&& r == Some(final(self).spec_generation())
            },
    {
        let same = match &self.last_size {
            Some(s) => s.0 == w && s.1 == h,
            None => false,
        };
        if same {
            return None;
        }
        self.last_size = Some((w, h));
        self.generation = if self.generation == u64::MAX {
            0
        } else {
            self.generation + 1
        };
        Some(self.generation)
    }

    /// Complete a recompute attempt. A stale token — one not equal to
    /// the latest issued — is discarded unconditionally. A current token
    /// with a result replaces the display; a current token without one
    /// (a failed attempt) retains the last good output.
    pub fn complete(&mut self, token: u64, result: Option<Snapshot>)
        ensures
            final(self).spec_last_size() == old(self).spec_last_size(),
            final(self).spec_generation() == old(self).spec_generation(),
            token != old(self).spec_generation() ==> final(self).spec_current() == old(
                self,
            ).spec_current(),
            token == old(self).spec_generation() && result is Some ==> final(self).spec_current()
                == result,
            token == old(self).spec_generation() && result is None ==> final(self).spec_current()
                == old(self).spec_current(),
    {
        if token == self.generation {
            if let Some(s) = result {
                self.current = Some(s);
            }
        }
    }

    /// Take the displayed output out for in-place mutation by the
    /// display layer, leaving nothing displayed until it is put back.
    pub fn take_current(&mut self) -> (r: Option<Snapshot>)
        ensures
            final(self).spec_last_size() == old(self).spec_last_size(),
            final(self).spec_generation() == old(self).spec_generation(),
            final(self).spec_current() is None,
            r == old(self).spec_current(),
    {
        self.current.take()
    }

    /// Put an output back on display.
    pub fn put_current(&mut self, s: Snapshot)
        ensures
            final(self).spec_last_size() == old(self).spec_last_size(),
            final(self).spec_generation() == old(self).spec_generation(),
            final(self).spec_current() == Some(s),
    {
        self.current = Some(s);
    }

    /// The output currently on display.
    pub fn current(&self) -> (r: Option<&Snapshot>)
        ensures
            match r {
                Some(s) => self.spec_current() matches Some(c) && *s == c,
                None => self.spec_current() is None,
            },
    {
        self.current.as_ref()
    }
}

} // verus!
