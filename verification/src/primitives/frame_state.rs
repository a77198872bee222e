use vstd::prelude::*;

use crate::error::{CockpitError, Result};
use crate::text::{decimal, decimal_text, joined};

verus! {

/// Phases of the render frame lifecycle.
#[derive(Debug, Clone, Copy, PartialEq, Eq, Structural)]
pub enum FramePhase {
    Clean,
    Dirty,
    Encoding,
    Presented,
}

impl FramePhase {
    /// The number that stands for the phase.
    pub open spec fn code(self) -> u8 {
        match self {
            FramePhase::Clean => 0,
            FramePhase::Dirty => 1,
            FramePhase::Encoding => 2,
            FramePhase::Presented => 3,
        }
    }

    /// The phases that may follow this one:
    /// - Clean -> Dirty
    /// - Dirty -> Encoding
    /// - Encoding -> Presented
    /// - Presented -> Clean
    /// - Presented -> Dirty
    pub open spec fn may_become(self, next: FramePhase) -> bool {
        match self {
            FramePhase::Clean => next == FramePhase::Dirty,
            FramePhase::Dirty => next == FramePhase::Encoding,
            FramePhase::Encoding => next == FramePhase::Presented,
            FramePhase::Presented => next == FramePhase::Clean || next == FramePhase::Dirty,
        }
    }

    /// Whether a phase may follow this one.
    pub fn can_become(self, next: FramePhase) -> (may: bool)
        ensures
            may == self.may_become(next),
    {
        match self {
            FramePhase::Clean => next == FramePhase::Dirty,
            FramePhase::Dirty => next == FramePhase::Encoding,
            FramePhase::Encoding => next == FramePhase::Presented,
            FramePhase::Presented => next == FramePhase::Clean || next == FramePhase::Dirty,
        }
    }

    /// The number that stands for the phase.
    pub fn as_u8(self) -> (v: u8)
        ensures
            v == self.code(),
    {
        match self {
            FramePhase::Clean => 0,
            FramePhase::Dirty => 1,
            FramePhase::Encoding => 2,
            FramePhase::Presented => 3,
        }
    }

    /// The phase that a number stands for.
    pub fn from_u8(v: u8) -> (phase: Result<FramePhase>)
        ensures
            match phase {
                Ok(p) => p.code() == v,
                Err(e) => {
                    &&& v > 3
                    &&& e matches CockpitError::Render(m)
                    &&& m@ == "invalid frame phase: "@ + decimal_text(v as nat)
                },
            },
    {
        match v {
            0 => Ok(FramePhase::Clean),
            1 => Ok(FramePhase::Dirty),
            2 => Ok(FramePhase::Encoding),
            3 => Ok(FramePhase::Presented),
            _ => Err(
                CockpitError::Render(joined("invalid frame phase: ", &decimal(v as u64))),
            ),
        }
    }
}

/// Frame state machine. It changes through exclusive access only, so that a transition compares
/// the phase and exchanges it without another change in between.
pub struct AtomicFrameState {
    state: u8,
}

impl View for AtomicFrameState {
    type V = FramePhase;

    /// The current phase.
    closed spec fn view(&self) -> FramePhase {
        match self.state {
            1 => FramePhase::Dirty,
            2 => FramePhase::Encoding,
            3 => FramePhase::Presented,
            _ => FramePhase::Clean,
        }
    }
}

impl AtomicFrameState {
    /// The phase is a stored phase, never a stray number.
    pub closed spec fn wf(&self) -> bool {
        self.state <= 3
    }

    pub fn new() -> (state: AtomicFrameState)
        ensures
            state.wf(),
            state@ == FramePhase::Clean,
    {
        AtomicFrameState { state: FramePhase::Clean.as_u8() }
    }

    /// Attempt a transition from `from` to `to`, which has to be one of the valid ones.
    /// Returns `Ok(())` on success, or `Err` with the current phase on failure.
    pub fn transition(&mut self, from: FramePhase, to: FramePhase) -> (done: std::result::Result<
        (),
        FramePhase,
    >)
        requires
            old(self).wf(),
        ensures
            final(self).wf(),
            done is Ok == (old(self)@ == from && from.may_become(to)),
            match done {
                Ok(_) => final(self)@ == to,
                Err(actual) => actual == old(self)@ && final(self)@ == old(self)@,
            },
    {
        if self.state == from.as_u8() && from.can_become(to) {
            self.state = to.as_u8();
            Ok(())
        } else {
            Err(self.load())
        }
    }

    /// Load the current phase.
    pub fn load(&self) -> (phase: FramePhase)
        requires
            self.wf(),
        ensures
            phase == self@,
    {
        match FramePhase::from_u8(self.state) {
            Ok(phase) => phase,
            Err(_) => FramePhase::Clean,
        }
    }

    /// Mark as dirty. Only transitions from Clean or Presented.
    /// If currently Encoding, leaves state alone — the renderer will pick up
    /// dirty rows on the next frame.
    pub fn mark_dirty(&mut self)
        requires
            old(self).wf(),
        ensures
            final(self).wf(),
            final(self)@ == (if old(self)@ == FramePhase::Encoding {
                FramePhase::Encoding
            } else {
                FramePhase::Dirty
            }),
            final(self)@ == old(self)@ || old(self)@.may_become(final(self)@),
    {
        if self.state == FramePhase::Clean.as_u8() || self.state == FramePhase::Presented.as_u8() {
            self.state = FramePhase::Dirty.as_u8();
        }
    }
}

impl Default for AtomicFrameState {
    fn default() -> (state: AtomicFrameState)
        ensures
            state.wf(),
            state@ == FramePhase::Clean,
    {
        AtomicFrameState::new()
    }
}

/// The phases follow each other in a circle; after the presentation a frame may also become dirty
/// at once. No phase is skipped, and no two have the same number.
pub proof fn phases_follow_each_other(a: FramePhase, b: FramePhase)
    ensures
        a.code() == b.code() ==> a == b,
        a.code() < 4,
        a.may_become(b) <==> b.code() == (a.code() + 1) % 4 || (a == FramePhase::Presented && b
            == FramePhase::Dirty),
        FramePhase::Clean.may_become(FramePhase::Dirty),
        FramePhase::Dirty.may_become(FramePhase::Encoding),
        FramePhase::Encoding.may_become(FramePhase::Presented),
        FramePhase::Presented.may_become(FramePhase::Clean),
{
}

} // verus!
