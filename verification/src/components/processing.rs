//! Progress of a module that works in cycles.

use vstd::prelude::*;

verus! {

/// Progress of the current work cycle, counted in whole units.
#[derive(Clone, Copy, Debug, PartialEq, Eq, Structural)]
pub struct ProcessingComponent {
    pub processing_speed: i32,
    pub current_progress: i32,
    pub max_progress: i32,
    pub is_active: bool,
}

impl ProcessingComponent {
    /// Progress stays below the length of a cycle, and the speed never runs backwards.
    pub open spec fn wf(self) -> bool {
        &&& 0 <= self.current_progress < self.max_progress
        &&& 0 <= self.processing_speed
    }

    /// Whether one more step ends the cycle.
    pub open spec fn completes(self) -> bool {
        &&& self.is_active
        &&& self.current_progress < self.max_progress
        &&& self.current_progress + self.processing_speed >= self.max_progress
    }

    /// The component after one step: progress advances, and falls back to zero
    /// in the step that ends the cycle.
    pub open spec fn ticked(self) -> ProcessingComponent {
        if !self.is_active || self.current_progress >= self.max_progress {
            self
        } else if self.completes() {
            ProcessingComponent { current_progress: 0, ..self }
        } else {
            ProcessingComponent {
                current_progress: (self.current_progress + self.processing_speed) as i32,
                ..self
            }
        }
    }

    /// An active component at the start of a cycle of 100 units.
    pub fn new(processing_speed: i32) -> (p: Self)
        ensures
            p == (ProcessingComponent {
                processing_speed,
                current_progress: 0,
                max_progress: 100,
                is_active: true,
            }),
    {
        ProcessingComponent {
            processing_speed,
            current_progress: 0,
            max_progress: 100,
            is_active: true,
        }
    }

    /// Advances by one step and reports whether the cycle ended in it.
    pub fn tick(&mut self) -> (completed: bool)
        requires
            old(self).wf(),
        ensures
            *final(self) == old(self).ticked(),
            completed == old(self).completes(),
            final(self).wf(),
    {
        if !self.is_active {
            return false;
        }
        if self.current_progress < self.max_progress {
            let advanced: i64 = (self.current_progress as i64) + (self.processing_speed as i64);
            if advanced >= self.max_progress as i64 {
                self.current_progress = 0;
                return true;
            }
            self.current_progress = advanced as i32;
        }
        false
    }

    /// Whether progress has reached the end of the cycle.
    pub fn is_complete(&self) -> (r: bool)
        ensures
            r == (self.current_progress >= self.max_progress),
    {
        self.current_progress >= self.max_progress
    }

    /// Starts the cycle over.
    pub fn reset(&mut self)
        ensures
            *final(self) == (ProcessingComponent { current_progress: 0, ..*old(self) }),
    {
        self.current_progress = 0;
    }

    /// Switches the component on or off.
    pub fn set_active(&mut self, active: bool)
        ensures
            *final(self) == (ProcessingComponent { is_active: active, ..*old(self) }),
    {
        self.is_active = active;
    }
}

impl Default for ProcessingComponent {
    /// An active component of speed one.
    fn default() -> (p: Self)
        ensures
            p == (ProcessingComponent {
                processing_speed: 1,
                current_progress: 0,
                max_progress: 100,
                is_active: true,
            }),
    {
        ProcessingComponent::new(1)
    }
}

/// A step keeps progress strictly below the length of the cycle.
pub proof fn lemma_ticked_wf(p: ProcessingComponent)
    requires
        p.wf(),
    ensures
        p.ticked().wf(),
        0 <= p.ticked().current_progress < p.ticked().max_progress,
        p.ticked().max_progress == p.max_progress,
{
}

/// A component that sits at zero with speed zero never reports a completion.
pub proof fn lemma_parked_never_completes(p: ProcessingComponent)
    requires
        p.wf(),
        p.processing_speed == 0,
    ensures
        !p.completes(),
        p.ticked() == p,
{
}

} // verus!
