//! The minimal overlay-surface handle kept for the command layer: the
//! click-through and bare show/hide entry points, which always succeed at
//! this layer — the real transitions run through the controller.

use vstd::prelude::*;

verus! {

pub struct OverlayManager;

impl OverlayManager {
    pub fn new() -> (r: Self)
        ensures
            true,
    {
        Self
    }

    /// Acknowledge a show request. The window mutations themselves are
    /// the controller's transitions.
    pub fn show(&self) -> (r: Result<(), String>)
        ensures
            r is Ok,
    {
        Ok(())
    }

    /// Acknowledge a hide request.
    pub fn hide_surface(&self) -> (r: Result<(), String>)
        ensures
            r is Ok,
    {
        Ok(())
    }

    /// Acknowledge a click-through change; the style bits are the
    /// platform boundary's business.
    pub fn set_click_through(&self, _enabled: bool) -> (r: Result<(), String>)
        ensures
            r is Ok,
    {
        Ok(())
    }
}

} // verus!
