//! The top-level overlay coordinator: the show()/hide() transitions with
//! their guard, toggle flag and fallback chains, and the three-tier
//! visibility resolver.
//!
//! The controller owns the operation guard (at most one show/hide/toggle in
//! flight; late arrivals are dropped, never queued), the toggle flag (the
//! authoritative fallback for "should the overlay be considered visible"),
//! and the shared list of per-monitor window labels.

use vstd::prelude::*;

use crate::desktop::{lemma_same_labels_has, Desktop};
use crate::labels::{is_monitor_label, lemma_main_not_monitor_label, main_label, spec_monitor_label};
use crate::manager::{label_in, labels_distinct, MultiMonitorManager};
use crate::rect::{monitors_wf, virtual_bounds, MonitorDescriptor};

verus! {

/// Every label in the list follows the per-monitor naming convention.
pub open spec fn all_monitor_labels(labels: Seq<String>) -> bool {
    forall|k: int| 0 <= k < labels.len() ==> is_monitor_label((#[trigger] labels[k])@)
}

/// Every label in the list has a window on the desktop.
pub open spec fn set_tracks(labels: Seq<String>, desk: Desktop) -> bool {
    forall|k: int| 0 <= k < labels.len() ==> desk.has_label((#[trigger] labels[k])@)
}

/// The three-tier visibility answer: the per-monitor window set when one
/// is tracked, else the main window's reported visibility, else — when the
/// query cannot be performed — the cached toggle flag.
pub open spec fn spec_resolve(desk: Desktop, labels: Seq<String>, toggle: bool) -> bool {
    if labels.len() > 0 {
        exists|k: int| 0 <= k < labels.len() && desk.label_visible((#[trigger] labels[k])@)
    } else if desk.has_label("main"@) {
        desk.label_visible("main"@)
    } else {
        toggle
    }
}

/// What the toggle path treats as "currently visible": the resolver's
/// answer, with the toggle flag overriding a query that says hidden.
pub open spec fn effective_visible(desk: Desktop, labels: Seq<String>, toggle: bool) -> bool {
    spec_resolve(desk, labels, toggle) || toggle
}

/// Answer "is the overlay currently visible": monitor-window set first, a
/// single fallback window second, the cached toggle flag last.
pub fn resolve(desk: &Desktop, window_labels: &Vec<String>, toggle_state: bool) -> (r: bool)
    requires
        desk.wf(),
    ensures
        r == spec_resolve(*desk, window_labels@, toggle_state),
{
    if window_labels.len() > 0 {
        MultiMonitorManager::is_any_window_visible(desk, window_labels)
    } else {
        match desk.is_visible(main_label()) {
            Some(v) => v,
            None => toggle_state,
        }
    }
}

/// A per-monitor overlay surface can be found: either the tracked label
/// set is non-empty, or probing the label convention would find a window.
pub open spec fn monitor_surface_available(labels: Seq<String>, desk: Desktop) -> bool {
    labels.len() > 0 || exists|i: int| 0 <= i < 10 && desk.has_label(#[trigger] spec_monitor_label(i))
}

/// The coordinator for the overlay's visibility transitions.
pub struct OverlayController {
    /// The operation guard: true while a show/hide/toggle is in flight.
    pub op_in_progress: bool,
    /// The toggle flag: the authoritative fallback for visibility.
    pub overlay_visible: bool,
    /// The labels of the tracked per-monitor overlay windows.
    pub window_labels: Vec<String>,
}

impl OverlayController {
    /// The tracked set holds pairwise-distinct per-monitor labels only;
    /// the single-window fallback keeps the set empty.
    pub open spec fn wf(self) -> bool {
        labels_distinct(self.window_labels@) && all_monitor_labels(self.window_labels@)
    }

    /// Decide well-formedness at run time: distinct per-monitor labels.
    pub fn check_wf(&self) -> (r: bool)
        ensures
            r == self.wf(),
    {
        let n = self.window_labels.len();
        let mut i: usize = 0;
        while i < n
            invariant
                0 <= i <= n,
                n == self.window_labels@.len(),
                forall|k: int| 0 <= k < i ==> is_monitor_label((#[trigger] self.window_labels@[k])@),
                forall|p: int, q: int|
                    0 <= p < q < self.window_labels@.len() && p < i ==> (
                    #[trigger] self.window_labels@[p])@ != (#[trigger] self.window_labels@[q])@,
            decreases n - i,
        {
            if !crate::labels::label_is_monitor(self.window_labels[i].as_str()) {
                return false;
            }
            let mut j: usize = i + 1;
            while j < n
                invariant
                    i < j <= n,
                    i < n,
                    n == self.window_labels@.len(),
                    forall|q: int|
                        i < q < j ==> (#[trigger] self.window_labels@[q])@ != self.window_labels@[
                            i as int]@,
                decreases n - j,
            {
                if crate::text::str_eq(
                    self.window_labels[i].as_str(),
                    self.window_labels[j].as_str(),
                ) {
                    return false;
                }
                j = j + 1;
            }
            i = i + 1;
        }
        true
    }

    /// Decide at run time whether every tracked label has a window.
    pub fn check_set_tracks(&self, desk: &Desktop) -> (r: bool)
        ensures
            r == set_tracks(self.window_labels@, *desk),
    {
        let n = self.window_labels.len();
        let mut k: usize = 0;
        while k < n
            invariant
                0 <= k <= n,
                n == self.window_labels@.len(),
                forall|k0: int| 0 <= k0 < k ==> desk.has_label((#[trigger] self.window_labels@[k0])@),
            decreases n - k,
        {
            match desk.find(self.window_labels[k].as_str()) {
                Some(_) => {},
                None => {
                    return false;
                },
            }
            k = k + 1;
        }
        true
    }

    /// Initial state: hidden, no operation in flight, no tracked windows.
    pub fn new() -> (r: Self)
        ensures
            r.wf(),
            !r.op_in_progress,
            !r.overlay_visible,
            r.window_labels@.len() == 0,
    {
        Self { op_in_progress: false, overlay_visible: false, window_labels: Vec::new() }
    }

    /// Adopt the labels of a freshly created per-monitor window set.
    pub fn set_window_labels(&mut self, labels: Vec<String>)
        requires
            labels_distinct(labels@),
            all_monitor_labels(labels@),
        ensures
            final(self).window_labels == labels,
            final(self).op_in_progress == old(self).op_in_progress,
            final(self).overlay_visible == old(self).overlay_visible,
            final(self).wf(),
    {
        self.window_labels = labels;
    }

    /// Resolve the window set to operate on: keep the tracked labels when
    /// there are any, otherwise re-scan for existing monitor windows and
    /// adopt whatever is found. Re-scanning is safe to repeat.
    fn refresh_window_set(&mut self, desk: &Desktop)
        requires
            old(self).wf(),
            desk.wf(),
            set_tracks(old(self).window_labels@, *desk),
        ensures
            final(self).wf(),
            final(self).op_in_progress == old(self).op_in_progress,
            final(self).overlay_visible == old(self).overlay_visible,
            set_tracks(final(self).window_labels@, *desk),
            old(self).window_labels@.len() > 0 ==> final(self).window_labels
                == old(self).window_labels,
            (final(self).window_labels@.len() > 0) == monitor_surface_available(
                old(self).window_labels@,
                *desk,
            ),
    {
        if self.window_labels.len() > 0 {
            return;
        }
        let scanned = MultiMonitorManager::scan_monitor_windows(desk);
        proof {
            if exists|i: int| 0 <= i < 10 && desk.has_label(#[trigger] spec_monitor_label(i)) {
                let i = choose|i: int|
                    0 <= i < 10 && desk.has_label(#[trigger] spec_monitor_label(i));
                assert(label_in(spec_monitor_label(i), scanned@));
                assert(scanned@.len() > 0);
            }
            if scanned@.len() > 0 {
                assert(desk.has_label(scanned@[0]@));
                assert(is_monitor_label(scanned@[0]@));
            }
        }
        if scanned.len() > 0 {
            self.window_labels = scanned;
        }
    }
}


impl OverlayController {
    /// The hide sequence: hide every tracked per-monitor window, then
    /// force the main window hidden as a safety net. Best effort — it
    /// always succeeds.
    fn hide_windows(&mut self, desk: &mut Desktop) -> (r: Result<(), String>)
        requires
            old(self).wf(),
            old(desk).wf(),
            set_tracks(old(self).window_labels@, *old(desk)),
        ensures
            final(self).wf(),
            final(desk).wf(),
            final(self).op_in_progress == old(self).op_in_progress,
            final(self).overlay_visible == old(self).overlay_visible,
            set_tracks(final(self).window_labels@, *final(desk)),
            (final(self).window_labels@.len() > 0) == monitor_surface_available(
                old(self).window_labels@,
                *old(desk),
            ),
            r is Ok,
            !spec_resolve(*final(desk), final(self).window_labels@, false),
            !final(desk).label_visible("main"@),
    {
        self.refresh_window_set(desk);
        let ghost labs = self.window_labels@;
        let ghost d0 = *desk;
        let _hidden = MultiMonitorManager::hide_all_windows(desk, &self.window_labels);
        let ghost d1 = *desk;
        desk.hide_window(main_label());
        desk.set_fullscreen(main_label(), false);
        match desk.is_visible(main_label()) {
            Some(v) => {
                if v {
                    desk.hide_window(main_label());
                }
            },
            None => {},
        }
        proof {
            let d3 = *desk;
            // labels are preserved pointwise through the whole chain
            assert forall|j: int|
                0 <= j < d0.windows@.len() implies (#[trigger] d3.windows@[j]).label@
                    == d0.windows@[j].label@ by {
                if label_in(d0.windows@[j].label@, labs) {
                    let k = choose|k: int|
                        0 <= k < labs.len() && (#[trigger] labs[k])@ == d0.windows@[j].label@;
                    assert(d1.windows@[j] == crate::manager::hidden_like(d0.windows@[j]));
                } else {
                    assert(d1.windows@[j] == d0.windows@[j]);
                }
            }
            lemma_same_labels_has(d0, d3);
            // no tracked label is the sentinel: the main-window operations
            // leave the per-monitor windows alone
            lemma_main_not_monitor_label();
            assert forall|k: int| 0 <= k < labs.len() implies (#[trigger] labs[k])@ != "main"@ by {
                assert(is_monitor_label(labs[k]@));
            }
            // every tracked window ends hidden
            assert forall|k: int| 0 <= k < labs.len() implies !d3.label_visible(
                (#[trigger] labs[k])@,
            ) by {
                assert forall|j: int|
                    0 <= j < d3.windows@.len() && (#[trigger] d3.windows@[j]).label@ == labs[k]@
                        implies !d3.windows@[j].visible by {
                    assert(d0.windows@[j].label@ == labs[k]@);
                    assert(d1.windows@[j] == crate::manager::hidden_like(d0.windows@[j]));
                    assert(d3.windows@[j] == d1.windows@[j]);
                }
            }
            // and the main window, if any, ends hidden too
            assert forall|j: int|
                0 <= j < d3.windows@.len() && (#[trigger] d3.windows@[j]).label@ == "main"@
                    implies !d3.windows@[j].visible by {
                assert(d1.windows@[j].label@ == "main"@);
            }
        }
        Ok(())
    }

    /// The show sequence with its fallback chain: use the per-monitor
    /// window set when one exists (hiding the main window before and
    /// after, which must never be visible at the same time); otherwise
    /// fall back to the single main window, spanning the virtual desktop
    /// when several monitors are present and using fullscreen when one is.
    fn show_windows(&mut self, desk: &mut Desktop, monitors: &Vec<MonitorDescriptor>) -> (r: Result<
        (),
        String,
    >)
        requires
            old(self).wf(),
            old(desk).wf(),
            set_tracks(old(self).window_labels@, *old(desk)),
            monitors_wf(monitors@),
        ensures
            final(self).wf(),
            final(desk).wf(),
            final(self).op_in_progress == old(self).op_in_progress,
            final(self).overlay_visible == old(self).overlay_visible,
            set_tracks(final(self).window_labels@, *final(desk)),
            (final(self).window_labels@.len() > 0) == monitor_surface_available(
                old(self).window_labels@,
                *old(desk),
            ),
            (r is Err) == (!monitor_surface_available(old(self).window_labels@, *old(desk))
                && !old(desk).has_label("main"@)),
            r matches Err(m) ==> m@ == "Main window not found"@,
            r is Ok ==> spec_resolve(*final(desk), final(self).window_labels@, true),
            final(self).window_labels@.len() > 0 ==> !final(desk).label_visible("main"@),
    {
        self.refresh_window_set(desk);
        if self.window_labels.len() > 0 {
            let ghost labs = self.window_labels@;
            let ghost d0 = *desk;
            // hide the main window first: it must never be visible at the
            // same time as the per-monitor windows
            desk.hide_window(main_label());
            desk.set_fullscreen(main_label(), false);
            let ghost d1 = *desk;
            proof {
                lemma_same_labels_has(d0, d1);
                lemma_main_not_monitor_label();
                assert forall|k: int| 0 <= k < labs.len() implies (#[trigger] labs[k])@
                    != "main"@ by {
                    assert(is_monitor_label(labs[k]@));
                }
            }
            let _shown = MultiMonitorManager::show_all_windows(desk, &self.window_labels, monitors);
            let ghost d2 = *desk;
            // the show primitive gives no mutual-exclusion guarantee:
            // re-check the main window and force it hidden if needed
            match desk.is_visible(main_label()) {
                Some(v) => {
                    if v {
                        desk.hide_window(main_label());
                        desk.set_fullscreen(main_label(), false);
                    }
                },
                None => {},
            }
            proof {
                let d3 = *desk;
                // labels survive the chain pointwise
                assert forall|j: int|
                    0 <= j < d0.windows@.len() implies (#[trigger] d3.windows@[j]).label@
                        == d0.windows@[j].label@ by {
                    if label_in(d1.windows@[j].label@, labs) {
                        let k = choose|k: int|
                            0 <= k < labs.len() && (#[trigger] labs[k])@ == d1.windows@[j].label@;
                    }
                }
                lemma_same_labels_has(d0, d3);
                // the first tracked window is visible: the set answers the
                // resolver's first tier
                assert(desk.has_label(labs[0]@)) by {
                    assert(set_tracks(labs, d0));
                }
                let j0 = choose|j: int|
                    0 <= j < d1.windows@.len() && (#[trigger] d1.windows@[j]).label@ == labs[0]@;
                assert(d2.windows@[j0] == crate::manager::shown_like(
                    d1.windows@[j0],
                    if 0 < monitors@.len() {
                        Option::Some(monitors@[0].bounds)
                    } else {
                        Option::None
                    },
                ));
                assert(d3.windows@[j0] == d2.windows@[j0]);
                assert(d3.label_visible(labs[0]@));
                // the main window stays hidden through the whole chain
                assert forall|j: int|
                    0 <= j < d3.windows@.len() && (#[trigger] d3.windows@[j]).label@ == "main"@
                        implies !d3.windows@[j].visible by {
                    assert(d1.windows@[j].label@ == "main"@);
                    assert(!d1.windows@[j].visible);
                    assert(d2.windows@[j] == d1.windows@[j]);
                }
            }
            Ok(())
        } else {
            // single-window fallback: the legacy path
            match desk.find(main_label()) {
                None => Err(String::from_str("Main window not found")),
                Some(_) => {
                    let ghost d0 = *desk;
                    desk.set_always_on_top(main_label(), true);
                    if monitors.len() > 1 {
                        // spanning a single window across monitors:
                        // position it over the whole virtual desktop
                        let vb = virtual_bounds(monitors);
                        desk.set_bounds(main_label(), vb);
                    } else {
                        // a single monitor: fullscreen is reliable there
                        desk.set_fullscreen(main_label(), true);
                    }
                    desk.show(main_label());
                    proof {
                        let d3 = *desk;
                        assert forall|j: int|
                            0 <= j < d0.windows@.len() implies (#[trigger] d3.windows@[j]).label@
                                == d0.windows@[j].label@ by {}
                        lemma_same_labels_has(d0, d3);
                        assert(d3.has_label("main"@));
                        assert forall|j: int|
                            0 <= j < d3.windows@.len() && (#[trigger] d3.windows@[j]).label@
                                == "main"@ implies d3.windows@[j].visible by {}
                        let j0 = choose|j: int|
                            0 <= j < d3.windows@.len() && (#[trigger] d3.windows@[j]).label@
                                == "main"@;
                        assert(d3.label_visible("main"@));
                    }
                    Ok(())
                },
            }
        }
    }

    /// Show the overlay. Guard-protected: a call while an operation is in
    /// flight returns immediately as a no-op, and calling show when the
    /// overlay is already shown mutates no window. On success the toggle
    /// flag is set and the resolver reports the overlay visible; the call
    /// fails only when neither a per-monitor window set nor a main window
    /// exists.
    pub fn show(&mut self, desk: &mut Desktop, monitors: &Vec<MonitorDescriptor>) -> (r: Result<
        (),
        String,
    >)
        requires
            old(self).wf(),
            old(desk).wf(),
            set_tracks(old(self).window_labels@, *old(desk)),
            monitors_wf(monitors@),
        ensures
            final(self).wf(),
            final(desk).wf(),
            set_tracks(final(self).window_labels@, *final(desk)),
            old(self).op_in_progress ==> *final(self) == *old(self) && *final(desk) == *old(desk)
                && r is Ok,
            !old(self).op_in_progress ==> !final(self).op_in_progress,
            !old(self).op_in_progress && old(self).overlay_visible ==> *final(self) == *old(self)
                && *final(desk) == *old(desk) && r is Ok,
            !old(self).op_in_progress && !old(self).overlay_visible ==> {
                &&& (r is Err) == (!monitor_surface_available(old(self).window_labels@, *old(desk))
                    && !old(desk).has_label("main"@))
                &&& (final(self).window_labels@.len() > 0) == monitor_surface_available(
                    old(self).window_labels@,
                    *old(desk),
                )
                &&& final(self).overlay_visible == (r is Ok)
                &&& (r is Ok ==> spec_resolve(*final(desk), final(self).window_labels@, true))
                &&& (final(self).window_labels@.len() > 0 ==> !final(desk).label_visible("main"@))
            },
    {
        if self.op_in_progress {
            return Ok(());
        }
        if self.overlay_visible {
            return Ok(());
        }
        self.op_in_progress = true;
        let r = self.show_windows(desk, monitors);
        let ok = r.is_ok();
        self.overlay_visible = ok;
        self.op_in_progress = false;
        r
    }

    /// Hide the overlay. Guard-protected and idempotent like `show`; the
    /// hide path always succeeds, force-hiding the main window as a safety
    /// net, and clears the toggle flag.
    pub fn hide_overlay(&mut self, desk: &mut Desktop) -> (r: Result<(), String>)
        requires
            old(self).wf(),
            old(desk).wf(),
            set_tracks(old(self).window_labels@, *old(desk)),
        ensures
            final(self).wf(),
            final(desk).wf(),
            set_tracks(final(self).window_labels@, *final(desk)),
            r is Ok,
            old(self).op_in_progress ==> *final(self) == *old(self) && *final(desk) == *old(desk),
            !old(self).op_in_progress ==> !final(self).op_in_progress,
            !old(self).op_in_progress && !old(self).overlay_visible ==> *final(self) == *old(self)
                && *final(desk) == *old(desk),
            !old(self).op_in_progress && old(self).overlay_visible ==> {
                &&& (final(self).window_labels@.len() > 0) == monitor_surface_available(
                    old(self).window_labels@,
                    *old(desk),
                )
                &&& !final(self).overlay_visible
                &&& !spec_resolve(*final(desk), final(self).window_labels@, false)
                &&& !final(desk).label_visible("main"@)
            },
    {
        if self.op_in_progress {
            return Ok(());
        }
        if !self.overlay_visible {
            return Ok(());
        }
        self.op_in_progress = true;
        let r = self.hide_windows(desk);
        self.overlay_visible = false;
        self.op_in_progress = false;
        r
    }

    /// The hotkey side of a toggle: claim the guard, settle the direction
    /// from the resolved visibility (the toggle flag overrides a query
    /// that says hidden), and flip the flag. Returns `Some(true)` when a
    /// show must be performed, `Some(false)` for a hide, and `None` when
    /// an operation is already in flight — the event is dropped, never
    /// queued.
    pub fn begin_toggle(&mut self, desk: &Desktop) -> (r: Option<bool>)
        requires
            old(self).wf(),
            desk.wf(),
        ensures
            final(self).wf(),
            final(self).window_labels == old(self).window_labels,
            old(self).op_in_progress ==> r is None && *final(self) == *old(self),
            !old(self).op_in_progress ==> {
                &&& final(self).op_in_progress
                &&& r == Some(
                    !effective_visible(*desk, old(self).window_labels@, old(self).overlay_visible),
                )
                &&& final(self).overlay_visible == !effective_visible(
                    *desk,
                    old(self).window_labels@,
                    old(self).overlay_visible,
                )
            },
    {
        if self.op_in_progress {
            return None;
        }
        self.op_in_progress = true;
        let v = resolve(desk, &self.window_labels, self.overlay_visible) || self.overlay_visible;
        self.overlay_visible = !v;
        Some(!v)
    }

    /// The deferred side of a toggle: perform the show or hide that
    /// `begin_toggle` settled on, then release the guard — always,
    /// whatever the outcome. A failed show clears the toggle flag so the
    /// next attempt starts from the confirmed state.
    pub fn complete_toggle(
        &mut self,
        desk: &mut Desktop,
        monitors: &Vec<MonitorDescriptor>,
        op_show: bool,
    ) -> (r: Result<(), String>)
        requires
            old(self).wf(),
            old(desk).wf(),
            set_tracks(old(self).window_labels@, *old(desk)),
            monitors_wf(monitors@),
        ensures
            final(self).wf(),
            final(desk).wf(),
            set_tracks(final(self).window_labels@, *final(desk)),
            !final(self).op_in_progress,
            op_show ==> {
                &&& (final(self).window_labels@.len() > 0) == monitor_surface_available(
                    old(self).window_labels@,
                    *old(desk),
                )
                &&& (r is Err) == (!monitor_surface_available(old(self).window_labels@, *old(desk))
                    && !old(desk).has_label("main"@))
                &&& (r is Ok ==> spec_resolve(*final(desk), final(self).window_labels@, true)
                    && final(self).overlay_visible == old(self).overlay_visible)
                &&& (r is Err ==> !final(self).overlay_visible)
                &&& (final(self).window_labels@.len() > 0 ==> !final(desk).label_visible("main"@))
            },
            !op_show ==> {
                &&& (final(self).window_labels@.len() > 0) == monitor_surface_available(
                    old(self).window_labels@,
                    *old(desk),
                )
                &&& r is Ok
                &&& !spec_resolve(*final(desk), final(self).window_labels@, false)
                &&& !final(desk).label_visible("main"@)
                &&& final(self).overlay_visible == old(self).overlay_visible
            },
    {
        let r = if op_show {
            self.show_windows(desk, monitors)
        } else {
            self.hide_windows(desk)
        };
        if op_show && r.is_err() {
            self.overlay_visible = false;
        }
        self.op_in_progress = false;
        r
    }
}

} // verus!
