//! Per-monitor overlay window management: create one borderless always-on-
//! top window per display, show or hide the whole set with re-applied
//! bounds and a verify-and-retry-once policy, and answer whether any of the
//! set is visible.

use vstd::prelude::*;

use crate::desktop::{Desktop, OverlayWindow};
use crate::labels::{is_monitor_label, lemma_monitor_label_injective, monitor_label, spec_monitor_label};
use crate::rect::{MonitorDescriptor, Rect};

verus! {

/// `l` is one of the labels in `labels`.
pub open spec fn label_in(l: Seq<char>, labels: Seq<String>) -> bool {
    exists|k: int| 0 <= k < labels.len() && (#[trigger] labels[k])@ == l
}

/// A label that the re-discovery probe can produce: one of the first ten
/// monitor labels.
pub open spec fn is_scan_label(l: Seq<char>) -> bool {
    exists|i: int| 0 <= i < 10 && l == #[trigger] spec_monitor_label(i)
}

/// The labels in the list are pairwise distinct.
pub open spec fn labels_distinct(labels: Seq<String>) -> bool {
    forall|k1: int, k2: int|
        0 <= k1 < k2 < labels.len() ==> (#[trigger] labels[k1])@ != (#[trigger] labels[k2])@
}

/// The window `w` as the show path leaves it: visible, always on top,
/// fullscreen cleared, focusable, moved to `nb` when a monitor rectangle
/// was available.
pub open spec fn shown_like(w: OverlayWindow, nb: Option<Rect>) -> OverlayWindow {
    OverlayWindow {
        label: w.label,
        bounds: match nb {
            Option::Some(b) => b,
            Option::None => w.bounds,
        },
        visible: true,
        always_on_top: true,
        fullscreen: false,
        focusable: true,
    }
}

/// The window `w` as the hide path leaves it: hidden, fullscreen cleared,
/// everything else untouched.
pub open spec fn hidden_like(w: OverlayWindow) -> OverlayWindow {
    OverlayWindow {
        label: w.label,
        bounds: w.bounds,
        visible: false,
        always_on_top: w.always_on_top,
        fullscreen: false,
        focusable: w.focusable,
    }
}

/// Apply the full show sequence to one labelled window: re-apply bounds
/// when given, pin on top, clear fullscreen, make focusable, show, then
/// re-check visibility and retry the show once if the first attempt did
/// not take.
fn present_window(desk: &mut Desktop, label: &str, new_bounds: Option<Rect>) -> (found: bool)
    requires
        old(desk).wf(),
    ensures
        final(desk).wf(),
        found == old(desk).has_label(label@),
        final(desk).windows@.len() == old(desk).windows@.len(),
        forall|j: int|
            0 <= j < old(desk).windows@.len() && (#[trigger] old(desk).windows@[j]).label@
                != label@ ==> final(desk).windows@[j] == old(desk).windows@[j],
        forall|j: int|
            0 <= j < old(desk).windows@.len() && (#[trigger] old(desk).windows@[j]).label@
                == label@ ==> final(desk).windows@[j] == shown_like(
                old(desk).windows@[j],
                new_bounds,
            ),
{
    let found = match desk.find(label) {
        Some(_) => true,
        None => false,
    };
    match new_bounds {
        Some(b) => {
            desk.set_bounds(label, b);
        },
        None => {},
    }
    desk.set_always_on_top(label, true);
    desk.set_fullscreen(label, false);
    desk.set_focusable(label, true);
    desk.show(label);
    // The OS show call completes asynchronously and can silently fail;
    // after the embedding process re-queries, retry exactly once.
    match desk.is_visible(label) {
        Some(v) => {
            if !v {
                desk.show(label);
            }
        },
        None => {},
    }
    found
}

/// Apply the full hide sequence to one labelled window: hide, clear
/// fullscreen, re-check and retry the hide once.
fn conceal_window(desk: &mut Desktop, label: &str) -> (found: bool)
    requires
        old(desk).wf(),
    ensures
        final(desk).wf(),
        found == old(desk).has_label(label@),
        final(desk).windows@.len() == old(desk).windows@.len(),
        forall|j: int|
            0 <= j < old(desk).windows@.len() && (#[trigger] old(desk).windows@[j]).label@
                != label@ ==> final(desk).windows@[j] == old(desk).windows@[j],
        forall|j: int|
            0 <= j < old(desk).windows@.len() && (#[trigger] old(desk).windows@[j]).label@
                == label@ ==> final(desk).windows@[j] == hidden_like(old(desk).windows@[j]),
{
    let found = desk.hide_window(label);
    desk.set_fullscreen(label, false);
    match desk.is_visible(label) {
        Some(v) => {
            if v {
                desk.hide_window(label);
            }
        },
        None => {},
    }
    found
}

/// Creates, shows, hides and queries the per-monitor overlay windows.
/// Holds the labels of the windows it created.
pub struct MultiMonitorManager {
    pub window_labels: Vec<String>,
}

impl MultiMonitorManager {
    pub fn new() -> (r: Self)
        ensures
            r.window_labels@.len() == 0,
    {
        Self { window_labels: Vec::new() }
    }

    /// Create one hidden overlay window per monitor, sized and positioned
    /// to match that monitor's bounds, labelled `overlay_monitor_{index}`.
    /// The set is created once per process lifetime, on a desktop that owns
    /// no windows yet; re-discovery of an existing set is `scan_monitor_windows`.
    /// Returns the labels of the windows created, in monitor order.
    pub fn create_monitor_windows(desk: &mut Desktop, monitors: &Vec<MonitorDescriptor>) -> (labels:
        Vec<String>)
        requires
            old(desk).windows@.len() == 0,
            monitors@.len() <= 0xffff_ffff,
        ensures
            final(desk).wf(),
            final(desk).windows@.len() == monitors@.len(),
            labels@.len() == monitors@.len(),
            forall|i: int|
                0 <= i < monitors@.len() ==> (#[trigger] labels@[i])@ == spec_monitor_label(i),
            forall|i: int|
                0 <= i < monitors@.len() ==> {
                    let w = #[trigger] final(desk).windows@[i];
                    &&& w.label@ == spec_monitor_label(i)
                    &&& w.bounds == monitors@[i].bounds
                    &&& !w.visible
                    &&& w.always_on_top
                    &&& !w.fullscreen
                    &&& w.focusable
                },
            labels_distinct(labels@),
    {
        let mut labels: Vec<String> = Vec::new();
        let mut i: usize = 0;
        while i < monitors.len()
            invariant
                old(desk).windows@.len() == 0,
                monitors@.len() <= 0xffff_ffff,
                0 <= i <= monitors@.len(),
                desk.wf(),
                desk.windows@.len() == i,
                labels@.len() == i,
                forall|i0: int|
                    0 <= i0 < i ==> (#[trigger] labels@[i0])@ == spec_monitor_label(i0),
                forall|i0: int|
                    0 <= i0 < i ==> {
                        let w = #[trigger] desk.windows@[i0];
                        &&& w.label@ == spec_monitor_label(i0)
                        &&& w.bounds == monitors@[i0].bounds
                        &&& !w.visible
                        &&& w.always_on_top
                        &&& !w.fullscreen
                        &&& w.focusable
                    },
            decreases monitors@.len() - i,
        {
            proof {
                assert(i as u32 as int == i as int);
            }
            let label = monitor_label(i as u32);
            let bounds = monitors[i].bounds;
            let ghost pre = *desk;
            proof {
                // no earlier window carries this label: indices are
                // injective in the label text
                assert forall|j: int| 0 <= j < pre.windows@.len() implies (
                #[trigger] pre.windows@[j]).label@ != label@ by {
                    if pre.windows@[j].label@ == spec_monitor_label(i as int) {
                        lemma_monitor_label_injective(j, i as int);
                    }
                }
            }
            let created = desk.create_window(label.clone(), bounds);
            labels.push(label);
            proof {
                assert(created);
                assert(desk.windows@.len() == i + 1);
                assert(desk.windows@[i as int].label@ == spec_monitor_label(i as int));
                assert(desk.windows@[i as int].bounds == bounds);
            }
            i = i + 1;
        }
        proof {
            assert forall|k1: int, k2: int|
                0 <= k1 < k2 < labels@.len() implies (#[trigger] labels@[k1])@ != (
            #[trigger] labels@[k2])@ by {
                if labels@[k1]@ == labels@[k2]@ {
                    lemma_monitor_label_injective(k1, k2);
                }
            }
        }
        labels
    }

    /// Re-discover an existing per-monitor window set by probing the label
    /// convention: the overlay set is rebuilt from whichever of the first
    /// ten monitor labels currently have a window. Used when the shared
    /// label list is empty — window creation is rare and re-scanning is
    /// safe to repeat.
    pub fn scan_monitor_windows(desk: &Desktop) -> (labels: Vec<String>)
        requires
            desk.wf(),
        ensures
            labels_distinct(labels@),
            forall|k: int|
                0 <= k < labels@.len() ==> desk.has_label((#[trigger] labels@[k])@),
            forall|k: int|
                0 <= k < labels@.len() ==> is_monitor_label((#[trigger] labels@[k])@),
            forall|k: int| 0 <= k < labels@.len() ==> is_scan_label((#[trigger] labels@[k])@),
            forall|i: int|
                0 <= i < 10 ==> (desk.has_label(spec_monitor_label(i)) == label_in(
                    spec_monitor_label(i),
                    labels@,
                )),
    {
        let mut labels: Vec<String> = Vec::new();
        let ghost mut idxs: Seq<int> = Seq::empty();
        let mut i: usize = 0;
        while i < 10
            invariant
                desk.wf(),
                0 <= i <= 10,
                labels_distinct(labels@),
                idxs.len() == labels@.len(),
                forall|k: int|
                    0 <= k < labels@.len() ==> desk.has_label((#[trigger] labels@[k])@),
                forall|k: int|
                    0 <= k < labels@.len() ==> is_monitor_label((#[trigger] labels@[k])@),
                forall|k: int|
                    0 <= k < idxs.len() ==> 0 <= #[trigger] idxs[k] < i && labels@[k]@
                        == spec_monitor_label(idxs[k]),
                forall|i0: int|
                    0 <= i0 < i ==> (desk.has_label(spec_monitor_label(i0)) == label_in(
                        spec_monitor_label(i0),
                        labels@,
                    )),
            decreases 10 - i,
        {
            proof {
                assert(i as u32 as int == i as int);
            }
            let label = monitor_label(i as u32);
            let ghost li = spec_monitor_label(i as int);
            let ghost lab_pre = labels@;
            let present = match desk.find(label.as_str()) {
                Some(_) => true,
                None => false,
            };
            if present {
                labels.push(label);
                proof {
                    idxs = idxs.push(i as int);
                }
            }
            proof {
                if present {
                    assert(labels@ == lab_pre.push(labels@[labels@.len() - 1]));
                    assert(labels@[labels@.len() - 1]@ == li);
                    assert forall|k1: int, k2: int|
                        0 <= k1 < k2 < labels@.len() implies (#[trigger] labels@[k1])@ != (
                    #[trigger] labels@[k2])@ by {
                        if k2 == labels@.len() - 1 {
                            assert(labels@[k1] == lab_pre[k1]);
                            assert(labels@[k1]@ == spec_monitor_label(idxs[k1]));
                            if labels@[k1]@ == labels@[k2]@ {
                                lemma_monitor_label_injective(idxs[k1], i as int);
                            }
                        }
                    }
                }
                assert forall|i0: int| 0 <= i0 < i + 1 implies (desk.has_label(
                    spec_monitor_label(i0),
                ) == label_in(spec_monitor_label(i0), labels@)) by {
                    let li0 = spec_monitor_label(i0);
                    if i0 == i as int {
                        if present {
                            assert(label_in(li0, labels@));
                        } else {
                            assert forall|k: int| 0 <= k < labels@.len() implies (
                            #[trigger] labels@[k])@ != li0 by {
                                assert(labels@[k]@ == spec_monitor_label(idxs[k]));
                                if labels@[k]@ == li0 {
                                    lemma_monitor_label_injective(idxs[k], i as int);
                                }
                            }
                            assert(!label_in(li0, labels@));
                        }
                    } else {
                        if desk.has_label(li0) {
                            assert(label_in(li0, lab_pre));
                            let k = choose|k: int|
                                0 <= k < lab_pre.len() && (#[trigger] lab_pre[k])@ == li0;
                            assert(labels@[k]@ == li0);
                            assert(label_in(li0, labels@));
                        } else {
                            assert forall|k: int| 0 <= k < labels@.len() implies (
                            #[trigger] labels@[k])@ != li0 by {
                                if k < lab_pre.len() {
                                    assert(labels@[k] == lab_pre[k]);
                                    assert(!label_in(li0, lab_pre));
                                } else {
                                    assert(labels@[k]@ == li);
                                    if li == li0 {
                                        lemma_monitor_label_injective(i as int, i0);
                                    }
                                }
                            }
                            assert(!label_in(li0, labels@));
                        }
                    }
                }
            }
            i = i + 1;
        }
        proof {
            assert forall|k: int| 0 <= k < labels@.len() implies is_scan_label(
                (#[trigger] labels@[k])@,
            ) by {
                assert(0 <= idxs[k] < 10 && labels@[k]@ == spec_monitor_label(idxs[k]));
            }
        }
        labels
    }

    /// Show every window in the labelled set. Bounds are re-fetched and
    /// re-applied from the current monitor list — displays may have moved
    /// since creation — fullscreen is explicitly cleared, and each window
    /// is verified and retried once. A window that stays hidden is left to
    /// best effort; the batch never aborts.
    pub fn show_all_windows(
        desk: &mut Desktop,
        window_labels: &Vec<String>,
        monitors: &Vec<MonitorDescriptor>,
    ) -> (r: Result<(), String>)
        requires
            old(desk).wf(),
            labels_distinct(window_labels@),
        ensures
            final(desk).wf(),
            r is Ok,
            final(desk).windows@.len() == old(desk).windows@.len(),
            forall|j: int|
                0 <= j < old(desk).windows@.len() && !label_in(
                    (#[trigger] old(desk).windows@[j]).label@,
                    window_labels@,
                ) ==> final(desk).windows@[j] == old(desk).windows@[j],
            forall|j: int, k: int|
                0 <= j < old(desk).windows@.len() && 0 <= k < window_labels@.len() && (
                #[trigger] old(desk).windows@[j]).label@ == (#[trigger] window_labels@[k])@
                    ==> final(desk).windows@[j] == shown_like(
                    old(desk).windows@[j],
                    if k < monitors@.len() {
                        Option::Some(monitors@[k].bounds)
                    } else {
                        Option::None
                    },
                ),
    {
        let mut k: usize = 0;
        while k < window_labels.len()
            invariant
                old(desk).wf(),
                desk.wf(),
                labels_distinct(window_labels@),
                0 <= k <= window_labels@.len(),
                desk.windows@.len() == old(desk).windows@.len(),
                forall|j: int|
                    0 <= j < old(desk).windows@.len() ==> (#[trigger] desk.windows@[j]).label@
                        == old(desk).windows@[j].label@,
                forall|j: int|
                    0 <= j < old(desk).windows@.len() && !label_in(
                        (#[trigger] old(desk).windows@[j]).label@,
                        window_labels@.subrange(0, k as int),
                    ) ==> desk.windows@[j] == old(desk).windows@[j],
                forall|j: int, k0: int|
                    0 <= j < old(desk).windows@.len() && 0 <= k0 < k && (
                    #[trigger] old(desk).windows@[j]).label@ == (#[trigger] window_labels@[k0])@
                        ==> desk.windows@[j] == shown_like(
                        old(desk).windows@[j],
                        if k0 < monitors@.len() {
                            Option::Some(monitors@[k0].bounds)
                        } else {
                            Option::None
                        },
                    ),
            decreases window_labels@.len() - k,
        {
            let nb: Option<Rect> = if k < monitors.len() {
                Some(monitors[k].bounds)
            } else {
                None
            };
            let ghost pre = *desk;
            present_window(desk, window_labels[k].as_str(), nb);
            proof {
                assert forall|j: int|
                    0 <= j < old(desk).windows@.len() && !label_in(
                        (#[trigger] old(desk).windows@[j]).label@,
                        window_labels@.subrange(0, k as int + 1),
                    ) implies desk.windows@[j] == old(desk).windows@[j] by {
                    let sub = window_labels@.subrange(0, k as int + 1);
                    assert forall|k0: int| 0 <= k0 < k + 1 implies (#[trigger] window_labels@[k0])@
                        != old(desk).windows@[j].label@ by {
                        assert(sub[k0] == window_labels@[k0]);
                    }
                    assert(!label_in(old(desk).windows@[j].label@, window_labels@.subrange(0, k as int)));
                    assert(pre.windows@[j].label@ == old(desk).windows@[j].label@);
                    assert(pre.windows@[j].label@ != window_labels@[k as int]@);
                }
                assert forall|j: int, k0: int|
                    0 <= j < old(desk).windows@.len() && 0 <= k0 < k + 1 && (
                    #[trigger] old(desk).windows@[j]).label@ == (#[trigger] window_labels@[k0])@
                        implies desk.windows@[j] == shown_like(
                        old(desk).windows@[j],
                        if k0 < monitors@.len() {
                            Option::Some(monitors@[k0].bounds)
                        } else {
                            Option::None
                        },
                    ) by {
                    if k0 == k as int {
                        assert(pre.windows@[j].label@ == window_labels@[k as int]@);
                        assert(!label_in(old(desk).windows@[j].label@, window_labels@.subrange(0, k as int)));
                        assert(pre.windows@[j] == old(desk).windows@[j]);
                    } else {
                        assert(pre.windows@[j].label@ != window_labels@[k as int]@);
                        assert(desk.windows@[j] == pre.windows@[j]);
                    }
                }
            }
            k = k + 1;
        }
        proof {
            assert(window_labels@.subrange(0, window_labels@.len() as int) =~= window_labels@);
        }
        Ok(())
    }

    /// Hide every window in the labelled set, clearing fullscreen, with
    /// the same verify-and-retry-once policy. Best effort: missing windows
    /// are skipped, the batch never aborts.
    pub fn hide_all_windows(desk: &mut Desktop, window_labels: &Vec<String>) -> (r: Result<
        (),
        String,
    >)
        requires
            old(desk).wf(),
            labels_distinct(window_labels@),
        ensures
            final(desk).wf(),
            r is Ok,
            final(desk).windows@.len() == old(desk).windows@.len(),
            forall|j: int|
                0 <= j < old(desk).windows@.len() && !label_in(
                    (#[trigger] old(desk).windows@[j]).label@,
                    window_labels@,
                ) ==> final(desk).windows@[j] == old(desk).windows@[j],
            forall|j: int, k: int|
                0 <= j < old(desk).windows@.len() && 0 <= k < window_labels@.len() && (
                #[trigger] old(desk).windows@[j]).label@ == (#[trigger] window_labels@[k])@
                    ==> final(desk).windows@[j] == hidden_like(old(desk).windows@[j]),
    {
        let mut k: usize = 0;
        while k < window_labels.len()
            invariant
                old(desk).wf(),
                desk.wf(),
                labels_distinct(window_labels@),
                0 <= k <= window_labels@.len(),
                desk.windows@.len() == old(desk).windows@.len(),
                forall|j: int|
                    0 <= j < old(desk).windows@.len() ==> (#[trigger] desk.windows@[j]).label@
                        == old(desk).windows@[j].label@,
                forall|j: int|
                    0 <= j < old(desk).windows@.len() && !label_in(
                        (#[trigger] old(desk).windows@[j]).label@,
                        window_labels@.subrange(0, k as int),
                    ) ==> desk.windows@[j] == old(desk).windows@[j],
                forall|j: int, k0: int|
                    0 <= j < old(desk).windows@.len() && 0 <= k0 < k && (
                    #[trigger] old(desk).windows@[j]).label@ == (#[trigger] window_labels@[k0])@
                        ==> desk.windows@[j] == hidden_like(old(desk).windows@[j]),
            decreases window_labels@.len() - k,
        {
            let ghost pre = *desk;
            conceal_window(desk, window_labels[k].as_str());
            proof {
                assert forall|j: int|
                    0 <= j < old(desk).windows@.len() && !label_in(
                        (#[trigger] old(desk).windows@[j]).label@,
                        window_labels@.subrange(0, k as int + 1),
                    ) implies desk.windows@[j] == old(desk).windows@[j] by {
                    let sub = window_labels@.subrange(0, k as int + 1);
                    assert forall|k0: int| 0 <= k0 < k + 1 implies (#[trigger] window_labels@[k0])@
                        != old(desk).windows@[j].label@ by {
                        assert(sub[k0] == window_labels@[k0]);
                    }
                    assert(!label_in(old(desk).windows@[j].label@, window_labels@.subrange(0, k as int)));
                    assert(pre.windows@[j].label@ == old(desk).windows@[j].label@);
                    assert(pre.windows@[j].label@ != window_labels@[k as int]@);
                }
                assert forall|j: int, k0: int|
                    0 <= j < old(desk).windows@.len() && 0 <= k0 < k + 1 && (
                    #[trigger] old(desk).windows@[j]).label@ == (#[trigger] window_labels@[k0])@
                        implies desk.windows@[j] == hidden_like(old(desk).windows@[j]) by {
                    if k0 == k as int {
                        assert(pre.windows@[j].label@ == window_labels@[k as int]@);
                        assert(!label_in(old(desk).windows@[j].label@, window_labels@.subrange(0, k as int)));
                        assert(pre.windows@[j] == old(desk).windows@[j]);
                    } else {
                        assert(pre.windows@[j].label@ != window_labels@[k as int]@);
                        assert(desk.windows@[j] == pre.windows@[j]);
                    }
                }
            }
            k = k + 1;
        }
        proof {
            assert(window_labels@.subrange(0, window_labels@.len() as int) =~= window_labels@);
        }
        Ok(())
    }

    /// Is any window of the labelled set visible? A missing or unqueryable
    /// window counts as not visible, never as an error.
    pub fn is_any_window_visible(desk: &Desktop, window_labels: &Vec<String>) -> (r: bool)
        requires
            desk.wf(),
        ensures
            r == exists|k: int|
                0 <= k < window_labels@.len() && desk.label_visible(
                    (#[trigger] window_labels@[k])@,
                ),
    {
        let mut k: usize = 0;
        while k < window_labels.len()
            invariant
                desk.wf(),
                0 <= k <= window_labels@.len(),
                forall|k0: int|
                    0 <= k0 < k ==> !desk.label_visible((#[trigger] window_labels@[k0])@),
            decreases window_labels@.len() - k,
        {
            match desk.is_visible(window_labels[k].as_str()) {
                Some(v) => {
                    if v {
                        return true;
                    }
                },
                None => {},
            }
            k = k + 1;
        }
        false
    }
}

} // verus!
