//! The crate's model of the overlay windows it manages: one entry per
//! native window, keyed by label. The manager and controller mutate this
//! model and are verified against it; the embedding process mirrors each
//! mutation onto the real windows and reports observed state back through
//! the same values.
//!
//! The model treats an applied operation as immediately effective. The
//! show/hide paths still re-verify and retry once after each transition,
//! because the operating system's own calls complete asynchronously.

use vstd::prelude::*;

use crate::rect::Rect;
use crate::text::str_eq;

verus! {

/// The state this crate tracks for one native overlay window.
pub struct OverlayWindow {
    pub label: String,
    pub bounds: Rect,
    pub visible: bool,
    pub always_on_top: bool,
    pub fullscreen: bool,
    pub focusable: bool,
}

/// All overlay windows owned by the process, in creation order, with
/// pairwise-distinct labels.
pub struct Desktop {
    pub windows: Vec<OverlayWindow>,
}

impl Desktop {
    /// Labels are pairwise distinct.
    pub open spec fn wf(self) -> bool {
        forall|i: int, j: int|
            0 <= i < j < self.windows@.len() ==> (#[trigger] self.windows@[i]).label@ != (
            #[trigger] self.windows@[j]).label@
    }

    /// Some window carries this label.
    pub open spec fn has_label(self, l: Seq<char>) -> bool {
        exists|j: int| 0 <= j < self.windows@.len() && (#[trigger] self.windows@[j]).label@ == l
    }

    /// The window carrying this label is visible.
    pub open spec fn label_visible(self, l: Seq<char>) -> bool {
        exists|j: int|
            0 <= j < self.windows@.len() && (#[trigger] self.windows@[j]).label@ == l
                && self.windows@[j].visible
    }

    pub fn new() -> (r: Desktop)
        ensures
            r.windows@.len() == 0,
            r.wf(),
    {
        Desktop { windows: Vec::new() }
    }

    /// Decide well-formedness at run time: pairwise-distinct labels.
    pub fn check_wf(&self) -> (r: bool)
        ensures
            r == self.wf(),
    {
        let n = self.windows.len();
        let mut i: usize = 0;
        while i < n
            invariant
                0 <= i <= n,
                n == self.windows@.len(),
                forall|p: int, q: int|
                    0 <= p < q < self.windows@.len() && p < i ==> (
                    #[trigger] self.windows@[p]).label@ != (#[trigger] self.windows@[q]).label@,
            decreases n - i,
        {
            let mut j: usize = i + 1;
            while j < n
                invariant
                    i < j <= n,
                    i < n,
                    n == self.windows@.len(),
                    forall|q: int|
                        i < q < j ==> (#[trigger] self.windows@[q]).label@ != self.windows@[
                            i as int].label@,
                decreases n - j,
            {
                if str_eq(self.windows[i].label.as_str(), self.windows[j].label.as_str()) {
                    return false;
                }
                j = j + 1;
            }
            i = i + 1;
        }
        true
    }

    /// Find the index of the window labelled `label`.
    pub fn find(&self, label: &str) -> (r: Option<usize>)
        ensures
            match r {
                Some(i) => i < self.windows@.len() && self.windows@[i as int].label@ == label@,
                None => !self.has_label(label@),
            },
    {
        let mut i: usize = 0;
        while i < self.windows.len()
            invariant
                0 <= i <= self.windows@.len(),
                forall|j: int| 0 <= j < i ==> (#[trigger] self.windows@[j]).label@ != label@,
            decreases self.windows@.len() - i,
        {
            if str_eq(self.windows[i].label.as_str(), label) {
                return Some(i);
            }
            i = i + 1;
        }
        None
    }

    /// Create a new, initially hidden window: borderless overlay semantics —
    /// always on top, never fullscreen, focusable so it can take keyboard
    /// input. Refuses to create a second window under an existing label.
    pub fn create_window(&mut self, label: String, bounds: Rect) -> (created: bool)
        requires
            old(self).wf(),
        ensures
            created == !old(self).has_label(label@),
            !created ==> *final(self) == *old(self),
            created ==> final(self).windows@ == old(self).windows@.push(
                OverlayWindow {
                    label: label,
                    bounds: bounds,
                    visible: false,
                    always_on_top: true,
                    fullscreen: false,
                    focusable: true,
                },
            ),
            final(self).wf(),
    {
        match self.find(label.as_str()) {
            Some(_) => false,
            None => {
                let w = OverlayWindow {
                    label,
                    bounds,
                    visible: false,
                    always_on_top: true,
                    fullscreen: false,
                    focusable: true,
                };
                self.windows.push(w);
                proof {
                    assert forall|i: int, j: int|
                        0 <= i < j < self.windows@.len() implies (
                    #[trigger] self.windows@[i]).label@ != (
                    #[trigger] self.windows@[j]).label@ by {
                        if j < self.windows@.len() - 1 {
                            assert(old(self).windows@[i].label@ != old(self).windows@[j].label@);
                        } else {
                            assert(!old(self).has_label(self.windows@[j].label@));
                        }
                    }
                }
                true
            },
        }
    }

    /// OS-reported visibility: `None` when no window carries the label.
    pub fn is_visible(&self, label: &str) -> (r: Option<bool>)
        requires
            self.wf(),
        ensures
            match r {
                Some(v) => self.has_label(label@) && v == self.label_visible(label@),
                None => !self.has_label(label@),
            },
    {
        match self.find(label) {
            Some(i) => {
                let v = self.windows[i].visible;
                proof {
                    if v {
                        assert(self.label_visible(label@));
                    } else {
                        assert forall|j: int|
                            0 <= j < self.windows@.len() && (#[trigger] self.windows@[j]).label@
                                == label@ implies !self.windows@[j].visible by {
                            if j != i as int {
                                if j < i as int {
                                    assert(self.windows@[j].label@ != self.windows@[
                                        i as int].label@);
                                } else {
                                    assert(self.windows@[i as int].label@ != self.windows@[
                                        j].label@);
                                }
                            }
                        }
                    }
                }
                Some(v)
            },
            None => None,
        }
    }

    /// Pull the window at index `i` out of the vector, leaving a placeholder.
    fn take_out(&mut self, i: usize) -> (w: OverlayWindow)
        requires
            i < old(self).windows@.len(),
        ensures
            w == old(self).windows@[i as int],
            final(self).windows@.len() == old(self).windows@.len(),
            forall|j: int|
                0 <= j < old(self).windows@.len() && j != i ==> final(self).windows@[j] == old(
                    self,
                ).windows@[j],
    {
        let mut w = OverlayWindow {
            label: String::new(),
            bounds: Rect { left: 0, top: 0, right: 0, bottom: 0 },
            visible: false,
            always_on_top: false,
            fullscreen: false,
            focusable: false,
        };
        self.windows.set_and_swap(i, &mut w);
        w
    }
}

/// What one field-level mutation at `label` leaves behind: the window under
/// that label replaced by `w`, every other window untouched.
pub open spec fn updated_at(pre: Desktop, post: Desktop, i: int, w: OverlayWindow) -> bool {
    post.windows@ == pre.windows@.update(i, w)
}

/// An update that keeps the label at its index keeps the desktop well
/// formed.
proof fn lemma_update_same_label_wf(pre: Desktop, post: Desktop, i: int, w: OverlayWindow)
    requires
        pre.wf(),
        0 <= i < pre.windows@.len(),
        w.label@ == pre.windows@[i].label@,
        updated_at(pre, post, i, w),
    ensures
        post.wf(),
{
    assert forall|p: int, q: int|
        0 <= p < q < post.windows@.len() implies (#[trigger] post.windows@[p]).label@ != (
    #[trigger] post.windows@[q]).label@ by {
        assert(pre.windows@[p].label@ != pre.windows@[q].label@);
    }
}

/// Two desktops with pointwise-equal labels agree on `has_label`.
pub proof fn lemma_same_labels_has(pre: Desktop, post: Desktop)
    requires
        post.windows@.len() == pre.windows@.len(),
        forall|j: int|
            0 <= j < pre.windows@.len() ==> (#[trigger] post.windows@[j]).label@
                == pre.windows@[j].label@,
    ensures
        forall|l: Seq<char>| #[trigger] post.has_label(l) == pre.has_label(l),
{
    assert forall|l: Seq<char>| #[trigger] post.has_label(l) == pre.has_label(l) by {
        if pre.has_label(l) {
            let j = choose|j: int|
                0 <= j < pre.windows@.len() && (#[trigger] pre.windows@[j]).label@ == l;
            assert(post.windows@[j].label@ == l);
        }
        if post.has_label(l) {
            let j = choose|j: int|
                0 <= j < post.windows@.len() && (#[trigger] post.windows@[j]).label@ == l;
            assert(pre.windows@[j].label@ == l);
        }
    }
}

impl Desktop {
    /// Every window except the one labelled `label` is unchanged, and that
    /// one changed only in the field the operation touches. The common
    /// ensures of the six field-level mutators below.
    pub open spec fn mutated_one(
        pre: Desktop,
        post: Desktop,
        l: Seq<char>,
        f: spec_fn(OverlayWindow) -> OverlayWindow,
    ) -> bool {
        &&& post.windows@.len() == pre.windows@.len()
        &&& forall|j: int|
            0 <= j < pre.windows@.len() && (#[trigger] pre.windows@[j]).label@ != l
                ==> post.windows@[j] == pre.windows@[j]
        &&& forall|j: int|
            0 <= j < pre.windows@.len() && (#[trigger] pre.windows@[j]).label@ == l
                ==> post.windows@[j] == f(pre.windows@[j])
    }

    /// Make the labelled window visible. Returns whether the label exists.
    pub fn show(&mut self, label: &str) -> (found: bool)
        requires
            old(self).wf(),
        ensures
            final(self).wf(),
            found == old(self).has_label(label@),
            Self::mutated_one(
                *old(self),
                *final(self),
                label@,
                |w: OverlayWindow|
                    OverlayWindow {
                        label: w.label,
                        bounds: w.bounds,
                        visible: true,
                        always_on_top: w.always_on_top,
                        fullscreen: w.fullscreen,
                        focusable: w.focusable,
                    },
            ),
    {
        match self.find(label) {
            Some(i) => {
                let mut w = self.take_out(i);
                w.visible = true;
                let ghost wg = w;
                self.windows.set(i, w);
                proof {
                    let pre = *old(self);
                    assert(self.windows@ =~= pre.windows@.update(i as int, wg));
                    lemma_update_same_label_wf(pre, *self, i as int, wg);
                    assert forall|j: int|
                        0 <= j < pre.windows@.len() && (#[trigger] pre.windows@[j]).label@
                            == label@ implies j == i as int by {
                        if j < i as int {
                            assert(pre.windows@[j].label@ != pre.windows@[i as int].label@);
                        } else if j > i as int {
                            assert(pre.windows@[i as int].label@ != pre.windows@[j].label@);
                        }
                    }
                }
                true
            },
            None => false,
        }
    }

    /// Hide the labelled window. Returns whether the label exists.
    pub fn hide_window(&mut self, label: &str) -> (found: bool)
        requires
            old(self).wf(),
        ensures
            final(self).wf(),
            found == old(self).has_label(label@),
            Self::mutated_one(
                *old(self),
                *final(self),
                label@,
                |w: OverlayWindow|
                    OverlayWindow {
                        label: w.label,
                        bounds: w.bounds,
                        visible: false,
                        always_on_top: w.always_on_top,
                        fullscreen: w.fullscreen,
                        focusable: w.focusable,
                    },
            ),
    {
        match self.find(label) {
            Some(i) => {
                let mut w = self.take_out(i);
                w.visible = false;
                let ghost wg = w;
                self.windows.set(i, w);
                proof {
                    let pre = *old(self);
                    assert(self.windows@ =~= pre.windows@.update(i as int, wg));
                    lemma_update_same_label_wf(pre, *self, i as int, wg);
                    assert forall|j: int|
                        0 <= j < pre.windows@.len() && (#[trigger] pre.windows@[j]).label@
                            == label@ implies j == i as int by {
                        if j < i as int {
                            assert(pre.windows@[j].label@ != pre.windows@[i as int].label@);
                        } else if j > i as int {
                            assert(pre.windows@[i as int].label@ != pre.windows@[j].label@);
                        }
                    }
                }
                true
            },
            None => false,
        }
    }

    /// Move and size the labelled window.
    pub fn set_bounds(&mut self, label: &str, bounds: Rect) -> (found: bool)
        requires
            old(self).wf(),
        ensures
            final(self).wf(),
            found == old(self).has_label(label@),
            Self::mutated_one(
                *old(self),
                *final(self),
                label@,
                |w: OverlayWindow|
                    OverlayWindow {
                        label: w.label,
                        bounds: bounds,
                        visible: w.visible,
                        always_on_top: w.always_on_top,
                        fullscreen: w.fullscreen,
                        focusable: w.focusable,
                    },
            ),
    {
        match self.find(label) {
            Some(i) => {
                let mut w = self.take_out(i);
                w.bounds = bounds;
                let ghost wg = w;
                self.windows.set(i, w);
                proof {
                    let pre = *old(self);
                    assert(self.windows@ =~= pre.windows@.update(i as int, wg));
                    lemma_update_same_label_wf(pre, *self, i as int, wg);
                    assert forall|j: int|
                        0 <= j < pre.windows@.len() && (#[trigger] pre.windows@[j]).label@
                            == label@ implies j == i as int by {
                        if j < i as int {
                            assert(pre.windows@[j].label@ != pre.windows@[i as int].label@);
                        } else if j > i as int {
                            assert(pre.windows@[i as int].label@ != pre.windows@[j].label@);
                        }
                    }
                }
                true
            },
            None => false,
        }
    }

    /// Pin the labelled window above ordinary windows, or release it.
    pub fn set_always_on_top(&mut self, label: &str, on_top: bool) -> (found: bool)
        requires
            old(self).wf(),
        ensures
            final(self).wf(),
            found == old(self).has_label(label@),
            Self::mutated_one(
                *old(self),
                *final(self),
                label@,
                |w: OverlayWindow|
                    OverlayWindow {
                        label: w.label,
                        bounds: w.bounds,
                        visible: w.visible,
                        always_on_top: on_top,
                        fullscreen: w.fullscreen,
                        focusable: w.focusable,
                    },
            ),
    {
        match self.find(label) {
            Some(i) => {
                let mut w = self.take_out(i);
                w.always_on_top = on_top;
                let ghost wg = w;
                self.windows.set(i, w);
                proof {
                    let pre = *old(self);
                    assert(self.windows@ =~= pre.windows@.update(i as int, wg));
                    lemma_update_same_label_wf(pre, *self, i as int, wg);
                    assert forall|j: int|
                        0 <= j < pre.windows@.len() && (#[trigger] pre.windows@[j]).label@
                            == label@ implies j == i as int by {
                        if j < i as int {
                            assert(pre.windows@[j].label@ != pre.windows@[i as int].label@);
                        } else if j > i as int {
                            assert(pre.windows@[i as int].label@ != pre.windows@[j].label@);
                        }
                    }
                }
                true
            },
            None => false,
        }
    }

    /// Enter or leave the platform's fullscreen mode for the labelled
    /// window. The multi-window path always clears this flag: fullscreen
    /// can erroneously span monitors on the target platform.
    pub fn set_fullscreen(&mut self, label: &str, fullscreen: bool) -> (found: bool)
        requires
            old(self).wf(),
        ensures
            final(self).wf(),
            found == old(self).has_label(label@),
            Self::mutated_one(
                *old(self),
                *final(self),
                label@,
                |w: OverlayWindow|
                    OverlayWindow {
                        label: w.label,
                        bounds: w.bounds,
                        visible: w.visible,
                        always_on_top: w.always_on_top,
                        fullscreen: fullscreen,
                        focusable: w.focusable,
                    },
            ),
    {
        match self.find(label) {
            Some(i) => {
                let mut w = self.take_out(i);
                w.fullscreen = fullscreen;
                let ghost wg = w;
                self.windows.set(i, w);
                proof {
                    let pre = *old(self);
                    assert(self.windows@ =~= pre.windows@.update(i as int, wg));
                    lemma_update_same_label_wf(pre, *self, i as int, wg);
                    assert forall|j: int|
                        0 <= j < pre.windows@.len() && (#[trigger] pre.windows@[j]).label@
                            == label@ implies j == i as int by {
                        if j < i as int {
                            assert(pre.windows@[j].label@ != pre.windows@[i as int].label@);
                        } else if j > i as int {
                            assert(pre.windows@[i as int].label@ != pre.windows@[j].label@);
                        }
                    }
                }
                true
            },
            None => false,
        }
    }

    /// Let the labelled window take keyboard focus, or refuse it.
    pub fn set_focusable(&mut self, label: &str, focusable: bool) -> (found: bool)
        requires
            old(self).wf(),
        ensures
            final(self).wf(),
            found == old(self).has_label(label@),
            Self::mutated_one(
                *old(self),
                *final(self),
                label@,
                |w: OverlayWindow|
                    OverlayWindow {
                        label: w.label,
                        bounds: w.bounds,
                        visible: w.visible,
                        always_on_top: w.always_on_top,
                        fullscreen: w.fullscreen,
                        focusable: focusable,
                    },
            ),
    {
        match self.find(label) {
            Some(i) => {
                let mut w = self.take_out(i);
                w.focusable = focusable;
                let ghost wg = w;
                self.windows.set(i, w);
                proof {
                    let pre = *old(self);
                    assert(self.windows@ =~= pre.windows@.update(i as int, wg));
                    lemma_update_same_label_wf(pre, *self, i as int, wg);
                    assert forall|j: int|
                        0 <= j < pre.windows@.len() && (#[trigger] pre.windows@[j]).label@
                            == label@ implies j == i as int by {
                        if j < i as int {
                            assert(pre.windows@[j].label@ != pre.windows@[i as int].label@);
                        } else if j > i as int {
                            assert(pre.windows@[i as int].label@ != pre.windows@[j].label@);
                        }
                    }
                }
                true
            },
            None => false,
        }
    }
}

} // verus!
