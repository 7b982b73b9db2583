//! Window enumeration and tracking: the snapshot cache, the open/close
//! diff between snapshots, the foreground-window bookkeeping, and the
//! poll gate. The walk over the operating system's top-level windows
//! happens at the edge; its raw results come in as plain values and the
//! logic over them is verified.

use vstd::prelude::*;

use crate::text::{dec_str_signed, i64_to_string, lemma_filter_none, lemma_filter_push, sort_dedup_strings, str_in, strictly_sorted};

verus! {

/// The polling interval: window changes are recomputed at most once per
/// two seconds.
pub const POLL_INTERVAL_MILLIS: i64 = 2000;

/// One entry of a window snapshot.
pub struct WindowInfo {
    pub handle: i64,
    pub title: String,
    pub process_name: String,
    pub executable_path: String,
    /// When this window was last seen active, in epoch milliseconds;
    /// carried over from the previous snapshot while the handle persists.
    pub last_active: i64,
    pub is_visible: bool,
}

/// The mathematical value of a snapshot entry.
pub struct WindowInfoV {
    pub handle: i64,
    pub title: Seq<char>,
    pub process_name: Seq<char>,
    pub executable_path: Seq<char>,
    pub last_active: i64,
    pub is_visible: bool,
}

impl View for WindowInfo {
    type V = WindowInfoV;

    open spec fn view(&self) -> WindowInfoV {
        WindowInfoV {
            handle: self.handle,
            title: self.title@,
            process_name: self.process_name@,
            executable_path: self.executable_path@,
            last_active: self.last_active,
            is_visible: self.is_visible,
        }
    }
}

impl Clone for WindowInfo {
    fn clone(&self) -> (r: Self)
        ensures
            r@ == self@,
    {
        WindowInfo {
            handle: self.handle,
            title: self.title.clone(),
            process_name: self.process_name.clone(),
            executable_path: self.executable_path.clone(),
            last_active: self.last_active,
            is_visible: self.is_visible,
        }
    }
}

/// What the operating system's window walk reports for one top-level
/// window, before the tracker's own bookkeeping.
pub struct RawWindow {
    pub handle: i64,
    pub title: String,
    pub process_name: String,
    pub executable_path: String,
    pub is_visible: bool,
}

/// The mathematical value of a raw walk entry.
pub struct RawWindowV {
    pub handle: i64,
    pub title: Seq<char>,
    pub process_name: Seq<char>,
    pub executable_path: Seq<char>,
    pub is_visible: bool,
}

impl View for RawWindow {
    type V = RawWindowV;

    open spec fn view(&self) -> RawWindowV {
        RawWindowV {
            handle: self.handle,
            title: self.title@,
            process_name: self.process_name@,
            executable_path: self.executable_path@,
            is_visible: self.is_visible,
        }
    }
}

/// The values of a whole snapshot.
pub open spec fn views(ws: Seq<WindowInfo>) -> Seq<WindowInfoV> {
    ws.map_values(|w: WindowInfo| w@)
}

/// Some snapshot entry carries this handle.
pub open spec fn has_handle(ws: Seq<WindowInfoV>, h: i64) -> bool {
    exists|j: int| 0 <= j < ws.len() && (#[trigger] ws[j]).handle == h
}

/// The `last_active` recorded for a handle (meaningful when the handle
/// occurs and handles are unique).
pub open spec fn last_active_of(ws: Seq<WindowInfoV>, h: i64) -> i64 {
    ws[choose|j: int| 0 <= j < ws.len() && (#[trigger] ws[j]).handle == h].last_active
}

/// A raw entry the snapshot keeps: visible, with a non-empty title —
/// windows without a title are treated as non-user-facing.
pub open spec fn retained(r: RawWindowV) -> bool {
    r.is_visible && r.title.len() > 0
}

/// The snapshot entry a raw entry becomes: `last_active` is carried over
/// from the previous snapshot when the handle persists, else set to now.
pub open spec fn entry_of(r: RawWindowV, prev: Seq<WindowInfoV>, now: i64) -> WindowInfoV {
    WindowInfoV {
        handle: r.handle,
        title: r.title,
        process_name: r.process_name,
        executable_path: r.executable_path,
        last_active: if has_handle(prev, r.handle) {
            last_active_of(prev, r.handle)
        } else {
            now
        },
        is_visible: r.is_visible,
    }
}

/// The snapshot a raw walk produces against a previous snapshot: the
/// retained entries, in walk order, with `last_active` carried over.
pub open spec fn snapshot_of(raw: Seq<RawWindowV>, prev: Seq<WindowInfoV>, now: i64) -> Seq<
    WindowInfoV,
>
    decreases raw.len(),
{
    if raw.len() == 0 {
        Seq::empty()
    } else {
        let rest = snapshot_of(raw.drop_last(), prev, now);
        if retained(raw.last()) {
            rest.push(entry_of(raw.last(), prev, now))
        } else {
            rest
        }
    }
}

/// The snapshot produced from a raw walk, taken straight from the
/// executable values.
pub open spec fn snapshot_from(raw: Seq<RawWindow>, prev: Seq<WindowInfo>, now: i64) -> Seq<
    WindowInfoV,
> {
    snapshot_of(raw.map_values(|w: RawWindow| w@), views(prev), now)
}

/// Handles are pairwise distinct.
pub open spec fn handles_unique(ws: Seq<RawWindowV>) -> bool {
    forall|i: int, j: int|
        0 <= i < j < ws.len() ==> (#[trigger] ws[i]).handle != (#[trigger] ws[j]).handle
}

/// Snapshot handles are pairwise distinct.
pub open spec fn cache_wf(ws: Seq<WindowInfoV>) -> bool {
    forall|i: int, j: int|
        0 <= i < j < ws.len() ==> (#[trigger] ws[i]).handle != (#[trigger] ws[j]).handle
}

/// The windows a poll reports opened: the fresh snapshot's entries whose
/// handle the cache (after the foreground query) did not hold.
pub open spec fn poll_opened(
    cache0: Seq<WindowInfoV>,
    a: Option<RawWindowV>,
    rawv: Seq<RawWindowV>,
    now: i64,
) -> Seq<WindowInfoV> {
    snapshot_of(rawv, cache_after_active(cache0, a, now), now).filter(
        |w: WindowInfoV| !has_handle(cache_after_active(cache0, a, now), w.handle),
    )
}

/// The handles a poll reports closed: those the cache (after the
/// foreground query) held but the fresh snapshot does not.
pub open spec fn poll_closed(
    cache0: Seq<WindowInfoV>,
    a: Option<RawWindowV>,
    rawv: Seq<RawWindowV>,
    now: i64,
) -> Seq<i64> {
    cache_after_active(cache0, a, now).map_values(|w: WindowInfoV| w.handle).filter(
        |h: i64| !has_handle(snapshot_of(rawv, cache_after_active(cache0, a, now), now), h),
    )
}

/// Enumerates, caches and diffs the top-level windows of the desktop.
pub struct WindowTracker {
    /// The last snapshot, replaced wholesale on every enumeration.
    pub cached_windows: Vec<WindowInfo>,
    /// When the cache was last rebuilt, in epoch milliseconds.
    pub last_poll: i64,
    /// The handle last seen in the foreground.
    pub foreground_window: Option<i64>,
}

/// The result of one change poll.
pub enum WindowChangeResult {
    NoChange,
    Changed { focus_changed: Option<WindowInfo>, opened: Vec<WindowInfo>, closed: Vec<i64> },
}

impl WindowTracker {
    /// The cache never holds two entries with one handle.
    pub open spec fn wf(self) -> bool {
        cache_wf(views(self.cached_windows@))
    }

    pub fn new(now_millis: i64) -> (r: Self)
        ensures
            views(r.cached_windows@) == Seq::<WindowInfoV>::empty(),
            r.last_poll == now_millis,
            r.foreground_window is None,
            r.wf(),
    {
        proof {
            assert(Seq::<WindowInfo>::empty().map_values(|w: WindowInfo| w@)
                =~= Seq::<WindowInfoV>::empty());
        }
        WindowTracker { cached_windows: Vec::new(), last_poll: now_millis, foreground_window: None }
    }

    /// Rebuild the snapshot from a raw window walk taken at `now_millis`:
    /// drop untitled and invisible windows, carry each persisting
    /// handle's `last_active` over from the previous snapshot, and
    /// replace the cache wholesale. Returns the new snapshot.
    pub fn enumerate_windows(&mut self, raw: Vec<RawWindow>, now_millis: i64) -> (r: Vec<
        WindowInfo,
    >)
        requires
            old(self).wf(),
            handles_unique(raw@.map_values(|w: RawWindow| w@)),
        ensures
            views(r@) == snapshot_of(
                raw@.map_values(|w: RawWindow| w@),
                views(old(self).cached_windows@),
                now_millis,
            ),
            views(final(self).cached_windows@) == views(r@),
            final(self).last_poll == now_millis,
            final(self).foreground_window == old(self).foreground_window,
            final(self).wf(),
    {
        let ghost prev = views(self.cached_windows@);
        let ghost rawv = raw@.map_values(|w: RawWindow| w@);
        let mut snapshot: Vec<WindowInfo> = Vec::new();
        let mut cache: Vec<WindowInfo> = Vec::new();
        let ghost mut src_idx: Seq<int> = Seq::empty();
        let mut i: usize = 0;
        while i < raw.len()
            invariant
                0 <= i <= raw@.len(),
                self == old(self),
                prev == views(old(self).cached_windows@),
                cache_wf(prev),
                rawv == raw@.map_values(|w: RawWindow| w@),
                handles_unique(rawv),
                views(snapshot@) == snapshot_of(rawv.subrange(0, i as int), prev, now_millis),
                views(cache@) == views(snapshot@),
                src_idx.len() == snapshot@.len(),
                forall|k: int|
                    0 <= k < src_idx.len() ==> 0 <= #[trigger] src_idx[k] < i && views(
                        snapshot@,
                    )[k].handle == rawv[src_idx[k]].handle,
                forall|k: int|
                    0 <= k && k + 1 < src_idx.len() ==> #[trigger] src_idx[k] < src_idx[k + 1],
            decreases raw@.len() - i,
        {
            let w = &raw[i];
            let keep = w.is_visible && w.title.unicode_len() > 0;
            proof {
                assert(rawv[i as int] == raw@[i as int]@);
            }
            if keep {
                let found = self.find_cached(w.handle);
                let la: i64 = match found {
                    Some(idx) => self.cached_windows[idx].last_active,
                    None => now_millis,
                };
                proof {
                    match found {
                        Option::Some(idx) => {
                            assert(views(self.cached_windows@)[idx as int]
                                == self.cached_windows@[idx as int]@);
                            assert(has_handle(prev, w.handle));
                            let k = choose|j: int|
                                0 <= j < prev.len() && (#[trigger] prev[j]).handle == w.handle;
                            if k != idx as int {
                                if k < idx as int {
                                    assert(prev[k].handle != prev[idx as int].handle);
                                } else {
                                    assert(prev[idx as int].handle != prev[k].handle);
                                }
                            }
                            assert(la == last_active_of(prev, w.handle));
                        },
                        Option::None => {
                            assert(!has_handle(prev, w.handle));
                        },
                    }
                }
                let entry = WindowInfo {
                    handle: w.handle,
                    title: w.title.clone(),
                    process_name: w.process_name.clone(),
                    executable_path: w.executable_path.clone(),
                    last_active: la,
                    is_visible: w.is_visible,
                };
                let entry2 = entry.clone();
                let ghost snap_pre = snapshot@;
                let ghost cache_pre = cache@;
                snapshot.push(entry);
                cache.push(entry2);
                proof {
                    src_idx = src_idx.push(i as int);
                    assert(views(snapshot@) =~= views(snap_pre).push(
                        snapshot@[snap_pre.len() as int]@,
                    ));
                    assert(views(cache@) =~= views(cache_pre).push(
                        cache@[cache_pre.len() as int]@,
                    ));
                    assert(rawv.subrange(0, i + 1).drop_last() =~= rawv.subrange(0, i as int));
                    assert(rawv.subrange(0, i + 1).last() == rawv[i as int]);
                    assert(snapshot@[snap_pre.len() as int]@ == entry_of(
                        rawv[i as int],
                        prev,
                        now_millis,
                    ));
                    assert(views(snapshot@) =~= snapshot_of(
                        rawv.subrange(0, i + 1),
                        prev,
                        now_millis,
                    ));
                }
            } else {
                proof {
                    assert(rawv.subrange(0, i + 1).drop_last() =~= rawv.subrange(0, i as int));
                    assert(rawv.subrange(0, i + 1).last() == rawv[i as int]);
                    assert(!retained(rawv[i as int]));
                }
            }
            i = i + 1;
        }
        proof {
            assert(rawv.subrange(0, rawv.len() as int) =~= rawv);
            // the new cache's handles trace distinct raw indices, so they
            // are pairwise distinct
            assert forall|k1: int, k2: int|
                0 <= k1 < k2 < views(cache@).len() implies (#[trigger] views(cache@)[k1]).handle
                    != (#[trigger] views(cache@)[k2]).handle by {
                assert(views(snapshot@)[k1].handle == rawv[src_idx[k1]].handle);
                assert(views(snapshot@)[k2].handle == rawv[src_idx[k2]].handle);
                lemma_src_increasing(src_idx, k1, k2);
                assert(rawv[src_idx[k1]].handle != rawv[src_idx[k2]].handle);
            }
        }
        self.cached_windows = cache;
        self.last_poll = now_millis;
        snapshot
    }

    /// The index of a cached entry by handle.
    fn find_cached(&self, handle: i64) -> (r: Option<usize>)
        ensures
            match r {
                Some(i) => i < self.cached_windows@.len()
                    && self.cached_windows@[i as int].handle == handle
                    && (forall|j: int|
                    0 <= j < i ==> (#[trigger] self.cached_windows@[j]).handle != handle),
                None => !has_handle(views(self.cached_windows@), handle),
            },
    {
        let mut i: usize = 0;
        while i < self.cached_windows.len()
            invariant
                0 <= i <= self.cached_windows@.len(),
                forall|j: int| 0 <= j < i ==> (#[trigger] self.cached_windows@[j]).handle != handle,
            decreases self.cached_windows@.len() - i,
        {
            if self.cached_windows[i].handle == handle {
                return Some(i);
            }
            i = i + 1;
        }
        proof {
            assert forall|j: int|
                0 <= j < views(self.cached_windows@).len() implies (#[trigger] views(
                self.cached_windows@,
            )[j]).handle != handle by {
                assert(views(self.cached_windows@)[j] == self.cached_windows@[j]@);
            }
        }
        None
    }
}

/// The open/close difference between two snapshots: `opened` holds the
/// current entries whose handle is absent from the previous snapshot, in
/// order; `closed` the previous handles absent from the current one.
pub fn diff(previous: &Vec<WindowInfo>, current: &Vec<WindowInfo>) -> (r: (
    Vec<WindowInfo>,
    Vec<i64>,
))
    ensures
        views(r.0@) == views(current@).filter(
            |w: WindowInfoV| !has_handle(views(previous@), w.handle),
        ),
        r.1@ == views(previous@).map_values(|w: WindowInfoV| w.handle).filter(
            |h: i64| !has_handle(views(current@), h),
        ),
{
    let ghost prevv = views(previous@);
    let ghost curv = views(current@);
    let mut opened: Vec<WindowInfo> = Vec::new();
    let mut i: usize = 0;
    while i < current.len()
        invariant
            0 <= i <= current@.len(),
            prevv == views(previous@),
            curv == views(current@),
            views(opened@) == curv.subrange(0, i as int).filter(
                |w: WindowInfoV| !has_handle(prevv, w.handle),
            ),
        decreases current@.len() - i,
    {
        let absent = !contains_handle(previous, current[i].handle);
        let ghost opened_pre = opened@;
        if absent {
            let c = current[i].clone();
            opened.push(c);
        }
        proof {
            let p = |w: WindowInfoV| !has_handle(prevv, w.handle);
            assert(curv.subrange(0, i + 1) =~= curv.subrange(0, i as int).push(curv[i as int]));
            lemma_filter_push(curv.subrange(0, i as int), p, curv[i as int]);
            assert(curv[i as int] == current@[i as int]@);
            assert(p(curv[i as int]) == absent);
            if absent {
                assert(views(opened@) =~= views(opened_pre).push(
                    opened@[opened_pre.len() as int]@,
                ));
                assert(opened@[opened_pre.len() as int]@ == curv[i as int]);
            }
        }
        i = i + 1;
    }
    let mut closed: Vec<i64> = Vec::new();
    let mut j: usize = 0;
    while j < previous.len()
        invariant
            0 <= j <= previous@.len(),
            prevv == views(previous@),
            curv == views(current@),
            closed@ == prevv.subrange(0, j as int).map_values(|w: WindowInfoV| w.handle).filter(
                |h: i64| !has_handle(curv, h),
            ),
        decreases previous@.len() - j,
    {
        let absent = !contains_handle(current, previous[j].handle);
        if absent {
            closed.push(previous[j].handle);
        }
        proof {
            let m = |w: WindowInfoV| w.handle;
            let p = |h: i64| !has_handle(curv, h);
            let sub1 = prevv.subrange(0, j + 1);
            let sub0 = prevv.subrange(0, j as int);
            assert(sub1.map_values(m) =~= sub0.map_values(m).push(prevv[j as int].handle));
            lemma_filter_push(sub0.map_values(m), p, prevv[j as int].handle);
            assert(prevv[j as int] == previous@[j as int]@);
            assert(p(prevv[j as int].handle) == absent);
        }
        j = j + 1;
    }
    proof {
        assert(curv.subrange(0, curv.len() as int) =~= curv);
        assert(prevv.subrange(0, prevv.len() as int) =~= prevv);
    }
    (opened, closed)
}

/// Is some entry of the snapshot carrying this handle?
fn contains_handle(ws: &Vec<WindowInfo>, handle: i64) -> (r: bool)
    ensures
        r == has_handle(views(ws@), handle),
{
    let mut i: usize = 0;
    while i < ws.len()
        invariant
            0 <= i <= ws@.len(),
            forall|j: int| 0 <= j < i ==> (#[trigger] views(ws@)[j]).handle != handle,
        decreases ws@.len() - i,
    {
        proof {
            assert(views(ws@)[i as int] == ws@[i as int]@);
        }
        if ws[i].handle == handle {
            return true;
        }
        i = i + 1;
    }
    false
}

/// In a sequence that increases at every adjacent pair, any earlier
/// element is below any later one.
proof fn lemma_src_increasing(s: Seq<int>, k1: int, k2: int)
    requires
        forall|k: int| 0 <= k && k + 1 < s.len() ==> #[trigger] s[k] < s[k + 1],
        0 <= k1 < k2 < s.len(),
    ensures
        s[k1] < s[k2],
    decreases k2 - k1,
{
    if k1 + 1 == k2 {
        assert(s[k1] < s[k1 + 1]);
    } else {
        lemma_src_increasing(s, k1, k2 - 1);
        assert(s[k2 - 1] < s[k2]);
    }
}

/// Diffing a snapshot against itself opens nothing and closes nothing.
pub proof fn lemma_diff_self(ws: Seq<WindowInfoV>)
    ensures
        ws.filter(|w: WindowInfoV| !has_handle(ws, w.handle)) == Seq::<WindowInfoV>::empty(),
        ws.map_values(|w: WindowInfoV| w.handle).filter(|h: i64| !has_handle(ws, h)) == Seq::<
            i64,
        >::empty(),
{
    let p = |w: WindowInfoV| !has_handle(ws, w.handle);
    assert forall|j: int| 0 <= j < ws.len() implies !p(#[trigger] ws[j]) by {
        assert(has_handle(ws, ws[j].handle));
    }
    lemma_filter_none(ws, p);
    let m = |w: WindowInfoV| w.handle;
    let q = |h: i64| !has_handle(ws, h);
    assert forall|j: int| 0 <= j < ws.map_values(m).len() implies !q(
        #[trigger] ws.map_values(m)[j],
    ) by {
        assert(ws.map_values(m)[j] == ws[j].handle);
        assert(has_handle(ws, ws[j].handle));
    }
    lemma_filter_none(ws.map_values(m), q);
}


/// Some snapshot entry has this process name.
pub open spec fn name_in(l: Seq<char>, ws: Seq<WindowInfoV>) -> bool {
    exists|j: int| 0 <= j < ws.len() && (#[trigger] ws[j]).process_name == l
}

/// The snapshot entry carrying this handle (meaningful when the handle
/// occurs and handles are unique).
pub open spec fn entry_for(ws: Seq<WindowInfoV>, h: i64) -> WindowInfoV {
    ws[choose|j: int| 0 <= j < ws.len() && (#[trigger] ws[j]).handle == h]
}

/// The record an unknown foreground window gets when first seen.
pub open spec fn fresh_entry(a: RawWindowV, now: i64) -> WindowInfoV {
    WindowInfoV {
        handle: a.handle,
        title: a.title,
        process_name: a.process_name,
        executable_path: a.executable_path,
        last_active: now,
        is_visible: a.is_visible,
    }
}

/// The cache after a foreground query: unchanged, except that an unknown
/// foreground handle is recorded fresh.
pub open spec fn cache_after_active(
    cache: Seq<WindowInfoV>,
    a: Option<RawWindowV>,
    now: i64,
) -> Seq<WindowInfoV> {
    match a {
        Option::Some(aw) => if has_handle(cache, aw.handle) {
            cache
        } else {
            cache.push(fresh_entry(aw, now))
        },
        Option::None => cache,
    }
}

/// The value of an optional raw foreground report.
pub open spec fn raw_view_opt(a: Option<RawWindow>) -> Option<RawWindowV> {
    match a {
        Option::Some(x) => Option::Some(x@),
        Option::None => Option::None,
    }
}

/// The focus change a poll reports: the cached record of the foreground
/// window when the tracked handle differs from it; an unknown foreground
/// window is only recorded, not reported.
pub open spec fn focus_report(
    cache: Seq<WindowInfoV>,
    fg: Option<i64>,
    a: Option<RawWindowV>,
) -> Option<WindowInfoV> {
    match a {
        Option::Some(aw) => if has_handle(cache, aw.handle) && fg != Some(aw.handle) {
            Option::Some(entry_for(cache, aw.handle))
        } else {
            Option::None
        },
        Option::None => Option::None,
    }
}

impl WindowTracker {
    /// Rebuild the snapshot and keep only the visible windows.
    pub fn get_visible_windows(&mut self, raw: Vec<RawWindow>, now_millis: i64) -> (r: Vec<
        WindowInfo,
    >)
        requires
            old(self).wf(),
            handles_unique(raw@.map_values(|w: RawWindow| w@)),
        ensures
            final(self).wf(),
            views(r@) == snapshot_of(
                raw@.map_values(|w: RawWindow| w@),
                views(old(self).cached_windows@),
                now_millis,
            ).filter(|w: WindowInfoV| w.is_visible),
    {
        let snap = self.enumerate_windows(raw, now_millis);
        let ghost snapv = views(snap@);
        let mut out: Vec<WindowInfo> = Vec::new();
        let mut k: usize = 0;
        while k < snap.len()
            invariant
                0 <= k <= snap@.len(),
                snapv == views(snap@),
                views(out@) == snapv.subrange(0, k as int).filter(|w: WindowInfoV| w.is_visible),
            decreases snap@.len() - k,
        {
            let ghost out_pre = out@;
            if snap[k].is_visible {
                let c = snap[k].clone();
                out.push(c);
            }
            proof {
                let p = |w: WindowInfoV| w.is_visible;
                assert(snapv.subrange(0, k + 1) =~= snapv.subrange(0, k as int).push(
                    snapv[k as int],
                ));
                lemma_filter_push(snapv.subrange(0, k as int), p, snapv[k as int]);
                assert(snapv[k as int] == snap@[k as int]@);
                if snap@[k as int]@.is_visible {
                    assert(views(out@) =~= views(out_pre).push(out@[out_pre.len() as int]@));
                    assert(out@[out_pre.len() as int]@ == snapv[k as int]);
                }
            }
            k = k + 1;
        }
        proof {
            assert(snapv.subrange(0, snapv.len() as int) =~= snapv);
        }
        out
    }

    /// Rebuild the snapshot and return the window titles, in walk order.
    pub fn get_window_titles(&mut self, raw: Vec<RawWindow>, now_millis: i64) -> (r: Vec<String>)
        requires
            old(self).wf(),
            handles_unique(raw@.map_values(|w: RawWindow| w@)),
        ensures
            final(self).wf(),
            r@.map_values(|s: String| s@) == snapshot_of(
                raw@.map_values(|w: RawWindow| w@),
                views(old(self).cached_windows@),
                now_millis,
            ).map_values(|w: WindowInfoV| w.title),
    {
        let snap = self.enumerate_windows(raw, now_millis);
        let ghost snapv = views(snap@);
        let mut out: Vec<String> = Vec::new();
        let mut k: usize = 0;
        while k < snap.len()
            invariant
                0 <= k <= snap@.len(),
                snapv == views(snap@),
                out@.map_values(|s: String| s@) == snapv.subrange(0, k as int).map_values(
                    |w: WindowInfoV| w.title,
                ),
            decreases snap@.len() - k,
        {
            let ghost out_pre = out@;
            let t = snap[k].title.clone();
            out.push(t);
            proof {
                let f = |s: String| s@;
                let g = |w: WindowInfoV| w.title;
                assert(out@.map_values(f) =~= out_pre.map_values(f).push(
                    out@[out_pre.len() as int]@,
                ));
                assert(out@[out_pre.len() as int]@ == snapv[k as int].title);
                assert(snapv.subrange(0, k + 1).map_values(g) =~= snapv.subrange(
                    0,
                    k as int,
                ).map_values(g).push(snapv[k as int].title));
            }
            k = k + 1;
        }
        proof {
            assert(snapv.subrange(0, snapv.len() as int) =~= snapv);
        }
        out
    }

    /// Rebuild the snapshot and return the window handles, in walk order.
    pub fn get_window_handles(&mut self, raw: Vec<RawWindow>, now_millis: i64) -> (r: Vec<i64>)
        requires
            old(self).wf(),
            handles_unique(raw@.map_values(|w: RawWindow| w@)),
        ensures
            final(self).wf(),
            r@ == snapshot_of(
                raw@.map_values(|w: RawWindow| w@),
                views(old(self).cached_windows@),
                now_millis,
            ).map_values(|w: WindowInfoV| w.handle),
    {
        let snap = self.enumerate_windows(raw, now_millis);
        let ghost snapv = views(snap@);
        let mut out: Vec<i64> = Vec::new();
        let mut k: usize = 0;
        while k < snap.len()
            invariant
                0 <= k <= snap@.len(),
                snapv == views(snap@),
                out@ == snapv.subrange(0, k as int).map_values(|w: WindowInfoV| w.handle),
            decreases snap@.len() - k,
        {
            out.push(snap[k].handle);
            proof {
                assert(out@ =~= snapv.subrange(0, k + 1).map_values(|w: WindowInfoV| w.handle));
            }
            k = k + 1;
        }
        proof {
            assert(snapv.subrange(0, snapv.len() as int) =~= snapv);
        }
        out
    }

    /// Rebuild the snapshot and return the owning process names, sorted
    /// and with duplicates removed.
    pub fn get_process_names(&mut self, raw: Vec<RawWindow>, now_millis: i64) -> (r: Vec<String>)
        requires
            old(self).wf(),
            handles_unique(raw@.map_values(|w: RawWindow| w@)),
        ensures
            final(self).wf(),
            strictly_sorted(r@),
            forall|k: int|
                0 <= k < r@.len() ==> name_in(
                    (#[trigger] r@[k])@,
                    snapshot_from(raw@, old(self).cached_windows@, now_millis),
                ),
            forall|j: int|
                0 <= j < snapshot_from(raw@, old(self).cached_windows@, now_millis).len()
                    ==> str_in(
                    (#[trigger] snapshot_from(raw@, old(self).cached_windows@, now_millis)[j]).process_name,
                    r@,
                ),
    {
        let snap = self.enumerate_windows(raw, now_millis);
        let ghost snapv = views(snap@);
        let mut names: Vec<String> = Vec::new();
        let mut k: usize = 0;
        while k < snap.len()
            invariant
                0 <= k <= snap@.len(),
                snapv == views(snap@),
                names@.map_values(|s: String| s@) == snapv.subrange(0, k as int).map_values(
                    |w: WindowInfoV| w.process_name,
                ),
            decreases snap@.len() - k,
        {
            let ghost names_pre = names@;
            let n = snap[k].process_name.clone();
            names.push(n);
            proof {
                let f = |s: String| s@;
                let g = |w: WindowInfoV| w.process_name;
                assert(names@.map_values(f) =~= names_pre.map_values(f).push(
                    names@[names_pre.len() as int]@,
                ));
                assert(names@[names_pre.len() as int]@ == snapv[k as int].process_name);
                assert(snapv.subrange(0, k + 1).map_values(g) =~= snapv.subrange(
                    0,
                    k as int,
                ).map_values(g).push(snapv[k as int].process_name));
            }
            k = k + 1;
        }
        proof {
            assert(snapv.subrange(0, snapv.len() as int) =~= snapv);
        }
        let sorted = sort_dedup_strings(&names);
        proof {
            assert(names@.map_values(|s: String| s@).len() == names@.len());
            assert(snapv.map_values(|w: WindowInfoV| w.process_name).len() == snapv.len());
            assert(names@.len() == snapv.len());
            assert forall|k0: int| 0 <= k0 < sorted@.len() implies name_in(
                (#[trigger] sorted@[k0])@,
                snapv,
            ) by {
                assert(str_in(sorted@[k0]@, names@));
                let j = choose|j: int|
                    0 <= j < names@.len() && (#[trigger] names@[j])@ == sorted@[k0]@;
                assert(names@.map_values(|s: String| s@)[j] == snapv.map_values(
                    |w: WindowInfoV| w.process_name,
                )[j]);
                assert(snapv[j].process_name == sorted@[k0]@);
            }
            assert forall|j: int| 0 <= j < snapv.len() implies str_in(
                (#[trigger] snapv[j]).process_name,
                sorted@,
            ) by {
                assert(names@.map_values(|s: String| s@)[j] == snapv.map_values(
                    |w: WindowInfoV| w.process_name,
                )[j]);
                assert(names@[j]@ == snapv[j].process_name);
                assert(str_in(names@[j]@, sorted@));
            }
        }
        sorted
    }

    /// The instant a cached window was last seen active.
    pub fn get_window_last_active(&self, handle: i64) -> (r: Option<i64>)
        requires
            self.wf(),
        ensures
            match r {
                Some(t) => has_handle(views(self.cached_windows@), handle) && t == last_active_of(
                    views(self.cached_windows@),
                    handle,
                ),
                None => !has_handle(views(self.cached_windows@), handle),
            },
    {
        match self.find_cached(handle) {
            Some(i) => {
                let t = self.cached_windows[i].last_active;
                proof {
                    let ws = views(self.cached_windows@);
                    assert(ws[i as int] == self.cached_windows@[i as int]@);
                    let k = choose|j: int|
                        0 <= j < ws.len() && (#[trigger] ws[j]).handle == handle;
                    if k != i as int {
                        if k < i as int {
                            assert(ws[k].handle != ws[i as int].handle);
                        } else {
                            assert(ws[i as int].handle != ws[k].handle);
                        }
                    }
                }
                Some(t)
            },
            None => None,
        }
    }

    /// The current foreground window, queried fresh from the OS primitive
    /// (handed in as `active_raw`), bypassing the snapshot for freshness:
    /// a cached handle answers from the cache; an unknown one is recorded
    /// in the cache and becomes the tracked foreground.
    pub fn get_active_window(&mut self, active_raw: Option<RawWindow>, now_millis: i64) -> (r:
        Option<WindowInfo>)
        requires
            old(self).wf(),
        ensures
            final(self).wf(),
            final(self).last_poll == old(self).last_poll,
            match active_raw {
                Option::None => r is None && *final(self) == *old(self),
                Option::Some(a) => {
                    let h = a@.handle;
                    if has_handle(views(old(self).cached_windows@), h) {
                        &&& *final(self) == *old(self)
                        &&& match r {
                            Option::Some(w) => w@ == entry_for(
                                views(old(self).cached_windows@),
                                h,
                            ),
                            Option::None => false,
                        }
                    } else {
                        &&& views(final(self).cached_windows@) == views(
                            old(self).cached_windows@,
                        ).push(
                            WindowInfoV {
                                handle: h,
                                title: a@.title,
                                process_name: a@.process_name,
                                executable_path: a@.executable_path,
                                last_active: now_millis,
                                is_visible: a@.is_visible,
                            },
                        )
                        &&& final(self).foreground_window == Some(h)
                        &&& match r {
                            Option::Some(w) => w@ == (WindowInfoV {
                                handle: h,
                                title: a@.title,
                                process_name: a@.process_name,
                                executable_path: a@.executable_path,
                                last_active: now_millis,
                                is_visible: a@.is_visible,
                            }),
                            Option::None => false,
                        }
                    }
                },
            },
    {
        let a = match active_raw {
            Some(a) => a,
            None => {
                return None;
            },
        };
        match self.find_cached(a.handle) {
            Some(i) => {
                let w = self.cached_windows[i].clone();
                proof {
                    let ws = views(self.cached_windows@);
                    assert(ws[i as int] == self.cached_windows@[i as int]@);
                    let k = choose|j: int|
                        0 <= j < ws.len() && (#[trigger] ws[j]).handle == a@.handle;
                    if k != i as int {
                        if k < i as int {
                            assert(ws[k].handle != ws[i as int].handle);
                        } else {
                            assert(ws[i as int].handle != ws[k].handle);
                        }
                    }
                }
                Some(w)
            },
            None => {
                let handle = a.handle;
                let entry = WindowInfo {
                    handle: handle,
                    title: a.title,
                    process_name: a.process_name,
                    executable_path: a.executable_path,
                    last_active: now_millis,
                    is_visible: a.is_visible,
                };
                let copy = entry.clone();
                let ghost cache_pre = self.cached_windows@;
                self.cached_windows.push(copy);
                self.foreground_window = Some(handle);
                proof {
                    assert(views(self.cached_windows@) =~= views(cache_pre).push(
                        self.cached_windows@[cache_pre.len() as int]@,
                    ));
                    assert forall|p: int, q: int|
                        0 <= p < q < views(self.cached_windows@).len() implies (#[trigger] views(
                        self.cached_windows@,
                    )[p]).handle != (#[trigger] views(self.cached_windows@)[q]).handle by {
                        if q < views(self.cached_windows@).len() - 1 {
                            assert(views(cache_pre)[p].handle != views(cache_pre)[q].handle);
                        } else {
                            assert(!has_handle(views(cache_pre), handle));
                            assert(views(cache_pre)[p].handle != handle);
                        }
                    }
                }
                Some(entry)
            },
        }
    }

    /// Report a focus change: the active window, when the tracked
    /// foreground handle differs from it; the tracked handle follows.
    pub fn track_focus_changes(&mut self, active_raw: Option<RawWindow>, now_millis: i64) -> (r:
        Option<WindowInfo>)
        requires
            old(self).wf(),
        ensures
            final(self).wf(),
            final(self).last_poll == old(self).last_poll,
            match active_raw {
                Option::None => r is None && *final(self) == *old(self),
                Option::Some(a) => {
                    let h = a@.handle;
                    if has_handle(views(old(self).cached_windows@), h) {
                        &&& final(self).cached_windows == old(self).cached_windows
                        &&& final(self).foreground_window == Some(h)
                        &&& match r {
                            Option::Some(w) => old(self).foreground_window != Some(h) && w@
                                == entry_for(views(old(self).cached_windows@), h),
                            Option::None => old(self).foreground_window == Some(h),
                        }
                    } else {
                        // an unknown foreground window is recorded by the
                        // query itself, so no change is reported for it
                        &&& r is None
                        &&& final(self).foreground_window == Some(h)
                        &&& views(final(self).cached_windows@) == views(
                            old(self).cached_windows@,
                        ).push(fresh_entry(a@, now_millis))
                    }
                },
            },
    {
        let active = self.get_active_window(active_raw, now_millis);
        match active {
            Some(w) => {
                let changed = match self.foreground_window {
                    Some(h) => h != w.handle,
                    None => true,
                };
                if changed {
                    self.foreground_window = Some(w.handle);
                    Some(w)
                } else {
                    None
                }
            },
            None => None,
        }
    }

    /// Open/close changes against the previous snapshot: rebuild the
    /// snapshot from the raw walk and diff it against what was cached.
    pub fn track_window_changes(&mut self, raw: Vec<RawWindow>, now_millis: i64) -> (r: (
        Vec<WindowInfo>,
        Vec<i64>,
    ))
        requires
            old(self).wf(),
            handles_unique(raw@.map_values(|w: RawWindow| w@)),
        ensures
            final(self).wf(),
            final(self).last_poll == now_millis,
            final(self).foreground_window == old(self).foreground_window,
            views(r.0@) == snapshot_of(
                raw@.map_values(|w: RawWindow| w@),
                views(old(self).cached_windows@),
                now_millis,
            ).filter(
                |w: WindowInfoV| !has_handle(views(old(self).cached_windows@), w.handle),
            ),
            r.1@ == views(old(self).cached_windows@).map_values(|w: WindowInfoV| w.handle).filter(
                |h: i64|
                    !has_handle(
                        snapshot_of(
                            raw@.map_values(|w: RawWindow| w@),
                            views(old(self).cached_windows@),
                            now_millis,
                        ),
                        h,
                    ),
            ),
    {
        let previous = clone_windows(&self.cached_windows);
        let current = self.enumerate_windows(raw, now_millis);
        diff(&previous, &current)
    }

    /// One poll step, gated to at most one recomputation per interval:
    /// report the focus change and the open/close diff when anything
    /// moved, or that nothing changed.
    pub fn poll(
        &mut self,
        raw: Vec<RawWindow>,
        active_raw: Option<RawWindow>,
        now_millis: i64,
    ) -> (r: WindowChangeResult)
        requires
            old(self).wf(),
            handles_unique(raw@.map_values(|w: RawWindow| w@)),
            -0x2000_0000_0000_0000 <= now_millis <= 0x2000_0000_0000_0000,
            -0x2000_0000_0000_0000 <= old(self).last_poll <= 0x2000_0000_0000_0000,
        ensures
            final(self).wf(),
            now_millis - old(self).last_poll < POLL_INTERVAL_MILLIS ==> r is NoChange
                && *final(self) == *old(self),
            now_millis - old(self).last_poll >= POLL_INTERVAL_MILLIS ==> final(self).last_poll
                == now_millis && {
                let cache0 = views(old(self).cached_windows@);
                let a = raw_view_opt(active_raw);
                let rawv = raw@.map_values(|w: RawWindow| w@);
                match r {
                    WindowChangeResult::NoChange => {
                        &&& focus_report(cache0, old(self).foreground_window, a) is None
                        &&& poll_opened(cache0, a, rawv, now_millis).len() == 0
                        &&& poll_closed(cache0, a, rawv, now_millis).len() == 0
                    },
                    WindowChangeResult::Changed { focus_changed, opened, closed } => {
                        &&& match focus_changed {
                            Option::Some(w) => focus_report(
                                cache0,
                                old(self).foreground_window,
                                a,
                            ) == Some(w@),
                            Option::None => focus_report(
                                cache0,
                                old(self).foreground_window,
                                a,
                            ) is None,
                        }
                        &&& views(opened@) == poll_opened(cache0, a, rawv, now_millis)
                        &&& closed@ == poll_closed(cache0, a, rawv, now_millis)
                        &&& (focus_changed is Some || opened@.len() > 0 || closed@.len() > 0)
                    },
                }
            },
    {
        if now_millis - self.last_poll < POLL_INTERVAL_MILLIS {
            return WindowChangeResult::NoChange;
        }
        let ghost cache0 = views(self.cached_windows@);
        let ghost fg0 = self.foreground_window;
        let ghost a = raw_view_opt(active_raw);
        let focus_changed = self.track_focus_changes(active_raw, now_millis);
        proof {
            assert(views(self.cached_windows@) == cache_after_active(cache0, a, now_millis));
            if focus_changed is Some {
                assert(focus_report(cache0, fg0, a) == Some(focus_changed->Some_0@));
            } else {
                assert(focus_report(cache0, fg0, a) is None);
            }
        }
        let (opened, closed) = self.track_window_changes(raw, now_millis);
        let has_focus = match &focus_changed {
            Some(_) => true,
            None => false,
        };
        if has_focus || opened.len() > 0 || closed.len() > 0 {
            WindowChangeResult::Changed { focus_changed, opened, closed }
        } else {
            WindowChangeResult::NoChange
        }
    }
}

/// Copy a snapshot entry for entry.
fn clone_windows(ws: &Vec<WindowInfo>) -> (r: Vec<WindowInfo>)
    ensures
        views(r@) == views(ws@),
{
    let mut out: Vec<WindowInfo> = Vec::new();
    let mut i: usize = 0;
    while i < ws.len()
        invariant
            0 <= i <= ws@.len(),
            views(out@) == views(ws@).subrange(0, i as int),
        decreases ws@.len() - i,
    {
        let ghost out_pre = out@;
        let c = ws[i].clone();
        out.push(c);
        proof {
            assert(views(out@) =~= views(out_pre).push(out@[out_pre.len() as int]@));
            assert(out@[out_pre.len() as int]@ == views(ws@)[i as int]);
            assert(views(ws@).subrange(0, i + 1) =~= views(ws@).subrange(0, i as int).push(
                views(ws@)[i as int],
            ));
        }
        i = i + 1;
    }
    proof {
        assert(views(ws@).subrange(0, views(ws@).len() as int) =~= views(ws@));
    }
    out
}

/// The compact window record handed to the UI layer: the handle rendered
/// as a decimal string, the title and the owning process.
pub struct Window {
    pub id: String,
    pub title: String,
    pub process_name: String,
    pub icon: Option<String>,
}

impl Window {
    /// Build the UI record from a snapshot entry.
    pub fn from_info(info: &WindowInfo) -> (w: Window)
        ensures
            w.id@ == dec_str_signed(info.handle as int),
            w.title@ == info.title@,
            w.process_name@ == info.process_name@,
            w.icon is None,
    {
        Window {
            id: i64_to_string(info.handle),
            title: info.title.clone(),
            process_name: info.process_name.clone(),
            icon: None,
        }
    }
}

} // verus!
