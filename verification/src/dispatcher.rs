//! The global hotkey entry point: classification of every incoming
//! shortcut event into mutually-exclusive categories (first match wins),
//! the serialized toggle path, and the at-most-one-in-flight law for
//! toggle operations.

use vstd::prelude::*;

use crate::controller::{effective_visible, set_tracks, spec_resolve, OverlayController};
use crate::desktop::Desktop;
use crate::rect::{monitors_wf, MonitorDescriptor};

verus! {

/// The modifier keys held together with a key press.
#[derive(Clone, Copy, Debug, PartialEq, Eq, Structural)]
pub struct Modifiers {
    pub super_key: bool,
    pub control: bool,
    pub alt: bool,
    pub shift: bool,
}

impl Modifiers {
    pub fn none() -> (r: Modifiers)
        ensures
            r == (Modifiers { super_key: false, control: false, alt: false, shift: false }),
    {
        Modifiers { super_key: false, control: false, alt: false, shift: false }
    }

    pub fn super_only() -> (r: Modifiers)
        ensures
            r == (Modifiers { super_key: true, control: false, alt: false, shift: false }),
    {
        Modifiers { super_key: true, control: false, alt: false, shift: false }
    }

    pub fn control_only() -> (r: Modifiers)
        ensures
            r == (Modifiers { super_key: false, control: true, alt: false, shift: false }),
    {
        Modifiers { super_key: false, control: true, alt: false, shift: false }
    }

    pub fn alt_only() -> (r: Modifiers)
        ensures
            r == (Modifiers { super_key: false, control: false, alt: true, shift: false }),
    {
        Modifiers { super_key: false, control: false, alt: true, shift: false }
    }
}

/// The physical keys the dispatcher distinguishes.
#[derive(Clone, Copy, Debug, PartialEq, Eq, Structural)]
pub enum KeyCode {
    ArrowUp,
    ArrowDown,
    ArrowLeft,
    ArrowRight,
    Escape,
    Space,
    Enter,
    Digit1,
    Digit2,
    Digit3,
    Digit4,
    Digit5,
    Digit6,
    Digit7,
    KeyA,
    KeyI,
    KeyK,
    KeyN,
    KeyO,
    KeyS,
    KeyT,
    KeyX,
    MetaLeft,
    MetaRight,
    PrintScreen,
}

/// One global hotkey: a set of modifiers and a key.
#[derive(Clone, Copy, Debug, PartialEq, Eq, Structural)]
pub struct ShortcutBinding {
    pub mods: Modifiers,
    pub key: KeyCode,
}

/// A navigation direction, as emitted to the UI layer.
#[derive(Clone, Copy, Debug, PartialEq, Eq, Structural)]
pub enum Direction {
    Up,
    Down,
    Left,
    Right,
}

/// The mutually-exclusive categories a hotkey event falls into, in fixed
/// classification order.
#[derive(Clone, Copy, Debug, PartialEq, Eq, Structural)]
pub enum ShortcutClass {
    /// An arrow key, with or without a modifier.
    Navigation(Direction),
    /// The dismiss key, with or without a modifier.
    Dismiss,
    /// A screen-select key 1–7 under the dedicated modifier.
    ScreenSelect(u8),
    /// A combination on the platform's system-shortcut block list.
    BlockedSystem,
    /// The screenshot combination or the print key: never blocked.
    ScreenshotPassthrough,
    /// Everything else that reaches the handler: the primary toggle.
    PrimaryToggle,
}

pub open spec fn spec_is_arrow(k: KeyCode) -> bool {
    k == KeyCode::ArrowUp || k == KeyCode::ArrowDown || k == KeyCode::ArrowLeft || k
        == KeyCode::ArrowRight
}

pub open spec fn spec_direction(k: KeyCode) -> Direction {
    if k == KeyCode::ArrowUp {
        Direction::Up
    } else if k == KeyCode::ArrowDown {
        Direction::Down
    } else if k == KeyCode::ArrowLeft {
        Direction::Left
    } else {
        Direction::Right
    }
}

pub open spec fn spec_screen_digit(k: KeyCode) -> int {
    if k == KeyCode::Digit1 {
        1
    } else if k == KeyCode::Digit2 {
        2
    } else if k == KeyCode::Digit3 {
        3
    } else if k == KeyCode::Digit4 {
        4
    } else if k == KeyCode::Digit5 {
        5
    } else if k == KeyCode::Digit6 {
        6
    } else if k == KeyCode::Digit7 {
        7
    } else {
        0
    }
}

pub open spec fn spec_is_screen_digit(k: KeyCode) -> bool {
    spec_screen_digit(k) != 0
}

/// A letter whose combination with the platform modifier summons OS UI.
pub open spec fn spec_is_blocked_letter(k: KeyCode) -> bool {
    k == KeyCode::KeyA || k == KeyCode::KeyI || k == KeyCode::KeyX || k == KeyCode::KeyK || k
        == KeyCode::KeyN || k == KeyCode::KeyS || k == KeyCode::KeyT
}

/// The fixed block list: the platform key alone, or the platform modifier
/// with a blocked letter — but never together with shift, which would
/// block the screenshot combination.
pub open spec fn spec_is_blocked_system(b: ShortcutBinding) -> bool {
    ||| b.key == KeyCode::MetaLeft
    ||| b.key == KeyCode::MetaRight
    ||| (b.mods.super_key && !b.mods.shift && spec_is_blocked_letter(b.key))
}

/// The screenshot combination and the dedicated print key are explicitly
/// excluded from blocking and pass through unconsumed.
pub open spec fn spec_is_screenshot(b: ShortcutBinding) -> bool {
    b.key == KeyCode::PrintScreen || (b.mods.super_key && b.mods.shift && b.key == KeyCode::KeyS)
}

/// The fixed, mutually-exclusive classification, first match wins:
/// arrows, dismiss, screen select, block list, screenshot passthrough,
/// primary toggle.
pub open spec fn spec_classify(b: ShortcutBinding) -> ShortcutClass {
    if spec_is_arrow(b.key) {
        ShortcutClass::Navigation(spec_direction(b.key))
    } else if b.key == KeyCode::Escape {
        ShortcutClass::Dismiss
    } else if b.mods.alt && spec_is_screen_digit(b.key) {
        ShortcutClass::ScreenSelect(spec_screen_digit(b.key) as u8)
    } else if spec_is_blocked_system(b) && b.key != KeyCode::PrintScreen {
        ShortcutClass::BlockedSystem
    } else if spec_is_screenshot(b) {
        ShortcutClass::ScreenshotPassthrough
    } else {
        ShortcutClass::PrimaryToggle
    }
}

/// Classify one hotkey event.
pub fn classify(b: &ShortcutBinding) -> (r: ShortcutClass)
    ensures
        r == spec_classify(*b),
{
    let is_arrow = matches!(
        b.key,
        KeyCode::ArrowUp | KeyCode::ArrowDown | KeyCode::ArrowLeft | KeyCode::ArrowRight
    );
    if is_arrow {
        let d = match b.key {
            KeyCode::ArrowUp => Direction::Up,
            KeyCode::ArrowDown => Direction::Down,
            KeyCode::ArrowLeft => Direction::Left,
            _ => Direction::Right,
        };
        return ShortcutClass::Navigation(d);
    }
    if matches!(b.key, KeyCode::Escape) {
        return ShortcutClass::Dismiss;
    }
    if b.mods.alt {
        let n: u8 = match b.key {
            KeyCode::Digit1 => 1,
            KeyCode::Digit2 => 2,
            KeyCode::Digit3 => 3,
            KeyCode::Digit4 => 4,
            KeyCode::Digit5 => 5,
            KeyCode::Digit6 => 6,
            KeyCode::Digit7 => 7,
            _ => 0,
        };
        if n != 0 {
            return ShortcutClass::ScreenSelect(n);
        }
    }
    let is_meta = matches!(b.key, KeyCode::MetaLeft | KeyCode::MetaRight);
    let is_blocked_letter = matches!(
        b.key,
        KeyCode::KeyA | KeyCode::KeyI | KeyCode::KeyX | KeyCode::KeyK | KeyCode::KeyN
            | KeyCode::KeyS | KeyCode::KeyT
    );
    let is_blocked = is_meta || (b.mods.super_key && !b.mods.shift && is_blocked_letter);
    let is_print = matches!(b.key, KeyCode::PrintScreen);
    if is_blocked && !is_print {
        return ShortcutClass::BlockedSystem;
    }
    if is_print || (b.mods.super_key && b.mods.shift && matches!(b.key, KeyCode::KeyS)) {
        return ShortcutClass::ScreenshotPassthrough;
    }
    ShortcutClass::PrimaryToggle
}


/// An executed toggle operation.
#[derive(Clone, Copy, Debug, PartialEq, Eq, Structural)]
pub enum ToggleOp {
    ShowOp,
    HideOp,
}

/// What the toggle path observes: a hotkey press, or the completion of
/// the operation in flight.
#[derive(Clone, Copy, Debug, PartialEq, Eq, Structural)]
pub enum ToggleEvent {
    TogglePressed,
    OpCompleted,
}

/// The two flags the toggle path runs on: the operation guard and the
/// toggle (visibility) flag.
#[derive(Clone, Copy, Debug, PartialEq, Eq, Structural)]
pub struct ToggleFlags {
    pub guard: bool,
    pub visible: bool,
}

/// The state after one toggle event. A press while the guard is held is
/// dropped; otherwise it claims the guard and flips the flag, and the
/// completion of the dispatched operation releases the guard.
pub open spec fn toggle_step(st: ToggleFlags, ev: ToggleEvent) -> ToggleFlags {
    match ev {
        ToggleEvent::TogglePressed => if st.guard {
            st
        } else {
            ToggleFlags { guard: true, visible: !st.visible }
        },
        ToggleEvent::OpCompleted => ToggleFlags { guard: false, visible: st.visible },
    }
}

/// The operation a toggle event starts, if any: a press that claims the
/// guard starts a hide when the overlay reads visible, a show otherwise.
pub open spec fn toggle_op_of(st: ToggleFlags, ev: ToggleEvent) -> Option<ToggleOp> {
    match ev {
        ToggleEvent::TogglePressed => if st.guard {
            Option::None
        } else if st.visible {
            Option::Some(ToggleOp::HideOp)
        } else {
            Option::Some(ToggleOp::ShowOp)
        },
        ToggleEvent::OpCompleted => Option::None,
    }
}

/// The operations that actually execute (are not dropped by the guard)
/// over a sequence of toggle events.
pub open spec fn executed_ops(st: ToggleFlags, evs: Seq<ToggleEvent>) -> Seq<ToggleOp>
    decreases evs.len(),
{
    if evs.len() == 0 {
        Seq::empty()
    } else {
        let head = match toggle_op_of(st, evs[0]) {
            Option::Some(op) => seq![op],
            Option::None => Seq::empty(),
        };
        head + executed_ops(toggle_step(st, evs[0]), evs.drop_first())
    }
}

/// Adjacent executed operations always differ: never two shows without an
/// intervening hide, and vice versa.
pub open spec fn alternating(t: Seq<ToggleOp>) -> bool {
    forall|i: int| 0 <= i && i + 1 < t.len() ==> t[i + 1] != #[trigger] t[i]
}

/// The flag agrees with the last executed operation: a show left the
/// overlay reading visible, a hide reading hidden.
pub open spec fn flag_agrees(st: ToggleFlags, last: Option<ToggleOp>) -> bool {
    match last {
        Option::None => true,
        Option::Some(op) => (op == ToggleOp::ShowOp) == st.visible,
    }
}

/// The executed suffix alternates, and its first operation differs from
/// the last one executed before it.
pub open spec fn chain_alternates(last: Option<ToggleOp>, t: Seq<ToggleOp>) -> bool {
    alternating(t) && match last {
        Option::None => true,
        Option::Some(op) => t.len() == 0 || t[0] != op,
    }
}

proof fn lemma_executed_chain(st: ToggleFlags, evs: Seq<ToggleEvent>, last: Option<ToggleOp>)
    requires
        flag_agrees(st, last),
    ensures
        chain_alternates(last, executed_ops(st, evs)),
    decreases evs.len(),
{
    if evs.len() == 0 {
    } else {
        let ev = evs[0];
        let st1 = toggle_step(st, ev);
        let rest = evs.drop_first();
        let t = executed_ops(st, evs);
        match toggle_op_of(st, ev) {
            Option::None => {
                lemma_executed_chain(st1, rest, last);
                assert(t =~= executed_ops(st1, rest));
            },
            Option::Some(op) => {
                lemma_executed_chain(st1, rest, Option::Some(op));
                let t1 = executed_ops(st1, rest);
                assert(t =~= seq![op] + t1);
                assert(t[0] == op);
                assert forall|i: int| 0 <= i && i + 1 < t.len() implies t[i + 1]
                    != #[trigger] t[i] by {
                    if i == 0 {
                        if t1.len() > 0 {
                            assert(t[1] == t1[0]);
                        }
                    } else {
                        assert(t[i] == t1[i - 1]);
                        assert(t[i + 1] == t1[i]);
                    }
                }
            },
        }
    }
}

/// The mutual-exclusion law of the toggle path: from the initial hidden
/// state, over any sequence of toggle events — however fast they arrive —
/// the operations that actually execute strictly alternate between show
/// and hide. Events arriving while an operation is in flight are dropped
/// by the guard, never queued. The visibility each press resolves is the
/// toggle flag, the authoritative fallback the window set must agree with.
pub proof fn lemma_toggle_ops_alternate(evs: Seq<ToggleEvent>)
    ensures
        alternating(executed_ops(ToggleFlags { guard: false, visible: false }, evs)),
{
    lemma_executed_chain(
        ToggleFlags { guard: false, visible: false },
        evs,
        Option::None,
    );
}

/// An event emitted to the UI layer, fire-and-forget.
#[derive(Clone, Copy, Debug, PartialEq, Eq, Structural)]
pub enum UiEvent {
    /// A toggle completed: true after a show, false after a hide.
    ShortcutTriggered(bool),
    /// An arrow key pressed while the overlay is visible.
    ArrowKeyPressed(Direction),
    /// A screen-select key: the screen index, 1 through 7.
    NumberKeyPressed(u8),
}

/// What the dispatcher did with one hotkey event.
#[derive(Clone, Copy, Debug)]
pub struct DispatchOutcome {
    /// Whether the event was consumed (blocked from the OS).
    pub consumed: bool,
    /// The event emitted to the UI layer, if any.
    pub event: Option<UiEvent>,
}

/// Handle one global hotkey event: classify it, and route it — navigation
/// and screen-select events go to the UI when appropriate, block-list
/// combinations are swallowed, the screenshot combination passes through
/// untouched, the dismiss key hides the overlay when it is visible, and
/// the primary toggle runs show or hide under the operation guard.
pub fn handle_shortcut(
    ctrl: &mut OverlayController,
    desk: &mut Desktop,
    monitors: &Vec<MonitorDescriptor>,
    binding: &ShortcutBinding,
    pressed: bool,
) -> (r: DispatchOutcome)
    requires
        old(ctrl).wf(),
        old(desk).wf(),
        set_tracks(old(ctrl).window_labels@, *old(desk)),
        monitors_wf(monitors@),
    ensures
        final(ctrl).wf(),
        final(desk).wf(),
        set_tracks(final(ctrl).window_labels@, *final(desk)),
        !pressed ==> *final(ctrl) == *old(ctrl) && *final(desk) == *old(desk) && r.event is None
            && r.consumed == (spec_classify(*binding) != ShortcutClass::ScreenshotPassthrough),
        pressed ==> match spec_classify(*binding) {
            ShortcutClass::Navigation(d) => {
                &&& *final(ctrl) == *old(ctrl)
                &&& *final(desk) == *old(desk)
                &&& r.consumed
                &&& r.event == if spec_resolve(
                    *old(desk),
                    old(ctrl).window_labels@,
                    old(ctrl).overlay_visible,
                ) {
                    Option::Some(UiEvent::ArrowKeyPressed(d))
                } else {
                    Option::None::<UiEvent>
                }
            },
            ShortcutClass::Dismiss => {
                let vis = spec_resolve(
                    *old(desk),
                    old(ctrl).window_labels@,
                    old(ctrl).overlay_visible,
                );
                &&& r.consumed
                &&& (!vis ==> *final(ctrl) == *old(ctrl) && *final(desk) == *old(desk)
                    && r.event is None)
                &&& (vis ==> r.event == Option::Some(UiEvent::ShortcutTriggered(false)))
                &&& (vis && !old(ctrl).op_in_progress && old(ctrl).overlay_visible ==> {
                    &&& !final(ctrl).overlay_visible
                    &&& !spec_resolve(*final(desk), final(ctrl).window_labels@, false)
                    &&& !final(desk).label_visible("main"@)
                })
            },
            ShortcutClass::ScreenSelect(n) => {
                &&& *final(ctrl) == *old(ctrl)
                &&& *final(desk) == *old(desk)
                &&& r.consumed
                &&& r.event == Option::Some(UiEvent::NumberKeyPressed(n))
            },
            ShortcutClass::BlockedSystem => {
                &&& *final(ctrl) == *old(ctrl)
                &&& *final(desk) == *old(desk)
                &&& r.consumed
                &&& r.event is None
            },
            ShortcutClass::ScreenshotPassthrough => {
                &&& *final(ctrl) == *old(ctrl)
                &&& *final(desk) == *old(desk)
                &&& !r.consumed
                &&& r.event is None
            },
            ShortcutClass::PrimaryToggle => {
                &&& r.consumed
                &&& (old(ctrl).op_in_progress ==> *final(ctrl) == *old(ctrl) && *final(desk)
                    == *old(desk) && r.event is None)
                &&& (!old(ctrl).op_in_progress ==> {
                    let doing_show = !effective_visible(
                        *old(desk),
                        old(ctrl).window_labels@,
                        old(ctrl).overlay_visible,
                    );
                    &&& !final(ctrl).op_in_progress
                    &&& (doing_show ==> {
                        let failed = !crate::controller::monitor_surface_available(
                            old(ctrl).window_labels@,
                            *old(desk),
                        ) && !old(desk).has_label("main"@);
                        &&& (failed ==> r.event is None && !final(ctrl).overlay_visible)
                        &&& (!failed ==> r.event == Option::Some(UiEvent::ShortcutTriggered(true))
                            && final(ctrl).overlay_visible && spec_resolve(
                            *final(desk),
                            final(ctrl).window_labels@,
                            true,
                        ))
                    })
                    &&& (!doing_show ==> r.event == Option::Some(UiEvent::ShortcutTriggered(false))
                        && !final(ctrl).overlay_visible && !spec_resolve(
                        *final(desk),
                        final(ctrl).window_labels@,
                        false,
                    ))
                })
            },
        },
{
    if !pressed {
        let c = classify(binding);
        return DispatchOutcome {
            consumed: !matches!(c, ShortcutClass::ScreenshotPassthrough),
            event: None,
        };
    }
    match classify(binding) {
        ShortcutClass::Navigation(d) => {
            let vis = crate::controller::resolve(desk, &ctrl.window_labels, ctrl.overlay_visible);
            let ev = if vis {
                Some(UiEvent::ArrowKeyPressed(d))
            } else {
                None
            };
            DispatchOutcome { consumed: true, event: ev }
        },
        ShortcutClass::Dismiss => {
            let vis = crate::controller::resolve(desk, &ctrl.window_labels, ctrl.overlay_visible);
            if vis {
                let _hidden = ctrl.hide_overlay(desk);
                DispatchOutcome { consumed: true, event: Some(UiEvent::ShortcutTriggered(false)) }
            } else {
                DispatchOutcome { consumed: true, event: None }
            }
        },
        ShortcutClass::ScreenSelect(n) => {
            DispatchOutcome { consumed: true, event: Some(UiEvent::NumberKeyPressed(n)) }
        },
        ShortcutClass::BlockedSystem => DispatchOutcome { consumed: true, event: None },
        ShortcutClass::ScreenshotPassthrough => DispatchOutcome { consumed: false, event: None },
        ShortcutClass::PrimaryToggle => {
            match ctrl.begin_toggle(desk) {
                None => DispatchOutcome { consumed: true, event: None },
                Some(doing_show) => {
                    let res = ctrl.complete_toggle(desk, monitors, doing_show);
                    let ev = if res.is_ok() {
                        Some(UiEvent::ShortcutTriggered(doing_show))
                    } else {
                        None
                    };
                    DispatchOutcome { consumed: true, event: ev }
                },
            }
        },
    }
}

/// The candidate primary-toggle bindings, tried in order at startup until
/// one registers.
pub fn toggle_candidates() -> (r: Vec<ShortcutBinding>)
    ensures
        r@.len() == 3,
        r@[0] == (ShortcutBinding { mods: Modifiers { super_key: false, control: true, alt: false, shift: false }, key: KeyCode::Space }),
        r@[1] == (ShortcutBinding { mods: Modifiers { super_key: true, control: false, alt: false, shift: false }, key: KeyCode::Space }),
        r@[2] == (ShortcutBinding { mods: Modifiers { super_key: true, control: false, alt: false, shift: false }, key: KeyCode::KeyO }),
{
    let mut v: Vec<ShortcutBinding> = Vec::new();
    v.push(ShortcutBinding { mods: Modifiers::control_only(), key: KeyCode::Space });
    v.push(ShortcutBinding { mods: Modifiers::super_only(), key: KeyCode::Space });
    v.push(ShortcutBinding { mods: Modifiers::super_only(), key: KeyCode::KeyO });
    v
}

/// The arrow-key bindings registered while the overlay is visible, under
/// the navigation modifier.
pub fn arrow_key_bindings() -> (r: Vec<ShortcutBinding>)
    ensures
        r@.len() == 4,
        r@[0] == (ShortcutBinding { mods: Modifiers { super_key: false, control: false, alt: true, shift: false }, key: KeyCode::ArrowUp }),
        r@[1] == (ShortcutBinding { mods: Modifiers { super_key: false, control: false, alt: true, shift: false }, key: KeyCode::ArrowDown }),
        r@[2] == (ShortcutBinding { mods: Modifiers { super_key: false, control: false, alt: true, shift: false }, key: KeyCode::ArrowLeft }),
        r@[3] == (ShortcutBinding { mods: Modifiers { super_key: false, control: false, alt: true, shift: false }, key: KeyCode::ArrowRight }),
{
    let mut v: Vec<ShortcutBinding> = Vec::new();
    v.push(ShortcutBinding { mods: Modifiers::alt_only(), key: KeyCode::ArrowUp });
    v.push(ShortcutBinding { mods: Modifiers::alt_only(), key: KeyCode::ArrowDown });
    v.push(ShortcutBinding { mods: Modifiers::alt_only(), key: KeyCode::ArrowLeft });
    v.push(ShortcutBinding { mods: Modifiers::alt_only(), key: KeyCode::ArrowRight });
    v
}

/// The screen-select bindings: the dedicated modifier with the digits one
/// through seven.
pub fn number_key_bindings() -> (r: Vec<ShortcutBinding>)
    ensures
        r@.len() == 7,
        forall|k: int|
            0 <= k < 7 ==> (#[trigger] r@[k]).mods == (Modifiers { super_key: false, control: false, alt: true, shift: false }),
        r@[0].key == KeyCode::Digit1,
        r@[1].key == KeyCode::Digit2,
        r@[2].key == KeyCode::Digit3,
        r@[3].key == KeyCode::Digit4,
        r@[4].key == KeyCode::Digit5,
        r@[5].key == KeyCode::Digit6,
        r@[6].key == KeyCode::Digit7,
{
    let mut v: Vec<ShortcutBinding> = Vec::new();
    v.push(ShortcutBinding { mods: Modifiers::alt_only(), key: KeyCode::Digit1 });
    v.push(ShortcutBinding { mods: Modifiers::alt_only(), key: KeyCode::Digit2 });
    v.push(ShortcutBinding { mods: Modifiers::alt_only(), key: KeyCode::Digit3 });
    v.push(ShortcutBinding { mods: Modifiers::alt_only(), key: KeyCode::Digit4 });
    v.push(ShortcutBinding { mods: Modifiers::alt_only(), key: KeyCode::Digit5 });
    v.push(ShortcutBinding { mods: Modifiers::alt_only(), key: KeyCode::Digit6 });
    v.push(ShortcutBinding { mods: Modifiers::alt_only(), key: KeyCode::Digit7 });
    v
}

/// The dismiss-key candidates: the dismiss key under a modifier first —
/// the platform often requires one — then bare.
pub fn escape_bindings() -> (r: Vec<ShortcutBinding>)
    ensures
        r@.len() == 2,
        r@[0] == (ShortcutBinding { mods: Modifiers { super_key: false, control: true, alt: false, shift: false }, key: KeyCode::Escape }),
        r@[1] == (ShortcutBinding { mods: Modifiers { super_key: false, control: false, alt: false, shift: false }, key: KeyCode::Escape }),
{
    let mut v: Vec<ShortcutBinding> = Vec::new();
    v.push(ShortcutBinding { mods: Modifiers::control_only(), key: KeyCode::Escape });
    v.push(ShortcutBinding { mods: Modifiers::none(), key: KeyCode::Escape });
    v
}

/// The fixed block list of system combinations that summon OS UI: the
/// platform key alone (both sides, bare and under its own modifier) and
/// the platform modifier with each blocked letter. Everything here
/// classifies as blocked; the screenshot combination is deliberately
/// absent.
pub fn system_block_list() -> (r: Vec<ShortcutBinding>)
    ensures
        r@.len() == 11,
        forall|k: int|
            0 <= k < r@.len() ==> spec_classify(#[trigger] r@[k]) == ShortcutClass::BlockedSystem,
{
    let mut v: Vec<ShortcutBinding> = Vec::new();
    v.push(ShortcutBinding { mods: Modifiers::none(), key: KeyCode::MetaLeft });
    v.push(ShortcutBinding { mods: Modifiers::none(), key: KeyCode::MetaRight });
    v.push(ShortcutBinding { mods: Modifiers::super_only(), key: KeyCode::MetaLeft });
    v.push(ShortcutBinding { mods: Modifiers::super_only(), key: KeyCode::MetaRight });
    v.push(ShortcutBinding { mods: Modifiers::super_only(), key: KeyCode::KeyA });
    v.push(ShortcutBinding { mods: Modifiers::super_only(), key: KeyCode::KeyI });
    v.push(ShortcutBinding { mods: Modifiers::super_only(), key: KeyCode::KeyX });
    v.push(ShortcutBinding { mods: Modifiers::super_only(), key: KeyCode::KeyK });
    v.push(ShortcutBinding { mods: Modifiers::super_only(), key: KeyCode::KeyN });
    v.push(ShortcutBinding { mods: Modifiers::super_only(), key: KeyCode::KeyS });
    v.push(ShortcutBinding { mods: Modifiers::super_only(), key: KeyCode::KeyT });
    v
}

/// The index of the first registration attempt that succeeded, if any:
/// the ordered-candidate retry policy for hotkey registration.
pub fn first_successful(outcomes: &Vec<bool>) -> (r: Option<usize>)
    ensures
        match r {
            Option::Some(i) => i < outcomes@.len() && outcomes@[i as int] && forall|j: int|
                0 <= j < i ==> !outcomes@[j],
            Option::None => forall|j: int| 0 <= j < outcomes@.len() ==> !outcomes@[j],
        },
{
    let mut i: usize = 0;
    while i < outcomes.len()
        invariant
            0 <= i <= outcomes@.len(),
            forall|j: int| 0 <= j < i ==> !outcomes@[j],
        decreases outcomes@.len() - i,
    {
        if outcomes[i] {
            return Some(i);
        }
        i = i + 1;
    }
    None
}

/// Did any registration attempt in the batch succeed? Batch registration
/// (arrows, screen-select, block list) fails only when every single
/// binding failed to register.
pub fn any_succeeded(outcomes: &Vec<bool>) -> (r: bool)
    ensures
        r == exists|j: int| 0 <= j < outcomes@.len() && #[trigger] outcomes@[j],
{
    let mut i: usize = 0;
    while i < outcomes.len()
        invariant
            0 <= i <= outcomes@.len(),
            forall|j: int| 0 <= j < i ==> !outcomes@[j],
        decreases outcomes@.len() - i,
    {
        if outcomes[i] {
            return true;
        }
        i = i + 1;
    }
    false
}


/// The text with leading spaces removed.
pub open spec fn trim_front(s: Seq<char>) -> Seq<char>
    decreases s.len(),
{
    if s.len() > 0 && s[0] == ' ' {
        trim_front(s.drop_first())
    } else {
        s
    }
}

/// The text with trailing spaces removed.
pub open spec fn trim_back(s: Seq<char>) -> Seq<char>
    decreases s.len(),
{
    if s.len() > 0 && s.last() == ' ' {
        trim_back(s.drop_last())
    } else {
        s
    }
}

/// The text with surrounding spaces removed.
pub open spec fn trim_spaces(s: Seq<char>) -> Seq<char> {
    trim_back(trim_front(s))
}

/// The text split at its first `+`: what stands before it and what
/// follows it, when one occurs.
pub open spec fn split_at_plus(s: Seq<char>) -> Option<(Seq<char>, Seq<char>)>
    decreases s.len(),
{
    if s.len() == 0 {
        Option::None
    } else if s[0] == '+' {
        Option::Some((Seq::empty(), s.drop_first()))
    } else {
        match split_at_plus(s.drop_first()) {
            Option::Some((a, b)) => Option::Some((seq![s[0]] + a, b)),
            Option::None => Option::None,
        }
    }
}

/// The second `+`-separated segment: what stands before the next `+`, or
/// the whole remainder.
pub open spec fn second_segment(rest: Seq<char>) -> Seq<char> {
    match split_at_plus(rest) {
        Option::Some((a, _)) => a,
        Option::None => rest,
    }
}

/// The modifier a trimmed name denotes.
pub open spec fn spec_modifier_of(t: Seq<char>) -> Option<Modifiers> {
    if t == "Super"@ || t == "Win"@ || t == "Meta"@ {
        Option::Some(Modifiers { super_key: true, control: false, alt: false, shift: false })
    } else if t == "Ctrl"@ || t == "Control"@ {
        Option::Some(Modifiers { super_key: false, control: true, alt: false, shift: false })
    } else if t == "Alt"@ {
        Option::Some(Modifiers { super_key: false, control: false, alt: true, shift: false })
    } else if t == "Shift"@ {
        Option::Some(Modifiers { super_key: false, control: false, alt: false, shift: true })
    } else {
        Option::None
    }
}

/// The key a trimmed name denotes.
pub open spec fn spec_key_of(t: Seq<char>) -> Option<KeyCode> {
    if t == "Space"@ {
        Option::Some(KeyCode::Space)
    } else if t == "Enter"@ {
        Option::Some(KeyCode::Enter)
    } else if t == "Escape"@ {
        Option::Some(KeyCode::Escape)
    } else {
        Option::None
    }
}

/// Strip leading spaces.
fn trim_front_exec(s: &str) -> (r: &str)
    ensures
        r@ == trim_front(s@),
    decreases s@.len(),
{
    let n = s.unicode_len();
    if n > 0 && s.get_char(0) == ' ' {
        let rest = s.substring_char(1, n);
        proof {
            assert(rest@ =~= s@.drop_first());
        }
        trim_front_exec(rest)
    } else {
        s
    }
}

/// Strip trailing spaces.
fn trim_back_exec(s: &str) -> (r: &str)
    ensures
        r@ == trim_back(s@),
    decreases s@.len(),
{
    let n = s.unicode_len();
    if n > 0 && s.get_char(n - 1) == ' ' {
        let rest = s.substring_char(0, n - 1);
        proof {
            assert(rest@ =~= s@.drop_last());
        }
        trim_back_exec(rest)
    } else {
        s
    }
}

/// Split at the first `+`, when there is one.
fn split_at_plus_exec(s: &str) -> (r: Option<(String, String)>)
    ensures
        match r {
            Some(parts) => split_at_plus(s@) == Some((parts.0@, parts.1@)),
            None => split_at_plus(s@) is None,
        },
    decreases s@.len(),
{
    let n = s.unicode_len();
    if n == 0 {
        return None;
    }
    if s.get_char(0) == '+' {
        let rest = s.substring_char(1, n);
        let empty_first = String::new();
        proof {
            assert(rest@ =~= s@.drop_first());
            assert(empty_first@ =~= Seq::<char>::empty());
        }
        return Some((empty_first, rest.to_owned()));
    }
    let tail = s.substring_char(1, n);
    proof {
        assert(tail@ =~= s@.drop_first());
    }
    match split_at_plus_exec(tail) {
        Some(parts) => {
            let head = s.substring_char(0, 1);
            let mut a = head.to_owned();
            a.append(parts.0.as_str());
            proof {
                assert(head@ =~= seq![s@[0]]);
                assert(a@ =~= seq![s@[0]] + parts.0@);
            }
            Some((a, parts.1))
        },
        None => None,
    }
}

/// Parse a hotkey written as `Modifier+Key` — `Super+Space`, say — into a
/// binding. Surrounding spaces are stripped from each part; anything past
/// a second `+` is ignored, as the key name then fails to parse. Each
/// rejected input gets its own message.
pub fn parse_shortcut(shortcut_str: &str) -> (r: Result<ShortcutBinding, String>)
    ensures
        match r {
            Ok(b) => {
                &&& split_at_plus(shortcut_str@) is Some
                &&& spec_modifier_of(trim_spaces(split_at_plus(shortcut_str@)->Some_0.0)) == Some(
                    b.mods,
                )
                &&& spec_key_of(
                    trim_spaces(second_segment(split_at_plus(shortcut_str@)->Some_0.1)),
                ) == Some(b.key)
            },
            Err(m) => {
                ||| (split_at_plus(shortcut_str@) is None && m@
                    == "Invalid shortcut format. Use format like 'Super+Space'"@)
                ||| (split_at_plus(shortcut_str@) is Some && spec_modifier_of(
                    trim_spaces(split_at_plus(shortcut_str@)->Some_0.0),
                ) is None && m@ == "Unknown modifier: "@ + trim_spaces(
                    split_at_plus(shortcut_str@)->Some_0.0,
                ))
                ||| (split_at_plus(shortcut_str@) is Some && spec_modifier_of(
                    trim_spaces(split_at_plus(shortcut_str@)->Some_0.0),
                ) is Some && spec_key_of(
                    trim_spaces(second_segment(split_at_plus(shortcut_str@)->Some_0.1)),
                ) is None && m@ == "Unknown key: "@ + trim_spaces(
                    second_segment(split_at_plus(shortcut_str@)->Some_0.1),
                ))
            },
        },
{
    let parts = match split_at_plus_exec(shortcut_str) {
        Some(p) => p,
        None => {
            return Err(String::from_str("Invalid shortcut format. Use format like 'Super+Space'"));
        },
    };
    let first = parts.0;
    let rest = parts.1;
    let second: String = match split_at_plus_exec(rest.as_str()) {
        Some(p2) => p2.0,
        None => rest,
    };
    let mod_name = trim_back_exec(trim_front_exec(first.as_str()));
    let mods: Modifiers = if crate::text::str_eq(mod_name, "Super") || crate::text::str_eq(
        mod_name,
        "Win",
    ) || crate::text::str_eq(mod_name, "Meta") {
        Modifiers::super_only()
    } else if crate::text::str_eq(mod_name, "Ctrl") || crate::text::str_eq(mod_name, "Control") {
        Modifiers::control_only()
    } else if crate::text::str_eq(mod_name, "Alt") {
        Modifiers::alt_only()
    } else if crate::text::str_eq(mod_name, "Shift") {
        Modifiers { super_key: false, control: false, alt: false, shift: true }
    } else {
        let mut m = String::from_str("Unknown modifier: ");
        m.append(mod_name);
        return Err(m);
    };
    let key_name = trim_back_exec(trim_front_exec(second.as_str()));
    let key: KeyCode = if crate::text::str_eq(key_name, "Space") {
        KeyCode::Space
    } else if crate::text::str_eq(key_name, "Enter") {
        KeyCode::Enter
    } else if crate::text::str_eq(key_name, "Escape") {
        KeyCode::Escape
    } else {
        let mut m = String::from_str("Unknown key: ");
        m.append(key_name);
        return Err(m);
    };
    Ok(ShortcutBinding { mods, key })
}

} // verus!
