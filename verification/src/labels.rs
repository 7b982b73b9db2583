//! The window-label convention: `overlay_monitor_{index}` for per-display
//! overlay windows, the sentinel `main` for the single-window fallback.
//! Labels are the only lookup key that crosses the module boundary.

use vstd::prelude::*;

use crate::text::{
    dec_str, lemma_dec_str_injective, lemma_dec_str_len, starts_with_spec, str_starts_with,
    u64_to_string,
};

verus! {

/// The label of the overlay window for the monitor at `index`.
pub open spec fn spec_monitor_label(index: int) -> Seq<char> {
    "overlay_monitor_"@ + dec_str(index)
}

/// A label that follows the per-monitor naming convention.
pub open spec fn is_monitor_label(l: Seq<char>) -> bool {
    starts_with_spec(l, "overlay_monitor_"@)
}

/// Build the label for the monitor at `index`.
pub fn monitor_label(index: u32) -> (r: String)
    ensures
        r@ == spec_monitor_label(index as int),
        is_monitor_label(r@),
{
    let mut s = String::from_str("overlay_monitor_");
    let digits = u64_to_string(index as u64);
    s.append(digits.as_str());
    proof {
        assert(s@.subrange(0, "overlay_monitor_"@.len() as int) =~= "overlay_monitor_"@);
    }
    s
}

/// Test whether a label names a per-monitor overlay window.
pub fn label_is_monitor(l: &str) -> (r: bool)
    ensures
        r == is_monitor_label(l@),
{
    str_starts_with(l, "overlay_monitor_")
}

/// The label of the single-window fallback surface.
pub fn main_label() -> (r: &'static str)
    ensures
        r@ == "main"@,
{
    "main"
}

/// Distinct monitor indices get distinct labels.
pub proof fn lemma_monitor_label_injective(a: int, b: int)
    requires
        a >= 0,
        b >= 0,
        spec_monitor_label(a) == spec_monitor_label(b),
    ensures
        a == b,
{
    let p = "overlay_monitor_"@;
    let la = spec_monitor_label(a);
    let lb = spec_monitor_label(b);
    lemma_dec_str_len(a);
    lemma_dec_str_len(b);
    assert(la.subrange(p.len() as int, la.len() as int) =~= dec_str(a));
    assert(lb.subrange(p.len() as int, lb.len() as int) =~= dec_str(b));
    lemma_dec_str_injective(a, b);
}

/// The sentinel `main` does not follow the per-monitor convention.
pub proof fn lemma_main_not_monitor_label()
    ensures
        !is_monitor_label("main"@),
{
    reveal_strlit("main");
    reveal_strlit("overlay_monitor_");
}

} // verus!
