//! Character-level string utilities: equality, prefix/suffix/substring
//! tests, lexicographic ordering, and decimal rendering of integers.
//!
//! Everything here is verified against `Seq<char>` views; nothing relies on
//! the standard library's comparison or formatting machinery.

use vstd::prelude::*;

verus! {

/// `p` is a prefix of `s`.
pub open spec fn starts_with_spec(s: Seq<char>, p: Seq<char>) -> bool {
    p.len() <= s.len() && s.subrange(0, p.len() as int) == p
}

/// `p` is a suffix of `s`.
pub open spec fn ends_with_spec(s: Seq<char>, p: Seq<char>) -> bool {
    p.len() <= s.len() && s.subrange(s.len() - p.len(), s.len() as int) == p
}

/// `sub` occurs contiguously somewhere in `s`.
pub open spec fn has_substr_spec(s: Seq<char>, sub: Seq<char>) -> bool {
    exists|k: int|
        0 <= k <= s.len() - sub.len() && #[trigger] s.subrange(k, k + sub.len()) == sub
}

/// Character-for-character equality of two string slices.
pub fn str_eq(a: &str, b: &str) -> (r: bool)
    ensures
        r == (a@ == b@),
{
    let alen = a.unicode_len();
    let blen = b.unicode_len();
    if alen != blen {
        return false;
    }
    let mut i: usize = 0;
    while i < alen
        invariant
            0 <= i <= alen,
            alen == a@.len(),
            alen == b@.len(),
            forall|j: int| 0 <= j < i ==> a@[j] == b@[j],
        decreases alen - i,
    {
        if a.get_char(i) != b.get_char(i) {
            return false;
        }
        i = i + 1;
    }
    proof {
        assert(a@ =~= b@);
    }
    true
}

/// Does `s` start with `p`?
pub fn str_starts_with(s: &str, p: &str) -> (r: bool)
    ensures
        r == starts_with_spec(s@, p@),
{
    let slen = s.unicode_len();
    let plen = p.unicode_len();
    if plen > slen {
        return false;
    }
    let mut i: usize = 0;
    while i < plen
        invariant
            0 <= i <= plen,
            plen <= slen,
            slen == s@.len(),
            plen == p@.len(),
            forall|j: int| 0 <= j < i ==> s@[j] == p@[j],
        decreases plen - i,
    {
        if s.get_char(i) != p.get_char(i) {
            proof {
                assert(s@.subrange(0, p@.len() as int)[i as int] != p@[i as int]);
            }
            return false;
        }
        i = i + 1;
    }
    proof {
        assert(s@.subrange(0, p@.len() as int) =~= p@);
    }
    true
}

/// Does `s` end with `p`?
pub fn str_ends_with(s: &str, p: &str) -> (r: bool)
    ensures
        r == ends_with_spec(s@, p@),
{
    let slen = s.unicode_len();
    let plen = p.unicode_len();
    if plen > slen {
        return false;
    }
    let off = slen - plen;
    let mut i: usize = 0;
    while i < plen
        invariant
            0 <= i <= plen,
            plen <= slen,
            off == slen - plen,
            slen == s@.len(),
            plen == p@.len(),
            forall|j: int| 0 <= j < i ==> s@[off + j] == p@[j],
        decreases plen - i,
    {
        if s.get_char(off + i) != p.get_char(i) {
            proof {
                assert(s@.subrange(s@.len() - p@.len(), s@.len() as int)[i as int] != p@[i as int]);
            }
            return false;
        }
        i = i + 1;
    }
    proof {
        assert(s@.subrange(s@.len() - p@.len(), s@.len() as int) =~= p@);
    }
    true
}

/// Does the character `c` occur in `s`?
pub fn str_contains_char(s: &str, c: char) -> (r: bool)
    ensures
        r == s@.contains(c),
{
    let slen = s.unicode_len();
    let mut i: usize = 0;
    while i < slen
        invariant
            0 <= i <= slen,
            slen == s@.len(),
            forall|j: int| 0 <= j < i ==> s@[j] != c,
        decreases slen - i,
    {
        if s.get_char(i) == c {
            return true;
        }
        i = i + 1;
    }
    false
}

/// Does `sub` occur contiguously in `s`?
pub fn str_contains(s: &str, sub: &str) -> (r: bool)
    ensures
        r == has_substr_spec(s@, sub@),
{
    let slen = s.unicode_len();
    let sublen = sub.unicode_len();
    if sublen > slen {
        return false;
    }
    if sublen == 0 {
        proof {
            let sl = sub@.len() as int;
            assert(s@.subrange(0, 0 + sl) =~= sub@);
            assert(has_substr_spec(s@, sub@));
        }
        return true;
    }
    let mut k: usize = 0;
    while k <= slen - sublen
        invariant
            0 <= k <= slen - sublen + 1,
            0 < sublen <= slen,
            slen == s@.len(),
            sublen == sub@.len(),
            forall|k0: int| 0 <= k0 < k ==> #[trigger] s@.subrange(k0, k0 + sub@.len()) != sub@,
        decreases slen - sublen + 1 - k,
    {
        let mut i: usize = 0;
        let mut matched = true;
        while i < sublen
            invariant
                0 <= i <= sublen,
                k + sublen <= slen,
                slen == s@.len(),
                sublen == sub@.len(),
                matched ==> forall|j: int| 0 <= j < i ==> s@[k + j] == sub@[j],
                !matched ==> s@.subrange(k as int, k + sub@.len()) != sub@,
            decreases sublen - i,
        {
            if s.get_char(k + i) != sub.get_char(i) {
                proof {
                    assert(s@.subrange(k as int, k + sub@.len())[i as int] != sub@[i as int]);
                }
                matched = false;
                i = sublen;
            } else {
                i = i + 1;
            }
        }
        if matched {
            proof {
                assert(s@.subrange(k as int, k + sub@.len()) =~= sub@);
            }
            return true;
        }
        k = k + 1;
    }
    false
}

/// Lexicographic `<=` on character sequences, by code point.
pub open spec fn chars_le(a: Seq<char>, b: Seq<char>) -> bool
    decreases a.len(),
{
    if a.len() == 0 {
        true
    } else if b.len() == 0 {
        false
    } else if a[0] != b[0] {
        a[0] < b[0]
    } else {
        chars_le(a.skip(1), b.skip(1))
    }
}

/// Any two sequences are comparable under `chars_le`.
pub proof fn lemma_chars_le_total(a: Seq<char>, b: Seq<char>)
    ensures
        chars_le(a, b) || chars_le(b, a),
    decreases a.len(),
{
    if a.len() == 0 || b.len() == 0 {
    } else if a[0] != b[0] {
    } else {
        lemma_chars_le_total(a.skip(1), b.skip(1));
    }
}

/// `chars_le` is transitive.
pub proof fn lemma_chars_le_trans(a: Seq<char>, b: Seq<char>, c: Seq<char>)
    requires
        chars_le(a, b),
        chars_le(b, c),
    ensures
        chars_le(a, c),
    decreases a.len(),
{
    if a.len() == 0 || b.len() == 0 || c.len() == 0 {
    } else if a[0] == b[0] && b[0] == c[0] {
        lemma_chars_le_trans(a.skip(1), b.skip(1), c.skip(1));
    }
}

/// Mutually `chars_le` sequences are equal.
pub proof fn lemma_chars_le_antisym(a: Seq<char>, b: Seq<char>)
    requires
        chars_le(a, b),
        chars_le(b, a),
    ensures
        a == b,
    decreases a.len(),
{
    if a.len() == 0 {
        assert(b.len() == 0);
        assert(a =~= b);
    } else {
        assert(b.len() > 0);
        assert(a[0] == b[0]);
        lemma_chars_le_antisym(a.skip(1), b.skip(1));
        assert(a.skip(1).len() == b.skip(1).len());
        assert(a.len() == b.len());
        assert forall|i: int| 0 <= i < a.len() implies a[i] == b[i] by {
            if i > 0 {
                assert(a[i] == a.skip(1)[i - 1]);
                assert(b[i] == b.skip(1)[i - 1]);
            }
        }
        assert(a =~= b);
    }
}

/// Lexicographic comparison of two string slices.
pub fn str_le(a: &str, b: &str) -> (r: bool)
    ensures
        r == chars_le(a@, b@),
{
    let alen = a.unicode_len();
    let blen = b.unicode_len();
    proof {
        assert(a@.skip(0) =~= a@);
        assert(b@.skip(0) =~= b@);
    }
    let mut i: usize = 0;
    while i < alen && i < blen
        invariant
            0 <= i <= alen,
            0 <= i <= blen,
            alen == a@.len(),
            blen == b@.len(),
            chars_le(a@, b@) == chars_le(a@.skip(i as int), b@.skip(i as int)),
        decreases alen - i,
    {
        let ca = a.get_char(i);
        let cb = b.get_char(i);
        if ca != cb {
            proof {
                assert(a@.skip(i as int)[0] == ca);
                assert(b@.skip(i as int)[0] == cb);
            }
            return ca < cb;
        }
        proof {
            assert(a@.skip(i as int)[0] == b@.skip(i as int)[0]);
            assert(a@.skip(i as int).skip(1) =~= a@.skip(i + 1));
            assert(b@.skip(i as int).skip(1) =~= b@.skip(i + 1));
        }
        i = i + 1;
    }
    proof {
        if i == alen {
            assert(a@.skip(i as int).len() == 0);
        } else {
            assert(b@.skip(i as int).len() == 0);
            assert(a@.skip(i as int).len() > 0);
        }
    }
    i == alen
}

/// The decimal digit character for `d` (meaningful for `0 <= d < 10`).
pub open spec fn dec_digit(d: int) -> char {
    if d == 0 {
        '0'
    } else if d == 1 {
        '1'
    } else if d == 2 {
        '2'
    } else if d == 3 {
        '3'
    } else if d == 4 {
        '4'
    } else if d == 5 {
        '5'
    } else if d == 6 {
        '6'
    } else if d == 7 {
        '7'
    } else if d == 8 {
        '8'
    } else {
        '9'
    }
}

/// The decimal rendering of a non-negative integer, most significant digit
/// first, with no leading zeros (except for zero itself).
pub open spec fn dec_str(n: int) -> Seq<char>
    decreases n,
{
    if n < 10 {
        seq![dec_digit(n)]
    } else {
        dec_str(n / 10).push(dec_digit(n % 10))
    }
}

/// The decimal rendering of a signed integer: a minus sign before the
/// rendering of the magnitude when negative.
pub open spec fn dec_str_signed(v: int) -> Seq<char> {
    if v >= 0 {
        dec_str(v)
    } else {
        seq!['-'] + dec_str(-v)
    }
}

/// A decimal rendering has at least one digit, and at least two once the
/// value reaches ten.
pub proof fn lemma_dec_str_len(n: int)
    requires
        n >= 0,
    ensures
        dec_str(n).len() >= 1,
        n >= 10 ==> dec_str(n).len() >= 2,
    decreases n,
{
    if n >= 10 {
        lemma_dec_str_len(n / 10);
    }
}

/// Distinct non-negative integers render to distinct digit strings.
pub proof fn lemma_dec_str_injective(a: int, b: int)
    requires
        a >= 0,
        b >= 0,
        dec_str(a) == dec_str(b),
    ensures
        a == b,
    decreases a,
{
    lemma_dec_str_len(a);
    lemma_dec_str_len(b);
    if a < 10 && b < 10 {
        assert(dec_str(a)[0] == dec_digit(a));
        assert(dec_str(b)[0] == dec_digit(b));
        assert(dec_digit(a) == dec_digit(b));
        assert(a == b);
    } else if a < 10 {
        assert(false);
    } else if b < 10 {
        assert(false);
    } else {
        let ra = dec_str(a / 10);
        let rb = dec_str(b / 10);
        assert(dec_str(a).last() == dec_digit(a % 10));
        assert(dec_str(b).last() == dec_digit(b % 10));
        assert(dec_digit(a % 10) == dec_digit(b % 10));
        assert(a % 10 == b % 10);
        assert(ra.push(dec_digit(a % 10)).drop_last() =~= ra);
        assert(rb.push(dec_digit(b % 10)).drop_last() =~= rb);
        assert(ra == rb);
        lemma_dec_str_injective(a / 10, b / 10);
    }
}

/// The one-character string slice for a single decimal digit.
fn digit_str(d: u64) -> (r: &'static str)
    requires
        d < 10,
    ensures
        r@ == seq![dec_digit(d as int)],
{
    proof {
        reveal_strlit("0");
        reveal_strlit("1");
        reveal_strlit("2");
        reveal_strlit("3");
        reveal_strlit("4");
        reveal_strlit("5");
        reveal_strlit("6");
        reveal_strlit("7");
        reveal_strlit("8");
        reveal_strlit("9");
    }
    match d {
        0 => "0",
        1 => "1",
        2 => "2",
        3 => "3",
        4 => "4",
        5 => "5",
        6 => "6",
        7 => "7",
        8 => "8",
        _ => "9",
    }
}

/// Render an unsigned integer in decimal.
pub fn u64_to_string(n: u64) -> (r: String)
    ensures
        r@ == dec_str(n as int),
    decreases n,
{
    if n < 10 {
        String::from_str(digit_str(n))
    } else {
        let mut s = u64_to_string(n / 10);
        s.append(digit_str(n % 10));
        proof {
            assert(dec_str((n / 10) as int) + seq![dec_digit((n % 10) as int)] =~= dec_str(
                (n / 10) as int,
            ).push(dec_digit((n % 10) as int)));
        }
        s
    }
}

/// Render a signed integer in decimal.
pub fn i64_to_string(v: i64) -> (r: String)
    ensures
        r@ == dec_str_signed(v as int),
{
    if v >= 0 {
        u64_to_string(v as u64)
    } else {
        let mag: u64 = ((-(v + 1)) as u64) + 1;
        proof {
            assert(mag == -(v as int));
            reveal_strlit("-");
        }
        let mut s = String::from_str("-");
        let digits = u64_to_string(mag);
        s.append(digits.as_str());
        proof {
            assert(seq!['-'] + dec_str(mag as int) =~= "-"@ + dec_str(mag as int));
        }
        s
    }
}

/// Some string in the list reads `l`.
pub open spec fn str_in(l: Seq<char>, items: Seq<String>) -> bool {
    exists|j: int| 0 <= j < items.len() && (#[trigger] items[j])@ == l
}

/// Strictly ascending under the lexicographic order: sorted, with no
/// duplicates anywhere.
pub open spec fn strictly_sorted(items: Seq<String>) -> bool {
    forall|k: int|
        0 <= k && k + 1 < items.len() ==> chars_le((#[trigger] items[k])@, items[k + 1]@)
            && items[k]@ != items[k + 1]@
}

/// Sort a list of strings lexicographically and drop duplicates: the
/// result is the strictly ascending sequence with exactly the input's
/// members.
pub fn sort_dedup_strings(items: &Vec<String>) -> (r: Vec<String>)
    ensures
        strictly_sorted(r@),
        forall|k: int| 0 <= k < r@.len() ==> str_in((#[trigger] r@[k])@, items@),
        forall|j: int| 0 <= j < items@.len() ==> str_in((#[trigger] items@[j])@, r@),
{
    let mut out: Vec<String> = Vec::new();
    let mut i: usize = 0;
    while i < items.len()
        invariant
            0 <= i <= items@.len(),
            strictly_sorted(out@),
            forall|k: int| 0 <= k < out@.len() ==> str_in((#[trigger] out@[k])@, items@),
            forall|j: int| 0 <= j < i ==> str_in((#[trigger] items@[j])@, out@),
        decreases items@.len() - i,
    {
        let item = &items[i];
        let mut pos: usize = 0;
        while pos < out.len() && !str_le(item.as_str(), out[pos].as_str())
            invariant
                0 <= pos <= out@.len(),
                strictly_sorted(out@),
                forall|k: int| 0 <= k < pos ==> !chars_le(item@, (#[trigger] out@[k])@),
            decreases out@.len() - pos,
        {
            pos = pos + 1;
        }
        let ghost out_pre = out@;
        if pos < out.len() && str_eq(item.as_str(), out[pos].as_str()) {
            // already present: sorting then removing duplicates keeps one
            proof {
                assert(str_in(items@[i as int]@, out@));
            }
        } else {
            let cloned = item.clone();
            out.insert(pos, cloned);
            proof {
                assert(out@ == out_pre.insert(pos as int, cloned));
                assert(out@[pos as int]@ == item@);
                // every earlier element is strictly below the new one, and
                // the element after it (if any) strictly above
                assert forall|k: int|
                    0 <= k && k + 1 < out@.len() implies chars_le(
                    (#[trigger] out@[k])@,
                    out@[k + 1]@,
                ) && out@[k]@ != out@[k + 1]@ by {
                    if k + 1 < pos as int {
                        assert(out@[k] == out_pre[k]);
                        assert(out@[k + 1] == out_pre[k + 1]);
                    } else if k + 1 == pos as int {
                        assert(out@[k] == out_pre[k]);
                        lemma_chars_le_total(item@, out_pre[k]@);
                        if item@ == out_pre[k]@ {
                            lemma_chars_le_total(item@, item@);
                            assert(chars_le(item@, out_pre[k]@));
                        }
                        assert(chars_le(out_pre[k]@, item@));
                        assert(out_pre[k]@ != item@);
                    } else if k == pos as int {
                        if k + 1 < out@.len() {
                            assert(out@[k + 1] == out_pre[k]);
                            if pos < out_pre.len() {
                                assert(chars_le(item@, out_pre[pos as int]@));
                                if item@ == out_pre[pos as int]@ {
                                    assert(false);
                                }
                            }
                        }
                    } else {
                        assert(out@[k] == out_pre[k - 1]);
                        assert(out@[k + 1] == out_pre[k]);
                    }
                }
                assert forall|k: int| 0 <= k < out@.len() implies str_in(
                    (#[trigger] out@[k])@,
                    items@,
                ) by {
                    if k < pos as int {
                        assert(out@[k] == out_pre[k]);
                    } else if k == pos as int {
                        assert(out@[k]@ == items@[i as int]@);
                    } else {
                        assert(out@[k] == out_pre[k - 1]);
                    }
                }
                assert forall|j: int| 0 <= j < i + 1 implies str_in(
                    (#[trigger] items@[j])@,
                    out@,
                ) by {
                    if j < i as int {
                        let k0 = choose|k0: int|
                            0 <= k0 < out_pre.len() && (#[trigger] out_pre[k0])@ == items@[j]@;
                        if k0 < pos as int {
                            assert(out@[k0]@ == items@[j]@);
                        } else {
                            assert(out@[k0 + 1]@ == items@[j]@);
                        }
                    } else {
                        assert(out@[pos as int]@ == items@[j]@);
                    }
                }
            }
        }
        i = i + 1;
    }
    out
}

/// Filtering by a predicate that pushes one element: the element joins
/// the result exactly when it satisfies the predicate.
pub proof fn lemma_filter_push<A>(s: Seq<A>, p: spec_fn(A) -> bool, x: A)
    ensures
        s.push(x).filter(p) == if p(x) {
            s.filter(p).push(x)
        } else {
            s.filter(p)
        },
{
    reveal(Seq::filter);
    let sp = s.push(x);
    assert(sp.len() == s.len() + 1);
    assert(sp.drop_last() =~= s);
    assert(sp.drop_last() == s);
    assert(sp.last() == x);
    assert(sp.filter(p) == if p(sp.last()) {
        sp.drop_last().filter(p).push(sp.last())
    } else {
        sp.drop_last().filter(p)
    });
}

/// A sequence none of whose elements satisfies the predicate filters to
/// nothing.
pub proof fn lemma_filter_none<A>(s: Seq<A>, p: spec_fn(A) -> bool)
    requires
        forall|j: int| 0 <= j < s.len() ==> !p(#[trigger] s[j]),
    ensures
        s.filter(p) == Seq::<A>::empty(),
    decreases s.len(),
{
    reveal(Seq::filter);
    if s.len() == 0 {
        assert(s.filter(p) =~= Seq::<A>::empty());
    } else {
        assert forall|j: int| 0 <= j < s.drop_last().len() implies !p(
            #[trigger] s.drop_last()[j],
        ) by {
            assert(s.drop_last()[j] == s[j]);
        }
        lemma_filter_none(s.drop_last(), p);
        assert(!p(s.last()));
        assert(s.filter(p) == if p(s.last()) {
            s.drop_last().filter(p).push(s.last())
        } else {
            s.drop_last().filter(p)
        });
    }
}

} // verus!
