//! Normal form of OCR text, used as the key wherever two readings are compared.

use crate::text::{chars_of, is_space, is_whitespace, string_between};
use vstd::prelude::*;

verus! {

/// Whitespace runs collapsed to one space, none at the ends.
pub open spec fn collapse(s: Seq<char>) -> Seq<char>
    decreases s.len(),
{
    if s.len() == 0 {
        s
    } else {
        let before = collapse(s.drop_last());
        if is_space(s.last()) {
            before
        } else if before.len() > 0 && is_space(s[s.len() - 2]) {
            before.push(' ').push(s.last())
        } else {
            before.push(s.last())
        }
    }
}

/// Characters that stand for an ellipsis on their own.
pub open spec fn is_ellipsis(c: char) -> bool {
    c == '…' || c == '⋯' || c == '‥' || c == '︙'
}

/// Characters that make an ellipsis when repeated.
pub open spec fn is_unit(c: char) -> bool {
    is_ellipsis(c) || c == '.' || c == '．' || c == '。' || c == '・' || c == '･' || c == '·'
}

/// Fullwidth question and exclamation marks as their ASCII forms.
pub open spec fn narrow(c: char) -> char {
    if c == '？' {
        '?'
    } else if c == '！' {
        '!'
    } else {
        c
    }
}

/// Length of the run of units that `s` begins with.
pub open spec fn unit_run(s: Seq<char>) -> nat
    decreases s.len(),
{
    if s.len() > 0 && is_unit(s[0]) {
        1 + unit_run(s.skip(1))
    } else {
        0
    }
}

/// Every run that reads as an ellipsis becomes one `…`; other characters are narrowed.
pub open spec fn fold_marks(s: Seq<char>) -> Seq<char>
    decreases s.len(),
{
    if s.len() == 0 {
        s
    } else if is_unit(s[0]) && (is_ellipsis(s[0]) || unit_run(s) >= 2) {
        proof {
            lemma_unit_run_bound(s);
        }
        seq!['…'] + fold_marks(s.skip(unit_run(s) as int))
    } else {
        seq![narrow(s[0])] + fold_marks(s.skip(1))
    }
}

/// `s` without the `…` and whitespace characters it ends with.
pub open spec fn strip_tail(s: Seq<char>) -> Seq<char>
    decreases s.len(),
{
    if s.len() > 0 && (s.last() == '…' || is_space(s.last())) {
        strip_tail(s.drop_last())
    } else {
        s
    }
}

/// `s` without a trailing ellipsis; where nothing else remains, one ellipsis is kept.
pub open spec fn settle_tail(s: Seq<char>) -> Seq<char> {
    if strip_tail(s).len() == 0 && s.contains('…') {
        seq!['…']
    } else {
        strip_tail(s)
    }
}

/// The normal form of an OCR reading.
pub open spec fn normalized(s: Seq<char>) -> Seq<char> {
    settle_tail(fold_marks(collapse(s)))
}

/// A run of units is no longer than the text, and a text that begins with a unit begins with a
/// run.
pub proof fn lemma_unit_run_bound(s: Seq<char>)
    ensures
        unit_run(s) <= s.len(),
        s.len() > 0 && is_unit(s[0]) ==> unit_run(s) >= 1,
    decreases s.len(),
{
    if s.len() > 0 && is_unit(s[0]) {
        lemma_unit_run_bound(s.skip(1));
    }
}

/// `s` with whitespace runs collapsed to one space and none at the ends.
pub fn normalize_match_text(s: &str) -> (r: String)
    ensures
        r@ == collapse(s@),
{
    let out: Vec<char> = collapse_chars(&chars_of(s));
    string_between(&out, 0, out.len())
}

fn collapse_chars(chars: &Vec<char>) -> (out: Vec<char>)
    ensures
        out@ == collapse(chars@),
{
    let mut out: Vec<char> = Vec::new();
    let mut i: usize = 0;
    assert(chars@.take(0) =~= Seq::<char>::empty());
    while i < chars.len()
        invariant
            i <= chars@.len(),
            out@ == collapse(chars@.take(i as int)),
        decreases chars@.len() - i,
    {
        let c: char = chars[i];
        assert(chars@.take(i + 1).drop_last() =~= chars@.take(i as int));
        if !is_whitespace(c) {
            if out.len() > 0 && i > 0 && is_whitespace(chars[i - 1]) {
                out.push(' ');
            }
            out.push(c);
        }
        proof {
            if i == 0 {
                assert(collapse(chars@.take(0)).len() == 0);
            }
        }
        i = i + 1;
    }
    assert(chars@.take(chars@.len() as int) =~= chars@);
    out
}

fn ellipsis_char(c: char) -> (r: bool)
    ensures
        r == is_ellipsis(c),
{
    c == '…' || c == '⋯' || c == '‥' || c == '︙'
}

fn unit_char(c: char) -> (r: bool)
    ensures
        r == is_unit(c),
{
    ellipsis_char(c) || c == '.' || c == '．' || c == '。' || c == '・' || c == '･' || c == '·'
}

fn narrow_char(c: char) -> (r: char)
    ensures
        r == narrow(c),
{
    if c == '？' {
        '?'
    } else if c == '！' {
        '!'
    } else {
        c
    }
}

fn unit_run_len(chars: &Vec<char>, from: usize) -> (r: usize)
    requires
        from <= chars@.len(),
    ensures
        r == unit_run(chars@.skip(from as int)),
        from + r <= chars@.len(),
{
    let mut j: usize = from;
    while j < chars.len() && unit_char(chars[j])
        invariant
            from <= j <= chars@.len(),
            unit_run(chars@.skip(from as int)) == (j - from) + unit_run(chars@.skip(j as int)),
        decreases chars@.len() - j,
    {
        assert(chars@.skip(j as int).skip(1) =~= chars@.skip(j + 1));
        j = j + 1;
    }
    j - from
}

fn fold_chars(chars: &Vec<char>) -> (out: Vec<char>)
    ensures
        out@ == fold_marks(chars@),
{
    let mut out: Vec<char> = Vec::new();
    let mut i: usize = 0;
    assert(chars@.skip(0) =~= chars@);
    assert(out@ + fold_marks(chars@) =~= fold_marks(chars@));
    while i < chars.len()
        invariant
            i <= chars@.len(),
            out@ + fold_marks(chars@.skip(i as int)) == fold_marks(chars@),
        decreases chars@.len() - i,
    {
        let ghost rest = chars@.skip(i as int);
        let ghost before = out@;
        let c: char = chars[i];
        let run: usize = unit_run_len(chars, i);
        proof {
            lemma_unit_run_bound(rest);
        }
        if unit_char(c) && (ellipsis_char(c) || run >= 2) {
            out.push('…');
            assert(rest.skip(run as int) =~= chars@.skip(i + run));
            assert(out@ + fold_marks(chars@.skip(i + run)) =~= before + fold_marks(rest));
            i = i + run;
        } else {
            out.push(narrow_char(c));
            assert(rest.skip(1) =~= chars@.skip(i + 1));
            assert(out@ + fold_marks(chars@.skip(i + 1)) =~= before + fold_marks(rest));
            i = i + 1;
        }
    }
    assert(chars@.skip(i as int) =~= Seq::<char>::empty());
    assert(out@ + fold_marks(chars@.skip(i as int)) =~= out@);
    out
}

/// Collapse whitespace and punctuation flicker so OCR matching stays stable.
///
/// - Fullwidth `？` / `！` fold to ASCII `?` / `!`.
/// - Ellipsis-length thrash (`…` / `……` / `...` / `・・・`) collapses to one `…`.
/// - A trailing collapsed `…` is dropped unless the whole line is only `…`.
pub fn normalize_ocr_text(s: &str) -> (r: String)
    ensures
        r@ == normalized(s@),
{
    let out: Vec<char> = fold_chars(&collapse_chars(&chars_of(s)));
    proof {
        lemma_folded_start(s@);
        lemma_strip_tail(out@);
    }
    let mut end: usize = out.len();
    assert(out@.take(end as int) =~= out@);
    while end > 0 && (out[end - 1] == '…' || is_whitespace(out[end - 1]))
        invariant
            end <= out@.len(),
            strip_tail(out@.take(end as int)) == strip_tail(out@),
        decreases end,
    {
        assert(out@.take(end as int).drop_last() =~= out@.take(end - 1));
        end = end - 1;
    }
    assert(strip_tail(out@) == out@.take(end as int));
    if end == 0 && out.len() > 0 {
        // Nothing but marks: one of them is kept.
        assert(out@[0] == '…');
        assert(out@.contains('…'));
        end = 1;
        assert(out@.subrange(0, 1) =~= seq!['…']);
    } else {
        assert(out@.subrange(0, end as int) =~= out@.take(end as int));
    }
    string_between(&out, 0, end)
}

/// Every whitespace character is a lone space that another character follows.
spec fn spaced_ahead(s: Seq<char>) -> bool {
    forall|i: int|
        0 <= i < s.len() && is_space(#[trigger] s[i]) ==> s[i] == ' ' && i + 1 < s.len()
            && !is_space(s[i + 1])
}

/// Every whitespace character is a lone space that follows another character.
spec fn spaced_behind(s: Seq<char>) -> bool {
    forall|i: int|
        0 <= i < s.len() && is_space(#[trigger] s[i]) ==> s[i] == ' ' && i > 0 && !is_space(
            s[i - 1],
        )
}

/// Nothing left to fold: narrow marks, and no unit beside another.
spec fn settled(s: Seq<char>) -> bool {
    forall|i: int|
        0 <= i < s.len() ==> {
            &&& narrow(#[trigger] s[i]) == s[i]
            &&& is_ellipsis(s[i]) ==> s[i] == '…'
            &&& is_unit(s[i]) && i + 1 < s.len() ==> !is_unit(s[i + 1])
        }
}

proof fn lemma_collapse_shape(s: Seq<char>)
    ensures
        spaced_ahead(collapse(s)),
        spaced_behind(collapse(s)),
        collapse(s).len() > 0 ==> !is_space(collapse(s).last()),
        s.len() > 0 && !is_space(s.last()) ==> collapse(s).len() > 0 && collapse(s).last()
            == s.last(),
    decreases s.len(),
{
    if s.len() > 0 {
        lemma_collapse_shape(s.drop_last());
    }
}

proof fn lemma_collapse_fixed(s: Seq<char>)
    requires
        spaced_behind(s),
    ensures
        collapse(s) == if s.len() > 0 && is_space(s.last()) {
            s.drop_last()
        } else {
            s
        },
    decreases s.len(),
{
    if s.len() > 0 {
        let before = s.drop_last();
        assert(spaced_behind(before)) by {
            assert forall|i: int| 0 <= i < before.len() && is_space(#[trigger] before[i]) implies
                before[i] == ' ' && i > 0 && !is_space(before[i - 1]) by {
                assert(before[i] == s[i]);
            }
        }
        lemma_collapse_fixed(before);
        if is_space(s.last()) {
            assert(s[s.len() - 1] == s.last());
            assert(before.last() == s[s.len() - 2]);
            assert(collapse(s) =~= s.drop_last());
        } else if before.len() > 0 && is_space(before.last()) {
            assert(before.last() == s[s.len() - 2]);
            assert(s[s.len() - 2] == ' ');
            assert(before.drop_last().len() > 0);
            assert(collapse(s) =~= s);
        } else {
            if before.len() > 0 {
                assert(before.last() == s[s.len() - 2]);
            }
            assert(collapse(s) =~= s);
        }
    }
}

proof fn lemma_run_ends(s: Seq<char>)
    ensures
        unit_run(s) < s.len() ==> !is_unit(s[unit_run(s) as int]),
        forall|i: int| 0 <= i < unit_run(s) ==> is_unit(#[trigger] s[i]),
    decreases s.len(),
{
    lemma_unit_run_bound(s);
    if s.len() > 0 && is_unit(s[0]) {
        lemma_run_ends(s.skip(1));
        assert forall|i: int| 0 <= i < unit_run(s) implies is_unit(#[trigger] s[i]) by {
            if i > 0 {
                assert(s[i] == s.skip(1)[i - 1]);
            }
        }
    }
}

proof fn lemma_fold_shape(s: Seq<char>)
    requires
        spaced_ahead(s),
    ensures
        spaced_ahead(fold_marks(s)),
        settled(fold_marks(s)),
        s.len() > 0 ==> fold_marks(s).len() > 0 && is_space(fold_marks(s)[0]) == is_space(s[0])
            && is_unit(fold_marks(s)[0]) == is_unit(s[0]),
    decreases s.len(),
{
    if s.len() > 0 {
        lemma_unit_run_bound(s);
        lemma_run_ends(s);
        let n: int = if is_unit(s[0]) && (is_ellipsis(s[0]) || unit_run(s) >= 2) {
            unit_run(s) as int
        } else {
            1
        };
        let rest = s.skip(n);
        assert(spaced_ahead(rest)) by {
            assert forall|i: int| 0 <= i < rest.len() && is_space(#[trigger] rest[i]) implies
                rest[i] == ' ' && i + 1 < rest.len() && !is_space(rest[i + 1]) by {
                assert(rest[i] == s[i + n]);
            }
        }
        lemma_fold_shape(rest);
        let out = fold_marks(s);
        let tail = fold_marks(rest);
        assert(out.len() == 1 + tail.len());
        assert(forall|i: int| 0 <= i < tail.len() ==> out[i + 1] == tail[i]);
        assert forall|i: int| 0 <= i < out.len() && is_space(#[trigger] out[i]) implies out[i]
            == ' ' && i + 1 < out.len() && !is_space(out[i + 1]) by {
            if i > 0 {
                assert(out[i] == tail[i - 1]);
            } else {
                assert(is_space(s[0]));
                assert(!is_space(s[1]));
            }
        }
        if n == 1 && is_unit(s[0]) && rest.len() > 0 {
            assert(rest.len() + 1 == s.len());
            if unit_run(s) == 1 {
                assert(!is_unit(s[1]));
            }
        }
        assert forall|i: int| 0 <= i < out.len() implies {
            &&& narrow(#[trigger] out[i]) == out[i]
            &&& is_ellipsis(out[i]) ==> out[i] == '…'
            &&& is_unit(out[i]) && i + 1 < out.len() ==> !is_unit(out[i + 1])
        } by {
            if i > 0 {
                assert(out[i] == tail[i - 1]);
            } else if is_unit(s[0]) && out.len() > 1 {
                assert(rest.len() > 0);
                assert(rest[0] == s[n]);
                assert(!is_unit(s[n]));
                assert(out[1] == tail[0]);
            }
        }
    }
}

proof fn lemma_fold_fixed(s: Seq<char>)
    requires
        settled(s),
    ensures
        fold_marks(s) == s,
    decreases s.len(),
{
    if s.len() > 0 {
        let rest = s.skip(1);
        assert(settled(rest)) by {
            assert forall|i: int| 0 <= i < rest.len() implies {
                &&& narrow(#[trigger] rest[i]) == rest[i]
                &&& is_ellipsis(rest[i]) ==> rest[i] == '…'
                &&& is_unit(rest[i]) && i + 1 < rest.len() ==> !is_unit(rest[i + 1])
            } by {
                assert(rest[i] == s[i + 1]);
            }
        }
        lemma_fold_fixed(rest);
        lemma_unit_run_bound(s);
        lemma_run_ends(s);
        assert(narrow(s[0]) == s[0]);
        if is_unit(s[0]) {
            if unit_run(s) >= 2 {
                assert(is_unit(s[1]));
            }
            assert(unit_run(s) == 1);
        }
        assert(fold_marks(s) =~= s);
    }
}

/// A folded text does not begin with whitespace.
proof fn lemma_folded_start(s: Seq<char>)
    ensures
        fold_marks(collapse(s)).len() > 0 ==> !is_space(fold_marks(collapse(s))[0]),
{
    lemma_collapse_shape(s);
    lemma_fold_shape(collapse(s));
}

/// What remains is a beginning of the text, and only marks and whitespace are gone.
proof fn lemma_strip_tail(s: Seq<char>)
    ensures
        strip_tail(s).len() <= s.len(),
        strip_tail(s) == s.take(strip_tail(s).len() as int),
        strip_tail(s).len() > 0 ==> strip_tail(s).last() != '…' && !is_space(strip_tail(s).last()),
        forall|i: int|
            strip_tail(s).len() <= i < s.len() ==> #[trigger] s[i] == '…' || is_space(s[i]),
    decreases s.len(),
{
    if s.len() > 0 && (s.last() == '…' || is_space(s.last())) {
        lemma_strip_tail(s.drop_last());
        assert(strip_tail(s) =~= s.take(strip_tail(s).len() as int));
        assert forall|i: int| strip_tail(s).len() <= i < s.len() implies #[trigger] s[i] == '…'
            || is_space(s[i]) by {
            if i < s.len() - 1 {
                assert(s.drop_last()[i] == s[i]);
            }
        }
    } else {
        assert(s =~= s.take(s.len() as int));
    }
}

/// A settled tail is a beginning of the text that ends in no whitespace, and settling it again
/// changes nothing.
proof fn lemma_settle_tail(s: Seq<char>)
    requires
        s.len() > 0 ==> !is_space(s[0]),
    ensures
        settle_tail(s).len() <= s.len(),
        settle_tail(s) == s.take(settle_tail(s).len() as int),
        settle_tail(s).len() > 0 ==> !is_space(settle_tail(s).last()),
        settle_tail(s) == seq!['…'] || settle_tail(s).len() == 0 || settle_tail(s).last() != '…',
        settle_tail(settle_tail(s)) == settle_tail(s),
{
    lemma_strip_tail(s);
    let r = settle_tail(s);
    if strip_tail(s).len() == 0 && s.contains('…') {
        assert(s[0] == '…');
        assert(r =~= s.take(1));
        assert(r.drop_last() =~= Seq::<char>::empty());
        assert(strip_tail(r) == strip_tail(r.drop_last()));
        assert(strip_tail(r.drop_last()) == r.drop_last());
        assert(r[0] == '…');
        assert(r.contains('…'));
    } else if r.len() == 0 {
        assert(!r.contains('…'));
        assert(strip_tail(r) == r);
    } else {
        assert(strip_tail(r) == r);
    }
}

/// A normal form ends in no ellipsis, unless it is only one, and normalizing it again changes
/// nothing.
pub proof fn law_normalize_idempotent(s: Seq<char>)
    ensures
        normalized(normalized(s)) == normalized(s),
        normalized(s) == seq!['…'] || normalized(s).len() == 0 || normalized(s).last() != '…',
{
    let t = collapse(s);
    let f = fold_marks(t);
    let r = normalized(s);
    lemma_collapse_shape(s);
    lemma_fold_shape(t);
    lemma_folded_start(s);
    lemma_settle_tail(f);
    assert(spaced_behind(r)) by {
        assert forall|i: int| 0 <= i < r.len() && is_space(#[trigger] r[i]) implies r[i] == ' '
            && i > 0 && !is_space(r[i - 1]) by {
            assert(r[i] == f[i]);
            if is_space(f[i - 1]) && i > 0 {
                assert(!is_space(f[i - 1 + 1]));
            }
        }
    }
    assert(settled(r)) by {
        assert forall|i: int| 0 <= i < r.len() implies {
            &&& narrow(#[trigger] r[i]) == r[i]
            &&& is_ellipsis(r[i]) ==> r[i] == '…'
            &&& is_unit(r[i]) && i + 1 < r.len() ==> !is_unit(r[i + 1])
        } by {
            assert(r[i] == f[i]);
            if i + 1 < r.len() {
                assert(r[i + 1] == f[i + 1]);
            }
        }
    }
    lemma_collapse_fixed(r);
    assert(collapse(r) == r);
    lemma_fold_fixed(r);
}

/// Fullwidth and ASCII question and exclamation marks have the same normal form.
pub proof fn law_normalize_ignores_mark_width(s: Seq<char>)
    ensures
        normalized(s.map_values(|c: char| narrow(c))) == normalized(s),
{
    lemma_collapse_narrow(s);
    lemma_fold_narrow(collapse(s));
}

proof fn lemma_collapse_narrow(s: Seq<char>)
    ensures
        collapse(s.map_values(|c: char| narrow(c))) == collapse(s).map_values(
            |c: char| narrow(c),
        ),
    decreases s.len(),
{
    let n = |c: char| narrow(c);
    let m = s.map_values(n);
    if s.len() > 0 {
        lemma_collapse_narrow(s.drop_last());
        assert(m.drop_last() =~= s.drop_last().map_values(n));
        assert(m.last() == narrow(s.last()));
        if s.len() > 1 {
            assert(m[m.len() - 2] == narrow(s[s.len() - 2]));
        } else {
            assert(collapse(s.drop_last()).len() == 0);
        }
        assert(collapse(m) =~= collapse(s).map_values(n));
    } else {
        assert(m =~= s);
        assert(collapse(s).map_values(n) =~= s);
    }
}

proof fn lemma_run_narrow(s: Seq<char>)
    ensures
        unit_run(s.map_values(|c: char| narrow(c))) == unit_run(s),
    decreases s.len(),
{
    let n = |c: char| narrow(c);
    if s.len() > 0 && is_unit(s[0]) {
        lemma_run_narrow(s.skip(1));
        assert(s.map_values(n).skip(1) =~= s.skip(1).map_values(n));
    }
}

proof fn lemma_fold_narrow(s: Seq<char>)
    ensures
        fold_marks(s.map_values(|c: char| narrow(c))) == fold_marks(s),
    decreases s.len(),
{
    let n = |c: char| narrow(c);
    let m = s.map_values(n);
    if s.len() > 0 {
        lemma_run_narrow(s);
        lemma_unit_run_bound(s);
        if is_unit(s[0]) && (is_ellipsis(s[0]) || unit_run(s) >= 2) {
            let k = unit_run(s) as int;
            lemma_fold_narrow(s.skip(k));
            assert(m.skip(k) =~= s.skip(k).map_values(n));
        } else {
            lemma_fold_narrow(s.skip(1));
            assert(m.skip(1) =~= s.skip(1).map_values(n));
        }
        assert(fold_marks(m) =~= fold_marks(s));
    } else {
        assert(m =~= s);
    }
}

/// A trailing ellipsis, of whatever length and spelling, does not change the normal form of a
/// text that ends in another character.
pub proof fn law_normalize_ignores_trailing_ellipsis(s: Seq<char>, tail: Seq<char>)
    requires
        s.len() > 0,
        !is_space(s.last()),
        !is_unit(s.last()),
        tail.len() > 0,
        forall|i: int| 0 <= i < tail.len() ==> is_unit(#[trigger] tail[i]),
        is_ellipsis(tail[0]) || tail.len() >= 2,
    ensures
        normalized(s + tail) == normalized(s),
{
    let a = collapse(s);
    lemma_collapse_shape(s);
    lemma_collapse_append_units(s, tail);
    lemma_fold_append_units(a, tail);
    lemma_fold_last(a);
    let f = fold_marks(a);
    let g = f + seq!['…'];
    assert(g.drop_last() =~= f);
    assert(g.last() == '…');
    assert(strip_tail(g) == strip_tail(f));
    assert(narrow(a.last()) == f.last());
    assert(strip_tail(f) == f);
}

proof fn lemma_collapse_append_units(s: Seq<char>, tail: Seq<char>)
    requires
        s.len() > 0,
        !is_space(s.last()),
        forall|i: int| 0 <= i < tail.len() ==> is_unit(#[trigger] tail[i]),
    ensures
        collapse(s + tail) == collapse(s) + tail,
    decreases tail.len(),
{
    if tail.len() == 0 {
        assert(s + tail =~= s);
        assert(collapse(s) + tail =~= collapse(s));
    } else {
        let all = s + tail;
        assert(all.drop_last() =~= s + tail.drop_last());
        lemma_collapse_append_units(s, tail.drop_last());
        assert(is_unit(tail[tail.len() - 1]));
        assert(all.last() == tail.last());
        if tail.len() >= 2 {
            assert(is_unit(tail[tail.len() - 2]));
            assert(all[all.len() - 2] == tail[tail.len() - 2]);
        } else {
            assert(all[all.len() - 2] == s.last());
        }
        assert(collapse(all) =~= collapse(s) + tail);
    }
}

proof fn lemma_run_append(a: Seq<char>, b: Seq<char>)
    requires
        a.len() > 0,
        !is_unit(a.last()),
    ensures
        unit_run(a + b) == unit_run(a),
        unit_run(a) < a.len(),
    decreases a.len(),
{
    if is_unit(a[0]) {
        assert(a.len() > 1);
        assert((a + b).skip(1) =~= a.skip(1) + b);
        lemma_run_append(a.skip(1), b);
    }
}

proof fn lemma_run_all(tail: Seq<char>)
    requires
        forall|i: int| 0 <= i < tail.len() ==> is_unit(#[trigger] tail[i]),
    ensures
        unit_run(tail) == tail.len(),
    decreases tail.len(),
{
    if tail.len() > 0 {
        assert forall|i: int| 0 <= i < tail.skip(1).len() implies is_unit(
            #[trigger] tail.skip(1)[i],
        ) by {
            assert(tail.skip(1)[i] == tail[i + 1]);
        }
        assert(is_unit(tail[0]));
        lemma_run_all(tail.skip(1));
    }
}

proof fn lemma_fold_append_units(a: Seq<char>, tail: Seq<char>)
    requires
        a.len() > 0 ==> !is_unit(a.last()),
        tail.len() > 0,
        forall|i: int| 0 <= i < tail.len() ==> is_unit(#[trigger] tail[i]),
        is_ellipsis(tail[0]) || tail.len() >= 2,
    ensures
        fold_marks(a + tail) == fold_marks(a) + seq!['…'],
    decreases a.len(),
{
    let all = a + tail;
    if a.len() == 0 {
        assert(all =~= tail);
        lemma_run_all(tail);
        assert(is_unit(tail[0]));
        let none = tail.skip(tail.len() as int);
        assert(none.len() == 0);
        assert(fold_marks(none).len() == 0);
        assert(fold_marks(tail) == seq!['…'] + fold_marks(none));
        assert(fold_marks(a).len() == 0);
        assert(fold_marks(tail) =~= fold_marks(a) + seq!['…']);
    } else {
        lemma_run_append(a, tail);
        lemma_unit_run_bound(a);
        let n: int = if is_unit(a[0]) && (is_ellipsis(a[0]) || unit_run(a) >= 2) {
            unit_run(a) as int
        } else {
            1
        };
        assert(all.skip(n) =~= a.skip(n) + tail);
        if a.skip(n).len() > 0 {
            assert(a.skip(n).last() == a.last());
        }
        lemma_fold_append_units(a.skip(n), tail);
        assert(all[0] == a[0]);
        let head = if is_unit(a[0]) && (is_ellipsis(a[0]) || unit_run(a) >= 2) {
            '…'
        } else {
            narrow(a[0])
        };
        assert(fold_marks(a) == seq![head] + fold_marks(a.skip(n)));
        assert(fold_marks(all) == seq![head] + fold_marks(all.skip(n)));
        assert(fold_marks(all) =~= fold_marks(a) + seq!['…']);
    }
}

proof fn lemma_fold_last(a: Seq<char>)
    requires
        a.len() > 0,
        !is_unit(a.last()),
    ensures
        fold_marks(a).len() > 0,
        fold_marks(a).last() == narrow(a.last()),
        !is_unit(fold_marks(a).last()),
    decreases a.len(),
{
    lemma_run_append(a, Seq::empty());
    lemma_unit_run_bound(a);
    let n: int = if is_unit(a[0]) && (is_ellipsis(a[0]) || unit_run(a) >= 2) {
        unit_run(a) as int
    } else {
        1
    };
    let head = if is_unit(a[0]) && (is_ellipsis(a[0]) || unit_run(a) >= 2) {
        '…'
    } else {
        narrow(a[0])
    };
    assert(fold_marks(a) == seq![head] + fold_marks(a.skip(n)));
    if n < a.len() {
        let rest = a.skip(n);
        assert(rest.last() == a.last());
        lemma_fold_last(rest);
        assert(fold_marks(a).last() == fold_marks(rest).last());
    } else {
        assert(n == 1 && a.len() == 1);
        assert(a.skip(1) =~= Seq::<char>::empty());
        assert(fold_marks(a) =~= seq![narrow(a[0])]);
    }
}

/// A character that normal forms keep as it is: no whitespace, no dot and no wide mark.
pub open spec fn plain(c: char) -> bool {
    !is_space(c) && c != '…' && c != '⋯' && c != '‥' && c != '︙' && c != '.' && c != '．' && c
        != '。' && c != '・' && c != '･' && c != '·' && c != '？' && c != '！'
}

/// Nothing but plain characters.
pub open spec fn all_plain(s: Seq<char>) -> bool {
    forall|i: int| 0 <= i < s.len() ==> plain(#[trigger] s[i])
}

/// A dot or a mark that stands for several.
pub open spec fn dotted(c: char) -> bool {
    c == '…' || c == '⋯' || c == '‥' || c == '︙' || c == '.' || c == '．' || c == '。' || c
        == '・' || c == '･' || c == '·'
}

proof fn lemma_collapse_without_spaces(s: Seq<char>)
    requires
        forall|i: int| 0 <= i < s.len() ==> !is_space(#[trigger] s[i]),
    ensures
        collapse(s) == s,
    decreases s.len(),
{
    if s.len() > 0 {
        assert forall|i: int| 0 <= i < s.drop_last().len() implies !is_space(
            #[trigger] s.drop_last()[i],
        ) by {
            assert(!is_space(s[i]));
        }
        lemma_collapse_without_spaces(s.drop_last());
        assert(!is_space(s[s.len() - 1]));
        if s.len() >= 2 {
            assert(!is_space(s[s.len() - 2]));
        }
        assert(s.drop_last().push(s.last()) =~= s);
    }
}

proof fn lemma_fold_plain(a: Seq<char>, t: Seq<char>)
    requires
        all_plain(a),
    ensures
        fold_marks(a + t) == a + fold_marks(t),
    decreases a.len(),
{
    if a.len() == 0 {
        assert(a + t =~= t);
        assert(a + fold_marks(t) =~= fold_marks(t));
    } else {
        let rest = a.skip(1);
        assert forall|i: int| 0 <= i < rest.len() implies plain(#[trigger] rest[i]) by {
            assert(plain(a[i + 1]));
        }
        lemma_fold_plain(rest, t);
        assert(plain(a[0]));
        assert((a + t)[0] == a[0]);
        assert((a + t).skip(1) =~= rest + t);
        assert(narrow(a[0]) == a[0]);
        assert(seq![a[0]] + (rest + fold_marks(t)) =~= a + fold_marks(t));
    }
}

proof fn lemma_fold_all_plain(a: Seq<char>)
    requires
        all_plain(a),
    ensures
        fold_marks(a) == a,
{
    lemma_fold_plain(a, Seq::empty());
    assert(a + Seq::<char>::empty() =~= a);
}

proof fn lemma_unit_run_of_dots(u: Seq<char>, b: Seq<char>)
    requires
        forall|i: int| 0 <= i < u.len() ==> dotted(#[trigger] u[i]),
        b.len() > 0 ==> plain(b[0]),
    ensures
        unit_run(u + b) == u.len(),
    decreases u.len(),
{
    if u.len() == 0 {
        assert(u + b =~= b);
    } else {
        assert((u + b)[0] == u[0]);
        assert(dotted(u[0]));
        assert((u + b).skip(1) =~= u.skip(1) + b);
        assert forall|i: int| 0 <= i < u.skip(1).len() implies dotted(#[trigger] u.skip(1)[i]) by {
            assert(dotted(u[i + 1]));
        }
        lemma_unit_run_of_dots(u.skip(1), b);
    }
}

/// Plain text is its own normal form, so that different plain texts are never taken for each
/// other.
pub proof fn law_plain_text_is_kept(s: Seq<char>)
    requires
        all_plain(s),
    ensures
        normalized(s) == s,
{
    assert forall|i: int| 0 <= i < s.len() implies !is_space(#[trigger] s[i]) by {
        assert(plain(s[i]));
    }
    lemma_collapse_without_spaces(s);
    lemma_fold_all_plain(s);
    if s.len() > 0 {
        assert(plain(s[s.len() - 1]));
    }
    if s.contains('…') {
        let i = choose|i: int| 0 <= i < s.len() && s[i] == '…';
        assert(plain(s[i]));
    }
}

/// Between two words any row of dots, or a mark that stands for one, is one ellipsis; a lone dot
/// is kept.
pub proof fn law_dots_within_text_are_one_ellipsis(a: Seq<char>, u: Seq<char>, b: Seq<char>)
    requires
        all_plain(a),
        all_plain(b),
        b.len() > 0,
        u.len() > 0,
        forall|i: int| 0 <= i < u.len() ==> dotted(#[trigger] u[i]),
    ensures
        u.len() >= 2 || u[0] == '…' || u[0] == '⋯' || u[0] == '‥' || u[0] == '︙' ==> normalized(
            a + u + b,
        ) == a + seq!['…'] + b,
        u.len() == 1 && u[0] != '…' && u[0] != '⋯' && u[0] != '‥' && u[0] != '︙' ==> normalized(
            a + u + b,
        ) == a + u + b,
{
    let s = a + u + b;
    assert forall|i: int| 0 <= i < s.len() implies !is_space(#[trigger] s[i]) by {
        if i < a.len() {
            assert(plain(a[i]));
        } else if i < a.len() + u.len() {
            assert(dotted(u[i - a.len()]));
        } else {
            assert(plain(b[i - a.len() - u.len()]));
        }
    }
    lemma_collapse_without_spaces(s);
    assert(s =~= a + (u + b));
    lemma_fold_plain(a, u + b);
    assert(plain(b[0]));
    lemma_unit_run_of_dots(u, b);
    lemma_fold_all_plain(b);
    assert((u + b)[0] == u[0]);
    assert(dotted(u[0]));
    assert((u + b).skip(u.len() as int) =~= b);
    let folded = fold_marks(s);
    assert(plain(b[b.len() - 1]));
    if u.len() >= 2 || is_ellipsis(u[0]) {
        assert(folded =~= a + seq!['…'] + b);
        assert(folded.last() == b.last());
        assert(strip_tail(folded) == folded);
    } else {
        assert(narrow(u[0]) == u[0]);
        assert(folded =~= a + u + b);
        assert(folded.last() == b.last());
        assert(strip_tail(folded) == folded);
    }
}

/// Question and exclamation marks of either width are the same, wherever they stand in plain
/// text.
pub proof fn law_marks_of_either_width_are_the_same(a: Seq<char>, b: Seq<char>)
    requires
        all_plain(a),
        all_plain(b),
    ensures
        normalized(a + seq!['？'] + b) == a + seq!['?'] + b,
        normalized(a + seq!['！'] + b) == a + seq!['!'] + b,
        normalized(a + seq!['?'] + b) == a + seq!['?'] + b,
        normalized(a + seq!['!'] + b) == a + seq!['!'] + b,
{
    lemma_mark_in_text(a, '？', '?', b);
    lemma_mark_in_text(a, '！', '!', b);
    lemma_mark_in_text(a, '?', '?', b);
    lemma_mark_in_text(a, '!', '!', b);
}

proof fn lemma_mark_in_text(a: Seq<char>, mark: char, narrowed: char, b: Seq<char>)
    requires
        all_plain(a),
        all_plain(b),
        narrow(mark) == narrowed,
        !is_space(mark),
        !is_unit(mark),
        plain(narrowed),
    ensures
        normalized(a + seq![mark] + b) == a + seq![narrowed] + b,
{
    let s = a + seq![mark] + b;
    assert forall|i: int| 0 <= i < s.len() implies !is_space(#[trigger] s[i]) by {
        if i < a.len() {
            assert(plain(a[i]));
        } else if i > a.len() {
            assert(plain(b[i - a.len() - 1]));
        }
    }
    lemma_collapse_without_spaces(s);
    let t = seq![mark] + b;
    assert(s =~= a + t);
    lemma_fold_plain(a, t);
    lemma_fold_all_plain(b);
    assert(t.skip(1) =~= b);
    assert(t[0] == mark);
    let folded = a + seq![narrowed] + b;
    assert(fold_marks(t) == seq![narrowed] + b);
    assert(fold_marks(s) =~= folded);
    assert forall|i: int| 0 <= i < folded.len() implies plain(#[trigger] folded[i]) by {
        if i < a.len() {
            assert(plain(a[i]));
        } else if i > a.len() {
            assert(plain(b[i - a.len() - 1]));
        }
    }
    assert(plain(folded[folded.len() - 1]));
    assert(strip_tail(folded) == folded);
}

/// Whitespace between two words, however much, is one space; words that touch stay together;
/// whitespace around the text is gone.
pub proof fn law_whitespace_between_words_is_one_space(
    a: Seq<char>,
    gap: Seq<char>,
    b: Seq<char>,
)
    requires
        a.len() > 0,
        b.len() > 0,
        forall|i: int| 0 <= i < a.len() ==> !is_space(#[trigger] a[i]),
        forall|i: int| 0 <= i < b.len() ==> !is_space(#[trigger] b[i]),
        forall|i: int| 0 <= i < gap.len() ==> is_space(#[trigger] gap[i]),
    ensures
        gap.len() > 0 ==> collapse(a + gap + b) == a + seq![' '] + b,
        gap.len() == 0 ==> collapse(a + gap + b) == a + b,
        collapse(gap + a) == a,
        collapse(a + gap) == a,
    decreases b.len(),
{
    lemma_collapse_without_spaces(a);
    lemma_collapse_trailing(a, gap);
    lemma_collapse_leading(gap, a);
    let s = a + gap + b;
    let c = b.drop_last();
    assert(!is_space(b[b.len() - 1]));
    assert(s.drop_last() =~= a + gap + c);
    assert(s.last() == b.last());
    if c.len() == 0 {
        assert(s.drop_last() =~= a + gap);
        if gap.len() > 0 {
            assert(is_space(gap[gap.len() - 1]));
            assert(s[s.len() - 2] == gap[gap.len() - 1]);
            assert(collapse(s) =~= a + seq![' '] + b);
        } else {
            assert(!is_space(a[a.len() - 1]));
            assert(s[s.len() - 2] == a[a.len() - 1]);
            assert(collapse(s) =~= a + b);
        }
    } else {
        assert forall|i: int| 0 <= i < c.len() implies !is_space(#[trigger] c[i]) by {
            assert(!is_space(b[i]));
        }
        law_whitespace_between_words_is_one_space(a, gap, c);
        assert(!is_space(b[b.len() - 2]));
        assert(s[s.len() - 2] == b[b.len() - 2]);
        if gap.len() > 0 {
            assert(collapse(s) =~= a + seq![' '] + b);
        } else {
            assert(collapse(s) =~= a + b);
        }
    }
}

proof fn lemma_collapse_trailing(a: Seq<char>, gap: Seq<char>)
    requires
        forall|i: int| 0 <= i < gap.len() ==> is_space(#[trigger] gap[i]),
    ensures
        collapse(a + gap) == collapse(a),
    decreases gap.len(),
{
    if gap.len() == 0 {
        assert(a + gap =~= a);
    } else {
        assert((a + gap).drop_last() =~= a + gap.drop_last());
        assert(is_space(gap[gap.len() - 1]));
        assert((a + gap).last() == gap.last());
        lemma_collapse_trailing(a, gap.drop_last());
    }
}

proof fn lemma_collapse_leading(gap: Seq<char>, a: Seq<char>)
    requires
        forall|i: int| 0 <= i < a.len() ==> !is_space(#[trigger] a[i]),
        forall|i: int| 0 <= i < gap.len() ==> is_space(#[trigger] gap[i]),
    ensures
        collapse(gap + a) == a,
    decreases a.len(),
{
    let s = gap + a;
    if a.len() == 0 {
        lemma_collapse_trailing(Seq::empty(), gap);
        assert(Seq::<char>::empty() + gap =~= s);
        assert(a =~= Seq::<char>::empty());
    } else {
        let c = a.drop_last();
        assert forall|i: int| 0 <= i < c.len() implies !is_space(#[trigger] c[i]) by {
            assert(!is_space(a[i]));
        }
        lemma_collapse_leading(gap, c);
        assert(s.drop_last() =~= gap + c);
        assert(!is_space(a[a.len() - 1]));
        assert(s.last() == a.last());
        if c.len() > 0 {
            assert(!is_space(a[a.len() - 2]));
            assert(s[s.len() - 2] == a[a.len() - 2]);
        }
        assert(c.push(a.last()) =~= a);
    }
}

} // verus!
