//! Sticky remapping of prior translations onto current OCR source text.

use crate::normalize::{normalize_ocr_text, normalized};
use crate::types::{OcrBlock, TranslatedBlock};
use vstd::prelude::*;
use vstd::set_lib::{
    lemma_int_range, lemma_len_subset, lemma_map_size, lemma_map_size_bound, set_int_range,
};

verus! {

/// Position, among the first `n` captions, of the first unused one whose source has normal form
/// `key`.
pub open spec fn first_unused(
    translated: Seq<TranslatedBlock>,
    used: Seq<bool>,
    key: Seq<char>,
    n: int,
) -> Option<int>
    decreases n,
{
    if n <= 0 {
        None
    } else {
        match first_unused(translated, used, key, n - 1) {
            Some(i) => Some(i),
            None => if !used[n - 1] && normalized(translated[n - 1].source@) == key {
                Some(n - 1)
            } else {
                None
            },
        }
    }
}

/// A caption carried over to OCR block number `id`.
pub open spec fn carried(
    caption: TranslatedBlock,
    block: OcrBlock,
    id: int,
    content_resized: bool,
) -> TranslatedBlock {
    TranslatedBlock {
        id: id as u32,
        source: caption.source,
        translation: caption.translation,
        confidence: block.confidence,
        bbox: if content_resized {
            block.bbox
        } else {
            caption.bbox
        },
        source_lines: if caption.source_lines == 0 {
            1
        } else {
            caption.source_lines
        },
    }
}

/// Captions carried over to the first `n` OCR blocks, and which captions that used.
pub open spec fn remapped(
    translated: Seq<TranslatedBlock>,
    ocr: Seq<OcrBlock>,
    content_resized: bool,
    n: int,
) -> (Seq<TranslatedBlock>, Seq<bool>)
    decreases n,
{
    if n <= 0 {
        (Seq::empty(), Seq::new(translated.len(), |i: int| false))
    } else {
        let (out, used) = remapped(translated, ocr, content_resized, n - 1);
        let block = ocr[n - 1];
        let key = normalized(block.text@);
        if key.len() == 0 {
            (out, used)
        } else {
            match first_unused(translated, used, key, translated.len() as int) {
                Some(t) => (
                    out.push(carried(translated[t], block, n - 1, content_resized)),
                    used.update(t, true),
                ),
                None => (out, used),
            }
        }
    }
}

/// The captions that current OCR keeps.
pub open spec fn remap_of(
    translated: Seq<TranslatedBlock>,
    ocr: Seq<OcrBlock>,
    content_resized: bool,
) -> Seq<TranslatedBlock> {
    remapped(translated, ocr, content_resized, ocr.len() as int).0
}

/// Normal forms of the caption sources.
fn source_keys(translated: &Vec<TranslatedBlock>) -> (r: Vec<String>)
    ensures
        r@.len() == translated@.len(),
        forall|i: int|
            0 <= i < r@.len() ==> (#[trigger] r@[i])@ == normalized(translated@[i].source@),
{
    let mut out: Vec<String> = Vec::new();
    let mut i: usize = 0;
    while i < translated.len()
        invariant
            i <= translated@.len(),
            out@.len() == i,
            forall|k: int|
                0 <= k < i ==> (#[trigger] out@[k])@ == normalized(translated@[k].source@),
        decreases translated@.len() - i,
    {
        out.push(normalize_ocr_text(translated[i].source.as_str()));
        i = i + 1;
    }
    out
}

/// Rebuild displayed translations from current OCR.
///
/// A caption is valid only while its normalized source string is still in OCR. Different text is
/// not reused. Same-text remaps keep the previous box so persistence and detector swings cannot
/// walk or re-fit the caption. A capture-surface resize takes the latest OCR box so scale stays
/// correct.
pub fn remap_translations_to_ocr(
    translated: &Vec<TranslatedBlock>,
    ocr: &Vec<OcrBlock>,
    content_resized: bool,
) -> (r: Vec<TranslatedBlock>)
    ensures
        r@ == remap_of(translated@, ocr@, content_resized),
{
    let keys: Vec<String> = source_keys(translated);
    let mut used: Vec<bool> = Vec::new();
    let mut u: usize = 0;
    while u < translated.len()
        invariant
            u <= translated@.len(),
            used@ == Seq::new(u as nat, |i: int| false),
        decreases translated@.len() - u,
    {
        used.push(false);
        u = u + 1;
        assert(used@ =~= Seq::new(u as nat, |i: int| false));
    }
    let mut out: Vec<TranslatedBlock> = Vec::new();
    let mut n: usize = 0;
    while n < ocr.len()
        invariant
            n <= ocr@.len(),
            used@.len() == translated@.len(),
            keys@.len() == translated@.len(),
            forall|i: int|
                0 <= i < keys@.len() ==> (#[trigger] keys@[i])@ == normalized(translated@[i].source@),
            (out@, used@) == remapped(translated@, ocr@, content_resized, n as int),
        decreases ocr@.len() - n,
    {
        let key: String = normalize_ocr_text(ocr[n].text.as_str());
        if !key.as_str().is_empty() {
            let mut hit: Option<usize> = None;
            let mut t: usize = 0;
            while t < translated.len() && hit.is_none()
                invariant
                    t <= translated@.len(),
                    used@.len() == translated@.len(),
                    keys@.len() == translated@.len(),
                    forall|i: int|
                        0 <= i < keys@.len() ==> (#[trigger] keys@[i])@ == normalized(
                            translated@[i].source@,
                        ),
                    match hit {
                        Some(h) => h < translated@.len() && t == h + 1 && first_unused(
                            translated@,
                            used@,
                            key@,
                            t as int,
                        ) == Some(h as int),
                        None => first_unused(translated@, used@, key@, t as int) is None,
                    },
                decreases translated@.len() - t,
            {
                assert(keys@[t as int]@ == normalized(translated@[t as int].source@));
                if !used[t] && keys[t] == key {
                    hit = Some(t);
                }
                t = t + 1;
            }
            proof {
                lemma_first_unused_extends(translated@, used@, key@, t as int);
            }
            match hit {
                Some(h) => {
                    used.set(h, true);
                    let caption: &TranslatedBlock = &translated[h];
                    out.push(
                        TranslatedBlock {
                            id: n as u32,
                            source: caption.source.clone(),
                            translation: caption.translation.clone(),
                            confidence: ocr[n].confidence,
                            bbox: if content_resized {
                                ocr[n].bbox
                            } else {
                                caption.bbox
                            },
                            source_lines: if caption.source_lines == 0 {
                                1
                            } else {
                                caption.source_lines
                            },
                        },
                    );
                },
                None => {},
            }
        }
        n = n + 1;
    }
    out
}

proof fn lemma_first_unused_extends(
    translated: Seq<TranslatedBlock>,
    used: Seq<bool>,
    key: Seq<char>,
    n: int,
)
    requires
        0 <= n <= translated.len(),
    ensures
        first_unused(translated, used, key, n) is Some ==> first_unused(
            translated,
            used,
            key,
            translated.len() as int,
        ) == first_unused(translated, used, key, n),
    decreases translated.len() - n,
{
    if n < translated.len() {
        lemma_first_unused_extends(translated, used, key, n + 1);
    }
}

/// Both captions show the same text in the same box.
pub open spec fn shows_same(a: TranslatedBlock, b: TranslatedBlock) -> bool {
    &&& normalized(a.source@) == normalized(b.source@)
    &&& a.translation@ == b.translation@
    &&& a.bbox.same(b.bbox)
}

/// Each of the first captions of `now` shows what a previous caption of its own showed: caption
/// `k` stands for previous caption `by[k]`, and no two stand for the same one.
pub open spec fn reassigned(
    previous: Seq<TranslatedBlock>,
    now: Seq<TranslatedBlock>,
    by: Seq<int>,
) -> bool {
    &&& by.len() <= now.len()
    &&& forall|k: int|
        0 <= k < by.len() ==> 0 <= #[trigger] by[k] < previous.len() && shows_same(
            previous[by[k]],
            now[k],
        )
    &&& forall|j: int, k: int|
        0 <= j < by.len() && 0 <= k < by.len() && #[trigger] by[j] == #[trigger] by[k] ==> j == k
}

/// The set differs in count, text, or box: its captions cannot be matched one to one with the
/// previous ones, whatever their order.
pub open spec fn geometry_changed(
    previous: Seq<TranslatedBlock>,
    now: Seq<TranslatedBlock>,
) -> bool {
    ||| previous.len() != now.len()
    ||| !(exists|by: Seq<int>| by.len() == now.len() && #[trigger] reassigned(previous, now, by))
}

/// True when the remapped overlay set differs in count, text, or bbox.
///
/// Captions are matched by what they show, not by position: OCR reorder must not force a repaint.
/// Each previous caption answers for one caption only.
pub fn translated_geometry_changed(
    previous: &Vec<TranslatedBlock>,
    remapped: &Vec<TranslatedBlock>,
) -> (r: bool)
    ensures
        r == geometry_changed(previous@, remapped@),
{
    if previous.len() != remapped.len() {
        return true;
    }
    let keys: Vec<String> = source_keys(previous);
    let mut used: Vec<bool> = Vec::new();
    let mut u: usize = 0;
    while u < previous.len()
        invariant
            u <= previous@.len(),
            used@ == Seq::new(u as nat, |i: int| false),
        decreases previous@.len() - u,
    {
        used.push(false);
        u = u + 1;
        assert(used@ =~= Seq::new(u as nat, |i: int| false));
    }
    let ghost mut by: Seq<int> = Seq::empty();
    let mut i: usize = 0;
    while i < remapped.len()
        invariant
            i <= remapped@.len(),
            previous@.len() == remapped@.len(),
            keys@.len() == previous@.len(),
            used@.len() == previous@.len(),
            forall|k: int|
                0 <= k < keys@.len() ==> (#[trigger] keys@[k])@ == normalized(previous@[k].source@),
            by.len() == i,
            reassigned(previous@, remapped@, by),
            forall|p: int| 0 <= p < used@.len() ==> #[trigger] used@[p] == by.contains(p),
        decreases remapped@.len() - i,
    {
        let b: &TranslatedBlock = &remapped[i];
        let key: String = normalize_ocr_text(b.source.as_str());
        let mut found: Option<usize> = None;
        let mut p: usize = 0;
        while p < previous.len() && found.is_none()
            invariant
                p <= previous@.len(),
                keys@.len() == previous@.len(),
                used@.len() == previous@.len(),
                key@ == normalized(b.source@),
                forall|k: int|
                    0 <= k < keys@.len() ==> (#[trigger] keys@[k])@ == normalized(
                        previous@[k].source@,
                    ),
                match found {
                    Some(f) => f < previous@.len() && !used@[f as int] && shows_same(
                        previous@[f as int],
                        *b,
                    ),
                    None => forall|q: int|
                        0 <= q < p && !used@[q] ==> !shows_same(#[trigger] previous@[q], *b),
                },
            decreases previous@.len() - p,
        {
            assert(keys@[p as int]@ == normalized(previous@[p as int].source@));
            if !used[p] && keys[p] == key && previous[p].translation == b.translation
                && previous[p].bbox.same_box(b.bbox) {
                found = Some(p);
            }
            p = p + 1;
        }
        match found {
            Some(f) => {
                let ghost before = by;
                used.set(f, true);
                proof {
                    assert(!before.contains(f as int));
                    by = before.push(f as int);
                    lemma_one_more_reassigned(previous@, remapped@, before, f as int);
                }
            },
            None => {
                proof {
                    assert forall|q: int|
                        0 <= q < previous@.len() && shows_same(
                            #[trigger] previous@[q],
                            remapped@[i as int],
                        ) implies by.contains(q) by {
                        assert(used@[q] == by.contains(q));
                    }
                    lemma_not_reassigned(previous@, remapped@, by);
                }
                return true;
            },
        }
        i = i + 1;
    }
    false
}

proof fn lemma_one_more_reassigned(
    previous: Seq<TranslatedBlock>,
    now: Seq<TranslatedBlock>,
    by: Seq<int>,
    p: int,
)
    requires
        reassigned(previous, now, by),
        by.len() < now.len(),
        0 <= p < previous.len(),
        !by.contains(p),
        shows_same(previous[p], now[by.len() as int]),
    ensures
        reassigned(previous, now, by.push(p)),
        forall|q: int| #[trigger] by.push(p).contains(q) == (by.contains(q) || q == p),
{
    let after = by.push(p);
    assert forall|k: int| 0 <= k < after.len() implies 0 <= #[trigger] after[k] < previous.len()
        && shows_same(previous[after[k]], now[k]) by {
        if k < by.len() {
            assert(after[k] == by[k]);
        }
    }
    assert forall|j: int, k: int|
        0 <= j < after.len() && 0 <= k < after.len() && #[trigger] after[j] == #[trigger] after[k]
        implies j == k by {
        if j < by.len() {
            assert(after[j] == by[j]);
            assert(by.contains(by[j]));
        }
        if k < by.len() {
            assert(after[k] == by[k]);
            assert(by.contains(by[k]));
        }
    }
    assert forall|q: int| #[trigger] after.contains(q) == (by.contains(q) || q == p) by {
        if by.contains(q) {
            let j = choose|j: int| 0 <= j < by.len() && by[j] == q;
            assert(after[j] == q);
        }
        if q == p {
            assert(after[by.len() as int] == q);
        }
        if after.contains(q) {
            let j = choose|j: int| 0 <= j < after.len() && after[j] == q;
            if j < by.len() {
                assert(by[j] == q);
            }
        }
    }
}

/// Captions that show the same are interchangeable, so where every previous caption that shows
/// what the next one shows is taken, no other choice would have left one for it.
proof fn lemma_not_reassigned(
    previous: Seq<TranslatedBlock>,
    now: Seq<TranslatedBlock>,
    by: Seq<int>,
)
    requires
        reassigned(previous, now, by),
        by.len() < now.len(),
        forall|q: int|
            0 <= q < previous.len() && shows_same(#[trigger] previous[q], now[by.len() as int])
                ==> by.contains(q),
    ensures
        !(exists|all: Seq<int>|
            all.len() == now.len() && #[trigger] reassigned(previous, now, all)),
{
    if exists|all: Seq<int>| all.len() == now.len() && #[trigger] reassigned(previous, now, all) {
        let all = choose|all: Seq<int>|
            all.len() == now.len() && #[trigger] reassigned(previous, now, all);
        let next = now[by.len() as int];
        // Captions, up to the next one, that show what the next one shows.
        let alike = Set::new(
            |k: int| 0 <= k <= by.len() && shows_same(previous[all[k]], next),
        );
        // Those before it, and the previous captions that show the same.
        let earlier = Set::new(
            |k: int| 0 <= k < by.len() && shows_same(previous[by[k]], next),
        );
        let class = Set::new(|q: int| 0 <= q < previous.len() && shows_same(previous[q], next));
        let range = set_int_range(0, by.len() as int + 1);
        lemma_int_range(0, by.len() as int + 1);
        assert(alike.subset_of(range));
        lemma_len_subset(alike, range);
        assert(earlier.subset_of(range));
        lemma_len_subset(earlier, range);
        let taken = earlier.map(|k: int| by[k]);
        lemma_map_size_bound(earlier, taken, |k: int| by[k]);
        assert forall|q: int| class.contains(q) implies taken.contains(q) by {
            assert(shows_same(previous[q], next));
            let k = choose|k: int| 0 <= k < by.len() && by[k] == q;
            assert(earlier.contains(k));
            assert((|k: int| by[k])(k) == q);
        }
        lemma_len_subset(class, taken);
        let answered = alike.map(|k: int| all[k]);
        assert(vstd::relations::injective_on(|k: int| all[k], alike)) by {
            assert forall|j: int, k: int|
                alike.contains(j) && alike.contains(k) && all[j] == all[k] implies j == k by {}
        }
        lemma_map_size(alike, answered, |k: int| all[k]);
        assert(answered.subset_of(class)) by {
            assert forall|q: int| answered.contains(q) implies class.contains(q) by {
                let k = choose|k: int| alike.contains(k) && (|k: int| all[k])(k) == q;
                assert(all[k] == q);
            }
        }
        lemma_len_subset(answered, class);
        assert(alike.contains(by.len() as int)) by {
            assert(shows_same(previous[all[by.len() as int]], next));
        }
        assert forall|k: int| earlier.contains(k) implies alike.remove(by.len() as int).contains(
            k,
        ) by {
            assert(shows_same(previous[by[k]], now[k]));
            assert(shows_same(previous[all[k]], now[k]));
        }
        assert(earlier.subset_of(alike.remove(by.len() as int)));
        lemma_len_subset(earlier, alike.remove(by.len() as int));
        assert(false);
    }
}

proof fn lemma_first_unused(
    translated: Seq<TranslatedBlock>,
    used: Seq<bool>,
    key: Seq<char>,
    n: int,
)
    ensures
        first_unused(translated, used, key, n) matches Some(t) ==> 0 <= t < n && !used[t]
            && normalized(translated[t].source@) == key,
        first_unused(translated, used, key, n) is None ==> forall|t: int|
            0 <= t < n && !used[t] ==> normalized(#[trigger] translated[t].source@) != key,
    decreases n,
{
    if n > 0 {
        lemma_first_unused(translated, used, key, n - 1);
    }
}

/// Number of captions that were used.
pub open spec fn used_count(used: Seq<bool>) -> nat
    decreases used.len(),
{
    if used.len() == 0 {
        0
    } else {
        used_count(used.drop_last()) + if used.last() {
            1nat
        } else {
            0nat
        }
    }
}

proof fn lemma_use_one(used: Seq<bool>, t: int)
    requires
        0 <= t < used.len(),
        !used[t],
    ensures
        used_count(used.update(t, true)) == used_count(used) + 1,
    decreases used.len(),
{
    let after = used.update(t, true);
    if t == used.len() - 1 {
        assert(after.drop_last() =~= used.drop_last());
    } else {
        assert(after.drop_last() =~= used.drop_last().update(t, true));
        lemma_use_one(used.drop_last(), t);
    }
}

proof fn lemma_used_bound(used: Seq<bool>)
    ensures
        used_count(used) <= used.len(),
    decreases used.len(),
{
    if used.len() > 0 {
        lemma_used_bound(used.drop_last());
    }
}

proof fn lemma_unused_count(n: nat)
    ensures
        used_count(Seq::new(n, |i: int| false)) == 0,
    decreases n,
{
    let s = Seq::new(n, |i: int| false);
    if n > 0 {
        assert(s.drop_last() =~= Seq::new((n - 1) as nat, |i: int| false));
        lemma_unused_count((n - 1) as nat);
    }
}

/// Every caption is carried over at most once: there are as many captions as used ones, and
/// never more than there were.
pub proof fn law_remap_uses_each_caption_once(
    translated: Seq<TranslatedBlock>,
    ocr: Seq<OcrBlock>,
    content_resized: bool,
    n: int,
)
    requires
        0 <= n <= ocr.len(),
    ensures
        ({
            let (out, used) = remapped(translated, ocr, content_resized, n);
            &&& used.len() == translated.len()
            &&& out.len() == used_count(used)
            &&& out.len() <= translated.len()
            &&& out.len() <= n
        }),
    decreases n,
{
    if n == 0 {
        lemma_unused_count(translated.len());
    } else {
        law_remap_uses_each_caption_once(translated, ocr, content_resized, n - 1);
        let (out, used) = remapped(translated, ocr, content_resized, n - 1);
        let key = normalized(ocr[n - 1].text@);
        lemma_first_unused(translated, used, key, translated.len() as int);
        if key.len() > 0 {
            match first_unused(translated, used, key, translated.len() as int) {
                Some(t) => {
                    lemma_use_one(used, t);
                },
                None => {},
            }
        }
        lemma_used_bound(remapped(translated, ocr, content_resized, n).1);
    }
}

/// A carried caption shows a translation of exactly the text that OCR reads now: it belongs to a
/// prior caption with the same normal form, keeps that caption's box unless the surface was
/// resized, and then takes the OCR box.
pub proof fn law_remap_keeps_matching_captions_only(
    translated: Seq<TranslatedBlock>,
    ocr: Seq<OcrBlock>,
    content_resized: bool,
    n: int,
    k: int,
)
    requires
        0 <= n <= ocr.len(),
        0 <= k < remapped(translated, ocr, content_resized, n).0.len(),
    ensures
        exists|t: int, b: int|
            #![trigger translated[t], ocr[b]]
            {
                &&& 0 <= t < translated.len()
                &&& 0 <= b < n
                &&& normalized(translated[t].source@) == normalized(ocr[b].text@)
                &&& remapped(translated, ocr, content_resized, n).0[k] == carried(
                    translated[t],
                    ocr[b],
                    b,
                    content_resized,
                )
            },
    decreases n,
{
    let (out, used) = remapped(translated, ocr, content_resized, n - 1);
    let key = normalized(ocr[n - 1].text@);
    if k < out.len() {
        law_remap_keeps_matching_captions_only(translated, ocr, content_resized, n - 1, k);
        let (t, b) = choose|t: int, b: int|
            #![trigger translated[t], ocr[b]]
            {
                &&& 0 <= t < translated.len()
                &&& 0 <= b < n - 1
                &&& normalized(translated[t].source@) == normalized(ocr[b].text@)
                &&& out[k] == carried(translated[t], ocr[b], b, content_resized)
            };
        assert(remapped(translated, ocr, content_resized, n).0[k] == out[k]);
        assert(0 <= b < n);
    } else {
        lemma_first_unused(translated, used, key, translated.len() as int);
        let t = first_unused(translated, used, key, translated.len() as int)->0;
        assert(normalized(translated[t].source@) == normalized(ocr[n - 1].text@));
    }
}

/// Text that is on no caption gets none: nothing is shown for an OCR page whose texts all
/// differ from the caption sources.
pub proof fn law_other_text_drops_captions(
    translated: Seq<TranslatedBlock>,
    ocr: Seq<OcrBlock>,
    content_resized: bool,
    n: int,
)
    requires
        0 <= n <= ocr.len(),
        forall|t: int, b: int|
            #![trigger translated[t], ocr[b]]
            0 <= t < translated.len() && 0 <= b < ocr.len() ==> normalized(translated[t].source@)
                != normalized(ocr[b].text@),
    ensures
        remapped(translated, ocr, content_resized, n).0.len() == 0,
    decreases n,
{
    if n > 0 {
        law_other_text_drops_captions(translated, ocr, content_resized, n - 1);
        let (out, used) = remapped(translated, ocr, content_resized, n - 1);
        let key = normalized(ocr[n - 1].text@);
        lemma_first_unused(translated, used, key, translated.len() as int);
        if key.len() > 0 && first_unused(translated, used, key, translated.len() as int) is Some {
            let t = first_unused(translated, used, key, translated.len() as int)->0;
            assert(normalized(translated[t].source@) != normalized(ocr[n - 1].text@));
        }
    }
}

/// As long as every caption is found again, nothing is repainted: captions in boxes that are
/// numbers keep their geometry.
pub proof fn law_found_captions_are_not_repainted(
    translated: Seq<TranslatedBlock>,
    ocr: Seq<OcrBlock>,
)
    requires
        remap_of(translated, ocr, false).len() == translated.len(),
        forall|t: int| 0 <= t < translated.len() ==> (#[trigger] translated[t]).bbox.same(
            translated[t].bbox,
        ),
    ensures
        !geometry_changed(translated, remap_of(translated, ocr, false)),
{
    let by = lemma_remapped_from(translated, ocr, ocr.len() as int);
    assert(reassigned(translated, remap_of(translated, ocr, false), by));
}

/// The previous captions that the remapped ones were carried over from, all different.
proof fn lemma_remapped_from(
    translated: Seq<TranslatedBlock>,
    ocr: Seq<OcrBlock>,
    n: int,
) -> (by: Seq<int>)
    requires
        0 <= n <= ocr.len(),
        forall|t: int| 0 <= t < translated.len() ==> (#[trigger] translated[t]).bbox.same(
            translated[t].bbox,
        ),
    ensures
        ({
            let (out, used) = remapped(translated, ocr, false, n);
            &&& used.len() == translated.len()
            &&& by.len() == out.len()
            &&& reassigned(translated, out, by)
            &&& forall|q: int| 0 <= q < used.len() ==> #[trigger] used[q] == by.contains(q)
        }),
    decreases n,
{
    if n == 0 {
        Seq::empty()
    } else {
        let before = lemma_remapped_from(translated, ocr, n - 1);
        let (out, used) = remapped(translated, ocr, false, n - 1);
        let key = normalized(ocr[n - 1].text@);
        let hit = first_unused(translated, used, key, translated.len() as int);
        lemma_first_unused(translated, used, key, translated.len() as int);
        if key.len() > 0 && hit is Some {
            let t = hit->0;
            let after = remapped(translated, ocr, false, n).0;
            assert(translated[t].bbox.same(translated[t].bbox));
            assert(used[t] == before.contains(t));
            assert(reassigned(translated, after, before));
            lemma_one_more_reassigned(translated, after, before, t);
            before.push(t)
        } else {
            before
        }
    }
}

/// A set is no change to itself, in any order of its captions, where its boxes are numbers.
pub proof fn law_reordered_captions_are_not_repainted(
    previous: Seq<TranslatedBlock>,
    now: Seq<TranslatedBlock>,
    by: Seq<int>,
)
    requires
        by.len() == now.len(),
        now.len() == previous.len(),
        forall|k: int| 0 <= k < by.len() ==> 0 <= #[trigger] by[k] < previous.len(),
        forall|j: int, k: int|
            0 <= j < by.len() && 0 <= k < by.len() && #[trigger] by[j] == #[trigger] by[k] ==> j
                == k,
        forall|k: int| 0 <= k < by.len() ==> #[trigger] now[k] == previous[by[k]],
        forall|t: int| 0 <= t < previous.len() ==> (#[trigger] previous[t]).bbox.same(
            previous[t].bbox,
        ),
    ensures
        !geometry_changed(previous, now),
{
    assert forall|k: int| 0 <= k < by.len() implies 0 <= #[trigger] by[k] < previous.len()
        && shows_same(previous[by[k]], now[k]) by {
        assert(now[k] == previous[by[k]]);
    }
    assert(reassigned(previous, now, by));
}

proof fn lemma_used_by_same_key(
    translated: Seq<TranslatedBlock>,
    ocr: Seq<OcrBlock>,
    resized: bool,
    n: int,
    t: int,
)
    requires
        0 <= n <= ocr.len(),
        0 <= t < translated.len(),
        remapped(translated, ocr, resized, n).1[t],
    ensures
        exists|b: int|
            0 <= b < n && normalized((#[trigger] ocr[b]).text@) == normalized(
                translated[t].source@,
            ),
    decreases n,
{
    if n > 0 {
        let (out, used) = remapped(translated, ocr, resized, n - 1);
        law_remap_uses_each_caption_once(translated, ocr, resized, n - 1);
        let key = normalized(ocr[n - 1].text@);
        lemma_first_unused(translated, used, key, translated.len() as int);
        if used[t] {
            lemma_used_by_same_key(translated, ocr, resized, n - 1, t);
        } else {
            assert(normalized(ocr[n - 1].text@) == normalized(translated[t].source@));
        }
    }
}

proof fn lemma_remapped_prefix(
    translated: Seq<TranslatedBlock>,
    ocr: Seq<OcrBlock>,
    resized: bool,
    m: int,
    n: int,
)
    requires
        0 <= m <= n <= ocr.len(),
    ensures
        remapped(translated, ocr, resized, m).0.len() <= remapped(
            translated,
            ocr,
            resized,
            n,
        ).0.len(),
        forall|k: int|
            0 <= k < remapped(translated, ocr, resized, m).0.len() ==> #[trigger] remapped(
                translated,
                ocr,
                resized,
                n,
            ).0[k] == remapped(translated, ocr, resized, m).0[k],
    decreases n,
{
    if m < n {
        lemma_remapped_prefix(translated, ocr, resized, m, n - 1);
    }
}

/// Text that is still read keeps its caption: the first block with a text gets the first caption
/// of that text, with its translation; the box is the caption's own, or the block's on a surface
/// of another size.
pub proof fn law_text_still_read_keeps_its_caption(
    translated: Seq<TranslatedBlock>,
    ocr: Seq<OcrBlock>,
    resized: bool,
    b: int,
    t: int,
)
    requires
        0 <= b < ocr.len(),
        0 <= t < translated.len(),
        normalized(ocr[b].text@).len() > 0,
        normalized(ocr[b].text@) == normalized(translated[t].source@),
        forall|i: int|
            0 <= i < b ==> normalized((#[trigger] ocr[i]).text@) != normalized(ocr[b].text@),
        forall|i: int|
            0 <= i < t ==> normalized((#[trigger] translated[i]).source@) != normalized(
                ocr[b].text@,
            ),
    ensures
        exists|k: int|
            #![trigger remap_of(translated, ocr, resized)[k]]
            0 <= k < remap_of(translated, ocr, resized).len() && ({
                let c = remap_of(translated, ocr, resized)[k];
                &&& c.id == b as u32
                &&& c.source == translated[t].source
                &&& c.translation == translated[t].translation
                &&& c.confidence == ocr[b].confidence
                &&& resized ==> c.bbox == ocr[b].bbox
                &&& !resized ==> c.bbox == translated[t].bbox
                &&& translated[t].source_lines > 0 ==> c.source_lines
                    == translated[t].source_lines
                &&& translated[t].source_lines == 0 ==> c.source_lines == 1
            }),
{
    let (out, used) = remapped(translated, ocr, resized, b);
    law_remap_uses_each_caption_once(translated, ocr, resized, b);
    let key = normalized(ocr[b].text@);
    if used[t] {
        lemma_used_by_same_key(translated, ocr, resized, b, t);
    }
    lemma_first_unused_is(translated, used, key, t, translated.len() as int);
    let next = remapped(translated, ocr, resized, b + 1).0;
    assert(next == out.push(carried(translated[t], ocr[b], b, resized)));
    lemma_remapped_prefix(translated, ocr, resized, b + 1, ocr.len() as int);
    let k = out.len() as int;
    assert(remap_of(translated, ocr, resized)[k] == next[k]);
}

proof fn lemma_first_unused_is(
    translated: Seq<TranslatedBlock>,
    used: Seq<bool>,
    key: Seq<char>,
    t: int,
    n: int,
)
    requires
        0 <= t < n <= translated.len(),
        used.len() == translated.len(),
        !used[t],
        normalized(translated[t].source@) == key,
        forall|i: int| 0 <= i < t ==> normalized((#[trigger] translated[i]).source@) != key,
    ensures
        first_unused(translated, used, key, n) == Some(t),
    decreases n,
{
    if n > t + 1 {
        lemma_first_unused_is(translated, used, key, t, n - 1);
    } else {
        lemma_first_unused(translated, used, key, t);
        if first_unused(translated, used, key, t) is Some {
            let i = first_unused(translated, used, key, t)->0;
            assert(normalized(translated[i].source@) != key);
        }
    }
}

/// Captions come in the order of the blocks that show their text, each for another block.
pub proof fn law_captions_follow_the_reading(
    translated: Seq<TranslatedBlock>,
    ocr: Seq<OcrBlock>,
    resized: bool,
    n: int,
)
    requires
        0 <= n <= ocr.len(),
        ocr.len() <= u32::MAX,
    ensures
        ({
            let out = remapped(translated, ocr, resized, n).0;
            &&& forall|i: int| 0 <= i < out.len() ==> (#[trigger] out[i]).id < n
            &&& forall|i: int, j: int|
                0 <= i < j < out.len() ==> (#[trigger] out[i]).id < (#[trigger] out[j]).id
        }),
    decreases n,
{
    if n > 0 {
        law_captions_follow_the_reading(translated, ocr, resized, n - 1);
        let before = remapped(translated, ocr, resized, n - 1).0;
        let out = remapped(translated, ocr, resized, n).0;
        assert(before.len() <= out.len() <= before.len() + 1);
        assert forall|i: int| 0 <= i < out.len() implies (#[trigger] out[i]).id < n && (i
            < before.len() ==> out[i] == before[i]) && (i == before.len() ==> out[i].id == n - 1) by {
            if i < before.len() {
                assert(before[i].id < n - 1);
            }
        }
    }
}

/// A set is repainted where a caption moved, changed its translation or its text, or one more or
/// less is shown.
pub proof fn law_changed_caption_is_repainted(
    previous: Seq<TranslatedBlock>,
    now: Seq<TranslatedBlock>,
    k: int,
)
    requires
        0 <= k < now.len(),
        forall|t: int|
            0 <= t < previous.len() ==> normalized((#[trigger] previous[t]).source@) != normalized(
                now[k].source@,
            ) || previous[t].translation@ != now[k].translation@ || previous[t].bbox.x.rank()
                != now[k].bbox.x.rank() || previous[t].bbox.y.rank() != now[k].bbox.y.rank()
                || previous[t].bbox.width.rank() != now[k].bbox.width.rank()
                || previous[t].bbox.height.rank() != now[k].bbox.height.rank(),
    ensures
        geometry_changed(previous, now),
        previous.len() != now.len() ==> geometry_changed(previous, now),
{
    if !geometry_changed(previous, now) {
        let by = choose|by: Seq<int>|
            by.len() == now.len() && #[trigger] reassigned(previous, now, by);
        assert(0 <= by[k] < previous.len());
        assert(shows_same(previous[by[k]], now[k]));
    }
}

} // verus!
