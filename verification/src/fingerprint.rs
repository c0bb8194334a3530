//! Content fingerprint of an OCR page.

use crate::normalize::{normalize_ocr_text, normalized};
use crate::text::{chars_of, string_of};
use crate::types::OcrBlock;
use std::collections::hash_map::DefaultHasher;
use std::hash::Hasher;
use vstd::prelude::*;
use vstd::relations::*;
use vstd::seq_lib::*;
use vstd::std_specs::hash::*;
use vstd::utf8::*;

verus! {

/// Fingerprint of an OCR page for stability detection.
#[derive(Clone, Copy, Debug, PartialEq, Eq, Hash, Structural)]
pub struct OcrFingerprint(pub u64);

/// Order of texts by their code points, which is also the order of their UTF-8 bytes.
pub open spec fn lex_le(a: Seq<char>, b: Seq<char>) -> bool
    decreases a.len(),
{
    if a.len() == 0 {
        true
    } else if b.len() == 0 {
        false
    } else if a[0] == b[0] {
        lex_le(a.skip(1), b.skip(1))
    } else {
        (a[0] as int) < (b[0] as int)
    }
}

/// Normal forms of the block texts, in block order, without the empty ones.
pub open spec fn page_keys(blocks: Seq<OcrBlock>) -> Seq<Seq<char>>
    decreases blocks.len(),
{
    if blocks.len() == 0 {
        Seq::empty()
    } else {
        let before = page_keys(blocks.drop_last());
        let key = normalized(blocks.last().text@);
        if key.len() == 0 {
            before
        } else {
            before.push(key)
        }
    }
}

/// What is fed to the hasher for `lines`: each line's bytes and an end mark.
pub open spec fn line_writes(lines: Seq<Seq<char>>) -> Seq<Seq<u8>>
    decreases lines.len(),
{
    if lines.len() == 0 {
        Seq::empty()
    } else {
        line_writes(lines.drop_last()).push(encode_utf8(lines.last())).push(seq![0xFFu8])
    }
}

/// `lines` in text order.
pub open spec fn in_text_order(lines: Seq<Seq<char>>) -> Seq<Seq<char>> {
    lines.sort_by(|a: Seq<char>, b: Seq<char>| lex_le(a, b))
}

/// Fingerprint of a page: hash of its sorted keys and their number.
pub open spec fn page_fingerprint(blocks: Seq<OcrBlock>) -> u64 {
    let lines = in_text_order(page_keys(blocks));
    DefaultHasher::spec_finish(
        line_writes(lines).push(vstd::bytes::spec_u64_to_le_bytes(lines.len() as u64)),
    )
}

/// Fingerprint of one text: hash of its normal form.
pub open spec fn text_fingerprint(text: Seq<char>) -> u64 {
    DefaultHasher::spec_finish(line_writes(seq![normalized(text)]))
}

proof fn lemma_lex_refl(a: Seq<char>)
    ensures
        lex_le(a, a),
    decreases a.len(),
{
    if a.len() > 0 {
        lemma_lex_refl(a.skip(1));
    }
}

/// Of two texts one comes first; two that come before each other are the same.
pub proof fn lemma_lex_total(a: Seq<char>, b: Seq<char>)
    ensures
        lex_le(a, b) || lex_le(b, a),
        lex_le(a, b) && lex_le(b, a) ==> a == b,
    decreases a.len(),
{
    if a.len() > 0 && b.len() > 0 && a[0] == b[0] {
        lemma_lex_total(a.skip(1), b.skip(1));
        if lex_le(a, b) && lex_le(b, a) {
            assert(a =~= seq![a[0]] + a.skip(1));
            assert(b =~= seq![b[0]] + b.skip(1));
        }
    } else if a.len() == 0 && b.len() == 0 {
        assert(a =~= b);
    }
}

/// What comes before a text comes before all that follow it.
pub proof fn lemma_lex_trans(a: Seq<char>, b: Seq<char>, c: Seq<char>)
    requires
        lex_le(a, b),
        lex_le(b, c),
    ensures
        lex_le(a, c),
    decreases a.len(),
{
    if a.len() > 0 && b.len() > 0 && c.len() > 0 && a[0] == b[0] && b[0] == c[0] {
        lemma_lex_trans(a.skip(1), b.skip(1), c.skip(1));
    }
}

proof fn lemma_lex_order()
    ensures
        total_ordering(|a: Seq<char>, b: Seq<char>| lex_le(a, b)),
{
    let leq = |a: Seq<char>, b: Seq<char>| lex_le(a, b);
    assert forall|a: Seq<char>| #[trigger] leq(a, a) by {
        lemma_lex_refl(a);
    }
    assert forall|a: Seq<char>, b: Seq<char>| #[trigger] leq(a, b) && #[trigger] leq(b, a) implies a
        == b by {
        lemma_lex_total(a, b);
    }
    assert forall|a: Seq<char>, b: Seq<char>, c: Seq<char>| #[trigger] leq(a, b) && #[trigger] leq(
        b,
        c,
    ) implies leq(a, c) by {
        lemma_lex_trans(a, b, c);
    }
    assert forall|a: Seq<char>, b: Seq<char>| #[trigger] leq(a, b) || #[trigger] leq(b, a) by {
        lemma_lex_total(a, b);
    }
}

/// True when `a` does not come after `b`.
pub fn lex_at_most(a: &Vec<char>, b: &Vec<char>) -> (r: bool)
    ensures
        r == lex_le(a@, b@),
{
    let mut i: usize = 0;
    assert(a@.skip(0) =~= a@);
    assert(b@.skip(0) =~= b@);
    while i < a.len() && i < b.len() && a[i] == b[i]
        invariant
            i <= a@.len(),
            i <= b@.len(),
            lex_le(a@, b@) == lex_le(a@.skip(i as int), b@.skip(i as int)),
        decreases a@.len() - i,
    {
        assert(a@.skip(i as int).skip(1) =~= a@.skip(i + 1));
        assert(b@.skip(i as int).skip(1) =~= b@.skip(i + 1));
        i = i + 1;
    }
    if i >= a.len() {
        true
    } else if i >= b.len() {
        false
    } else {
        below(a[i], b[i])
    }
}

fn below(a: char, b: char) -> (r: bool)
    ensures
        r == ((a as int) < (b as int)),
{
    (a as u32) < (b as u32)
}

spec fn views(lines: Seq<Vec<char>>) -> Seq<Seq<char>> {
    lines.map_values(|v: Vec<char>| v@)
}

/// Insert `line` so that sorted lines stay sorted.
fn insert_sorted(lines: &mut Vec<Vec<char>>, line: Vec<char>)
    requires
        sorted_by(views(old(lines)@), |a: Seq<char>, b: Seq<char>| lex_le(a, b)),
    ensures
        sorted_by(views(final(lines)@), |a: Seq<char>, b: Seq<char>| lex_le(a, b)),
        views(final(lines)@).to_multiset() == views(old(lines)@).to_multiset().insert(line@),
{
    let ghost leq = |a: Seq<char>, b: Seq<char>| lex_le(a, b);
    let ghost before = views(lines@);
    let mut at: usize = 0;
    while at < lines.len() && lex_at_most(&lines[at], &line)
        invariant
            at <= lines@.len(),
            before == views(lines@),
            leq == (|a: Seq<char>, b: Seq<char>| lex_le(a, b)),
            forall|j: int| 0 <= j < at ==> #[trigger] lex_le(before[j], line@),
        decreases lines@.len() - at,
    {
        at = at + 1;
    }
    let ghost x = line@;
    lines.insert(at, line);
    proof {
        let after = views(lines@);
        assert(after =~= before.insert(at as int, x));
        to_multiset_insert(before, at as int, x);
        lemma_lex_order();
        assert forall|i: int, j: int| 0 <= i < j < after.len() implies #[trigger] leq(
            after[i],
            after[j],
        ) by {
            let bi = if i < at {
                i
            } else {
                i - 1
            };
            let bj = if j < at {
                j
            } else {
                j - 1
            };
            if i != at && j != at {
                assert(leq(before[bi], before[bj]));
            } else if j == at {
                assert(lex_le(before[i], x));
            } else {
                // `line` sits at `i`; everything behind it is not below it.
                lemma_lex_total(before[at as int], x);
                assert(lex_le(x, before[at as int]));
                if bj > at {
                    assert(leq(before[at as int], before[bj]));
                    lemma_lex_trans(x, before[at as int], before[bj]);
                }
            }
        }
    }
}

fn sorted_keys(blocks: &Vec<OcrBlock>) -> (r: Vec<Vec<char>>)
    ensures
        views(r@) == in_text_order(page_keys(blocks@)),
{
    let ghost leq = |a: Seq<char>, b: Seq<char>| lex_le(a, b);
    let mut lines: Vec<Vec<char>> = Vec::new();
    let mut i: usize = 0;
    assert(blocks@.take(0) =~= Seq::empty());
    assert(views(lines@) =~= Seq::<Seq<char>>::empty());
    while i < blocks.len()
        invariant
            i <= blocks@.len(),
            leq == (|a: Seq<char>, b: Seq<char>| lex_le(a, b)),
            sorted_by(views(lines@), leq),
            views(lines@).to_multiset() == page_keys(blocks@.take(i as int)).to_multiset(),
        decreases blocks@.len() - i,
    {
        let key: Vec<char> = chars_of(normalize_ocr_text(blocks[i].text.as_str()).as_str());
        assert(blocks@.take(i + 1).drop_last() =~= blocks@.take(i as int));
        if key.len() > 0 {
            let ghost k = key@;
            insert_sorted(&mut lines, key);
            proof {
                to_multiset_build(page_keys(blocks@.take(i as int)), k);
            }
        }
        i = i + 1;
    }
    proof {
        assert(blocks@.take(blocks@.len() as int) =~= blocks@);
        let keys = page_keys(blocks@);
        lemma_lex_order();
        keys.lemma_sort_by_ensures(leq);
        lemma_sorted_unique(views(lines@), keys.sort_by(leq), leq);
        assert(in_text_order(keys) == keys.sort_by(leq));
    }
    lines
}

fn write_line(hasher: &mut DefaultHasher, line: &Vec<char>)
    ensures
        final(hasher)@ == old(hasher)@.push(encode_utf8(line@)).push(seq![0xFFu8]),
{
    let text: String = string_of(line);
    hasher.write(text.as_str().as_bytes());
    let mut mark: Vec<u8> = Vec::new();
    mark.push(0xFF);
    assert(mark@ =~= seq![0xFFu8]);
    hasher.write(mark.as_slice());
}

impl OcrFingerprint {
    /// Content fingerprint for stability: normalized text only, order-independent.
    ///
    /// Boxes are ignored: detector jitter and animated backgrounds shift them every frame even
    /// when the readable text is unchanged.
    pub fn from_blocks(blocks: &Vec<OcrBlock>) -> (r: OcrFingerprint)
        ensures
            r.0 == page_fingerprint(blocks@),
    {
        let lines: Vec<Vec<char>> = sorted_keys(blocks);
        let mut hasher: DefaultHasher = DefaultHasher::new();
        let mut i: usize = 0;
        let ghost all = views(lines@);
        assert(all.take(0) =~= Seq::empty());
        while i < lines.len()
            invariant
                i <= lines@.len(),
                all == views(lines@),
                hasher@ == line_writes(all.take(i as int)),
            decreases lines@.len() - i,
        {
            write_line(&mut hasher, &lines[i]);
            assert(all.take(i + 1).drop_last() =~= all.take(i as int));
            assert(all.take(i + 1).last() == lines@[i as int]@);
            i = i + 1;
        }
        assert(all.take(all.len() as int) =~= all);
        let count: Vec<u8> = vstd::bytes::u64_to_le_bytes(lines.len() as u64);
        hasher.write(count.as_slice());
        OcrFingerprint(hasher.finish())
    }

    /// Fingerprint of one text.
    pub fn from_text(text: &str) -> (r: OcrFingerprint)
        ensures
            r.0 == text_fingerprint(text@),
    {
        let key: Vec<char> = chars_of(normalize_ocr_text(text).as_str());
        let mut hasher: DefaultHasher = DefaultHasher::new();
        write_line(&mut hasher, &key);
        proof {
            let one = seq![normalized(text@)];
            assert(one.drop_last() =~= Seq::<Seq<char>>::empty());
            reveal_with_fuel(line_writes, 2);
            assert(hasher@ =~= line_writes(one));
        }
        OcrFingerprint(hasher.finish())
    }
}

proof fn lemma_page_keys_concat(a: Seq<OcrBlock>, b: Seq<OcrBlock>)
    ensures
        page_keys(a + b) == page_keys(a) + page_keys(b),
    decreases b.len(),
{
    if b.len() == 0 {
        assert(a + b =~= a);
        assert(page_keys(a) + page_keys(b) =~= page_keys(a));
    } else {
        assert((a + b).drop_last() =~= a + b.drop_last());
        lemma_page_keys_concat(a, b.drop_last());
        assert(page_keys(a + b) =~= page_keys(a) + page_keys(b));
    }
}

spec fn key_multiset(block: OcrBlock) -> vstd::multiset::Multiset<Seq<char>> {
    page_keys(seq![block]).to_multiset()
}

proof fn lemma_page_keys_remove(s: Seq<OcrBlock>, j: int)
    requires
        0 <= j < s.len(),
    ensures
        page_keys(s).to_multiset() =~= page_keys(s.remove(j)).to_multiset().add(
            key_multiset(s[j]),
        ),
{
    let a = s.take(j);
    let b = s.skip(j + 1);
    let x = seq![s[j]];
    assert(s =~= a + x + b);
    assert(s.remove(j) =~= a + b);
    lemma_page_keys_concat(a + x, b);
    lemma_page_keys_concat(a, x);
    lemma_page_keys_concat(a, b);
    lemma_multiset_commutative(page_keys(a) + page_keys(x), page_keys(b));
    lemma_multiset_commutative(page_keys(a), page_keys(x));
    lemma_multiset_commutative(page_keys(a), page_keys(b));
}

proof fn lemma_page_keys_of_permutation(a: Seq<OcrBlock>, b: Seq<OcrBlock>)
    requires
        a.to_multiset() == b.to_multiset(),
    ensures
        page_keys(a).to_multiset() =~= page_keys(b).to_multiset(),
    decreases a.len(),
{
    broadcast use vstd::multiset::group_multiset_axioms;
    broadcast use group_to_multiset_ensures;

    assert(a.len() == a.to_multiset().len());
    assert(b.len() == b.to_multiset().len());
    if a.len() == 0 {
        assert(a =~= b);
    } else {
        let i = a.len() - 1;
        let x = a[i];
        assert(a.contains(x));
        assert(a.to_multiset().count(x) > 0);
        assert(b.contains(x));
        let j = choose|j: int| 0 <= j < b.len() && b[j] == x;
        assert(a.remove(i).to_multiset() =~= a.to_multiset().remove(x));
        assert(b.remove(j).to_multiset() =~= b.to_multiset().remove(x));
        lemma_page_keys_of_permutation(a.remove(i), b.remove(j));
        lemma_page_keys_remove(a, i);
        lemma_page_keys_remove(b, j);
    }
}

/// The order in which the blocks of a page are reported does not change its fingerprint.
pub proof fn law_fingerprint_ignores_block_order(a: Seq<OcrBlock>, b: Seq<OcrBlock>)
    requires
        a.to_multiset() == b.to_multiset(),
    ensures
        page_fingerprint(a) == page_fingerprint(b),
{
    let leq = |x: Seq<char>, y: Seq<char>| lex_le(x, y);
    lemma_page_keys_of_permutation(a, b);
    lemma_lex_order();
    page_keys(a).lemma_sort_by_ensures(leq);
    page_keys(b).lemma_sort_by_ensures(leq);
    lemma_sorted_unique(in_text_order(page_keys(a)), in_text_order(page_keys(b)), leq);
}

/// Only the normal forms of the block texts count: boxes, confidences, ids and line counts do
/// not change the fingerprint of a page.
pub proof fn law_fingerprint_reads_text_only(a: Seq<OcrBlock>, b: Seq<OcrBlock>)
    requires
        a.len() == b.len(),
        forall|i: int|
            0 <= i < a.len() ==> normalized(#[trigger] a[i].text@) == normalized(b[i].text@),
    ensures
        page_fingerprint(a) == page_fingerprint(b),
{
    lemma_same_keys(a, b);
}

proof fn lemma_same_keys(a: Seq<OcrBlock>, b: Seq<OcrBlock>)
    requires
        a.len() == b.len(),
        forall|i: int|
            0 <= i < a.len() ==> normalized(#[trigger] a[i].text@) == normalized(b[i].text@),
    ensures
        page_keys(a) == page_keys(b),
    decreases a.len(),
{
    if a.len() > 0 {
        assert(normalized(a[a.len() - 1].text@) == normalized(b[b.len() - 1].text@));
        assert forall|i: int| 0 <= i < a.drop_last().len() implies normalized(
            #[trigger] a.drop_last()[i].text@,
        ) == normalized(b.drop_last()[i].text@) by {
            assert(a.drop_last()[i] == a[i]);
        }
        lemma_same_keys(a.drop_last(), b.drop_last());
    }
}

/// What is fed to the hasher for a page.
pub open spec fn page_writes(blocks: Seq<OcrBlock>) -> Seq<Seq<u8>> {
    let lines = in_text_order(page_keys(blocks));
    line_writes(lines).push(vstd::bytes::spec_u64_to_le_bytes(lines.len() as u64))
}

/// Number of blocks whose text has this normal form.
pub open spec fn times_read(blocks: Seq<OcrBlock>, form: Seq<char>) -> nat {
    blocks.filter(|b: OcrBlock| normalized(b.text@) == form).len()
}

proof fn lemma_times_read(blocks: Seq<OcrBlock>, form: Seq<char>)
    requires
        form.len() > 0,
    ensures
        page_keys(blocks).to_multiset().count(form) == times_read(blocks, form),
    decreases blocks.len(),
{
    broadcast use vstd::multiset::group_multiset_axioms;
    broadcast use group_to_multiset_ensures;

    reveal(Seq::filter);
    if blocks.len() > 0 {
        lemma_times_read(blocks.drop_last(), form);
        let key = normalized(blocks.last().text@);
        if key.len() > 0 {
            to_multiset_build(page_keys(blocks.drop_last()), key);
        }
    }
}

proof fn lemma_keys_not_empty(blocks: Seq<OcrBlock>)
    ensures
        page_keys(blocks).to_multiset().count(Seq::<char>::empty()) == 0,
    decreases blocks.len(),
{
    broadcast use vstd::multiset::group_multiset_axioms;
    broadcast use group_to_multiset_ensures;

    if blocks.len() > 0 {
        lemma_keys_not_empty(blocks.drop_last());
        let key = normalized(blocks.last().text@);
        if key.len() > 0 {
            to_multiset_build(page_keys(blocks.drop_last()), key);
        }
    }
}

proof fn lemma_scalar_bytes(c: u32)
    ensures
        leading_byte_width_1(c) != 0xFF,
        leading_byte_width_2(c) != 0xFF,
        leading_byte_width_3(c) != 0xFF,
        leading_byte_width_4(c) != 0xFF,
        last_continuation_byte(c) != 0xFF,
        second_last_continuation_byte(c) != 0xFF,
        third_last_continuation_byte(c) != 0xFF,
{
    assert((c & 0x7F) as u8 != 0xFFu8) by (bit_vector);
    assert(0xC0u8 | ((c >> 6) & 0x1F) as u8 != 0xFFu8) by (bit_vector);
    assert(0xE0u8 | ((c >> 12) & 0x0F) as u8 != 0xFFu8) by (bit_vector);
    assert(0xF0u8 | ((c >> 18) & 0x07) as u8 != 0xFFu8) by (bit_vector);
    assert(0x80u8 | (c & 0x3F) as u8 != 0xFFu8) by (bit_vector);
    assert(0x80u8 | ((c >> 6) & 0x3F) as u8 != 0xFFu8) by (bit_vector);
    assert(0x80u8 | ((c >> 12) & 0x3F) as u8 != 0xFFu8) by (bit_vector);
}

/// The end mark occurs in no text.
proof fn lemma_no_mark(text: Seq<char>)
    ensures
        forall|i: int| 0 <= i < encode_utf8(text).len() ==> #[trigger] encode_utf8(text)[i] != 0xFF,
    decreases text.len(),
{
    if text.len() > 0 {
        lemma_no_mark(text.drop_first());
        lemma_scalar_bytes(text[0] as u32);
        let first = encode_scalar(text[0] as u32);
        let rest = encode_utf8(text.drop_first());
        assert forall|i: int| 0 <= i < encode_utf8(text).len() implies #[trigger] encode_utf8(
            text,
        )[i] != 0xFF by {
            if i >= first.len() {
                assert(encode_utf8(text)[i] == rest[i - first.len()]);
            } else {
                assert(encode_utf8(text)[i] == first[i]);
            }
        }
    }
}

proof fn lemma_flat_line(lines: Seq<Seq<char>>)
    requires
        lines.len() > 0,
    ensures
        line_writes(lines).flatten_alt() == line_writes(lines.drop_last()).flatten_alt()
            + encode_utf8(lines.last()) + seq![0xFFu8],
{
    let before = line_writes(lines.drop_last());
    let one = before.push(encode_utf8(lines.last()));
    let two = one.push(seq![0xFFu8]);
    assert(two.drop_last() =~= one);
    assert(one.drop_last() =~= before);
    reveal_with_fuel(Seq::<_>::flatten_alt, 3);
}

/// The bytes of lines tell where each of them ends, and what it holds.
proof fn lemma_lines_from_bytes(a: Seq<Seq<char>>, b: Seq<Seq<char>>)
    requires
        line_writes(a).flatten_alt() == line_writes(b).flatten_alt(),
    ensures
        a == b,
    decreases a.len(),
{
    if a.len() > 0 {
        lemma_flat_line(a);
    }
    if b.len() > 0 {
        lemma_flat_line(b);
    }
    if a.len() == 0 || b.len() == 0 {
        assert(a =~= b);
    } else {
        let x = line_writes(a.drop_last()).flatten_alt();
        let y = line_writes(b.drop_last()).flatten_alt();
        let p = encode_utf8(a.last());
        let q = encode_utf8(b.last());
        lemma_no_mark(a.last());
        lemma_no_mark(b.last());
        let all = line_writes(a).flatten_alt();
        assert(all == x + p + seq![0xFFu8]);
        assert(all == y + q + seq![0xFFu8]);
        assert((x + p + seq![0xFFu8]).len() == x.len() + p.len() + 1);
        assert((y + q + seq![0xFFu8]).len() == y.len() + q.len() + 1);
        if x.len() > y.len() {
            assert(a.drop_last().len() > 0);
            lemma_flat_line(a.drop_last());
            assert(x[x.len() - 1] == 0xFF);
            assert(all[x.len() - 1] == 0xFF);
            assert(all[x.len() - 1] == q[x.len() - 1 - y.len()]);
        }
        if y.len() > x.len() {
            assert(b.drop_last().len() > 0);
            lemma_flat_line(b.drop_last());
            assert(y[y.len() - 1] == 0xFF);
            assert(all[y.len() - 1] == 0xFF);
            assert(all[y.len() - 1] == p[y.len() - 1 - x.len()]);
        }
        assert(x =~= all.take(x.len() as int));
        assert(y =~= all.take(x.len() as int));
        assert(p =~= all.subrange(x.len() as int, all.len() - 1));
        assert(q =~= all.subrange(x.len() as int, all.len() - 1));
        encode_utf8_decode_utf8(a.last());
        encode_utf8_decode_utf8(b.last());
        lemma_lines_from_bytes(a.drop_last(), b.drop_last());
        assert(a =~= a.drop_last().push(a.last()));
        assert(b =~= b.drop_last().push(b.last()));
    }
}

/// The fingerprint is a hash of all the text on the page and of nothing else: the bytes that are
/// hashed are the same for two pages if and only if every non-blank normal form is read equally
/// often on both.
pub proof fn law_fingerprint_hashes_every_line(a: Seq<OcrBlock>, b: Seq<OcrBlock>)
    ensures
        page_fingerprint(a) == DefaultHasher::spec_finish(page_writes(a)),
        page_writes(a).flatten_alt() == page_writes(b).flatten_alt() <==> (forall|form: Seq<char>|
            form.len() > 0 ==> #[trigger] times_read(a, form) == times_read(b, form)),
        page_writes(a).flatten_alt() == page_writes(b).flatten_alt() ==> page_fingerprint(a)
            == page_fingerprint(b),
{
    broadcast use vstd::multiset::group_multiset_axioms;

    let leq = |x: Seq<char>, y: Seq<char>| lex_le(x, y);
    let la = in_text_order(page_keys(a));
    let lb = in_text_order(page_keys(b));
    lemma_lex_order();
    page_keys(a).lemma_sort_by_ensures(leq);
    page_keys(b).lemma_sort_by_ensures(leq);
    let wa = page_writes(a);
    let wb = page_writes(b);
    let ca = vstd::bytes::spec_u64_to_le_bytes(la.len() as u64);
    let cb = vstd::bytes::spec_u64_to_le_bytes(lb.len() as u64);
    vstd::bytes::lemma_auto_spec_u64_to_from_le_bytes();
    assert(wa.drop_last() =~= line_writes(la));
    assert(wb.drop_last() =~= line_writes(lb));
    if wa.flatten_alt() == wb.flatten_alt() {
        let x = line_writes(la).flatten_alt();
        let y = line_writes(lb).flatten_alt();
        assert(wa.flatten_alt() == x + ca);
        assert(wb.flatten_alt() == y + cb);
        assert(ca.len() == 8 && cb.len() == 8);
        assert(x =~= wa.flatten_alt().take(x.len() as int));
        assert(y =~= wa.flatten_alt().take(x.len() as int));
        lemma_lines_from_bytes(la, lb);
        assert(page_keys(a).to_multiset() == page_keys(b).to_multiset());
        assert forall|form: Seq<char>| form.len() > 0 implies #[trigger] times_read(a, form)
            == times_read(b, form) by {
            lemma_times_read(a, form);
            lemma_times_read(b, form);
        }
    }
    if forall|form: Seq<char>|
        form.len() > 0 ==> #[trigger] times_read(a, form) == times_read(b, form) {
        assert forall|form: Seq<char>| #[trigger]
            page_keys(a).to_multiset().count(form) == page_keys(b).to_multiset().count(form) by {
            if form.len() > 0 {
                lemma_times_read(a, form);
                lemma_times_read(b, form);
            } else {
                assert(form =~= Seq::<char>::empty());
                lemma_keys_not_empty(a);
                lemma_keys_not_empty(b);
            }
        }
        assert(page_keys(a).to_multiset() =~= page_keys(b).to_multiset());
        lemma_sorted_unique(la, lb, leq);
    }
}

/// The fingerprint of one text is a hash of its normal form, whole.
pub proof fn law_text_fingerprint_hashes_the_text(a: Seq<char>, b: Seq<char>)
    ensures
        text_fingerprint(a) == DefaultHasher::spec_finish(
            seq![encode_utf8(normalized(a)), seq![0xFFu8]],
        ),
        encode_utf8(normalized(a)) == encode_utf8(normalized(b)) <==> normalized(a) == normalized(
            b,
        ),
{
    let one = seq![normalized(a)];
    assert(one.drop_last() =~= Seq::<Seq<char>>::empty());
    reveal_with_fuel(line_writes, 2);
    assert(line_writes(one) =~= seq![encode_utf8(normalized(a)), seq![0xFFu8]]);
    encode_utf8_decode_utf8(normalized(a));
    encode_utf8_decode_utf8(normalized(b));
}

/// Texts are in the order of their first difference; a beginning comes before the whole.
pub proof fn law_first_difference_orders_texts(
    common: Seq<char>,
    x: char,
    y: char,
    a: Seq<char>,
    b: Seq<char>,
)
    requires
        x < y,
    ensures
        lex_le(common + seq![x] + a, common + seq![y] + b),
        !lex_le(common + seq![y] + b, common + seq![x] + a),
        lex_le(common, common + a),
        a.len() > 0 ==> !lex_le(common + a, common),
    decreases common.len(),
{
    let p = common + seq![x] + a;
    let q = common + seq![y] + b;
    if common.len() == 0 {
        assert(p[0] == x);
        assert(q[0] == y);
        assert(common + a =~= a);
    } else {
        let c = common.skip(1);
        law_first_difference_orders_texts(c, x, y, a, b);
        assert(p.skip(1) =~= c + seq![x] + a);
        assert(q.skip(1) =~= c + seq![y] + b);
        assert((common + a).skip(1) =~= c + a);
        assert(p[0] == common[0] && q[0] == common[0] && (common + a)[0] == common[0]);
    }
}

} // verus!
