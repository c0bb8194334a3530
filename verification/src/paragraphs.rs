//! Merge OCR line boxes into paragraph blocks.
//!
//! - **Same row first**: nearest-right fragments, then nearest-below, so that a split long line
//!   becomes one box before stacking.
//! - **Whole region**: join every line in the crop.
//! - **Reading order**: row-major or column-major join and emit order.

use crate::config::{LineMergeConfig, LineMergeOrder};
use crate::merge::{
    group_list, group_views, join_nearest, lemma_linked_valid, linked,
    members_of, neighbor_groups, square, MergeLimits, Neighbor, PairMeasure,
};
use crate::scalar::{law_truncation_is_toward_zero, Scalar};
use crate::sorting::{
    all_positions, law_ordered_input_is_kept, law_ordered_is_sorted_permutation,
    lemma_ordered_below, ordered, positions, positions_below, stable_order, SortKey,
};
use crate::text::{
    is_space, law_trim_cuts_whitespace_only, trim_end, trim_start, trimmed_end, trimmed_start,
};
use crate::types::{copy_blocks, numbered, reindex, OcrBlock, Rect};
use vstd::prelude::*;
use vstd::seq_lib::*;

verus! {

/// Positions of lines along the banding axis: top-to-bottom for rows, left-to-right for columns.
#[derive(Debug)]
pub struct OrderMeasure {
    /// Coordinate of each line.
    pub coord: Vec<Scalar>,
    /// `(coord_j − coord_i) / span` for each pair of lines.
    pub step: Vec<Vec<Scalar>>,
    /// Largest step inside a band, with the comparison slack added.
    pub band_limit: Scalar,
}

impl OrderMeasure {
    /// A coordinate for each of `n` lines and a step for each pair.
    pub open spec fn covers(self, n: int) -> bool {
        &&& self.coord@.len() == n
        &&& self.step@.len() == n
        &&& forall|i: int| 0 <= i < n ==> #[trigger] self.step@[i]@.len() == n
    }

    /// Keys that order lines by coordinate.
    pub open spec fn coord_keys(self) -> Seq<SortKey> {
        self.coord@.map_values(
            |c: Scalar| SortKey { major: c.rank() as i64, middle: 0, minor: 0 },
        )
    }

    /// Band of the `k`-th line of `order`: a new band begins where the step from the line before
    /// is too wide.
    pub open spec fn band(self, order: Seq<usize>, k: int) -> u32
        decreases k,
    {
        if k <= 0 {
            0
        } else {
            let before = self.band(order, k - 1);
            let step = self.step@[order[k - 1] as int]@[order[k] as int];
            if step.at_most(self.band_limit) || before == u32::MAX {
                before
            } else {
                (before + 1) as u32
            }
        }
    }

    /// Bands of all lines after the first `k` of `order` were assigned; zero for the others.
    pub open spec fn bands(self, order: Seq<usize>, k: int) -> Seq<u32>
        decreases k,
    {
        if k <= 0 {
            Seq::new(self.coord@.len(), |i: int| 0u32)
        } else {
            self.bands(order, k - 1).update(order[k - 1] as int, self.band(order, k - 1))
        }
    }

    /// Bands of `members`, walked by coordinate.
    pub open spec fn member_bands(self, members: Seq<usize>) -> Seq<u32> {
        let order = ordered(self.coord_keys(), members);
        self.bands(order, order.len() as int)
    }

    fn coordinate_order(&self, members: &Vec<usize>) -> (r: Vec<usize>)
        requires
            positions_below(members@, self.coord@.len() as int),
        ensures
            r@ == ordered(self.coord_keys(), members@),
            positions_below(r@, self.coord@.len() as int),
    {
        let mut keys: Vec<SortKey> = Vec::new();
        let mut i: usize = 0;
        while i < self.coord.len()
            invariant
                i <= self.coord@.len(),
                keys@.len() == i,
                forall|k: int| 0 <= k < i ==> keys@[k] == self.coord_keys()[k],
            decreases self.coord@.len() - i,
        {
            keys.push(SortKey { major: self.coord[i].position(), middle: 0, minor: 0 });
            i = i + 1;
        }
        assert(keys@ =~= self.coord_keys());
        stable_order(&keys, members)
    }

    fn assign_bands(&self, members: &Vec<usize>) -> (ids: Vec<u32>)
        requires
            self.covers(self.coord@.len() as int),
            positions_below(members@, self.coord@.len() as int),
        ensures
            ids@ == self.member_bands(members@),
            ids@.len() == self.coord@.len(),
    {
        let order: Vec<usize> = self.coordinate_order(members);
        let n: usize = self.coord.len();
        let mut ids: Vec<u32> = Vec::new();
        let mut i: usize = 0;
        while i < n
            invariant
                i <= n,
                n == self.coord@.len(),
                ids@ == Seq::new(i as nat, |k: int| 0u32),
            decreases n - i,
        {
            ids.push(0);
            i = i + 1;
            assert(ids@ =~= Seq::new(i as nat, |k: int| 0u32));
        }
        let mut current: u32 = 0;
        let mut k: usize = 0;
        while k < order.len()
            invariant
                k <= order@.len(),
                n == self.coord@.len(),
                self.covers(n as int),
                positions_below(order@, n as int),
                ids@.len() == n,
                ids@ == self.bands(order@, k as int),
                k > 0 ==> current == self.band(order@, k - 1),
                k == 0 ==> current == 0,
            decreases order@.len() - k,
        {
            let at: usize = order[k];
            assert(order@[k as int] < n);
            if k > 0 {
                let last: usize = order[k - 1];
                assert(order@[k - 1] < n);
                assert(self.step@[last as int]@.len() == n);
                if !self.step[last][at].le(self.band_limit) && current < u32::MAX {
                    current = current + 1;
                }
            }
            assert(current == self.band(order@, k as int));
            ids.set(at, current);
            k = k + 1;
        }
        ids
    }
}

/// Key of a line in reading order: its band, then the position along the band, then across it.
pub open spec fn reading_key(block: OcrBlock, band: u32, order: LineMergeOrder) -> SortKey {
    let x = block.bbox.x.truncated() as i64;
    let y = block.bbox.y.truncated() as i64;
    match order {
        LineMergeOrder::LeftToRightTopToBottom => SortKey { major: band as i64, middle: x, minor: y },
        LineMergeOrder::TopToBottomLeftToRight => SortKey { major: band as i64, middle: y, minor: x },
    }
}

/// Keys of all lines, with the bands of `members`.
pub open spec fn reading_keys(
    blocks: Seq<OcrBlock>,
    members: Seq<usize>,
    order: LineMergeOrder,
    measure: OrderMeasure,
) -> Seq<SortKey> {
    let bands = measure.member_bands(members);
    Seq::new(blocks.len(), |i: int| reading_key(blocks[i], bands[i], order))
}

/// `members` in reading order.
pub open spec fn reading_order(
    blocks: Seq<OcrBlock>,
    members: Seq<usize>,
    order: LineMergeOrder,
    measure: OrderMeasure,
) -> Seq<usize> {
    ordered(reading_keys(blocks, members, order, measure), members)
}

/// Put `members` in reading order.
pub fn sort_indices(
    blocks: &Vec<OcrBlock>,
    members: &Vec<usize>,
    order: LineMergeOrder,
    measure: &OrderMeasure,
) -> (r: Vec<usize>)
    requires
        measure.covers(blocks@.len() as int),
        positions_below(members@, blocks@.len() as int),
    ensures
        r@ == reading_order(blocks@, members@, order, *measure),
        positions_below(r@, blocks@.len() as int),
{
    let bands: Vec<u32> = measure.assign_bands(members);
    let ghost all = reading_keys(blocks@, members@, order, *measure);
    let mut keys: Vec<SortKey> = Vec::new();
    let mut i: usize = 0;
    while i < blocks.len()
        invariant
            i <= blocks@.len(),
            bands@.len() == blocks@.len(),
            bands@ == measure.member_bands(members@),
            all == reading_keys(blocks@, members@, order, *measure),
            keys@.len() == i,
            forall|k: int| 0 <= k < i ==> keys@[k] == all[k],
        decreases blocks@.len() - i,
    {
        let x: i64 = blocks[i].bbox.x.trunc_i32() as i64;
        let y: i64 = blocks[i].bbox.y.trunc_i32() as i64;
        let band: i64 = bands[i] as i64;
        keys.push(
            match order {
                LineMergeOrder::LeftToRightTopToBottom => SortKey {
                    major: band,
                    middle: x,
                    minor: y,
                },
                LineMergeOrder::TopToBottomLeftToRight => SortKey {
                    major: band,
                    middle: y,
                    minor: x,
                },
            },
        );
        i = i + 1;
    }
    assert(keys@ =~= all);
    stable_order(&keys, members)
}

/// Two lines joined: touching whitespace removed, one space between them if wanted.
pub open spec fn joined_text(a: Seq<char>, b: Seq<char>, with_space: bool) -> Seq<char> {
    let left = trim_end(a);
    let right = trim_start(b);
    if left.len() == 0 {
        right
    } else if right.len() == 0 {
        left
    } else if with_space {
        left + seq![' '] + right
    } else {
        left + right
    }
}

/// Join two lines.
pub fn join_text(a: &str, b: &str, with_space: bool) -> (r: String)
    ensures
        r@ == joined_text(a@, b@, with_space),
{
    let left: String = trimmed_end(a);
    let right: String = trimmed_start(b);
    if left.as_str().is_empty() {
        return right;
    }
    if right.as_str().is_empty() {
        return left;
    }
    let mut out: String = left.clone();
    if with_space {
        out.push(' ');
    }
    out.append(right.as_str());
    assert(out@ =~= joined_text(a@, b@, with_space));
    out
}

/// Text of the first `k` members, joined in order.
pub open spec fn group_text(
    blocks: Seq<OcrBlock>,
    members: Seq<usize>,
    with_space: bool,
    k: int,
) -> Seq<char>
    decreases k,
{
    if k <= 0 {
        Seq::empty()
    } else if k == 1 {
        blocks[members[0] as int].text@
    } else {
        joined_text(
            group_text(blocks, members, with_space, k - 1),
            blocks[members[k - 1] as int].text@,
            with_space,
        )
    }
}

/// Detector lines of a block, at least one.
pub open spec fn lines_of(block: OcrBlock) -> nat {
    if block.source_lines == 0 {
        1
    } else {
        block.source_lines as nat
    }
}

/// Detector lines of all blocks.
pub open spec fn total_lines(blocks: Seq<OcrBlock>) -> nat
    decreases blocks.len(),
{
    if blocks.len() == 0 {
        0
    } else {
        total_lines(blocks.drop_last()) + lines_of(blocks.last())
    }
}

/// The blocks at `members`, in that order.
pub open spec fn picked(blocks: Seq<OcrBlock>, members: Seq<usize>) -> Seq<OcrBlock> {
    members.map_values(|i: usize| blocks[i as int])
}

/// Box and confidence of a merged group.
#[derive(Clone, Copy, Debug, PartialEq, Eq, Structural)]
pub struct GroupBox {
    /// One line tall: full horizontal span, median line height.
    pub bbox: Rect,
    /// Mean confidence of the members.
    pub confidence: Scalar,
}

/// `block` is the merged block of `members`, which are in reading order.
pub open spec fn is_assembled(
    block: OcrBlock,
    blocks: Seq<OcrBlock>,
    members: Seq<usize>,
    with_space: bool,
    span: GroupBox,
) -> bool {
    &&& block.id == 0
    &&& block.text@ == group_text(blocks, members, with_space, members.len() as int)
    &&& block.confidence == span.confidence
    &&& block.bbox == span.bbox
    &&& block.source_lines == total_lines(picked(blocks, members))
}

proof fn lemma_picked_push(blocks: Seq<OcrBlock>, members: Seq<usize>, k: int)
    requires
        0 <= k < members.len(),
    ensures
        picked(blocks, members.take(k + 1)).drop_last() == picked(blocks, members.take(k)),
        picked(blocks, members.take(k + 1)).last() == blocks[members[k] as int],
        total_lines(picked(blocks, members.take(k + 1))) == total_lines(
            picked(blocks, members.take(k)),
        ) + lines_of(blocks[members[k] as int]),
{
    assert(picked(blocks, members.take(k + 1)).drop_last() =~= picked(blocks, members.take(k)));
}

proof fn lemma_total_lines_prefix(blocks: Seq<OcrBlock>, k: int)
    requires
        0 <= k <= blocks.len(),
    ensures
        total_lines(blocks.take(k)) <= total_lines(blocks),
        total_lines(blocks) >= blocks.len(),
    decreases blocks.len(),
{
    if blocks.len() > 0 {
        if k < blocks.len() {
            lemma_total_lines_prefix(blocks.drop_last(), k);
            assert(blocks.drop_last().take(k) =~= blocks.take(k));
        } else {
            lemma_total_lines_prefix(blocks.drop_last(), k - 1);
            assert(blocks.take(k) =~= blocks);
        }
    }
}

/// Merge `members`, which are in reading order, into one block.
pub fn assemble_group(
    blocks: &Vec<OcrBlock>,
    members: &Vec<usize>,
    with_space: bool,
    span: GroupBox,
) -> (r: OcrBlock)
    requires
        members@.len() > 0,
        positions_below(members@, blocks@.len() as int),
        total_lines(picked(blocks@, members@)) <= u32::MAX,
    ensures
        is_assembled(r, blocks@, members@, with_space, span),
{
    let mut text: String = String::new();
    let mut source_lines: u32 = 0;
    let mut k: usize = 0;
    assert(picked(blocks@, members@.take(0)) =~= Seq::<OcrBlock>::empty());
    while k < members.len()
        invariant
            k <= members@.len(),
            positions_below(members@, blocks@.len() as int),
            total_lines(picked(blocks@, members@)) <= u32::MAX,
            text@ == group_text(blocks@, members@, with_space, k as int),
            source_lines == total_lines(picked(blocks@, members@.take(k as int))),
        decreases members@.len() - k,
    {
        assert(members@[k as int] < blocks@.len());
        let b: &OcrBlock = &blocks[members[k]];
        if k == 0 {
            text = b.text.clone();
        } else {
            text = join_text(text.as_str(), b.text.as_str(), with_space);
        }
        proof {
            lemma_picked_push(blocks@, members@, k as int);
            lemma_total_lines_prefix(picked(blocks@, members@), k + 1);
            assert(picked(blocks@, members@).take(k + 1) =~= picked(
                blocks@,
                members@.take(k + 1),
            ));
        }
        source_lines = source_lines + if b.source_lines == 0 {
            1
        } else {
            b.source_lines
        };
        k = k + 1;
    }
    assert(members@.take(k as int) =~= members@);
    OcrBlock { id: 0, text, confidence: span.confidence, bbox: span.bbox, source_lines }
}

/// Detector lines of the blocks at `members`.
pub open spec fn lines_at(blocks: Seq<OcrBlock>, members: Seq<usize>) -> nat {
    total_lines(picked(blocks, members))
}

proof fn lemma_lines_concat(a: Seq<OcrBlock>, b: Seq<OcrBlock>)
    ensures
        total_lines(a + b) == total_lines(a) + total_lines(b),
    decreases b.len(),
{
    if b.len() == 0 {
        assert(a + b =~= a);
    } else {
        assert((a + b).drop_last() =~= a + b.drop_last());
        lemma_lines_concat(a, b.drop_last());
    }
}

proof fn lemma_lines_remove(s: Seq<OcrBlock>, j: int)
    requires
        0 <= j < s.len(),
    ensures
        total_lines(s) == total_lines(s.remove(j)) + lines_of(s[j]),
{
    let a = s.take(j);
    let x = seq![s[j]];
    let b = s.skip(j + 1);
    assert(s =~= a + x + b);
    assert(s.remove(j) =~= a + b);
    lemma_lines_concat(a + x, b);
    lemma_lines_concat(a, x);
    lemma_lines_concat(a, b);
    assert(x.drop_last() =~= Seq::<OcrBlock>::empty());
    assert(total_lines(x) == lines_of(s[j])) by {
        reveal_with_fuel(total_lines, 2);
    }
}

proof fn lemma_lines_permutation(blocks: Seq<OcrBlock>, a: Seq<usize>, b: Seq<usize>)
    requires
        a.to_multiset() == b.to_multiset(),
    ensures
        lines_at(blocks, a) == lines_at(blocks, b),
    decreases a.len(),
{
    broadcast use vstd::multiset::group_multiset_axioms;
    broadcast use group_to_multiset_ensures;

    assert(a.len() == a.to_multiset().len());
    assert(b.len() == b.to_multiset().len());
    if a.len() == 0 {
        assert(a =~= b);
    } else {
        let i = a.len() - 1;
        let x = a[i];
        assert(a.contains(x));
        assert(a.to_multiset().count(x) > 0);
        assert(b.contains(x));
        let j = choose|j: int| 0 <= j < b.len() && b[j] == x;
        assert(a.remove(i).to_multiset() =~= a.to_multiset().remove(x));
        assert(b.remove(j).to_multiset() =~= b.to_multiset().remove(x));
        lemma_lines_permutation(blocks, a.remove(i), b.remove(j));
        assert(picked(blocks, a).remove(i) =~= picked(blocks, a.remove(i)));
        assert(picked(blocks, b).remove(j) =~= picked(blocks, b.remove(j)));
        lemma_lines_remove(picked(blocks, a), i);
        lemma_lines_remove(picked(blocks, b), j);
    }
}

/// Detector lines of the first `n` blocks whose representative is below `r`.
spec fn lines_below(blocks: Seq<OcrBlock>, root: Seq<int>, r: int, n: int) -> nat
    decreases n,
{
    if n <= 0 {
        0
    } else {
        lines_below(blocks, root, r, n - 1) + if root[n - 1] < r {
            lines_of(blocks[n - 1])
        } else {
            0
        }
    }
}

proof fn lemma_lines_below_step(blocks: Seq<OcrBlock>, root: Seq<int>, r: int, n: int)
    requires
        0 <= n <= root.len(),
        root.len() == blocks.len(),
        root.len() <= usize::MAX,
    ensures
        lines_below(blocks, root, r + 1, n) == lines_below(blocks, root, r, n) + lines_at(
            blocks,
            members_of(root, r, n),
        ),
    decreases n,
{
    if n <= 0 {
        assert(picked(blocks, members_of(root, r, n)) =~= Seq::<OcrBlock>::empty());
    } else {
        lemma_lines_below_step(blocks, root, r, n - 1);
        let m = members_of(root, r, n - 1);
        if root[n - 1] == r {
            let after = picked(blocks, m.push((n - 1) as usize));
            assert(after.drop_last() =~= picked(blocks, m));
            assert(after.last() == blocks[n - 1]);
        }
    }
}

proof fn lemma_lines_below_all(blocks: Seq<OcrBlock>, root: Seq<int>, r: int, n: int)
    requires
        0 <= n <= root.len(),
        root.len() == blocks.len(),
        forall|i: int| 0 <= i < root.len() ==> 0 <= #[trigger] root[i] < r,
    ensures
        lines_below(blocks, root, r, n) == total_lines(blocks.take(n)),
        lines_below(blocks, root, 0, n) == 0,
    decreases n,
{
    if n > 0 {
        lemma_lines_below_all(blocks, root, r, n - 1);
        assert(blocks.take(n).drop_last() =~= blocks.take(n - 1));
        assert(0 <= root[n - 1] < r);
    } else {
        assert(blocks.take(0) =~= Seq::<OcrBlock>::empty());
    }
}

/// Detector lines of a list of groups.
pub open spec fn lines_in(blocks: Seq<OcrBlock>, groups: Seq<Seq<usize>>) -> nat
    decreases groups.len(),
{
    if groups.len() == 0 {
        0
    } else {
        lines_in(blocks, groups.drop_last()) + lines_at(blocks, groups.last())
    }
}

proof fn lemma_group_list_lines(blocks: Seq<OcrBlock>, root: Seq<int>, r: int)
    requires
        0 <= r <= root.len(),
        root.len() == blocks.len(),
        root.len() <= usize::MAX,
        forall|i: int| 0 <= i < root.len() ==> 0 <= #[trigger] root[i] < root.len(),
    ensures
        lines_in(blocks, group_list(root, r)) == lines_below(blocks, root, r, root.len() as int),
    decreases r,
{
    if r > 0 {
        lemma_group_list_lines(blocks, root, r - 1);
        lemma_lines_below_step(blocks, root, r - 1, root.len() as int);
        let before = group_list(root, r - 1);
        let members = members_of(root, r - 1, root.len() as int);
        if members.len() == 0 {
            assert(picked(blocks, members) =~= Seq::<OcrBlock>::empty());
        } else {
            assert(before.push(members).drop_last() =~= before);
        }
    } else {
        lemma_lines_below_all(blocks, root, root.len() as int, root.len() as int);
    }
}

/// Joining lines in one direction loses no detector line and counts none twice.
pub proof fn law_groups_keep_every_line(
    blocks: Seq<OcrBlock>,
    table: Seq<Vec<PairMeasure>>,
    limits: MergeLimits,
    neighbor: Neighbor,
)
    requires
        table.len() == blocks.len(),
        table.len() <= usize::MAX,
    ensures
        lines_in(blocks, neighbor_groups(table, limits, neighbor)) == total_lines(blocks),
{
    lemma_linked_valid(table, limits, neighbor, table.len() as int);
    let root = linked(table, limits, neighbor, table.len() as int).root;
    lemma_group_list_lines(blocks, root, root.len() as int);
    lemma_lines_below_all(blocks, root, root.len() as int, root.len() as int);
    assert(blocks.take(blocks.len() as int) =~= blocks);
}

proof fn lemma_lines_in_prefix(blocks: Seq<OcrBlock>, groups: Seq<Seq<usize>>, k: int)
    requires
        0 <= k <= groups.len(),
    ensures
        lines_in(blocks, groups.take(k)) <= lines_in(blocks, groups),
    decreases groups.len(),
{
    if k < groups.len() {
        lemma_lines_in_prefix(blocks, groups.drop_last(), k);
        assert(groups.drop_last().take(k) =~= groups.take(k));
    } else {
        assert(groups.take(k) =~= groups);
    }
}

/// Merge each group into one block: members in reading order, box as `boxes` measures it.
fn assemble_groups<B: Fn(&Vec<OcrBlock>, &Vec<usize>) -> GroupBox>(
    blocks: &Vec<OcrBlock>,
    groups: &Vec<Vec<usize>>,
    cfg: &LineMergeConfig,
    measure: &OrderMeasure,
    boxes: &B,
) -> (r: Vec<OcrBlock>)
    requires
        measure.covers(blocks@.len() as int),
        lines_in(blocks@, group_views(groups@)) <= u32::MAX,
        forall|g: int|
            0 <= g < groups@.len() ==> (#[trigger] groups@[g])@.len() > 0 && positions_below(
                groups@[g]@,
                blocks@.len() as int,
            ),
        forall|b: &Vec<OcrBlock>, m: &Vec<usize>| call_requires(*boxes, (b, m)),
    ensures
        r@.len() == groups@.len(),
        total_lines(r@) == lines_in(blocks@, group_views(groups@)),
        forall|g: int|
            0 <= g < r@.len() ==> merged_group(
                #[trigger] r@[g],
                blocks,
                group_views(groups@)[g],
                *cfg,
                *measure,
                *boxes,
            ),
{
    let ghost all = group_views(groups@);
    let mut out: Vec<OcrBlock> = Vec::new();
    let mut g: usize = 0;
    assert(all.take(0) =~= Seq::<Seq<usize>>::empty());
    while g < groups.len()
        invariant
            g <= groups@.len(),
            all == group_views(groups@),
            measure.covers(blocks@.len() as int),
            lines_in(blocks@, all) <= u32::MAX,
            forall|k: int|
                0 <= k < groups@.len() ==> (#[trigger] groups@[k])@.len() > 0 && positions_below(
                    groups@[k]@,
                    blocks@.len() as int,
                ),
            forall|b: &Vec<OcrBlock>, m: &Vec<usize>| call_requires(*boxes, (b, m)),
            out@.len() == g,
            total_lines(out@) == lines_in(blocks@, all.take(g as int)),
            forall|k: int|
                0 <= k < out@.len() ==> merged_group(
                    #[trigger] out@[k],
                    blocks,
                    all[k],
                    *cfg,
                    *measure,
                    *boxes,
                ),
        decreases groups@.len() - g,
    {
        assert(groups@[g as int]@.len() > 0);
        let members: Vec<usize> = sort_indices(blocks, &groups[g], cfg.order, measure);
        proof {
            let keys = reading_keys(blocks@, groups@[g as int]@, cfg.order, *measure);
            law_ordered_is_sorted_permutation(keys, groups@[g as int]@);
            lemma_lines_permutation(blocks@, members@, groups@[g as int]@);
            assert(all.take(g + 1).drop_last() =~= all.take(g as int));
            assert(all.take(g + 1).last() == groups@[g as int]@);
            lemma_lines_in_prefix(blocks@, all, g + 1);
        }
        let span: GroupBox = boxes(blocks, &members);
        let ghost before = out@;
        let block: OcrBlock = assemble_group(blocks, &members, cfg.join_with_space, span);
        proof {
            assert(call_ensures(*boxes, (blocks, &members), span));
            assert(merged_group(block, blocks, all[g as int], *cfg, *measure, *boxes));
            lemma_total_lines_prefix(picked(blocks@, members@), members@.len() as int);
        }
        out.push(block);
        assert(out@.drop_last() =~= before);
        g = g + 1;
    }
    assert(all.take(g as int) =~= all);
    out
}

/// `block` merges the lines of `group`: they are put in reading order, measured by `boxes` and
/// assembled.
pub open spec fn merged_group<B: Fn(&Vec<OcrBlock>, &Vec<usize>) -> GroupBox>(
    block: OcrBlock,
    blocks: &Vec<OcrBlock>,
    group: Seq<usize>,
    cfg: LineMergeConfig,
    measure: OrderMeasure,
    boxes: B,
) -> bool {
    exists|members: &Vec<usize>, span: GroupBox|
        #![trigger call_ensures(boxes, (blocks, members), span)]
        {
            &&& members@ == reading_order(blocks@, group, cfg.order, measure)
            &&& call_ensures(boxes, (blocks, members), span)
            &&& is_assembled(block, blocks@, members@, cfg.join_with_space, span)
        }
}

/// `out` holds a merged block for each group that `limits` make of the measured pairs.
pub open spec fn joined_by<B: Fn(&Vec<OcrBlock>, &Vec<usize>) -> GroupBox>(
    blocks: &Vec<OcrBlock>,
    table: Seq<Vec<PairMeasure>>,
    limits: MergeLimits,
    measure: OrderMeasure,
    cfg: LineMergeConfig,
    neighbor: Neighbor,
    boxes: B,
    out: Seq<OcrBlock>,
) -> bool {
    let groups = neighbor_groups(table, limits, neighbor);
    &&& out.len() == groups.len()
    &&& forall|g: int|
        0 <= g < out.len() ==> merged_group(
            #[trigger] out[g],
            blocks,
            groups[g],
            cfg,
            measure,
            boxes,
        )
}

/// `out` is what one direction makes of `blocks` with measurements that `pairs`, `boxes` and
/// `order` give.
pub open spec fn pass_result<
    P: Fn(&Vec<OcrBlock>, Neighbor, u32, u32) -> (Vec<Vec<PairMeasure>>, MergeLimits),
    B: Fn(&Vec<OcrBlock>, &Vec<usize>) -> GroupBox,
    O: Fn(&Vec<OcrBlock>, u32, u32) -> OrderMeasure,
>(
    blocks: &Vec<OcrBlock>,
    cfg: LineMergeConfig,
    frame_w: u32,
    frame_h: u32,
    neighbor: Neighbor,
    pairs: P,
    boxes: B,
    order: O,
    out: Seq<OcrBlock>,
) -> bool {
    if blocks@.len() <= 1 {
        out == blocks@
    } else {
        exists|t: (Vec<Vec<PairMeasure>>, MergeLimits), m: OrderMeasure|
            #![trigger joined_by(blocks, t.0@, t.1, m, cfg, neighbor, boxes, out)]
            {
                &&& call_ensures(pairs, (blocks, neighbor, frame_w, frame_h), t)
                &&& call_ensures(order, (blocks, frame_w, frame_h), m)
                &&& joined_by(blocks, t.0@, t.1, m, cfg, neighbor, boxes, out)
            }
    }
}

/// `out` is what merging makes of more than one line: rows first, then columns, in reading
/// order, numbered.
pub open spec fn merge_result<
    P: Fn(&Vec<OcrBlock>, Neighbor, u32, u32) -> (Vec<Vec<PairMeasure>>, MergeLimits),
    B: Fn(&Vec<OcrBlock>, &Vec<usize>) -> GroupBox,
    O: Fn(&Vec<OcrBlock>, u32, u32) -> OrderMeasure,
>(
    blocks: &Vec<OcrBlock>,
    cfg: LineMergeConfig,
    frame_w: u32,
    frame_h: u32,
    pairs: P,
    boxes: B,
    order: O,
    out: Seq<OcrBlock>,
) -> bool {
    exists|rows: &Vec<OcrBlock>, merged: &Vec<OcrBlock>, m: OrderMeasure|
        #![trigger pass_result(rows, cfg, frame_w, frame_h, Neighbor::Below, pairs, boxes, order, merged@), call_ensures(order, (merged, frame_w, frame_h), m)]
        {
            &&& pass_result(
                blocks,
                cfg,
                frame_w,
                frame_h,
                Neighbor::Right,
                pairs,
                boxes,
                order,
                rows@,
            )
            &&& pass_result(
                rows,
                cfg,
                frame_w,
                frame_h,
                Neighbor::Below,
                pairs,
                boxes,
                order,
                merged@,
            )
            &&& call_ensures(order, (merged, frame_w, frame_h), m)
            &&& out == numbered(
                picked(
                    merged@,
                    reading_order(merged@, all_positions(merged@.len()), cfg.order, m),
                ),
            )
        }
}

/// A frame side of at least one pixel.
pub open spec fn at_least_one(side: u32) -> u32 {
    if side == 0 {
        1
    } else {
        side
    }
}

/// Join each line with its nearest continuation in one direction and merge the groups.
fn join_pass<
    P: Fn(&Vec<OcrBlock>, Neighbor, u32, u32) -> (Vec<Vec<PairMeasure>>, MergeLimits),
    B: Fn(&Vec<OcrBlock>, &Vec<usize>) -> GroupBox,
    O: Fn(&Vec<OcrBlock>, u32, u32) -> OrderMeasure,
>(
    blocks: &Vec<OcrBlock>,
    cfg: &LineMergeConfig,
    frame_w: u32,
    frame_h: u32,
    neighbor: Neighbor,
    pairs: &P,
    boxes: &B,
    order: &O,
) -> (r: Vec<OcrBlock>)
    requires
        total_lines(blocks@) <= u32::MAX,
        measures_lines(*pairs, *boxes, *order),
    ensures
        total_lines(r@) == total_lines(blocks@),
        pass_result(
            blocks,
            *cfg,
            frame_w,
            frame_h,
            neighbor,
            *pairs,
            *boxes,
            *order,
            r@,
        ),
{
    if blocks.len() <= 1 {
        return copy_blocks(blocks);
    }
    let (table, limits): (Vec<Vec<PairMeasure>>, MergeLimits) = pairs(
        blocks,
        neighbor,
        frame_w,
        frame_h,
    );
    let groups: Vec<Vec<usize>> = join_nearest(&table, &limits, neighbor);
    let measure: OrderMeasure = order(blocks, frame_w, frame_h);
    proof {
        law_groups_keep_every_line(blocks@, table@, limits, neighbor);
    }
    let out: Vec<OcrBlock> = assemble_groups(blocks, &groups, cfg, &measure, boxes);
    proof {
        let t = (table, limits);
        assert(joined_by(blocks, t.0@, t.1, measure, *cfg, neighbor, *boxes, out@));
    }
    out
}

/// Put merged blocks in reading order.
fn sort_blocks(blocks: &Vec<OcrBlock>, order: LineMergeOrder, measure: &OrderMeasure) -> (r: Vec<
    OcrBlock,
>)
    requires
        measure.covers(blocks@.len() as int),
    ensures
        r@ == picked(
            blocks@,
            reading_order(blocks@, all_positions(blocks@.len()), order, *measure),
        ),
{
    let all: Vec<usize> = positions(blocks.len());
    let members: Vec<usize> = sort_indices(blocks, &all, order, measure);
    let mut out: Vec<OcrBlock> = Vec::new();
    let mut i: usize = 0;
    while i < members.len()
        invariant
            i <= members@.len(),
            positions_below(members@, blocks@.len() as int),
            out@ == picked(blocks@, members@.take(i as int)),
        decreases members@.len() - i,
    {
        assert(members@[i as int] < blocks@.len());
        out.push(blocks[members[i]].clone());
        assert(picked(blocks@, members@.take(i + 1)) =~= picked(
            blocks@,
            members@.take(i as int),
        ).push(blocks@[members@[i as int] as int]));
        i = i + 1;
    }
    assert(members@.take(i as int) =~= members@);
    out
}

proof fn lemma_numbered_lines(blocks: Seq<OcrBlock>)
    ensures
        total_lines(numbered(blocks)) == total_lines(blocks),
    decreases blocks.len(),
{
    if blocks.len() > 0 {
        lemma_numbered_lines(blocks.drop_last());
        assert(numbered(blocks).drop_last() =~= numbered(blocks.drop_last()));
    }
}

/// The blocks carry their positions as ids.
pub open spec fn numbered_from_zero(blocks: Seq<OcrBlock>) -> bool {
    forall|i: int| 0 <= i < blocks.len() ==> #[trigger] blocks[i].id == i as u32
}

/// `out` is what merging makes of `blocks`: nothing is joined while merging is off or there is at
/// most one line, everything where the whole region is joined, and each line with its nearest
/// continuation otherwise.
pub open spec fn merge_outcome<
    P: Fn(&Vec<OcrBlock>, Neighbor, u32, u32) -> (Vec<Vec<PairMeasure>>, MergeLimits),
    B: Fn(&Vec<OcrBlock>, &Vec<usize>) -> GroupBox,
    O: Fn(&Vec<OcrBlock>, u32, u32) -> OrderMeasure,
>(
    blocks: &Vec<OcrBlock>,
    cfg: LineMergeConfig,
    frame_w: u32,
    frame_h: u32,
    merge_all: bool,
    pairs: P,
    boxes: B,
    order: O,
    out: Seq<OcrBlock>,
) -> bool {
    let w = at_least_one(frame_w);
    let h = at_least_one(frame_h);
    if !cfg.enabled || blocks@.len() <= 1 {
        out == numbered(blocks@)
    } else if merge_all {
        out.len() == 1 && exists|m: OrderMeasure|
            #![trigger call_ensures(order, (blocks, w, h), m)]
            call_ensures(order, (blocks, w, h), m) && merged_group(
                out[0],
                blocks,
                all_positions(blocks@.len()),
                cfg,
                m,
                boxes,
            )
    } else {
        merge_result(blocks, cfg, w, h, pairs, boxes, order, out)
    }
}

/// The measuring functions can be called on anything and measure every line.
pub open spec fn measures_lines<
    P: Fn(&Vec<OcrBlock>, Neighbor, u32, u32) -> (Vec<Vec<PairMeasure>>, MergeLimits),
    B: Fn(&Vec<OcrBlock>, &Vec<usize>) -> GroupBox,
    O: Fn(&Vec<OcrBlock>, u32, u32) -> OrderMeasure,
>(pairs: P, boxes: B, order: O) -> bool {
    &&& forall|b: &Vec<OcrBlock>, d: Neighbor, w: u32, h: u32| call_requires(pairs, (b, d, w, h))
    &&& forall|
        b: &Vec<OcrBlock>,
        d: Neighbor,
        w: u32,
        h: u32,
        t: (Vec<Vec<PairMeasure>>, MergeLimits),
    | #[trigger]
        call_ensures(pairs, (b, d, w, h), t) ==> square(t.0@, b@.len() as int)
    &&& forall|b: &Vec<OcrBlock>, m: &Vec<usize>| call_requires(boxes, (b, m))
    &&& forall|b: &Vec<OcrBlock>, w: u32, h: u32| call_requires(order, (b, w, h))
    &&& forall|b: &Vec<OcrBlock>, w: u32, h: u32, m: OrderMeasure| #[trigger]
        call_ensures(order, (b, w, h), m) ==> m.covers(b@.len() as int)
}

/// Merge consecutive line-level OCR boxes that belong to the same paragraph.
///
/// `frame_w` / `frame_h` are the full capture size even when `blocks` came from a crop.
/// `merge_all` joins every remaining line (whole selected region). `pairs` measures each pair of
/// lines in one direction, `boxes` measures a merged group, `order` measures positions along the
/// banding axis.
///
/// Whatever is measured, no detector line is lost; what is joined and in what order is fixed by
/// [`join_nearest`], [`sort_indices`] and [`assemble_group`].
pub fn merge_line_blocks_with<
    P: Fn(&Vec<OcrBlock>, Neighbor, u32, u32) -> (Vec<Vec<PairMeasure>>, MergeLimits),
    B: Fn(&Vec<OcrBlock>, &Vec<usize>) -> GroupBox,
    O: Fn(&Vec<OcrBlock>, u32, u32) -> OrderMeasure,
>(
    blocks: Vec<OcrBlock>,
    cfg: &LineMergeConfig,
    frame_w: u32,
    frame_h: u32,
    merge_all: bool,
    pairs: &P,
    boxes: &B,
    order: &O,
) -> (r: Vec<OcrBlock>)
    requires
        cfg.enabled && blocks@.len() > 1 ==> total_lines(blocks@) <= u32::MAX,
        measures_lines(*pairs, *boxes, *order),
    ensures
        total_lines(r@) == total_lines(blocks@),
        numbered_from_zero(r@),
        merge_outcome(&blocks, *cfg, frame_w, frame_h, merge_all, *pairs, *boxes, *order, r@),
{
    proof {
        lemma_numbered_lines(blocks@);
    }
    if !cfg.enabled || blocks.len() <= 1 {
        return reindex(blocks);
    }
    let w: u32 = if frame_w == 0 {
        1
    } else {
        frame_w
    };
    let h: u32 = if frame_h == 0 {
        1
    } else {
        frame_h
    };
    if merge_all {
        let measure: OrderMeasure = order(&blocks, w, h);
        let mut groups: Vec<Vec<usize>> = Vec::new();
        groups.push(positions(blocks.len()));
        proof {
            let all = all_positions(blocks@.len());
            assert(groups@[0]@ == all);
            assert(picked(blocks@, all) =~= blocks@);
            let views = group_views(groups@);
            assert(views =~= seq![all]);
            assert(views.drop_last() =~= Seq::<Seq<usize>>::empty());
            reveal_with_fuel(lines_in, 2);
        }
        let merged: Vec<OcrBlock> = assemble_groups(&blocks, &groups, cfg, &measure, boxes);
        proof {
            lemma_numbered_lines(merged@);
            assert(merged_group(
                merged@[0],
                &blocks,
                group_views(groups@)[0],
                *cfg,
                measure,
                *boxes,
            ));
            assert(numbered(merged@)[0] == merged@[0]);
            assert(call_ensures(
                *order,
                (&blocks, at_least_one(frame_w), at_least_one(frame_h)),
                measure,
            ));
        }
        return reindex(merged);
    }
    let rows: Vec<OcrBlock> = join_pass(&blocks, cfg, w, h, Neighbor::Right, pairs, boxes, order);
    let merged: Vec<OcrBlock> = join_pass(&rows, cfg, w, h, Neighbor::Below, pairs, boxes, order);
    let measure: OrderMeasure = order(&merged, w, h);
    let sorted: Vec<OcrBlock> = sort_blocks(&merged, cfg.order, &measure);
    proof {
        let all = all_positions(merged@.len());
        let keys = reading_keys(merged@, all, cfg.order, measure);
        law_ordered_is_sorted_permutation(keys, all);
        lemma_lines_permutation(merged@, ordered(keys, all), all);
        assert(picked(merged@, all) =~= merged@);
        lemma_numbered_lines(sorted@);
        assert(call_ensures(*order, (&merged, w, h), measure));
        assert(pass_result(
            &rows,
            *cfg,
            w,
            h,
            Neighbor::Below,
            *pairs,
            *boxes,
            *order,
            merged@,
        ));
    }
    reindex(sorted)
}

/// How often the character occurs.
pub open spec fn occurrences(s: Seq<char>, c: char) -> nat
    decreases s.len(),
{
    if s.len() == 0 {
        0
    } else {
        occurrences(s.drop_last(), c) + if s.last() == c {
            1
        } else {
            0nat
        }
    }
}

/// How often the character occurs in the texts of the blocks.
pub open spec fn occurrences_in(blocks: Seq<OcrBlock>, c: char) -> nat
    decreases blocks.len(),
{
    if blocks.len() == 0 {
        0
    } else {
        occurrences_in(blocks.drop_last(), c) + occurrences(blocks.last().text@, c)
    }
}

proof fn lemma_occurrences_concat(a: Seq<char>, b: Seq<char>, c: char)
    ensures
        occurrences(a + b, c) == occurrences(a, c) + occurrences(b, c),
    decreases b.len(),
{
    if b.len() == 0 {
        assert(a + b =~= a);
    } else {
        assert((a + b).drop_last() =~= a + b.drop_last());
        lemma_occurrences_concat(a, b.drop_last(), c);
    }
}

proof fn lemma_no_occurrence(s: Seq<char>, c: char)
    requires
        forall|i: int| 0 <= i < s.len() ==> #[trigger] s[i] != c,
    ensures
        occurrences(s, c) == 0,
    decreases s.len(),
{
    if s.len() > 0 {
        assert forall|i: int| 0 <= i < s.drop_last().len() implies #[trigger] s.drop_last()[i]
            != c by {
            assert(s[i] != c);
        }
        assert(s[s.len() - 1] != c);
        lemma_no_occurrence(s.drop_last(), c);
    }
}

/// Two lines are joined without loss: every character that is not whitespace is there as often
/// as before; between two lines with text stands exactly one space, or nothing where none is
/// wanted; a blank line adds nothing.
pub proof fn law_joined_text_keeps_the_words(a: Seq<char>, b: Seq<char>, with_space: bool)
    ensures
        forall|c: char|
            !is_space(c) ==> #[trigger] occurrences(joined_text(a, b, with_space), c)
                == occurrences(a, c) + occurrences(b, c),
        exists|m: int, n: int|
            0 <= m <= a.len() && 0 <= n <= b.len() && (forall|i: int|
                m <= i < a.len() ==> is_space(#[trigger] a[i])) && (forall|i: int|
                0 <= i < n ==> is_space(#[trigger] b[i])) && (m > 0 ==> !is_space(a[m - 1])) && (n
                < b.len() ==> !is_space(b[n])) && joined_text(a, b, with_space) == (#[trigger] a.take(
                m,
            )) + (if with_space && m > 0 && n < b.len() {
                seq![' ']
            } else {
                Seq::empty()
            }) + (#[trigger] b.skip(n)),
{
    law_trim_cuts_whitespace_only(a);
    law_trim_cuts_whitespace_only(b);
    let left = trim_end(a);
    let right = trim_start(b);
    let m = left.len() as int;
    let n = b.len() - right.len();
    let gap = if with_space && m > 0 && n < b.len() {
        seq![' ']
    } else {
        Seq::empty()
    };
    assert(joined_text(a, b, with_space) =~= a.take(m) + gap + b.skip(n));
    assert forall|c: char| !is_space(c) implies #[trigger] occurrences(
        joined_text(a, b, with_space),
        c,
    ) == occurrences(a, c) + occurrences(b, c) by {
        lemma_occurrences_concat(left + gap, right, c);
        lemma_occurrences_concat(left, gap, c);
        assert(' ' != c) by {
            assert(is_space(' '));
        }
        lemma_no_occurrence(gap, c);
        assert(a =~= left + a.skip(m));
        assert(b =~= b.take(n) + right);
        lemma_occurrences_concat(left, a.skip(m), c);
        lemma_occurrences_concat(b.take(n), right, c);
        lemma_no_occurrence(a.skip(m), c);
        lemma_no_occurrence(b.take(n), c);
    }
}

proof fn lemma_group_text_keeps(
    blocks: Seq<OcrBlock>,
    members: Seq<usize>,
    with_space: bool,
    k: int,
    c: char,
)
    requires
        0 <= k <= members.len(),
        !is_space(c),
    ensures
        occurrences(group_text(blocks, members, with_space, k), c) == occurrences_in(
            picked(blocks, members.take(k)),
            c,
        ),
    decreases k,
{
    if k <= 0 {
        assert(picked(blocks, members.take(0)) =~= Seq::<OcrBlock>::empty());
    } else {
        lemma_group_text_keeps(blocks, members, with_space, k - 1, c);
        assert(picked(blocks, members.take(k)).drop_last() =~= picked(blocks, members.take(k - 1)));
        if k == 1 {
            assert(picked(blocks, members.take(0)) =~= Seq::<OcrBlock>::empty());
        } else {
            law_joined_text_keeps_the_words(
                group_text(blocks, members, with_space, k - 1),
                blocks[members[k - 1] as int].text@,
                with_space,
            );
        }
    }
}

proof fn lemma_occurrences_in_concat(a: Seq<OcrBlock>, b: Seq<OcrBlock>, c: char)
    ensures
        occurrences_in(a + b, c) == occurrences_in(a, c) + occurrences_in(b, c),
    decreases b.len(),
{
    if b.len() == 0 {
        assert(a + b =~= a);
    } else {
        assert((a + b).drop_last() =~= a + b.drop_last());
        lemma_occurrences_in_concat(a, b.drop_last(), c);
    }
}

proof fn lemma_occurrences_in_remove(s: Seq<OcrBlock>, j: int, c: char)
    requires
        0 <= j < s.len(),
    ensures
        occurrences_in(s, c) == occurrences_in(s.remove(j), c) + occurrences(s[j].text@, c),
{
    let a = s.take(j);
    let x = seq![s[j]];
    let b = s.skip(j + 1);
    assert(s =~= a + x + b);
    assert(s.remove(j) =~= a + b);
    lemma_occurrences_in_concat(a + x, b, c);
    lemma_occurrences_in_concat(a, x, c);
    lemma_occurrences_in_concat(a, b, c);
    assert(x.drop_last() =~= Seq::<OcrBlock>::empty());
    reveal_with_fuel(occurrences_in, 2);
}

proof fn lemma_occurrences_in_permutation(
    blocks: Seq<OcrBlock>,
    a: Seq<usize>,
    b: Seq<usize>,
    c: char,
)
    requires
        a.to_multiset() == b.to_multiset(),
    ensures
        occurrences_in(picked(blocks, a), c) == occurrences_in(picked(blocks, b), c),
    decreases a.len(),
{
    broadcast use vstd::multiset::group_multiset_axioms;
    broadcast use group_to_multiset_ensures;

    assert(a.len() == a.to_multiset().len());
    assert(b.len() == b.to_multiset().len());
    if a.len() == 0 {
        assert(a =~= b);
    } else {
        let i = a.len() - 1;
        let x = a[i];
        assert(a.contains(x));
        assert(a.to_multiset().count(x) > 0);
        assert(b.contains(x));
        let j = choose|j: int| 0 <= j < b.len() && b[j] == x;
        assert(a.remove(i).to_multiset() =~= a.to_multiset().remove(x));
        assert(b.remove(j).to_multiset() =~= b.to_multiset().remove(x));
        lemma_occurrences_in_permutation(blocks, a.remove(i), b.remove(j), c);
        assert(picked(blocks, a).remove(i) =~= picked(blocks, a.remove(i)));
        assert(picked(blocks, b).remove(j) =~= picked(blocks, b.remove(j)));
        lemma_occurrences_in_remove(picked(blocks, a), i, c);
        lemma_occurrences_in_remove(picked(blocks, b), j, c);
    }
}

/// Occurrences in the first `n` blocks whose representative is below `r`.
spec fn occurrences_below(blocks: Seq<OcrBlock>, root: Seq<int>, r: int, n: int, c: char) -> nat
    decreases n,
{
    if n <= 0 {
        0
    } else {
        occurrences_below(blocks, root, r, n - 1, c) + if root[n - 1] < r {
            occurrences(blocks[n - 1].text@, c)
        } else {
            0
        }
    }
}

proof fn lemma_occurrences_below_step(
    blocks: Seq<OcrBlock>,
    root: Seq<int>,
    r: int,
    n: int,
    c: char,
)
    requires
        0 <= n <= root.len(),
        root.len() == blocks.len(),
        root.len() <= usize::MAX,
    ensures
        occurrences_below(blocks, root, r + 1, n, c) == occurrences_below(blocks, root, r, n, c)
            + occurrences_in(picked(blocks, members_of(root, r, n)), c),
    decreases n,
{
    if n <= 0 {
        assert(picked(blocks, members_of(root, r, n)) =~= Seq::<OcrBlock>::empty());
    } else {
        lemma_occurrences_below_step(blocks, root, r, n - 1, c);
        let m = members_of(root, r, n - 1);
        if root[n - 1] == r {
            let after = picked(blocks, m.push((n - 1) as usize));
            assert(after.drop_last() =~= picked(blocks, m));
            assert(after.last() == blocks[n - 1]);
        }
    }
}

proof fn lemma_occurrences_below_all(
    blocks: Seq<OcrBlock>,
    root: Seq<int>,
    r: int,
    n: int,
    c: char,
)
    requires
        0 <= n <= root.len(),
        root.len() == blocks.len(),
        forall|i: int| 0 <= i < root.len() ==> 0 <= #[trigger] root[i] < r,
    ensures
        occurrences_below(blocks, root, r, n, c) == occurrences_in(blocks.take(n), c),
        occurrences_below(blocks, root, 0, n, c) == 0,
    decreases n,
{
    if n > 0 {
        lemma_occurrences_below_all(blocks, root, r, n - 1, c);
        assert(blocks.take(n).drop_last() =~= blocks.take(n - 1));
        assert(0 <= root[n - 1] < r);
    } else {
        assert(blocks.take(0) =~= Seq::<OcrBlock>::empty());
    }
}

/// Occurrences in the blocks of a list of groups.
spec fn occurrences_grouped(blocks: Seq<OcrBlock>, groups: Seq<Seq<usize>>, c: char) -> nat
    decreases groups.len(),
{
    if groups.len() == 0 {
        0
    } else {
        occurrences_grouped(blocks, groups.drop_last(), c) + occurrences_in(
            picked(blocks, groups.last()),
            c,
        )
    }
}

proof fn lemma_group_list_occurrences(blocks: Seq<OcrBlock>, root: Seq<int>, r: int, c: char)
    requires
        0 <= r <= root.len(),
        root.len() == blocks.len(),
        root.len() <= usize::MAX,
        forall|i: int| 0 <= i < root.len() ==> 0 <= #[trigger] root[i] < root.len(),
    ensures
        occurrences_grouped(blocks, group_list(root, r), c) == occurrences_below(
            blocks,
            root,
            r,
            root.len() as int,
            c,
        ),
    decreases r,
{
    if r > 0 {
        lemma_group_list_occurrences(blocks, root, r - 1, c);
        lemma_occurrences_below_step(blocks, root, r - 1, root.len() as int, c);
        let before = group_list(root, r - 1);
        let members = members_of(root, r - 1, root.len() as int);
        if members.len() == 0 {
            assert(picked(blocks, members) =~= Seq::<OcrBlock>::empty());
        } else {
            assert(before.push(members).drop_last() =~= before);
        }
    } else {
        lemma_occurrences_below_all(blocks, root, root.len() as int, root.len() as int, c);
    }
}

proof fn lemma_merged_group_keeps<B: Fn(&Vec<OcrBlock>, &Vec<usize>) -> GroupBox>(
    block: OcrBlock,
    blocks: &Vec<OcrBlock>,
    group: Seq<usize>,
    cfg: LineMergeConfig,
    measure: OrderMeasure,
    boxes: B,
    c: char,
)
    requires
        merged_group(block, blocks, group, cfg, measure, boxes),
        !is_space(c),
    ensures
        occurrences(block.text@, c) == occurrences_in(picked(blocks@, group), c),
{
    let members = reading_order(blocks@, group, cfg.order, measure);
    law_ordered_is_sorted_permutation(
        reading_keys(blocks@, group, cfg.order, measure),
        group,
    );
    lemma_group_text_keeps(blocks@, members, cfg.join_with_space, members.len() as int, c);
    assert(members.take(members.len() as int) =~= members);
    lemma_occurrences_in_permutation(blocks@, members, group, c);
}

proof fn lemma_joined_by_keeps<B: Fn(&Vec<OcrBlock>, &Vec<usize>) -> GroupBox>(
    blocks: &Vec<OcrBlock>,
    groups: Seq<Seq<usize>>,
    cfg: LineMergeConfig,
    measure: OrderMeasure,
    boxes: B,
    out: Seq<OcrBlock>,
    c: char,
)
    requires
        out.len() == groups.len(),
        forall|g: int|
            0 <= g < out.len() ==> merged_group(
                #[trigger] out[g],
                blocks,
                groups[g],
                cfg,
                measure,
                boxes,
            ),
        !is_space(c),
    ensures
        occurrences_in(out, c) == occurrences_grouped(blocks@, groups, c),
    decreases out.len(),
{
    if out.len() > 0 {
        let n = out.len() - 1;
        assert forall|g: int| 0 <= g < out.drop_last().len() implies merged_group(
            #[trigger] out.drop_last()[g],
            blocks,
            groups.drop_last()[g],
            cfg,
            measure,
            boxes,
        ) by {
            assert(merged_group(out[g], blocks, groups[g], cfg, measure, boxes));
        }
        lemma_joined_by_keeps(
            blocks,
            groups.drop_last(),
            cfg,
            measure,
            boxes,
            out.drop_last(),
            c,
        );
        lemma_merged_group_keeps(out[n], blocks, groups[n], cfg, measure, boxes, c);
    }
}

proof fn lemma_pass_keeps<
    P: Fn(&Vec<OcrBlock>, Neighbor, u32, u32) -> (Vec<Vec<PairMeasure>>, MergeLimits),
    B: Fn(&Vec<OcrBlock>, &Vec<usize>) -> GroupBox,
    O: Fn(&Vec<OcrBlock>, u32, u32) -> OrderMeasure,
>(
    blocks: &Vec<OcrBlock>,
    cfg: LineMergeConfig,
    w: u32,
    h: u32,
    neighbor: Neighbor,
    pairs: P,
    boxes: B,
    order: O,
    out: Seq<OcrBlock>,
    c: char,
)
    requires
        pass_result(blocks, cfg, w, h, neighbor, pairs, boxes, order, out),
        measures_lines(pairs, boxes, order),
        !is_space(c),
    ensures
        occurrences_in(out, c) == occurrences_in(blocks@, c),
{
    if blocks@.len() > 1 {
        let (t, m) = choose|t: (Vec<Vec<PairMeasure>>, MergeLimits), m: OrderMeasure|
            #![trigger joined_by(blocks, t.0@, t.1, m, cfg, neighbor, boxes, out)]
            {
                &&& call_ensures(pairs, (blocks, neighbor, w, h), t)
                &&& call_ensures(order, (blocks, w, h), m)
                &&& joined_by(blocks, t.0@, t.1, m, cfg, neighbor, boxes, out)
            };
        assert(square(t.0@, blocks@.len() as int));
        let n = blocks@.len() as int;
        assert(blocks.len() == n);
        let groups = neighbor_groups(t.0@, t.1, neighbor);
        lemma_joined_by_keeps(blocks, groups, cfg, m, boxes, out, c);
        lemma_linked_valid(t.0@, t.1, neighbor, n);
        let root = linked(t.0@, t.1, neighbor, n).root;
        lemma_group_list_occurrences(blocks@, root, n, c);
        lemma_occurrences_below_all(blocks@, root, n, n, c);
        assert(blocks@.take(n) =~= blocks@);
    }
}

proof fn lemma_numbered_occurrences(blocks: Seq<OcrBlock>, c: char)
    ensures
        occurrences_in(numbered(blocks), c) == occurrences_in(blocks, c),
    decreases blocks.len(),
{
    if blocks.len() > 0 {
        lemma_numbered_occurrences(blocks.drop_last(), c);
        assert(numbered(blocks).drop_last() =~= numbered(blocks.drop_last()));
    }
}

/// Merging loses no text and makes up none: whatever is measured and joined, every character
/// that is not whitespace occurs as often as in the lines that were read.
pub proof fn law_merging_keeps_every_character<
    P: Fn(&Vec<OcrBlock>, Neighbor, u32, u32) -> (Vec<Vec<PairMeasure>>, MergeLimits),
    B: Fn(&Vec<OcrBlock>, &Vec<usize>) -> GroupBox,
    O: Fn(&Vec<OcrBlock>, u32, u32) -> OrderMeasure,
>(
    blocks: &Vec<OcrBlock>,
    cfg: LineMergeConfig,
    frame_w: u32,
    frame_h: u32,
    merge_all: bool,
    pairs: P,
    boxes: B,
    order: O,
    out: Seq<OcrBlock>,
    c: char,
)
    requires
        merge_outcome(blocks, cfg, frame_w, frame_h, merge_all, pairs, boxes, order, out),
        measures_lines(pairs, boxes, order),
        !is_space(c),
    ensures
        occurrences_in(out, c) == occurrences_in(blocks@, c),
{
    let w = at_least_one(frame_w);
    let h = at_least_one(frame_h);
    let all = all_positions(blocks@.len());
    assert(picked(blocks@, all) =~= blocks@) by {
        assert(blocks.len() == blocks@.len());
    }
    if !cfg.enabled || blocks@.len() <= 1 {
        lemma_numbered_occurrences(blocks@, c);
    } else if merge_all {
        let m = choose|m: OrderMeasure|
            #![trigger call_ensures(order, (blocks, w, h), m)]
            call_ensures(order, (blocks, w, h), m) && merged_group(
                out[0],
                blocks,
                all,
                cfg,
                m,
                boxes,
            );
        lemma_merged_group_keeps(out[0], blocks, all, cfg, m, boxes, c);
        assert(out.drop_last() =~= Seq::<OcrBlock>::empty());
        reveal_with_fuel(occurrences_in, 2);
    } else {
        let (rows, merged, m) = choose|
            rows: &Vec<OcrBlock>,
            merged: &Vec<OcrBlock>,
            m: OrderMeasure,
        |
            #![trigger pass_result(rows, cfg, w, h, Neighbor::Below, pairs, boxes, order, merged@), call_ensures(order, (merged, w, h), m)]
            {
                &&& pass_result(
                    blocks,
                    cfg,
                    w,
                    h,
                    Neighbor::Right,
                    pairs,
                    boxes,
                    order,
                    rows@,
                )
                &&& pass_result(
                    rows,
                    cfg,
                    w,
                    h,
                    Neighbor::Below,
                    pairs,
                    boxes,
                    order,
                    merged@,
                )
                &&& call_ensures(order, (merged, w, h), m)
                &&& out == numbered(
                    picked(
                        merged@,
                        reading_order(merged@, all_positions(merged@.len()), cfg.order, m),
                    ),
                )
            };
        lemma_pass_keeps(blocks, cfg, w, h, Neighbor::Right, pairs, boxes, order, rows@, c);
        lemma_pass_keeps(rows, cfg, w, h, Neighbor::Below, pairs, boxes, order, merged@, c);
        let every = all_positions(merged@.len());
        assert(picked(merged@, every) =~= merged@) by {
            assert(merged.len() == merged@.len());
        }
        let members = reading_order(merged@, every, cfg.order, m);
        law_ordered_is_sorted_permutation(
            reading_keys(merged@, every, cfg.order, m),
            every,
        );
        lemma_occurrences_in_permutation(merged@, members, every, c);
        lemma_numbered_occurrences(picked(merged@, members), c);
    }
}

/// Joining is off, or there is nothing to join: the lines stay as they are. The whole region is
/// joined: one block comes out.
pub proof fn law_switches_decide_what_is_joined<
    P: Fn(&Vec<OcrBlock>, Neighbor, u32, u32) -> (Vec<Vec<PairMeasure>>, MergeLimits),
    B: Fn(&Vec<OcrBlock>, &Vec<usize>) -> GroupBox,
    O: Fn(&Vec<OcrBlock>, u32, u32) -> OrderMeasure,
>(
    blocks: &Vec<OcrBlock>,
    cfg: LineMergeConfig,
    frame_w: u32,
    frame_h: u32,
    merge_all: bool,
    pairs: P,
    boxes: B,
    order: O,
    out: Seq<OcrBlock>,
)
    requires
        merge_outcome(blocks, cfg, frame_w, frame_h, merge_all, pairs, boxes, order, out),
    ensures
        !cfg.enabled || blocks@.len() <= 1 ==> out.len() == blocks@.len() && forall|i: int|
            #![trigger out[i]]
            0 <= i < out.len() ==> out[i].text == blocks@[i].text && out[i].bbox == blocks@[i].bbox
                && out[i].confidence == blocks@[i].confidence && out[i].source_lines
                == blocks@[i].source_lines,
        cfg.enabled && blocks@.len() > 1 && merge_all ==> out.len() == 1,
{
}

/// Lines of one row are joined first: where the measurements join all lines to the right, one
/// block of all of them comes out, put in reading order and measured as a whole.
pub proof fn law_rows_are_joined_first<
    P: Fn(&Vec<OcrBlock>, Neighbor, u32, u32) -> (Vec<Vec<PairMeasure>>, MergeLimits),
    B: Fn(&Vec<OcrBlock>, &Vec<usize>) -> GroupBox,
    O: Fn(&Vec<OcrBlock>, u32, u32) -> OrderMeasure,
>(
    blocks: &Vec<OcrBlock>,
    cfg: LineMergeConfig,
    frame_w: u32,
    frame_h: u32,
    pairs: P,
    boxes: B,
    order: O,
    out: Seq<OcrBlock>,
)
    requires
        merge_outcome(blocks, cfg, frame_w, frame_h, false, pairs, boxes, order, out),
        cfg.enabled,
        blocks@.len() > 1,
        frame_w > 0,
        frame_h > 0,
        forall|t: (Vec<Vec<PairMeasure>>, MergeLimits)| #[trigger]
            call_ensures(pairs, (blocks, Neighbor::Right, frame_w, frame_h), t)
                ==> neighbor_groups(t.0@, t.1, Neighbor::Right).len() == 1,
    ensures
        out.len() == 1,
        exists|members: &Vec<usize>, span: GroupBox|
            #![trigger call_ensures(boxes, (blocks, members), span)]
            call_ensures(boxes, (blocks, members), span) && out[0].bbox == span.bbox
                && out[0].confidence == span.confidence && out[0].id == 0,
{
    let w = frame_w;
    let h = frame_h;
    let (rows, merged, m) = choose|rows: &Vec<OcrBlock>, merged: &Vec<OcrBlock>, m: OrderMeasure|
        #![trigger pass_result(rows, cfg, w, h, Neighbor::Below, pairs, boxes, order, merged@), call_ensures(order, (merged, w, h), m)]
        {
            &&& pass_result(blocks, cfg, w, h, Neighbor::Right, pairs, boxes, order, rows@)
            &&& pass_result(rows, cfg, w, h, Neighbor::Below, pairs, boxes, order, merged@)
            &&& call_ensures(order, (merged, w, h), m)
            &&& out == numbered(
                picked(
                    merged@,
                    reading_order(merged@, all_positions(merged@.len()), cfg.order, m),
                ),
            )
        };
    let (t, n) = choose|t: (Vec<Vec<PairMeasure>>, MergeLimits), n: OrderMeasure|
        #![trigger joined_by(blocks, t.0@, t.1, n, cfg, Neighbor::Right, boxes, rows@)]
        {
            &&& call_ensures(pairs, (blocks, Neighbor::Right, w, h), t)
            &&& call_ensures(order, (blocks, w, h), n)
            &&& joined_by(blocks, t.0@, t.1, n, cfg, Neighbor::Right, boxes, rows@)
        };
    assert(rows@.len() == 1);
    assert(merged@ == rows@);
    let every = all_positions(1);
    let keys = reading_keys(merged@, every, cfg.order, m);
    assert(every =~= seq![0usize]);
    law_ordered_input_is_kept(keys, every);
    assert(picked(merged@, every) =~= merged@);
    assert(out[0].bbox == merged@[0].bbox);
    let groups = neighbor_groups(t.0@, t.1, Neighbor::Right);
    assert(merged_group(rows@[0], blocks, groups[0], cfg, n, boxes));
}

proof fn lemma_bands_elsewhere(m: OrderMeasure, order: Seq<usize>, k: int, n: int)
    requires
        0 <= n < k <= order.len(),
        forall|i: int, j: int| 0 <= i < j < order.len() ==> order[i] != order[j],
        positions_below(order, m.coord@.len() as int),
    ensures
        m.bands(order, k).len() == m.coord@.len(),
        m.bands(order, k)[order[n] as int] == m.band(order, n),
    decreases k,
{
    assert(order[n] < m.coord@.len());
    lemma_bands_len(m, order, k - 1);
    if n < k - 1 {
        lemma_bands_elsewhere(m, order, k - 1, n);
        assert(order[n] != order[k - 1]);
    }
}

proof fn lemma_bands_len(m: OrderMeasure, order: Seq<usize>, k: int)
    requires
        k <= order.len(),
        positions_below(order, m.coord@.len() as int),
    ensures
        m.bands(order, k).len() == m.coord@.len(),
    decreases k,
{
    if k > 0 {
        lemma_bands_len(m, order, k - 1);
        assert(order[k - 1] < m.coord@.len());
    }
}

/// Bands are walked along the coordinate: the first line is in the first band, a line within the
/// limit of the line before it is in the same band, and one beyond it begins the next.
pub proof fn law_wide_steps_begin_bands(m: OrderMeasure, members: Seq<usize>)
    requires
        members.no_duplicates(),
        positions_below(members, m.coord@.len() as int),
        members.len() <= u32::MAX,
    ensures
        exists|walk: Seq<usize>| #[trigger]
            walk.to_multiset() == members.to_multiset() && (forall|k: int|
                0 < k < walk.len() ==> m.coord@[walk[k - 1] as int].rank() <= m.coord@[(
                #[trigger] walk[k]) as int].rank()) && (walk.len() > 0 ==> m.member_bands(
                members,
            )[walk[0] as int] == 0) && (forall|k: int|
                #![trigger walk[k]]
                0 < k < walk.len() ==> ({
                    let step = m.step@[walk[k - 1] as int]@[walk[k] as int];
                    let within = !step.nan() && !m.band_limit.nan() && step.rank()
                        <= m.band_limit.rank();
                    m.member_bands(members)[walk[k] as int] == m.member_bands(
                        members,
                    )[walk[k - 1] as int] + if within {
                        0int
                    } else {
                        1
                    }
                })),
{
    let keys = m.coord_keys();
    let walk = ordered(keys, members);
    law_ordered_is_sorted_permutation(keys, members);
    lemma_distinct_permutation(members, walk);
    lemma_ordered_below(keys, members, m.coord@.len() as int);
    assert forall|k: int| 0 < k < walk.len() implies m.coord@[walk[k - 1] as int].rank()
        <= m.coord@[(#[trigger] walk[k]) as int].rank() by {
        assert(walk[k - 1] < m.coord@.len());
        assert(keys[walk[k - 1] as int].le(keys[walk[k] as int]));
    }
    assert forall|k: int| 0 <= k < walk.len() implies m.member_bands(members)[(
    #[trigger] walk[k]) as int] == m.band(walk, k) && m.band(walk, k) <= k by {
        lemma_bands_elsewhere(m, walk, walk.len() as int, k);
        lemma_band_bound(m, walk, k);
    }
}

proof fn lemma_band_bound(m: OrderMeasure, order: Seq<usize>, k: int)
    requires
        0 <= k,
    ensures
        m.band(order, k) <= k,
    decreases k,
{
    if k > 0 {
        lemma_band_bound(m, order, k - 1);
    }
}

proof fn lemma_distinct_permutation(a: Seq<usize>, b: Seq<usize>)
    requires
        a.to_multiset() == b.to_multiset(),
        a.no_duplicates(),
    ensures
        a.len() == b.len(),
        forall|i: int, j: int| 0 <= i < j < b.len() ==> b[i] != b[j],
{
    broadcast use group_to_multiset_ensures;

    a.lemma_multiset_has_no_duplicates();
    assert(a.len() == a.to_multiset().len());
    assert(b.len() == b.to_multiset().len());
    b.lemma_multiset_has_no_duplicates_conv();
}

/// Blocks are read band by band; in rows from left to right and then from top to bottom, in
/// columns the other way round. Each is read once.
pub proof fn law_reading_order_is_by_band(
    blocks: Seq<OcrBlock>,
    members: Seq<usize>,
    measure: OrderMeasure,
)
    requires
        positions_below(members, blocks.len() as int),
        measure.covers(blocks.len() as int),
    ensures
        ({
            let rows = reading_order(
                blocks,
                members,
                LineMergeOrder::LeftToRightTopToBottom,
                measure,
            );
            let columns = reading_order(
                blocks,
                members,
                LineMergeOrder::TopToBottomLeftToRight,
                measure,
            );
            let bands = measure.member_bands(members);
            &&& rows.to_multiset() == members.to_multiset()
            &&& columns.to_multiset() == members.to_multiset()
            &&& forall|i: int, j: int|
                0 <= i < j < rows.len() ==> ({
                    let a = #[trigger] rows[i] as int;
                    let b = #[trigger] rows[j] as int;
                    let x = blocks[a].bbox.x.truncated();
                    let next = blocks[b].bbox.x.truncated();
                    bands[a] < bands[b] || (bands[a] == bands[b] && (x < next || (x == next
                        && blocks[a].bbox.y.truncated() <= blocks[b].bbox.y.truncated())))
                })
            &&& forall|i: int, j: int|
                0 <= i < j < columns.len() ==> ({
                    let a = #[trigger] columns[i] as int;
                    let b = #[trigger] columns[j] as int;
                    let y = blocks[a].bbox.y.truncated();
                    let next = blocks[b].bbox.y.truncated();
                    bands[a] < bands[b] || (bands[a] == bands[b] && (y < next || (y == next
                        && blocks[a].bbox.x.truncated() <= blocks[b].bbox.x.truncated())))
                })
        }),
{
    lemma_reading_order_sorted(
        blocks,
        members,
        LineMergeOrder::LeftToRightTopToBottom,
        measure,
    );
    lemma_reading_order_sorted(
        blocks,
        members,
        LineMergeOrder::TopToBottomLeftToRight,
        measure,
    );
}

proof fn lemma_reading_order_sorted(
    blocks: Seq<OcrBlock>,
    members: Seq<usize>,
    order: LineMergeOrder,
    measure: OrderMeasure,
)
    requires
        positions_below(members, blocks.len() as int),
    ensures
        ({
            let r = reading_order(blocks, members, order, measure);
            let bands = measure.member_bands(members);
            &&& r.to_multiset() == members.to_multiset()
            &&& forall|i: int, j: int|
                0 <= i < j < r.len() ==> reading_key(
                    blocks[#[trigger] r[i] as int],
                    bands[r[i] as int],
                    order,
                ).le(reading_key(blocks[#[trigger] r[j] as int], bands[r[j] as int], order))
            &&& forall|i: int|
                0 <= i < blocks.len() ==> {
                    &&& (#[trigger] blocks[i]).bbox.x.truncated() as i64
                        == blocks[i].bbox.x.truncated()
                    &&& blocks[i].bbox.y.truncated() as i64 == blocks[i].bbox.y.truncated()
                }
            &&& positions_below(r, blocks.len() as int)
        }),
{
    let keys = reading_keys(blocks, members, order, measure);
    let bands = measure.member_bands(members);
    let r = ordered(keys, members);
    law_ordered_is_sorted_permutation(keys, members);
    lemma_ordered_below(keys, members, blocks.len() as int);
    assert forall|i: int, j: int| 0 <= i < j < r.len() implies reading_key(
        blocks[#[trigger] r[i] as int],
        bands[r[i] as int],
        order,
    ).le(reading_key(blocks[#[trigger] r[j] as int], bands[r[j] as int], order)) by {
        assert(keys[r[i] as int].le(keys[r[j] as int]));
    }
    assert forall|i: int| 0 <= i < blocks.len() implies (#[trigger] blocks[i]).bbox.x.truncated() as
        i64 == blocks[i].bbox.x.truncated() && blocks[i].bbox.y.truncated() as i64
        == blocks[i].bbox.y.truncated() by {
        law_truncation_is_toward_zero(blocks[i].bbox.x);
        law_truncation_is_toward_zero(blocks[i].bbox.y);
    }
}

} // verus!
