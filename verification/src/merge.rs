//! Which OCR lines belong together: nearest continuation in one direction, and the groups that
//! the continuations make.
//!
//! The host measures the boxes; the rules below decide on the measurements.

use crate::scalar::Scalar;
use crate::sorting::{positions, positions_below};
use vstd::prelude::*;

verus! {

/// Direction in which a line looks for its continuation.
#[derive(Clone, Copy, Debug, PartialEq, Eq, Structural)]
pub enum Neighbor {
    Below,
    Right,
}

/// How line `j` lies to line `i` in one direction. "Start" and "end" are the near and far edge
/// along that direction, the span is the size of the frame along it.
#[derive(Clone, Copy, Debug, PartialEq, Eq, Structural)]
pub struct PairMeasure {
    /// `(start_j + slack − mid_i) / span`, plus the comparison slack.
    pub reach: Scalar,
    /// `|start_j − end_i|`.
    pub gap: Scalar,
    /// `gap` plus the comparison slack.
    pub gap_slack: Scalar,
    /// `gap / span`.
    pub gap_ratio: Scalar,
    /// `|height_i − height_j| / larger`.
    pub height_ratio: Scalar,
    /// Distance of the edges, and of the centers, across the direction, over the frame size.
    pub edge_ratio: Scalar,
    pub center_ratio: Scalar,
    /// `width_i` plus the comparison slack, and `width_j`.
    pub width_slack: Scalar,
    pub width: Scalar,
    /// `(width_j − width_i) / width_j`, plus the comparison slack.
    pub width_ratio: Scalar,
    /// `(start_j − end_i) / span`.
    pub open_ratio: Scalar,
    /// `(center_j − end_i) / span`.
    pub beyond_ratio: Scalar,
    /// `(center_i − start_j) / span`, plus the comparison slack.
    pub before_ratio: Scalar,
}

/// Limits for the measurements of one direction, each with the comparison slack added.
#[derive(Clone, Copy, Debug, PartialEq, Eq, Structural)]
pub struct MergeLimits {
    pub gap: Scalar,
    pub height: Scalar,
    pub align: Scalar,
    /// The comparison slack itself: values up to it count as zero.
    pub zero: Scalar,
    /// Width difference from which a shorter upper line stays separate, without slack.
    pub width: Scalar,
    /// The width difference counts.
    pub reject_short_long: bool,
}

/// Zero.
pub open spec fn nought() -> Scalar {
    Scalar { bits: 0 }
}

/// A table with a row and a column for each of `n` lines.
pub open spec fn square(table: Seq<Vec<PairMeasure>>, n: int) -> bool {
    table.len() == n && forall|i: int| 0 <= i < n ==> #[trigger] table[i]@.len() == n
}

impl MergeLimits {
    /// The lines share a column (or a row).
    pub open spec fn aligned(self, m: PairMeasure) -> bool {
        m.edge_ratio.at_most(self.align) || m.center_ratio.at_most(self.align)
    }

    /// The upper line is shorter than a much wider lower line.
    pub open spec fn short_over_long(self, m: PairMeasure) -> bool {
        m.width_slack.less(m.width) && self.width.at_most(m.width_ratio)
    }

    /// Line `j` may continue line `i`.
    pub open spec fn links(self, m: PairMeasure, neighbor: Neighbor) -> bool {
        &&& nought().at_most(m.reach)
        &&& m.gap_ratio.at_most(self.gap)
        &&& m.height_ratio.at_most(self.height)
        &&& self.aligned(m)
        &&& !(neighbor == Neighbor::Below && self.reject_short_long && self.short_over_long(m))
    }

    /// The nearest continuation of line `i` among the first `n` lines.
    pub open spec fn nearest(
        self,
        table: Seq<Vec<PairMeasure>>,
        neighbor: Neighbor,
        i: int,
        n: int,
    ) -> Option<int>
        decreases n,
    {
        if n <= 0 {
            None
        } else {
            let best = self.nearest(table, neighbor, i, n - 1);
            let j = n - 1;
            if j == i || !self.links(table[i]@[j], neighbor) {
                best
            } else {
                match best {
                    None => Some(j),
                    Some(b) => if table[i]@[j].gap_slack.less(table[i]@[b].gap) {
                        Some(j)
                    } else {
                        best
                    },
                }
            }
        }
    }

    /// Line `k` lies in the gap between lines `i` and `j`, aligned with both.
    pub open spec fn lies_between(
        self,
        table: Seq<Vec<PairMeasure>>,
        i: int,
        j: int,
        k: int,
    ) -> bool {
        &&& k != i
        &&& k != j
        &&& !table[i]@[k].beyond_ratio.at_most(self.zero)
        &&& !nought().at_most(table[k]@[j].before_ratio)
        &&& self.aligned(table[i]@[k])
        &&& self.aligned(table[k]@[j])
    }

    /// There is room between lines `i` and `j`, and another line in it.
    pub open spec fn intervening(self, table: Seq<Vec<PairMeasure>>, i: int, j: int) -> bool {
        &&& !table[i]@[j].open_ratio.at_most(self.zero)
        &&& exists|k: int| 0 <= k < table.len() && #[trigger] self.lies_between(table, i, j, k)
    }

    /// The line that line `i` is joined with.
    pub open spec fn link(self, table: Seq<Vec<PairMeasure>>, neighbor: Neighbor, i: int) -> Option<
        int,
    > {
        match self.nearest(table, neighbor, i, table.len() as int) {
            Some(j) => if self.intervening(table, i, j) {
                None
            } else {
                Some(j)
            },
            None => None,
        }
    }

    fn is_aligned(&self, m: &PairMeasure) -> (r: bool)
        ensures
            r == self.aligned(*m),
    {
        m.edge_ratio.le(self.align) || m.center_ratio.le(self.align)
    }

    fn can_link(&self, m: &PairMeasure, neighbor: Neighbor) -> (r: bool)
        ensures
            r == self.links(*m, neighbor),
    {
        if !(Scalar { bits: 0 }).le(m.reach) {
            return false;
        }
        if !m.gap_ratio.le(self.gap) {
            return false;
        }
        if !m.height_ratio.le(self.height) {
            return false;
        }
        if !self.is_aligned(m) {
            return false;
        }
        if neighbor == Neighbor::Below && self.reject_short_long {
            if m.width_slack.lt(m.width) && self.width.le(m.width_ratio) {
                return false;
            }
        }
        true
    }

    fn find_nearest(&self, table: &Vec<Vec<PairMeasure>>, neighbor: Neighbor, i: usize) -> (r:
        Option<usize>)
        requires
            square(table@, table@.len() as int),
            i < table@.len(),
        ensures
            match r {
                Some(j) => j < table@.len() && j != i && self.nearest(
                    table@,
                    neighbor,
                    i as int,
                    table@.len() as int,
                ) == Some(j as int),
                None => self.nearest(table@, neighbor, i as int, table@.len() as int) is None,
            },
    {
        let n: usize = table.len();
        assert(table@[i as int]@.len() == n);
        let row: &Vec<PairMeasure> = &table[i];
        let mut best: Option<usize> = None;
        let mut j: usize = 0;
        while j < n
            invariant
                j <= n,
                n == table@.len(),
                i < n,
                *row == table@[i as int],
                row@.len() == n,
                match best {
                    Some(b) => b < j && b != i && self.nearest(table@, neighbor, i as int, j as int)
                        == Some(b as int),
                    None => self.nearest(table@, neighbor, i as int, j as int) is None,
                },
            decreases n - j,
        {
            if j != i && self.can_link(&row[j], neighbor) {
                let closer: bool = match best {
                    Some(b) => row[j].gap_slack.lt(row[b].gap),
                    None => true,
                };
                if closer {
                    best = Some(j);
                }
            }
            j = j + 1;
        }
        best
    }

    fn has_intervening(&self, table: &Vec<Vec<PairMeasure>>, i: usize, j: usize) -> (r: bool)
        requires
            square(table@, table@.len() as int),
            i < table@.len(),
            j < table@.len(),
        ensures
            r == self.intervening(table@, i as int, j as int),
    {
        let n: usize = table.len();
        assert(table@[i as int]@.len() == n);
        if table[i][j].open_ratio.le(self.zero) {
            return false;
        }
        let mut k: usize = 0;
        while k < n
            invariant
                k <= n,
                n == table@.len(),
                i < n,
                j < n,
                square(table@, n as int),
                !table@[i as int]@[j as int].open_ratio.at_most(self.zero),
                forall|l: int| 0 <= l < k ==> !#[trigger] self.lies_between(
                    table@,
                    i as int,
                    j as int,
                    l,
                ),
            decreases n - k,
        {
            assert(table@[i as int]@.len() == n);
            assert(table@[k as int]@.len() == n);
            if k != i && k != j && !table[i][k].beyond_ratio.le(self.zero) && !(Scalar {
                bits: 0,
            }).le(table[k][j].before_ratio) && self.is_aligned(&table[i][k]) && self.is_aligned(
                &table[k][j],
            ) {
                assert(self.lies_between(table@, i as int, j as int, k as int));
                return true;
            }
            k = k + 1;
        }
        false
    }
}

/// Representatives of joined lines and their ranks.
#[verifier::ext_equal]
pub struct Groups {
    pub root: Seq<int>,
    pub rank: Seq<u8>,
}

impl Groups {
    /// Every line on its own.
    pub open spec fn apart(n: nat) -> Groups {
        Groups { root: Seq::new(n, |i: int| i), rank: Seq::new(n, |i: int| 0u8) }
    }

    /// The representative that a union of `a` and `b` keeps: that of higher rank, the first one
    /// if they are equal.
    pub open spec fn winner(self, a: int, b: int) -> int {
        if self.rank[self.root[a]] < self.rank[self.root[b]] {
            self.root[b]
        } else {
            self.root[a]
        }
    }

    /// The representative that a union of `a` and `b` gives up.
    pub open spec fn loser(self, a: int, b: int) -> int {
        if self.rank[self.root[a]] < self.rank[self.root[b]] {
            self.root[a]
        } else {
            self.root[b]
        }
    }

    /// `a` and `b` and all that was joined with either share a representative.
    pub open spec fn united(self, a: int, b: int) -> Groups {
        if self.root[a] == self.root[b] {
            self
        } else {
            let w = self.winner(a, b);
            let l = self.loser(a, b);
            Groups {
                root: self.root.map_values(
                    |r: int|
                        if r == l {
                            w
                        } else {
                            r
                        },
                ),
                rank: if self.rank[w] == self.rank[l] && self.rank[w] < u8::MAX {
                    self.rank.update(w, (self.rank[w] + 1) as u8)
                } else {
                    self.rank
                },
            }
        }
    }

    /// Representatives are lines, and each represents itself.
    pub open spec fn valid(self) -> bool {
        &&& self.rank.len() == self.root.len()
        &&& forall|i: int|
            0 <= i < self.root.len() ==> 0 <= #[trigger] self.root[i] < self.root.len()
        &&& forall|i: int|
            0 <= i < self.root.len() ==> self.root[#[trigger] self.root[i]] == self.root[i]
    }
}

/// A union keeps the groups valid, puts `a` and `b` together, and moves nothing else: two lines
/// share a group afterwards if and only if they did before, or one was with `a` and the other
/// with `b`.
pub proof fn law_union_joins_two_groups(g: Groups, a: int, b: int, x: int, y: int)
    requires
        g.valid(),
        0 <= a < g.root.len(),
        0 <= b < g.root.len(),
        0 <= x < g.root.len(),
        0 <= y < g.root.len(),
    ensures
        g.united(a, b).valid(),
        g.united(a, b).root.len() == g.root.len(),
        g.united(a, b).root[a] == g.united(a, b).root[b],
        g.united(a, b).root[x] == g.united(a, b).root[y] <==> (g.root[x] == g.root[y] || (g.root[x]
            == g.root[a] && g.root[y] == g.root[b]) || (g.root[x] == g.root[b] && g.root[y]
            == g.root[a])),
{
    let after = g.united(a, b);
    if g.root[a] != g.root[b] {
        assert forall|i: int| 0 <= i < after.root.len() implies 0 <= #[trigger] after.root[i]
            < after.root.len() by {
            assert(0 <= g.root[i] < g.root.len());
            assert(0 <= g.root[a] < g.root.len());
            assert(0 <= g.root[b] < g.root.len());
        }
        assert forall|i: int| 0 <= i < after.root.len() implies after.root[#[trigger] after.root[i]]
            == after.root[i] by {
            assert(g.root[g.root[i]] == g.root[i]);
            assert(g.root[g.root[a]] == g.root[a]);
            assert(g.root[g.root[b]] == g.root[b]);
        }
    }
}

/// Union-find forest over lines.
pub struct Forest {
    parent: Vec<usize>,
    rank: Vec<u8>,
    /// Representative of each line.
    root: Ghost<Seq<int>>,
    /// Distance bound to the representative.
    depth: Ghost<Seq<nat>>,
}

impl Forest {
    /// Which lines are joined.
    pub closed spec fn groups(self) -> Groups {
        Groups { root: self.root@, rank: self.rank@ }
    }

    /// Following parents from any line leads to the representative of its group.
    pub closed spec fn wf(self) -> bool {
        let n = self.parent@.len();
        &&& self.rank@.len() == n
        &&& self.root@.len() == n
        &&& self.depth@.len() == n
        &&& self.groups().valid()
        &&& forall|i: int| 0 <= i < n ==> #[trigger] self.parent@[i] < n
        &&& forall|i: int|
            0 <= i < n ==> {
                let p = #[trigger] self.parent@[i] as int;
                if p == i {
                    self.root@[i] == i && self.depth@[i] == 0
                } else {
                    self.depth@[p] < self.depth@[i] && self.root@[p] == self.root@[i]
                        && self.root@[i] != i
                }
            }
    }

    /// Every line on its own.
    pub fn new(n: usize) -> (r: Forest)
        ensures
            r.wf(),
            r.groups() == Groups::apart(n as nat),
    {
        let parent: Vec<usize> = positions(n);
        let mut rank: Vec<u8> = Vec::new();
        let mut i: usize = 0;
        while i < n
            invariant
                i <= n,
                rank@ == Seq::new(i as nat, |k: int| 0u8),
            decreases n - i,
        {
            rank.push(0);
            i = i + 1;
            assert(rank@ =~= Seq::new(i as nat, |k: int| 0u8));
        }
        Forest {
            parent,
            rank,
            root: Ghost(Seq::new(n as nat, |k: int| k)),
            depth: Ghost(Seq::new(n as nat, |k: int| 0nat)),
        }
    }

    /// Representative of `x`, halving the path to it.
    pub fn find(&mut self, x: usize) -> (r: usize)
        requires
            old(self).wf(),
            x < old(self).groups().root.len(),
        ensures
            final(self).wf(),
            final(self).groups() == old(self).groups(),
            r == old(self).groups().root[x as int],
            r < old(self).groups().root.len(),
    {
        let mut x: usize = x;
        let ghost target = self.root@[x as int];
        while self.parent[x] != x
            invariant
                self.wf(),
                x < self.parent@.len(),
                self.root@[x as int] == target,
                self.root == old(self).root,
                self.rank == old(self).rank,
                self.parent@.len() == old(self).parent@.len(),
            decreases self.depth@[x as int],
        {
            let p: usize = self.parent[x];
            assert(self.parent@[x as int] < self.parent@.len());
            let up: usize = self.parent[p];
            assert(self.parent@[p as int] < self.parent@.len());
            let ghost before = self.parent@;
            self.parent.set(x, up);
            proof {
                assert forall|i: int| 0 <= i < self.parent@.len() implies {
                    let q = #[trigger] self.parent@[i] as int;
                    if q == i {
                        self.root@[i] == i && self.depth@[i] == 0
                    } else {
                        self.depth@[q] < self.depth@[i] && self.root@[q] == self.root@[i]
                            && self.root@[i] != i
                    }
                } by {
                    if i != x {
                        assert(self.parent@[i] == before[i]);
                    }
                }
                assert forall|i: int| 0 <= i < self.parent@.len() implies #[trigger] self.parent@[i]
                    < self.parent@.len() by {
                    if i != x {
                        assert(self.parent@[i] == before[i]);
                    }
                }
            }
            x = up;
        }
        assert(self.parent@[x as int] == x);
        x
    }

    /// Join the groups of `a` and `b`, by rank.
    ///
    /// They share a representative afterwards; two lines share one if and only if they did before,
    /// or one was with `a` and the other with `b`.
    pub fn union(&mut self, a: usize, b: usize)
        requires
            old(self).wf(),
            a < old(self).groups().root.len(),
            b < old(self).groups().root.len(),
        ensures
            final(self).wf(),
            final(self).groups() == old(self).groups().united(a as int, b as int),
            final(self).groups().root.len() == old(self).groups().root.len(),
            final(self).groups().root[a as int] == final(self).groups().root[b as int],
            forall|x: int, y: int|
                #![trigger final(self).groups().root[x], final(self).groups().root[y]]
                {
                    let before = old(self).groups().root;
                    0 <= x < before.len() && 0 <= y < before.len() ==> (final(self).groups().root[x]
                        == final(self).groups().root[y] <==> (before[x] == before[y] || (before[x]
                        == before[a as int] && before[y] == before[b as int]) || (before[x]
                        == before[b as int] && before[y] == before[a as int])))
                },
    {
        proof {
            let g = old(self).groups();
            law_union_joins_two_groups(g, a as int, b as int, a as int, b as int);
            assert forall|x: int, y: int|
                #![trigger g.united(a as int, b as int).root[x], g.united(a as int, b as int).root[y]]
                0 <= x < g.root.len() && 0 <= y < g.root.len() implies (g.united(
                a as int,
                b as int,
            ).root[x] == g.united(a as int, b as int).root[y] <==> (g.root[x] == g.root[y] || (
            g.root[x] == g.root[a as int] && g.root[y] == g.root[b as int]) || (g.root[x]
                == g.root[b as int] && g.root[y] == g.root[a as int]))) by {
                law_union_joins_two_groups(g, a as int, b as int, x, y);
            }
        }
        let mut ra: usize = self.find(a);
        let mut rb: usize = self.find(b);
        if ra == rb {
            return;
        }
        if self.rank[ra] < self.rank[rb] {
            let swap: usize = ra;
            ra = rb;
            rb = swap;
        }
        let ghost before = *self;
        proof {
            assert(before.root@[ra as int] == ra) by {
                assert(before.root@[before.root@[a as int]] == before.root@[a as int]);
                assert(before.root@[before.root@[b as int]] == before.root@[b as int]);
            }
            assert(before.root@[rb as int] == rb) by {
                assert(before.root@[before.root@[a as int]] == before.root@[a as int]);
                assert(before.root@[before.root@[b as int]] == before.root@[b as int]);
            }
            assert(before.parent@[ra as int] == ra);
            assert(before.parent@[rb as int] == rb);
        }
        self.parent.set(rb, ra);
        let level: u8 = self.rank[ra];
        if level == self.rank[rb] && level < u8::MAX {
            self.rank.set(ra, level + 1);
        }
        self.root = Ghost(
            before.root@.map_values(
                |r: int|
                    if r == rb as int {
                        ra as int
                    } else {
                        r
                    },
            ),
        );
        self.depth = Ghost(
            Seq::new(
                before.depth@.len(),
                |i: int|
                    if before.root@[i] == rb as int {
                        before.depth@[i] + 1
                    } else {
                        before.depth@[i]
                    },
            ),
        );
        proof {
            assert(self.groups() =~= before.groups().united(a as int, b as int));
            assert forall|i: int| 0 <= i < self.parent@.len() implies {
                let q = #[trigger] self.parent@[i] as int;
                if q == i {
                    self.root@[i] == i && self.depth@[i] == 0
                } else {
                    self.depth@[q] < self.depth@[i] && self.root@[q] == self.root@[i]
                        && self.root@[i] != i
                }
            } by {
                assert(before.parent@[i] < before.parent@.len());
                if i != rb {
                    assert(self.parent@[i] == before.parent@[i]);
                    if before.root@[i] != i && before.root@[i] == rb {
                        assert(i != ra);
                    }
                }
            }
            assert(self.groups().valid()) by {
                assert forall|i: int| 0 <= i < self.root@.len() implies 0
                    <= #[trigger] self.root@[i] < self.root@.len() by {
                    assert(0 <= before.root@[i] < before.root@.len());
                }
                assert forall|i: int| 0 <= i < self.root@.len() implies self.root@[#[trigger]
                self.root@[i]] == self.root@[i] by {
                    assert(before.root@[before.root@[i]] == before.root@[i]);
                    assert(0 <= before.root@[i] < before.root@.len());
                }
            }
        }
    }
}

/// The groups after the links of the first `k` lines were joined.
pub open spec fn linked(
    table: Seq<Vec<PairMeasure>>,
    limits: MergeLimits,
    neighbor: Neighbor,
    k: int,
) -> Groups
    decreases k,
{
    if k <= 0 {
        Groups::apart(table.len())
    } else {
        let before = linked(table, limits, neighbor, k - 1);
        match limits.link(table, neighbor, k - 1) {
            Some(j) => before.united(k - 1, j),
            None => before,
        }
    }
}

/// The lines below `n` that `r` represents, in order.
pub open spec fn members_of(root: Seq<int>, r: int, n: int) -> Seq<usize>
    decreases n,
{
    if n <= 0 {
        Seq::empty()
    } else if root[n - 1] == r {
        members_of(root, r, n - 1).push((n - 1) as usize)
    } else {
        members_of(root, r, n - 1)
    }
}

/// The groups of the representatives below `n`, in order.
pub open spec fn group_list(root: Seq<int>, n: int) -> Seq<Seq<usize>>
    decreases n,
{
    if n <= 0 {
        Seq::empty()
    } else {
        let before = group_list(root, n - 1);
        let members = members_of(root, n - 1, root.len() as int);
        if members.len() == 0 {
            before
        } else {
            before.push(members)
        }
    }
}

/// The groups that one direction joins.
pub open spec fn neighbor_groups(
    table: Seq<Vec<PairMeasure>>,
    limits: MergeLimits,
    neighbor: Neighbor,
) -> Seq<Seq<usize>> {
    let root = linked(table, limits, neighbor, table.len() as int).root;
    group_list(root, root.len() as int)
}

/// Views of a list of groups.
pub open spec fn group_views(groups: Seq<Vec<usize>>) -> Seq<Seq<usize>> {
    groups.map_values(|g: Vec<usize>| g@)
}

/// Members are lines.
pub proof fn lemma_members_bound(root: Seq<int>, r: int, n: int)
    requires
        0 <= n <= root.len(),
        root.len() <= usize::MAX,
    ensures
        positions_below(members_of(root, r, n), n),
        members_of(root, r, n).len() <= n,
    decreases n,
{
    if n > 0 {
        lemma_members_bound(root, r, n - 1);
    }
}

/// Join each line with its nearest continuation in one direction.
///
/// The groups come in the order of their representatives, their members in line order.
pub fn join_nearest(table: &Vec<Vec<PairMeasure>>, limits: &MergeLimits, neighbor: Neighbor) -> (r:
    Vec<Vec<usize>>)
    requires
        square(table@, table@.len() as int),
    ensures
        group_views(r@) == neighbor_groups(table@, *limits, neighbor),
        forall|g: int|
            0 <= g < r@.len() ==> (#[trigger] r@[g])@.len() > 0 && positions_below(
                r@[g]@,
                table@.len() as int,
            ),
{
    let n: usize = table.len();
    let mut forest: Forest = Forest::new(n);
    let mut i: usize = 0;
    while i < n
        invariant
            i <= n,
            n == table@.len(),
            square(table@, n as int),
            forest.wf(),
            forest.parent@.len() == n,
            forest.groups() == linked(table@, *limits, neighbor, i as int),
        decreases n - i,
    {
        match limits.find_nearest(table, neighbor, i) {
            Some(j) => {
                if !limits.has_intervening(table, i, j) {
                    forest.union(i, j);
                }
            },
            None => {},
        }
        i = i + 1;
    }
    let ghost root = forest.root@;
    let mut out: Vec<Vec<usize>> = Vec::new();
    let mut r: usize = 0;
    assert(group_views(out@) =~= group_list(root, 0));
    while r < n
        invariant
            r <= n,
            n == root.len(),
            forest.wf(),
            forest.parent@.len() == n,
            forest.root@ == root,
            group_views(out@) == group_list(root, r as int),
            forall|g: int|
                0 <= g < out@.len() ==> (#[trigger] out@[g])@.len() > 0 && positions_below(
                    out@[g]@,
                    n as int,
                ),
        decreases n - r,
    {
        let mut members: Vec<usize> = Vec::new();
        let mut k: usize = 0;
        while k < n
            invariant
                k <= n,
                r < n,
                n == root.len(),
                forest.wf(),
                forest.parent@.len() == n,
                forest.root@ == root,
                members@ == members_of(root, r as int, k as int),
            decreases n - k,
        {
            if forest.find(k) == r {
                members.push(k);
            }
            k = k + 1;
        }
        proof {
            lemma_members_bound(root, r as int, n as int);
        }
        if members.len() > 0 {
            let ghost before = out@;
            out.push(members);
            assert(group_views(out@) =~= group_views(before).push(members@));
        }
        r = r + 1;
    }
    out
}

proof fn lemma_nearest_range(
    limits: MergeLimits,
    table: Seq<Vec<PairMeasure>>,
    neighbor: Neighbor,
    i: int,
    n: int,
)
    ensures
        limits.nearest(table, neighbor, i, n) matches Some(j) ==> 0 <= j < n && j != i
            && limits.links(table[i]@[j], neighbor),
    decreases n,
{
    if n > 0 {
        lemma_nearest_range(limits, table, neighbor, i, n - 1);
    }
}

/// The representatives stay valid while lines are joined.
pub proof fn lemma_linked_valid(
    table: Seq<Vec<PairMeasure>>,
    limits: MergeLimits,
    neighbor: Neighbor,
    k: int,
)
    requires
        k <= table.len(),
    ensures
        linked(table, limits, neighbor, k).valid(),
        linked(table, limits, neighbor, k).root.len() == table.len(),
    decreases k,
{
    if k > 0 {
        lemma_linked_valid(table, limits, neighbor, k - 1);
        lemma_nearest_range(limits, table, neighbor, k - 1, table.len() as int);
        let g = linked(table, limits, neighbor, k - 1);
        match limits.link(table, neighbor, k - 1) {
            Some(j) => {
                let a = k - 1;
                assert(g.root[g.root[a]] == g.root[a]);
                assert(g.root[g.root[j]] == g.root[j]);
                let u = g.united(a, j);
                if g.root[a] != g.root[j] {
                    assert forall|i: int| 0 <= i < u.root.len() implies 0 <= #[trigger] u.root[i]
                        < u.root.len() by {
                        assert(0 <= g.root[i] < g.root.len());
                    }
                    assert forall|i: int| 0 <= i < u.root.len() implies u.root[#[trigger] u.root[i]]
                        == u.root[i] by {
                        assert(g.root[g.root[i]] == g.root[i]);
                        assert(0 <= g.root[i] < g.root.len());
                    }
                }
            },
            None => {},
        }
    }
}

/// A line and the line that continues it end up in the same group.
pub proof fn law_linked_lines_share_a_group(
    table: Seq<Vec<PairMeasure>>,
    limits: MergeLimits,
    neighbor: Neighbor,
    k: int,
    i: int,
)
    requires
        0 <= i < k <= table.len(),
        limits.link(table, neighbor, i) is Some,
    ensures
        linked(table, limits, neighbor, k).root[i] == linked(
            table,
            limits,
            neighbor,
            k,
        ).root[limits.link(table, neighbor, i)->0],
    decreases k,
{
    lemma_linked_valid(table, limits, neighbor, k - 1);
    lemma_nearest_range(limits, table, neighbor, i, table.len() as int);
    lemma_nearest_range(limits, table, neighbor, k - 1, table.len() as int);
    if i < k - 1 {
        law_linked_lines_share_a_group(table, limits, neighbor, k - 1, i);
    }
}

/// Consecutive lines of `path` are joined by a link, in either direction.
pub open spec fn is_chain(
    table: Seq<Vec<PairMeasure>>,
    limits: MergeLimits,
    neighbor: Neighbor,
    path: Seq<int>,
) -> bool {
    &&& forall|p: int| 0 <= p < path.len() ==> 0 <= #[trigger] path[p] < table.len()
    &&& forall|p: int, q: int|
        0 <= p && q == p + 1 && q < path.len() ==> chained(
            table,
            limits,
            neighbor,
            #[trigger] path[p],
            #[trigger] path[q],
        )
}

/// One of the two lines continues the other.
pub open spec fn chained(
    table: Seq<Vec<PairMeasure>>,
    limits: MergeLimits,
    neighbor: Neighbor,
    a: int,
    b: int,
) -> bool {
    limits.link(table, neighbor, a) == Some(b) || limits.link(table, neighbor, b) == Some(a)
}

/// A chain of links leads from `a` to `b`.
pub open spec fn connected(
    table: Seq<Vec<PairMeasure>>,
    limits: MergeLimits,
    neighbor: Neighbor,
    a: int,
    b: int,
) -> bool {
    exists|path: Seq<int>|
        #![trigger is_chain(table, limits, neighbor, path)]
        is_chain(table, limits, neighbor, path) && path.len() > 0 && path[0] == a && path.last()
            == b
}

proof fn lemma_connected_refl(
    table: Seq<Vec<PairMeasure>>,
    limits: MergeLimits,
    neighbor: Neighbor,
    a: int,
)
    requires
        0 <= a < table.len(),
    ensures
        connected(table, limits, neighbor, a, a),
{
    let path = seq![a];
    assert(is_chain(table, limits, neighbor, path));
    assert(path[0] == a && path.last() == a);
}

proof fn lemma_connected_sym(
    table: Seq<Vec<PairMeasure>>,
    limits: MergeLimits,
    neighbor: Neighbor,
    a: int,
    b: int,
)
    requires
        connected(table, limits, neighbor, a, b),
    ensures
        connected(table, limits, neighbor, b, a),
{
    let path = choose|path: Seq<int>|
        #![trigger is_chain(table, limits, neighbor, path)]
        is_chain(table, limits, neighbor, path) && path.len() > 0 && path[0] == a && path.last()
            == b;
    let back = path.reverse();
    assert(is_chain(table, limits, neighbor, back)) by {
        let n = path.len() as int;
        assert forall|p: int| 0 <= p < back.len() implies 0 <= #[trigger] back[p] < table.len() by {
            assert(back[p] == path[n - 1 - p]);
        }
        assert forall|p: int, q: int| 0 <= p && q == p + 1 && q < back.len() implies chained(
            table,
            limits,
            neighbor,
            #[trigger] back[p],
            #[trigger] back[q],
        ) by {
            assert(back[p] == path[n - 1 - p]);
            assert(back[q] == path[n - 1 - q]);
            assert(chained(table, limits, neighbor, path[n - 1 - q], path[n - 1 - p]));
        }
    }
    assert(back[0] == b && back.last() == a);
}

proof fn lemma_connected_trans(
    table: Seq<Vec<PairMeasure>>,
    limits: MergeLimits,
    neighbor: Neighbor,
    a: int,
    b: int,
    c: int,
)
    requires
        connected(table, limits, neighbor, a, b),
        connected(table, limits, neighbor, b, c),
    ensures
        connected(table, limits, neighbor, a, c),
{
    let x = choose|path: Seq<int>|
        #![trigger is_chain(table, limits, neighbor, path)]
        is_chain(table, limits, neighbor, path) && path.len() > 0 && path[0] == a && path.last()
            == b;
    let y = choose|path: Seq<int>|
        #![trigger is_chain(table, limits, neighbor, path)]
        is_chain(table, limits, neighbor, path) && path.len() > 0 && path[0] == b && path.last()
            == c;
    let z = x + y.skip(1);
    let n = x.len() as int;
    assert(is_chain(table, limits, neighbor, z)) by {
        assert forall|p: int| 0 <= p < z.len() implies 0 <= #[trigger] z[p] < table.len() by {
            if p < n {
                assert(z[p] == x[p]);
            } else {
                assert(z[p] == y[p - n + 1]);
            }
        }
        assert forall|p: int, q: int| 0 <= p && q == p + 1 && q < z.len() implies chained(
            table,
            limits,
            neighbor,
            #[trigger] z[p],
            #[trigger] z[q],
        ) by {
            if q < n {
                assert(z[p] == x[p] && z[q] == x[q]);
            } else if p < n {
                assert(z[p] == x[n - 1]);
                assert(x[n - 1] == y[0]);
                assert(z[q] == y[1]);
                assert(chained(table, limits, neighbor, y[0], y[1]));
            } else {
                assert(z[p] == y[p - n + 1] && z[q] == y[q - n + 1]);
            }
        }
    }
    assert(z[0] == a);
    assert(z.last() == c) by {
        if y.len() == 1 {
            assert(z =~= x);
        } else {
            assert(z.last() == y.last());
        }
    }
}

/// Lines that end up in the same group are joined by a chain of links: merging glues nothing
/// together that no rule linked.
pub proof fn law_groups_are_chains(
    table: Seq<Vec<PairMeasure>>,
    limits: MergeLimits,
    neighbor: Neighbor,
    k: int,
    x: int,
    y: int,
)
    requires
        0 <= k <= table.len(),
        0 <= x < table.len(),
        0 <= y < table.len(),
        linked(table, limits, neighbor, k).root[x] == linked(table, limits, neighbor, k).root[y],
    ensures
        connected(table, limits, neighbor, x, y),
    decreases k,
{
    if k == 0 {
        assert(x == y);
        lemma_connected_refl(table, limits, neighbor, x);
    } else {
        let g = linked(table, limits, neighbor, k - 1);
        lemma_linked_valid(table, limits, neighbor, k - 1);
        if g.root[x] == g.root[y] {
            law_groups_are_chains(table, limits, neighbor, k - 1, x, y);
        } else {
            let a = k - 1;
            let j = limits.link(table, neighbor, a)->0;
            assert(limits.link(table, neighbor, a) is Some);
            lemma_nearest_range(limits, table, neighbor, a, table.len() as int);
            let path = seq![a, j];
            assert(chained(table, limits, neighbor, a, j));
            assert(is_chain(table, limits, neighbor, path));
            assert(path[0] == a && path.last() == j);
            assert(connected(table, limits, neighbor, a, j));
            lemma_connected_sym(table, limits, neighbor, a, j);
            if g.root[x] == g.root[a] {
                assert(g.root[y] == g.root[j]);
                law_groups_are_chains(table, limits, neighbor, k - 1, x, a);
                law_groups_are_chains(table, limits, neighbor, k - 1, j, y);
                lemma_connected_trans(table, limits, neighbor, x, a, j);
                lemma_connected_trans(table, limits, neighbor, x, j, y);
            } else {
                assert(g.root[x] == g.root[j]);
                assert(g.root[y] == g.root[a]);
                law_groups_are_chains(table, limits, neighbor, k - 1, x, j);
                law_groups_are_chains(table, limits, neighbor, k - 1, a, y);
                lemma_connected_trans(table, limits, neighbor, x, j, a);
                lemma_connected_trans(table, limits, neighbor, x, a, y);
            }
        }
    }
}

/// Every line is a member of the group of its representative and of no other, once.
pub proof fn law_members_partition(root: Seq<int>, r: int, n: int)
    requires
        0 <= n <= root.len(),
        root.len() <= usize::MAX,
    ensures
        forall|i: usize| #[trigger]
            members_of(root, r, n).contains(i) <==> (i < n && root[i as int] == r),
        forall|p: int, q: int|
            0 <= p < q < members_of(root, r, n).len() ==> #[trigger] members_of(root, r, n)[p]
                < #[trigger] members_of(root, r, n)[q],
    decreases n,
{
    let m = members_of(root, r, n);
    if n > 0 {
        law_members_partition(root, r, n - 1);
        lemma_members_bound(root, r, n - 1);
        let before = members_of(root, r, n - 1);
        assert forall|i: usize| #[trigger] m.contains(i) <==> (i < n && root[i as int] == r) by {
            if root[n - 1] == r {
                if m.contains(i) {
                    let p = choose|p: int| 0 <= p < m.len() && m[p] == i;
                    if p < before.len() {
                        assert(before[p] == i);
                        assert(before.contains(i));
                    }
                }
                if i < n && root[i as int] == r {
                    if i == n - 1 {
                        assert(m.last() == i);
                    } else {
                        assert(before.contains(i));
                        let p = choose|p: int| 0 <= p < before.len() && before[p] == i;
                        assert(m[p] == i);
                    }
                }
            } else {
                assert(before.contains(i) <==> (i < n - 1 && root[i as int] == r));
            }
        }
    }
}

/// One of the groups holds both lines.
pub open spec fn grouped(groups: Seq<Seq<usize>>, a: int, b: int) -> bool {
    exists|g: int|
        0 <= g < groups.len() && (#[trigger] groups[g]).contains(a as usize) && groups[g].contains(
            b as usize,
        )
}

proof fn lemma_group_list_has(root: Seq<int>, n: int, x: int)
    requires
        0 <= n <= root.len(),
        root.len() <= usize::MAX,
        0 <= x < root.len(),
        0 <= root[x] < n,
    ensures
        exists|g: int|
            0 <= g < group_list(root, n).len() && #[trigger] group_list(root, n)[g] == members_of(
                root,
                root[x],
                root.len() as int,
            ),
        members_of(root, root[x], root.len() as int).contains(x as usize),
    decreases n,
{
    let members = members_of(root, root[x], root.len() as int);
    law_members_partition(root, root[x], root.len() as int);
    assert(members.contains(x as usize));
    let list = group_list(root, n);
    if root[x] == n - 1 {
        assert(members.len() > 0);
        assert(list[list.len() - 1] == members);
    } else {
        lemma_group_list_has(root, n - 1, x);
        let before = group_list(root, n - 1);
        let g = choose|g: int| 0 <= g < before.len() && #[trigger] before[g] == members;
        assert(list[g] == before[g]);
    }
}

proof fn lemma_group_list_of(root: Seq<int>, n: int, g: int)
    requires
        0 <= n <= root.len(),
        0 <= g < group_list(root, n).len(),
    ensures
        exists|r: int|
            0 <= r < n && group_list(root, n)[g] == #[trigger] members_of(
                root,
                r,
                root.len() as int,
            ),
        group_list(root, n)[g].len() > 0,
    decreases n,
{
    let before = group_list(root, n - 1);
    if g < before.len() {
        lemma_group_list_of(root, n - 1, g);
        let r = choose|r: int|
            0 <= r < n - 1 && before[g] == #[trigger] members_of(root, r, root.len() as int);
        assert(group_list(root, n)[g] == members_of(root, r, root.len() as int));
    } else {
        assert(group_list(root, n)[g] == members_of(root, n - 1, root.len() as int));
    }
}

proof fn lemma_grouped_by_root(
    table: Seq<Vec<PairMeasure>>,
    limits: MergeLimits,
    neighbor: Neighbor,
    x: int,
    y: int,
)
    requires
        table.len() <= usize::MAX,
        0 <= x < table.len(),
        0 <= y < table.len(),
    ensures
        grouped(neighbor_groups(table, limits, neighbor), x, y) <==> linked(
            table,
            limits,
            neighbor,
            table.len() as int,
        ).root[x] == linked(table, limits, neighbor, table.len() as int).root[y],
{
    let root = linked(table, limits, neighbor, table.len() as int).root;
    let groups = neighbor_groups(table, limits, neighbor);
    let n = root.len() as int;
    lemma_linked_valid(table, limits, neighbor, table.len() as int);
    assert(0 <= root[x] < n);
    lemma_group_list_has(root, n, x);
    law_members_partition(root, root[x], n);
    let members = members_of(root, root[x], n);
    if root[x] == root[y] {
        let g = choose|g: int| 0 <= g < groups.len() && #[trigger] groups[g] == members;
        assert(members.contains(y as usize));
        assert(groups[g].contains(x as usize) && groups[g].contains(y as usize));
    }
    if grouped(groups, x, y) {
        let g = choose|g: int|
            0 <= g < groups.len() && (#[trigger] groups[g]).contains(x as usize)
                && groups[g].contains(y as usize);
        lemma_group_list_of(root, n, g);
        let r = choose|r: int| 0 <= r < n && groups[g] == #[trigger] members_of(root, r, n);
        law_members_partition(root, r, n);
        assert(members_of(root, r, n).contains(x as usize));
        assert(members_of(root, r, n).contains(y as usize));
    }
}

/// The groups are a partition of the lines: each line is in one of them and in no other, and the
/// lines of a group come in order, none twice.
pub proof fn law_groups_partition_the_lines(
    table: Seq<Vec<PairMeasure>>,
    limits: MergeLimits,
    neighbor: Neighbor,
)
    requires
        table.len() <= usize::MAX,
    ensures
        ({
            let groups = neighbor_groups(table, limits, neighbor);
            &&& forall|x: int|
                #![trigger grouped(groups, x, x)]
                0 <= x < table.len() ==> grouped(groups, x, x)
            &&& forall|g: int, h: int, x: usize|
                0 <= g < groups.len() && 0 <= h < groups.len() && #[trigger] groups[g].contains(x)
                    && #[trigger] groups[h].contains(x) ==> g == h
            &&& forall|g: int, p: int, q: int|
                #![trigger groups[g][p], groups[g][q]]
                0 <= g < groups.len() && 0 <= p < q < groups[g].len() ==> groups[g][p]
                    < groups[g][q]
            &&& forall|g: int, p: int|
                #![trigger groups[g][p]]
                0 <= g < groups.len() && 0 <= p < groups[g].len() ==> groups[g][p] < table.len()
            &&& forall|g: int| 0 <= g < groups.len() ==> (#[trigger] groups[g]).len() > 0
        }),
{
    let root = linked(table, limits, neighbor, table.len() as int).root;
    let groups = neighbor_groups(table, limits, neighbor);
    let n = root.len() as int;
    lemma_linked_valid(table, limits, neighbor, table.len() as int);
    assert forall|x: int| #![trigger grouped(groups, x, x)] 0 <= x < table.len() implies grouped(
        groups,
        x,
        x,
    ) by {
        lemma_grouped_by_root(table, limits, neighbor, x, x);
    }
    assert forall|g: int| 0 <= g < groups.len() implies (#[trigger] groups[g]).len() > 0 by {
        lemma_group_list_of(root, n, g);
    }
    assert forall|g: int, p: int, q: int|
        #![trigger groups[g][p], groups[g][q]]
        0 <= g < groups.len() && 0 <= p < q < groups[g].len() implies groups[g][p] < groups[g][q] by {
        lemma_group_list_of(root, n, g);
        let r = choose|r: int| 0 <= r < n && groups[g] == #[trigger] members_of(root, r, n);
        law_members_partition(root, r, n);
    }
    assert forall|g: int, p: int|
        #![trigger groups[g][p]]
        0 <= g < groups.len() && 0 <= p < groups[g].len() implies groups[g][p] < table.len() by {
        lemma_group_list_of(root, n, g);
        let r = choose|r: int| 0 <= r < n && groups[g] == #[trigger] members_of(root, r, n);
        lemma_members_bound(root, r, n);
    }
    assert forall|g: int, h: int, x: usize|
        0 <= g < groups.len() && 0 <= h < groups.len() && #[trigger] groups[g].contains(x)
            && #[trigger] groups[h].contains(x) implies g == h by {
        lemma_list_members_differ(root, n, g, h, x);
    }
}

proof fn lemma_list_members_differ(root: Seq<int>, n: int, g: int, h: int, x: usize)
    requires
        0 <= n <= root.len(),
        root.len() <= usize::MAX,
        0 <= g < group_list(root, n).len(),
        0 <= h < group_list(root, n).len(),
        group_list(root, n)[g].contains(x),
        group_list(root, n)[h].contains(x),
    ensures
        g == h,
    decreases n,
{
    let before = group_list(root, n - 1);
    if g < before.len() && h < before.len() {
        lemma_list_members_differ(root, n - 1, g, h, x);
    } else if g != h {
        let k = if g < h {
            g
        } else {
            h
        };
        lemma_group_list_of(root, n - 1, k);
        let r = choose|r: int|
            0 <= r < n - 1 && before[k] == #[trigger] members_of(root, r, root.len() as int);
        law_members_partition(root, r, root.len() as int);
        law_members_partition(root, n - 1, root.len() as int);
        assert(members_of(root, r, root.len() as int).contains(x));
        assert(members_of(root, n - 1, root.len() as int).contains(x));
    }
}

proof fn lemma_nearest_is(
    limits: MergeLimits,
    table: Seq<Vec<PairMeasure>>,
    neighbor: Neighbor,
    i: int,
    j: int,
    n: int,
)
    requires
        0 <= n <= table.len(),
        0 <= j < table.len(),
        j != i,
        limits.links(table[i]@[j], neighbor),
        forall|k: int|
            #![trigger table[i]@[k]]
            0 <= k < table.len() && k != i && k != j ==> !limits.links(table[i]@[k], neighbor) || (
            table[i]@[j].gap_slack.less(table[i]@[k].gap) && !table[i]@[k].gap_slack.less(
                table[i]@[j].gap,
            )),
    ensures
        n > j ==> limits.nearest(table, neighbor, i, n) == Some(j),
    decreases n,
{
    if n > 0 {
        lemma_nearest_is(limits, table, neighbor, i, j, n - 1);
        lemma_nearest_range(limits, table, neighbor, i, n - 1);
        assert(table[i]@[n - 1] == table[i]@[n - 1]);
        match limits.nearest(table, neighbor, i, n - 1) {
            Some(b) => {
                assert(table[i]@[b] == table[i]@[b]);
            },
            None => {},
        }
    }
}

/// A line is joined with the line that follows it: where line `j` lies ahead of line `i` (below
/// it, or to its right) within the limits for gap and height, their edges or their centers are
/// within the limit of alignment, either being enough, a lower line is not much wider where that
/// counts, every other line is out of those limits or farther away, and no aligned line lies in
/// the gap, both are in the same group.
pub proof fn law_following_lines_are_joined(
    table: Seq<Vec<PairMeasure>>,
    limits: MergeLimits,
    neighbor: Neighbor,
    i: int,
    j: int,
)
    requires
        table.len() <= usize::MAX,
        0 <= i < table.len(),
        0 <= j < table.len(),
        i != j,
        (!table[i]@[j].reach.nan() && table[i]@[j].reach.rank() >= 0),
        table[i]@[j].gap_ratio.at_most(limits.gap),
        table[i]@[j].height_ratio.at_most(limits.height),
        table[i]@[j].edge_ratio.at_most(limits.align) || table[i]@[j].center_ratio.at_most(
            limits.align,
        ),
        neighbor == Neighbor::Right || !limits.reject_short_long || !table[i]@[j].width_slack.less(
            table[i]@[j].width,
        ) || !limits.width.at_most(table[i]@[j].width_ratio),
        forall|k: int|
            #![trigger table[i]@[k]]
            0 <= k < table.len() && k != i && k != j ==> ({
                ||| !(!table[i]@[k].reach.nan() && table[i]@[k].reach.rank() >= 0)
                ||| !table[i]@[k].gap_ratio.at_most(limits.gap)
                ||| !table[i]@[k].height_ratio.at_most(limits.height)
                ||| !table[i]@[k].edge_ratio.at_most(limits.align)
                    && !table[i]@[k].center_ratio.at_most(limits.align)
                ||| table[i]@[j].gap_slack.less(table[i]@[k].gap) && !table[i]@[k].gap_slack.less(
                    table[i]@[j].gap,
                )
            }),
        table[i]@[j].open_ratio.at_most(limits.zero) || forall|k: int|
            #![trigger table[i]@[k], table[k]@[j]]
            0 <= k < table.len() && k != i && k != j ==> ({
                ||| table[i]@[k].beyond_ratio.at_most(limits.zero)
                ||| (!table[k]@[j].before_ratio.nan() && table[k]@[j].before_ratio.rank() >= 0)
                ||| !table[i]@[k].edge_ratio.at_most(limits.align)
                    && !table[i]@[k].center_ratio.at_most(limits.align)
                ||| !table[k]@[j].edge_ratio.at_most(limits.align)
                    && !table[k]@[j].center_ratio.at_most(limits.align)
            }),
    ensures
        grouped(neighbor_groups(table, limits, neighbor), i, j),
{
    let n = table.len() as int;
    lemma_nearest_is(limits, table, neighbor, i, j, n);
    if limits.intervening(table, i, j) {
        let k = choose|k: int| 0 <= k < table.len() && #[trigger] limits.lies_between(
            table,
            i,
            j,
            k,
        );
        assert(table[i]@[k] == table[i]@[k]);
        assert(table[k]@[j] == table[k]@[j]);
    }
    law_linked_lines_share_a_group(table, limits, neighbor, n, i);
    lemma_grouped_by_root(table, limits, neighbor, i, j);
}

/// Line `b` lies ahead of line `a` within the limits for gap and height, aligned by its edges or
/// by its centers, and is not a much wider line below a shorter one where that counts. Nothing
/// that is aligned with both lies in a gap between them.
pub open spec fn can_follow(
    table: Seq<Vec<PairMeasure>>,
    limits: MergeLimits,
    neighbor: Neighbor,
    a: int,
    b: int,
) -> bool {
    let m = table[a]@[b];
    &&& a != b
    &&& (!m.reach.nan() && m.reach.rank() >= 0)
    &&& m.gap_ratio.at_most(limits.gap)
    &&& m.height_ratio.at_most(limits.height)
    &&& m.edge_ratio.at_most(limits.align) || m.center_ratio.at_most(limits.align)
    &&& neighbor == Neighbor::Below && limits.reject_short_long ==> !(m.width_slack.less(m.width)
        && limits.width.at_most(m.width_ratio))
    &&& m.open_ratio.at_most(limits.zero) || forall|k: int|
        #![trigger table[a]@[k], table[k]@[b]]
        0 <= k < table.len() && k != a && k != b ==> {
            ||| table[a]@[k].beyond_ratio.at_most(limits.zero)
            ||| (!table[k]@[b].before_ratio.nan() && table[k]@[b].before_ratio.rank() >= 0)
            ||| !table[a]@[k].edge_ratio.at_most(limits.align)
                && !table[a]@[k].center_ratio.at_most(limits.align)
            ||| !table[k]@[b].edge_ratio.at_most(limits.align)
                && !table[k]@[b].center_ratio.at_most(limits.align)
        }
}

/// Lines of one group are joined by steps, each from a line to one that can follow it or that it
/// can follow: what is too far apart, of another size or out of line is kept apart.
pub proof fn law_joined_lines_follow_each_other(
    table: Seq<Vec<PairMeasure>>,
    limits: MergeLimits,
    neighbor: Neighbor,
    x: int,
    y: int,
)
    requires
        table.len() <= usize::MAX,
        0 <= x < table.len(),
        0 <= y < table.len(),
        grouped(neighbor_groups(table, limits, neighbor), x, y),
    ensures
        exists|path: Seq<int>| #[trigger]
            path.len() > 0 && path[0] == x && path.last() == y && (forall|p: int|
                0 <= p < path.len() ==> 0 <= #[trigger] path[p] < table.len()) && (forall|
                p: int,
                q: int,
            |
                0 <= p && q == p + 1 && q < path.len() ==> can_follow(
                    table,
                    limits,
                    neighbor,
                    #[trigger] path[p],
                    #[trigger] path[q],
                ) || can_follow(table, limits, neighbor, path[q], path[p])),
{
    let n = table.len() as int;
    lemma_grouped_by_root(table, limits, neighbor, x, y);
    law_groups_are_chains(table, limits, neighbor, n, x, y);
    let path = choose|path: Seq<int>|
        #![trigger is_chain(table, limits, neighbor, path)]
        is_chain(table, limits, neighbor, path) && path.len() > 0 && path[0] == x && path.last()
            == y;
    assert forall|p: int, q: int| 0 <= p && q == p + 1 && q < path.len() implies can_follow(
        table,
        limits,
        neighbor,
        #[trigger] path[p],
        #[trigger] path[q],
    ) || can_follow(table, limits, neighbor, path[q], path[p]) by {
        assert(chained(table, limits, neighbor, path[p], path[q]));
        lemma_link_follows(table, limits, neighbor, path[p]);
        lemma_link_follows(table, limits, neighbor, path[q]);
    }
    assert(path.len() > 0);
}

proof fn lemma_link_follows(
    table: Seq<Vec<PairMeasure>>,
    limits: MergeLimits,
    neighbor: Neighbor,
    a: int,
)
    ensures
        limits.link(table, neighbor, a) matches Some(b) ==> can_follow(
            table,
            limits,
            neighbor,
            a,
            b,
        ),
{
    lemma_nearest_range(limits, table, neighbor, a, table.len() as int);
    match limits.link(table, neighbor, a) {
        Some(b) => {
            if !table[a]@[b].open_ratio.at_most(limits.zero) {
                assert forall|k: int|
                    #![trigger table[a]@[k], table[k]@[b]]
                    0 <= k < table.len() && k != a && k != b implies {
                    ||| table[a]@[k].beyond_ratio.at_most(limits.zero)
                    ||| (!table[k]@[b].before_ratio.nan() && table[k]@[b].before_ratio.rank() >= 0)
                    ||| !table[a]@[k].edge_ratio.at_most(limits.align)
                        && !table[a]@[k].center_ratio.at_most(limits.align)
                    ||| !table[k]@[b].edge_ratio.at_most(limits.align)
                        && !table[k]@[b].center_ratio.at_most(limits.align)
                } by {
                    assert(!limits.lies_between(table, a, b, k));
                }
            }
        },
        None => {},
    }
}

/// A line is joined with the nearest of the lines that can follow it: where gaps are numbers and
/// the slack does not shrink them, no other such line is nearer by more than the slack.
pub proof fn law_nearest_line_is_chosen(
    table: Seq<Vec<PairMeasure>>,
    limits: MergeLimits,
    neighbor: Neighbor,
    i: int,
    n: int,
)
    requires
        0 <= n <= table.len(),
        forall|k: int|
            #![trigger table[i]@[k]]
            0 <= k < table.len() ==> !table[i]@[k].gap.nan() && !table[i]@[k].gap_slack.nan()
                && table[i]@[k].gap.rank() <= table[i]@[k].gap_slack.rank(),
    ensures
        match limits.nearest(table, neighbor, i, n) {
            Some(j) => 0 <= j < n && j != i && forall|k: int|
                #![trigger table[i]@[k]]
                0 <= k < n && k != i && (!table[i]@[k].reach.nan() && table[i]@[k].reach.rank() >= 0)
                    && table[i]@[k].gap_ratio.at_most(limits.gap)
                    && table[i]@[k].height_ratio.at_most(limits.height) && (
                table[i]@[k].edge_ratio.at_most(limits.align) || table[i]@[k].center_ratio.at_most(
                    limits.align,
                )) && !(neighbor == Neighbor::Below && limits.reject_short_long
                    && table[i]@[k].width_slack.less(table[i]@[k].width) && limits.width.at_most(
                    table[i]@[k].width_ratio,
                )) ==> table[i]@[j].gap.rank() <= table[i]@[k].gap_slack.rank(),
            None => forall|k: int|
                #![trigger table[i]@[k]]
                0 <= k < n && k != i ==> !((!table[i]@[k].reach.nan() && table[i]@[k].reach.rank() >= 0)
                    && table[i]@[k].gap_ratio.at_most(limits.gap)
                    && table[i]@[k].height_ratio.at_most(limits.height) && (
                table[i]@[k].edge_ratio.at_most(limits.align) || table[i]@[k].center_ratio.at_most(
                    limits.align,
                )) && !(neighbor == Neighbor::Below && limits.reject_short_long
                    && table[i]@[k].width_slack.less(table[i]@[k].width) && limits.width.at_most(
                    table[i]@[k].width_ratio,
                ))),
        },
    decreases n,
{
    if n > 0 {
        law_nearest_line_is_chosen(table, limits, neighbor, i, n - 1);
        assert(table[i]@[n - 1] == table[i]@[n - 1]);
        match limits.nearest(table, neighbor, i, n - 1) {
            Some(b) => {
                assert(table[i]@[b] == table[i]@[b]);
            },
            None => {},
        }
    }
}

} // verus!
