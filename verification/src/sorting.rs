//! Stable ordering of positions by integer keys.

use vstd::prelude::*;
use vstd::seq_lib::*;

verus! {

/// Key compared component by component.
#[derive(Clone, Copy, Debug, PartialEq, Eq, Structural)]
pub struct SortKey {
    pub major: i64,
    pub middle: i64,
    pub minor: i64,
}

impl SortKey {
    /// `self` does not come after `other`.
    pub open spec fn le(self, other: SortKey) -> bool {
        self.major < other.major || (self.major == other.major && (self.middle < other.middle || (
        self.middle == other.middle && self.minor <= other.minor)))
    }

    /// `self` does not come after `other`.
    pub fn at_most(self, other: SortKey) -> (r: bool)
        ensures
            r == self.le(other),
    {
        self.major < other.major || (self.major == other.major && (self.middle < other.middle || (
        self.middle == other.middle && self.minor <= other.minor)))
    }
}

/// `x` put behind every position of `s` whose key does not come after its own.
pub open spec fn placed(keys: Seq<SortKey>, s: Seq<usize>, x: usize) -> Seq<usize>
    decreases s.len(),
{
    if s.len() == 0 || keys[s.last() as int].le(keys[x as int]) {
        s.push(x)
    } else {
        placed(keys, s.drop_last(), x).push(s.last())
    }
}

/// `s` ordered by key; positions with equal keys keep their order.
pub open spec fn ordered(keys: Seq<SortKey>, s: Seq<usize>) -> Seq<usize>
    decreases s.len(),
{
    if s.len() == 0 {
        s
    } else {
        placed(keys, ordered(keys, s.drop_last()), s.last())
    }
}

/// All entries are positions below `n`.
pub open spec fn positions_below(s: Seq<usize>, n: int) -> bool {
    forall|i: int| 0 <= i < s.len() ==> #[trigger] s[i] < n
}

fn place(keys: &Vec<SortKey>, s: &mut Vec<usize>, x: usize)
    requires
        x < keys@.len(),
        positions_below(old(s)@, keys@.len() as int),
    ensures
        final(s)@ == placed(keys@, old(s)@, x),
        positions_below(final(s)@, keys@.len() as int),
{
    let ghost before = s@;
    let mut at: usize = s.len();
    assert(before.take(before.len() as int) =~= before);
    assert(before.skip(before.len() as int) =~= Seq::<usize>::empty());
    while at > 0 && !keys[s[at - 1]].at_most(keys[x])
        invariant
            at <= before.len(),
            s@ == before,
            x < keys@.len(),
            positions_below(before, keys@.len() as int),
            placed(keys@, before, x) == placed(keys@, before.take(at as int), x) + before.skip(
                at as int,
            ),
        decreases at,
    {
        proof {
            let t = before.take(at as int);
            assert(t.last() == before[at - 1]);
            assert(t.drop_last() =~= before.take(at - 1));
            assert(placed(keys@, t, x) == placed(keys@, before.take(at - 1), x).push(t.last()));
            assert(placed(keys@, before.take(at - 1), x).push(t.last()) + before.skip(at as int)
                =~= placed(keys@, before.take(at - 1), x) + before.skip(at - 1));
        }
        at = at - 1;
    }
    proof {
        let t = before.take(at as int);
        if at > 0 {
            assert(t.last() == before[at - 1]);
        }
        assert(placed(keys@, t, x) == t.push(x));
        assert(t.push(x) + before.skip(at as int) =~= before.insert(at as int, x));
    }
    s.insert(at, x);
    assert forall|i: int| 0 <= i < s@.len() implies #[trigger] s@[i] < keys@.len() by {
        if i < at {
            assert(s@[i] == before[i]);
        } else if i > at {
            assert(s@[i] == before[i - 1]);
        }
    }
}

/// `members` ordered by the keys at their positions; equal keys keep their order.
pub fn stable_order(keys: &Vec<SortKey>, members: &Vec<usize>) -> (r: Vec<usize>)
    requires
        positions_below(members@, keys@.len() as int),
    ensures
        r@ == ordered(keys@, members@),
        positions_below(r@, keys@.len() as int),
{
    let mut out: Vec<usize> = Vec::new();
    let mut i: usize = 0;
    assert(members@.take(0) =~= Seq::<usize>::empty());
    while i < members.len()
        invariant
            i <= members@.len(),
            positions_below(members@, keys@.len() as int),
            positions_below(out@, keys@.len() as int),
            out@ == ordered(keys@, members@.take(i as int)),
        decreases members@.len() - i,
    {
        assert(members@.take(i + 1).drop_last() =~= members@.take(i as int));
        assert(members@.take(i + 1).last() == members@[i as int]);
        place(keys, &mut out, members[i]);
        i = i + 1;
    }
    assert(members@.take(members@.len() as int) =~= members@);
    out
}

/// Ordering keeps every position exactly as often as it was there, and no key comes after the
/// next one.
pub proof fn law_ordered_is_sorted_permutation(keys: Seq<SortKey>, s: Seq<usize>)
    ensures
        ordered(keys, s).to_multiset() == s.to_multiset(),
        ordered(keys, s).len() == s.len(),
        forall|i: int, j: int|
            0 <= i <= j < s.len() ==> keys[#[trigger] ordered(keys, s)[i] as int].le(
                keys[#[trigger] ordered(keys, s)[j] as int],
            ),
    decreases s.len(),
{
    if s.len() > 0 {
        let t = s.drop_last();
        law_ordered_is_sorted_permutation(keys, t);
        lemma_placed(keys, ordered(keys, t), s.last());
        assert(s =~= t.push(s.last()));
        to_multiset_build(t, s.last());
    }
}

/// Ordering positions makes no new ones.
pub proof fn lemma_ordered_below(keys: Seq<SortKey>, s: Seq<usize>, n: int)
    requires
        positions_below(s, n),
    ensures
        positions_below(ordered(keys, s), n),
        ordered(keys, s).len() == s.len(),
    decreases s.len(),
{
    if s.len() > 0 {
        lemma_ordered_below(keys, s.drop_last(), n);
        lemma_placed_below(keys, ordered(keys, s.drop_last()), s.last(), n);
    }
}

proof fn lemma_placed_below(keys: Seq<SortKey>, s: Seq<usize>, x: usize, n: int)
    requires
        positions_below(s, n),
        x < n,
    ensures
        positions_below(placed(keys, s, x), n),
        placed(keys, s, x).len() == s.len() + 1,
    decreases s.len(),
{
    if !(s.len() == 0 || keys[s.last() as int].le(keys[x as int])) {
        lemma_placed_below(keys, s.drop_last(), x, n);
    }
}

proof fn lemma_placed(keys: Seq<SortKey>, s: Seq<usize>, x: usize)
    requires
        forall|i: int, j: int|
            0 <= i <= j < s.len() ==> keys[#[trigger] s[i] as int].le(keys[#[trigger] s[j] as int]),
    ensures
        placed(keys, s, x).to_multiset() == s.to_multiset().insert(x),
        placed(keys, s, x).len() == s.len() + 1,
        forall|i: int|
            0 <= i < placed(keys, s, x).len() ==> (#[trigger] placed(keys, s, x)[i] == x
                || s.contains(placed(keys, s, x)[i])),
        forall|i: int, j: int|
            0 <= i <= j < s.len() + 1 ==> keys[#[trigger] placed(keys, s, x)[i] as int].le(
                keys[#[trigger] placed(keys, s, x)[j] as int],
            ),
    decreases s.len(),
{
    let r = placed(keys, s, x);
    if s.len() == 0 || keys[s.last() as int].le(keys[x as int]) {
        to_multiset_build(s, x);
        assert forall|i: int, j: int| 0 <= i <= j < s.len() + 1 implies keys[#[trigger] r[i] as int].le(
            keys[#[trigger] r[j] as int],
        ) by {
            if j == s.len() && i < j {
                assert(keys[s[i] as int].le(keys[s[s.len() - 1] as int]));
            }
        }
        assert forall|i: int| 0 <= i < r.len() implies (#[trigger] r[i] == x || s.contains(r[i])) by {
            if i < s.len() {
                assert(s[i] == r[i]);
            }
        }
    } else {
        let t = s.drop_last();
        assert forall|i: int, j: int| 0 <= i <= j < t.len() implies keys[#[trigger] t[i] as int].le(
            keys[#[trigger] t[j] as int],
        ) by {
            assert(keys[s[i] as int].le(keys[s[j] as int]));
        }
        lemma_placed(keys, t, x);
        let q = placed(keys, t, x);
        to_multiset_build(q, s.last());
        to_multiset_build(t, s.last());
        assert(s =~= t.push(s.last()));
        assert(r.to_multiset() =~= s.to_multiset().insert(x));
        assert forall|i: int| 0 <= i < r.len() implies (#[trigger] r[i] == x || s.contains(r[i])) by {
            if i < q.len() {
                assert(r[i] == q[i]);
                if q[i] != x {
                    assert(t.contains(q[i]));
                    let k = choose|k: int| 0 <= k < t.len() && t[k] == q[i];
                    assert(s[k] == q[i]);
                }
            } else {
                assert(r[i] == s[s.len() - 1]);
            }
        }
        assert forall|i: int, j: int| 0 <= i <= j < s.len() + 1 implies keys[#[trigger] r[i] as int].le(
            keys[#[trigger] r[j] as int],
        ) by {
            if j < q.len() {
                assert(keys[q[i] as int].le(keys[q[j] as int]));
            } else if i < q.len() {
                assert(r[i] == q[i]);
                if q[i] == x {
                } else {
                    assert(t.contains(q[i]));
                    let k = choose|k: int| 0 <= k < t.len() && t[k] == q[i];
                    assert(keys[s[k] as int].le(keys[s[s.len() - 1] as int]));
                }
            }
        }
    }
}

/// The positions `0..n`.
pub open spec fn all_positions(n: nat) -> Seq<usize> {
    Seq::new(n, |i: int| i as usize)
}

/// The positions `0..n`, in order.
pub fn positions(n: usize) -> (r: Vec<usize>)
    ensures
        r@ == all_positions(n as nat),
{
    let mut out: Vec<usize> = Vec::new();
    let mut i: usize = 0;
    while i < n
        invariant
            i <= n,
            out@ == all_positions(i as nat),
        decreases n - i,
    {
        out.push(i);
        i = i + 1;
        assert(out@ =~= all_positions(i as nat));
    }
    out
}

/// Nothing is moved without need: what is in order stays as it is.
pub proof fn law_ordered_input_is_kept(keys: Seq<SortKey>, s: Seq<usize>)
    requires
        forall|i: int, j: int|
            0 <= i < j < s.len() ==> ({
                let a = keys[#[trigger] s[i] as int];
                let b = keys[#[trigger] s[j] as int];
                a.major < b.major || (a.major == b.major && (a.middle < b.middle || (a.middle
                    == b.middle && a.minor <= b.minor)))
            }),
    ensures
        ordered(keys, s) == s,
    decreases s.len(),
{
    if s.len() > 0 {
        let t = s.drop_last();
        law_ordered_input_is_kept(keys, t);
        if t.len() > 0 {
            assert(s[s.len() - 2] == t.last());
            assert(keys[s[s.len() - 2] as int].le(keys[s[s.len() - 1] as int]));
        }
        assert(t.push(s.last()) =~= s);
    }
}

/// The positions of `s` that have the key, in the order of `s`.
pub open spec fn with_key(keys: Seq<SortKey>, s: Seq<usize>, key: SortKey) -> Seq<usize>
    decreases s.len(),
{
    if s.len() == 0 {
        s
    } else if keys[s.last() as int] == key {
        with_key(keys, s.drop_last(), key).push(s.last())
    } else {
        with_key(keys, s.drop_last(), key)
    }
}

proof fn lemma_placed_with_key(keys: Seq<SortKey>, s: Seq<usize>, x: usize, key: SortKey)
    ensures
        with_key(keys, placed(keys, s, x), key) == if keys[x as int] == key {
            with_key(keys, s, key).push(x)
        } else {
            with_key(keys, s, key)
        },
    decreases s.len(),
{
    if s.len() == 0 || keys[s.last() as int].le(keys[x as int]) {
        assert(s.push(x).drop_last() =~= s);
    } else {
        lemma_placed_with_key(keys, s.drop_last(), x, key);
        let q = placed(keys, s.drop_last(), x);
        assert(q.push(s.last()).drop_last() =~= q);
    }
}

/// Positions with equal keys keep their order.
pub proof fn law_equal_keys_keep_their_order(keys: Seq<SortKey>, s: Seq<usize>, key: SortKey)
    ensures
        with_key(keys, ordered(keys, s), key) == with_key(keys, s, key),
    decreases s.len(),
{
    if s.len() > 0 {
        law_equal_keys_keep_their_order(keys, s.drop_last(), key);
        lemma_placed_with_key(keys, ordered(keys, s.drop_last()), s.last(), key);
    }
}

} // verus!
