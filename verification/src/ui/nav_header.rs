//! Settings header of the navigation pane: where it goes, and how its pane is found.

use vstd::prelude::*;

verus! {

/// How many ancestors are searched.
pub const ANCESTORS: usize = 32;

/// How many children of each ancestor are searched.
pub const CHILDREN: usize = 16;

/// An element on the way up from the focused one.
#[derive(Debug)]
pub struct Level {
    /// It is the navigation pane itself.
    pub is_pane: bool,
    /// For each child, whether it is the navigation pane.
    pub children: Vec<bool>,
}

/// Where the pane was found.
#[derive(Debug, Clone, Copy, PartialEq, Eq, Structural)]
pub enum PaneAt {
    Ancestor(usize),
    Child { ancestor: usize, child: usize },
}

/// The first searched child that is the pane, from position `from` on.
pub open spec fn pane_child(children: Seq<bool>, from: int) -> Option<int>
    decreases CHILDREN - from,
{
    if from < 0 || from >= CHILDREN || from >= children.len() {
        None
    } else if children[from] {
        Some(from)
    } else {
        pane_child(children, from + 1)
    }
}

/// The pane found from position `from` on: each ancestor comes before its children, and these
/// before the next ancestor.
pub open spec fn pane_from(levels: Seq<Level>, from: int) -> Option<PaneAt>
    decreases ANCESTORS - from,
{
    if from < 0 || from >= ANCESTORS || from >= levels.len() {
        None
    } else if levels[from].is_pane {
        Some(PaneAt::Ancestor(from as usize))
    } else {
        match pane_child(levels[from].children@, 0) {
            Some(child) => Some(
                PaneAt::Child { ancestor: from as usize, child: child as usize },
            ),
            None => pane_from(levels, from + 1),
        }
    }
}

fn find_child(children: &Vec<bool>) -> (r: Option<usize>)
    ensures
        match r {
            Some(i) => pane_child(children@, 0) == Some(i as int),
            None => pane_child(children@, 0) is None,
        },
{
    let mut i: usize = 0;
    while i < CHILDREN && i < children.len()
        invariant
            i <= CHILDREN,
            pane_child(children@, 0) == pane_child(children@, i as int),
        decreases CHILDREN - i,
    {
        if children[i] {
            return Some(i);
        }
        i = i + 1;
    }
    None
}

/// Find the navigation pane from the focused element up. `levels` starts with that element.
pub fn walk_nav(levels: &Vec<Level>) -> (r: Option<PaneAt>)
    ensures
        r == pane_from(levels@, 0),
{
    let mut i: usize = 0;
    while i < ANCESTORS && i < levels.len()
        invariant
            i <= ANCESTORS,
            pane_from(levels@, 0) == pane_from(levels@, i as int),
        decreases ANCESTORS - i,
    {
        if levels[i].is_pane {
            return Some(PaneAt::Ancestor(i));
        }
        match find_child(&levels[i].children) {
            Some(child) => {
                return Some(PaneAt::Child { ancestor: i, child });
            },
            None => {},
        }
        i = i + 1;
    }
    None
}

/// Position at which the header is to be inserted: after the first entry, unless there is no
/// other entry or the header is already there.
pub fn header_position(entries: u32, second_is_header: bool) -> (r: Option<u32>)
    ensures
        r == if entries >= 2 && !second_is_header {
            Some(1u32)
        } else {
            None
        },
{
    if entries < 2 || second_is_header {
        None
    } else {
        Some(1)
    }
}

proof fn lemma_pane_child(children: Seq<bool>, from: int, c: int)
    requires
        0 <= from <= c < children.len(),
        c < CHILDREN,
        children[c],
        forall|j: int| from <= j < c ==> !(#[trigger] children[j]),
    ensures
        pane_child(children, from) == Some(c),
    decreases c - from,
{
    if from < c {
        assert(!children[from]);
        lemma_pane_child(children, from + 1, c);
    }
}

proof fn lemma_no_pane_child(children: Seq<bool>, from: int)
    requires
        0 <= from,
        forall|j: int| from <= j < children.len() && j < CHILDREN ==> !(#[trigger] children[j]),
    ensures
        pane_child(children, from) is None,
    decreases CHILDREN - from,
{
    if from < CHILDREN && from < children.len() {
        lemma_no_pane_child(children, from + 1);
    }
}

/// The pane is the first ancestor that is one, where no child on the way up to it is; or the first
/// child that is one of the first ancestor that has such a child.
pub proof fn law_nearest_pane_is_found(levels: Seq<Level>, from: int, a: int, c: int)
    requires
        0 <= from <= a < levels.len(),
        a < 32,
        forall|i: int|
            from <= i < a ==> !(#[trigger] levels[i]).is_pane && forall|j: int|
                0 <= j < levels[i].children@.len() && j < 16 ==> !(
                #[trigger] levels[i].children@[j]),
    ensures
        levels[a].is_pane ==> pane_from(levels, from) == Some(PaneAt::Ancestor(a as usize)),
        !levels[a].is_pane && 0 <= c < levels[a].children@.len() && c < 16 && levels[a].children@[c]
            && (forall|j: int| 0 <= j < c ==> !(#[trigger] levels[a].children@[j])) ==> pane_from(
            levels,
            from,
        ) == Some(PaneAt::Child { ancestor: a as usize, child: c as usize }),
    decreases a - from,
{
    if from < a {
        assert(!levels[from].is_pane);
        lemma_no_pane_child(levels[from].children@, 0);
        law_nearest_pane_is_found(levels, from + 1, a, c);
    } else if !levels[a].is_pane && 0 <= c < levels[a].children@.len() && c < 16
        && levels[a].children@[c] && (forall|j: int|
        0 <= j < c ==> !(#[trigger] levels[a].children@[j])) {
        lemma_pane_child(levels[a].children@, 0, c);
    }
}

} // verus!
