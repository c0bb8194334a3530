//! Lenient reading of `config.toml`: valid fields are kept, values that do not match the schema
//! are dropped.

use crate::paths::PathError;
use crate::text::{joined, owned, same_text};
use vstd::prelude::*;

verus! {

/// What went wrong with a config file.
#[derive(Debug)]
pub enum ConfigError {
    Path(PathError),
    Io { path: String, source: String },
    Parse(String),
    Serialize(String),
}

impl ConfigError {
    /// The text shown for an error.
    pub open spec fn text(self) -> Seq<char> {
        match self {
            ConfigError::Path(e) => "path error: "@ + e.text(),
            ConfigError::Io { path, source } => "IO error for "@ + path@ + ": "@ + source@,
            ConfigError::Parse(e) => "failed to parse config TOML: "@ + e@,
            ConfigError::Serialize(e) => "failed to serialize config TOML: "@ + e@,
        }
    }

    /// The text shown for an error.
    pub fn message(&self) -> (r: String)
        ensures
            r@ == self.text(),
    {
        match self {
            ConfigError::Path(e) => joined("path error: ", e.message().as_str()),
            ConfigError::Io { path, source } => {
                let mut out: String = joined("IO error for ", path.as_str());
                out.append(": ");
                out.append(source.as_str());
                out
            },
            ConfigError::Parse(e) => joined("failed to parse config TOML: ", e.as_str()),
            ConfigError::Serialize(e) => joined("failed to serialize config TOML: ", e.as_str()),
        }
    }
}

/// A TOML value: a table, or anything else in TOML notation.
#[derive(Debug)]
pub enum Node {
    Leaf(String),
    Table(Vec<Entry>),
}

/// A key of a table and its value.
#[derive(Debug)]
pub struct Entry {
    pub key: String,
    pub value: Node,
}

/// A TOML value with its texts as characters.
pub enum Tree {
    Leaf(Seq<char>),
    Table(Seq<Branch>),
}

/// A key of a table and its value.
pub struct Branch {
    pub key: Seq<char>,
    pub value: Tree,
}

/// The value as a tree.
pub open spec fn tree_of(node: Node) -> Tree
    decreases node,
{
    match node {
        Node::Leaf(text) => Tree::Leaf(text@),
        Node::Table(entries) => Tree::Table(branches_of(entries@)),
    }
}

/// The entries as branches.
pub open spec fn branches_of(entries: Seq<Entry>) -> Seq<Branch>
    decreases entries,
{
    if entries.len() == 0 {
        Seq::empty()
    } else {
        let rest = entries.subrange(0, entries.len() - 1);
        let last = entries[entries.len() - 1];
        branches_of(rest).push(Branch { key: last.key@, value: tree_of(last.value) })
    }
}

/// `toml::Value`, an opaque TOML value.
#[verifier::external_type_specification]
#[verifier::external_body]
pub struct ExTomlValue(toml::Value);

/// The tree that a `toml::Value` holds: a table with its entries in iteration order, or any other
/// value in TOML notation.
pub uninterp spec fn value_tree(value: toml::Value) -> Tree;

/// The table that `toml::from_str` reads from a text, or the text of its error.
pub uninterp spec fn document_tree(text: Seq<char>) -> Result<Seq<Branch>, Seq<char>>;

/// The trees of a list of keyed values.
pub open spec fn value_branches(entries: Seq<(String, toml::Value)>) -> Seq<Branch> {
    entries.map_values(|e: (String, toml::Value)| Branch { key: e.0@, value: value_tree(e.1) })
}

/// Calls `toml::from_str` for a `toml::Table` and hands out its entries in iteration order, or the
/// text of the error. The result is the one named by [`document_tree`].
#[verifier::external_body]
fn parse_document(text: &str) -> (r: Result<Vec<(String, toml::Value)>, String>)
    ensures
        match r {
            Ok(entries) => document_tree(text@) == Ok::<Seq<Branch>, Seq<char>>(
                value_branches(entries@),
            ),
            Err(e) => document_tree(text@) == Err::<Seq<Branch>, Seq<char>>(e@),
        },
{
    match toml::from_str::<toml::Table>(text) {
        Ok(table) => Ok(table.into_iter().collect()),
        Err(e) => Err(e.to_string()),
    }
}

/// A TOML value taken apart.
enum Opened {
    Leaf(String),
    Table(Vec<(String, toml::Value)>),
}

/// Tells a `toml::Value::Table` from the other variants: a table hands out its entries in
/// iteration order, any other value is written with its `Display`. Both are what [`value_tree`]
/// holds.
#[verifier::external_body]
fn open_value(value: toml::Value) -> (r: Opened)
    ensures
        match r {
            Opened::Leaf(text) => value_tree(value) == Tree::Leaf(text@),
            Opened::Table(entries) => value_tree(value) == Tree::Table(value_branches(entries@)),
        },
{
    match value {
        toml::Value::Table(table) => Opened::Table(table.into_iter().collect()),
        other => Opened::Leaf(other.to_string()),
    }
}

proof fn lemma_branches_index(entries: Seq<Entry>)
    ensures
        branches_of(entries).len() == entries.len(),
        forall|i: int|
            0 <= i < entries.len() ==> #[trigger] branches_of(entries)[i] == (Branch {
                key: entries[i].key@,
                value: tree_of(entries[i].value),
            }),
    decreases entries.len(),
{
    if entries.len() > 0 {
        lemma_branches_index(entries.subrange(0, entries.len() - 1));
    }
}

fn node_of(value: toml::Value) -> (r: Node)
    ensures
        tree_of(r) == value_tree(value),
    decreases value_tree(value),
{
    match open_value(value) {
        Opened::Leaf(text) => Node::Leaf(text),
        Opened::Table(entries) => {
            assert(decreases_to!(value_tree(value) => value_tree(value)->Table_0));
            Node::Table(entries_of(entries))
        },
    }
}

fn entries_of(values: Vec<(String, toml::Value)>) -> (r: Vec<Entry>)
    ensures
        branches_of(r@) == value_branches(values@),
    decreases value_branches(values@),
{
    let ghost all = values@;
    let ghost trees = value_branches(all);
    let mut rest: Vec<(String, toml::Value)> = values;
    let mut out: Vec<Entry> = Vec::new();
    while rest.len() > 0
        invariant
            trees == value_branches(all),
            trees == value_branches(values@),
            out@.len() + rest@.len() == all.len(),
            rest@ == all.skip(out@.len() as int),
            branches_of(out@) == trees.take(out@.len() as int),
        decreases rest@.len(),
    {
        let ghost i = out@.len() as int;
        let ghost before = out@;
        let (key, value): (String, toml::Value) = rest.remove(0);
        assert((key, value) == all[i]);
        assert(trees[i] == (Branch { key: key@, value: value_tree(value) }));
        assert(decreases_to!(trees => trees[i]));
        assert(decreases_to!(trees[i] => trees[i].value));
        out.push(Entry { key, value: node_of(value) });
        proof {
            assert(out@.subrange(0, out@.len() - 1) =~= before);
            assert(branches_of(out@) =~= trees.take(i + 1));
            assert(rest@ =~= all.skip(i + 1));
        }
    }
    assert(trees.take(all.len() as int) =~= trees);
    out
}

/// Position of the key in the first `n` branches.
pub open spec fn position(table: Seq<Branch>, key: Seq<char>, n: int) -> Option<int>
    decreases n,
{
    if n <= 0 {
        None
    } else {
        match position(table, key, n - 1) {
            Some(i) => Some(i),
            None => if table[n - 1].key == key {
                Some(n - 1)
            } else {
                None
            },
        }
    }
}

/// The table with the key set to the value.
pub open spec fn with_key(table: Seq<Branch>, key: Seq<char>, value: Tree) -> Seq<Branch> {
    match position(table, key, table.len() as int) {
        Some(i) => table.update(i, Branch { key, value }),
        None => table.push(Branch { key, value }),
    }
}

/// The table without the key.
pub open spec fn without_key(table: Seq<Branch>, key: Seq<char>) -> Seq<Branch> {
    match position(table, key, table.len() as int) {
        Some(i) => table.remove(i),
        None => table,
    }
}

/// The table at a key, if there is one.
pub open spec fn subtable(table: Seq<Branch>, key: Seq<char>) -> Option<Seq<Branch>> {
    match position(table, key, table.len() as int) {
        Some(i) => match table[i].value {
            Tree::Table(t) => Some(t),
            Tree::Leaf(_) => None,
        },
        None => None,
    }
}

/// The table with the value at the path, a list of keys; what is in the way becomes a table.
pub open spec fn inserted(table: Seq<Branch>, path: Seq<Seq<char>>, value: Tree) -> Seq<Branch>
    decreases path.len(),
{
    if path.len() == 0 {
        table
    } else if path.len() == 1 {
        with_key(table, path[0], value)
    } else {
        let child = match subtable(table, path[0]) {
            Some(t) => t,
            None => Seq::empty(),
        };
        with_key(table, path[0], Tree::Table(inserted(child, path.skip(1), value)))
    }
}

/// The table without what is at the path.
pub open spec fn removed(table: Seq<Branch>, path: Seq<Seq<char>>) -> Seq<Branch>
    decreases path.len(),
{
    if path.len() == 0 {
        table
    } else if path.len() == 1 {
        without_key(table, path[0])
    } else {
        match subtable(table, path[0]) {
            Some(t) => with_key(table, path[0], Tree::Table(removed(t, path.skip(1)))),
            None => table,
        }
    }
}

/// What is kept of the first `n` keys of `src`, on top of `root`. Each key is tried as a whole;
/// if a table is not accepted, its children are tried one by one.
pub open spec fn kept(
    root: Seq<Branch>,
    src: Seq<Branch>,
    prefix: Seq<Seq<char>>,
    accepted: spec_fn(Seq<Branch>) -> bool,
    n: int,
) -> Seq<Branch>
    decreases src, n,
{
    if n <= 0 || n > src.len() {
        root
    } else {
        let before = kept(root, src, prefix, accepted, n - 1);
        let path = prefix.push(src[n - 1].key);
        let tried = inserted(before, path, src[n - 1].value);
        if accepted(tried) {
            tried
        } else {
            let dropped = removed(tried, path);
            match src[n - 1].value {
                Tree::Table(child) => kept(dropped, child, path, accepted, child.len() as int),
                Tree::Leaf(_) => dropped,
            }
        }
    }
}

/// Views of a list of texts.
pub open spec fn texts(list: Seq<String>) -> Seq<Seq<char>> {
    list.map_values(|t: String| t@)
}

/// The path of a key below a prefix.
fn path_below(prefix: &Vec<String>, key: &String) -> (r: Vec<String>)
    ensures
        texts(r@) == texts(prefix@).push(key@),
{
    let mut out: Vec<String> = Vec::new();
    let mut i: usize = 0;
    while i < prefix.len()
        invariant
            i <= prefix@.len(),
            out@.len() == i,
            forall|k: int| 0 <= k < i ==> (#[trigger] out@[k])@ == prefix@[k]@,
        decreases prefix@.len() - i,
    {
        out.push(prefix[i].clone());
        i = i + 1;
    }
    out.push(key.clone());
    assert(texts(out@) =~= texts(prefix@).push(key@));
    out
}

fn find_key(table: &Vec<Entry>, key: &str) -> (r: Option<usize>)
    ensures
        match r {
            Some(i) => i < table@.len() && position(
                branches_of(table@),
                key@,
                table@.len() as int,
            ) == Some(i as int),
            None => position(branches_of(table@), key@, table@.len() as int) is None,
        },
{
    proof {
        lemma_branches_index(table@);
    }
    let mut i: usize = 0;
    while i < table.len()
        invariant
            i <= table@.len(),
            branches_of(table@).len() == table@.len(),
            forall|k: int|
                0 <= k < table@.len() ==> #[trigger] branches_of(table@)[k] == (Branch {
                    key: table@[k].key@,
                    value: tree_of(table@[k].value),
                }),
            position(branches_of(table@), key@, i as int) is None,
        decreases table@.len() - i,
    {
        assert(branches_of(table@)[i as int].key == table@[i as int].key@);
        if same_text(table[i].key.as_str(), key) {
            proof {
                lemma_position_extends(branches_of(table@), key@, i + 1);
            }
            return Some(i);
        }
        i = i + 1;
    }
    None
}

proof fn lemma_position_extends(table: Seq<Branch>, key: Seq<char>, n: int)
    requires
        0 <= n <= table.len(),
    ensures
        position(table, key, n) is Some ==> position(table, key, table.len() as int) == position(
            table,
            key,
            n,
        ),
    decreases table.len() - n,
{
    if n < table.len() {
        lemma_position_extends(table, key, n + 1);
    }
}

fn set_key(table: &mut Vec<Entry>, key: &str, value: Node)
    ensures
        branches_of(final(table)@) == with_key(branches_of(old(table)@), key@, tree_of(value)),
{
    let ghost before = table@;
    proof {
        lemma_branches_index(before);
    }
    match find_key(table, key) {
        Some(i) => {
            table.set(i, Entry { key: owned(key), value });
        },
        None => {
            table.push(Entry { key: owned(key), value });
        },
    }
    proof {
        lemma_branches_index(table@);
        assert(branches_of(table@) =~= with_key(branches_of(before), key@, tree_of(value)));
    }
}

fn drop_key(table: &mut Vec<Entry>, key: &str)
    ensures
        branches_of(final(table)@) == without_key(branches_of(old(table)@), key@),
{
    let ghost before = table@;
    proof {
        lemma_branches_index(before);
    }
    match find_key(table, key) {
        Some(i) => {
            let _ = table.remove(i);
        },
        None => {},
    }
    proof {
        lemma_branches_index(table@);
        assert(branches_of(table@) =~= without_key(branches_of(before), key@));
    }
}

/// Take the table at a key out, leaving an empty one in its place.
fn take_subtable(table: &mut Vec<Entry>, key: &str) -> (r: Option<Vec<Entry>>)
    ensures
        match r {
            Some(child) => subtable(branches_of(old(table)@), key@) == Some(branches_of(child@))
                && branches_of(final(table)@) == with_key(
                branches_of(old(table)@),
                key@,
                Tree::Table(Seq::empty()),
            ),
            None => subtable(branches_of(old(table)@), key@) is None && final(table)@
                == old(table)@,
        },
{
    let ghost before = table@;
    proof {
        lemma_branches_index(before);
    }
    let i: usize = match find_key(table, key) {
        Some(i) => i,
        None => {
            return None;
        },
    };
    let is_table: bool = match &table[i].value {
        Node::Table(_) => true,
        Node::Leaf(_) => false,
    };
    assert(branches_of(before)[i as int].value == tree_of(before[i as int].value));
    if !is_table {
        return None;
    }
    let entry: Entry = table.remove(i);
    let empty: Vec<Entry> = Vec::new();
    table.insert(i, Entry { key: owned(key), value: Node::Table(empty) });
    proof {
        lemma_branches_index(table@);
        assert(empty@ =~= Seq::<Entry>::empty());
        assert(branches_of(empty@) =~= Seq::<Branch>::empty());
        assert(tree_of(Node::Table(empty)) == Tree::Table(Seq::<Branch>::empty()));
        assert(branches_of(table@) =~= with_key(
            branches_of(before),
            key@,
            Tree::Table(Seq::empty()),
        ));
    }
    match entry.value {
        Node::Table(child) => Some(child),
        Node::Leaf(_) => None,
    }
}

proof fn lemma_set_twice(table: Seq<Branch>, key: Seq<char>, a: Tree, b: Tree)
    ensures
        with_key(with_key(table, key, a), key, b) == with_key(table, key, b),
{
    let once = with_key(table, key, a);
    lemma_position_bound(table, key, table.len() as int);
    match position(table, key, table.len() as int) {
        Some(i) => {
            lemma_position_same_keys(table, once, key, table.len() as int);
            assert(with_key(once, key, b) =~= with_key(table, key, b));
        },
        None => {
            lemma_position_same_keys(table, once, key, table.len() as int);
            assert(position(once, key, once.len() as int) == Some(table.len() as int));
            assert(with_key(once, key, b) =~= with_key(table, key, b));
        },
    }
}

proof fn lemma_position_bound(table: Seq<Branch>, key: Seq<char>, n: int)
    ensures
        position(table, key, n) matches Some(i) ==> 0 <= i < n && table[i].key == key,
    decreases n,
{
    if n > 0 {
        lemma_position_bound(table, key, n - 1);
    }
}

proof fn lemma_position_same_keys(a: Seq<Branch>, b: Seq<Branch>, key: Seq<char>, n: int)
    requires
        n <= a.len(),
        n <= b.len(),
        forall|i: int| 0 <= i < n ==> (#[trigger] a[i]).key == b[i].key,
    ensures
        position(a, key, n) == position(b, key, n),
    decreases n,
{
    if n > 0 {
        lemma_position_same_keys(a, b, key, n - 1);
        assert(a[n - 1].key == b[n - 1].key);
    }
}

/// Put the value at the path `parts[from..]`; what is in the way becomes a table.
fn insert_parts(table: &mut Vec<Entry>, parts: &Vec<String>, from: usize, value: Node)
    requires
        from < parts@.len(),
    ensures
        branches_of(final(table)@) == inserted(
            branches_of(old(table)@),
            texts(parts@).skip(from as int),
            tree_of(value),
        ),
    decreases parts@.len() - from,
{
    let ghost rest = texts(parts@).skip(from as int);
    assert(rest[0] == parts@[from as int]@);
    let key: &str = parts[from].as_str();
    let count: usize = parts.len();
    if from == count - 1 {
        set_key(table, key, value);
        return;
    }
    assert(rest.skip(1) =~= texts(parts@).skip(from + 1));
    let ghost before = branches_of(table@);
    let mut child: Vec<Entry> = match take_subtable(table, key) {
        Some(c) => c,
        None => Vec::new(),
    };
    proof {
        if subtable(before, key@) is None {
            assert(child@ =~= Seq::<Entry>::empty());
            assert(branches_of(child@) =~= Seq::<Branch>::empty());
        }
    }
    insert_parts(&mut child, parts, from + 1, value);
    let ghost new_child = tree_of(Node::Table(child));
    set_key(table, key, Node::Table(child));
    proof {
        lemma_set_twice(before, key@, Tree::Table(Seq::empty()), new_child);
    }
}

/// Remove what is at the path `parts[from..]`.
fn remove_parts(table: &mut Vec<Entry>, parts: &Vec<String>, from: usize)
    requires
        from < parts@.len(),
    ensures
        branches_of(final(table)@) == removed(
            branches_of(old(table)@),
            texts(parts@).skip(from as int),
        ),
    decreases parts@.len() - from,
{
    let ghost rest = texts(parts@).skip(from as int);
    assert(rest[0] == parts@[from as int]@);
    let key: &str = parts[from].as_str();
    let count: usize = parts.len();
    if from == count - 1 {
        drop_key(table, key);
        return;
    }
    assert(rest.skip(1) =~= texts(parts@).skip(from + 1));
    let ghost before = branches_of(table@);
    match take_subtable(table, key) {
        Some(c) => {
            let mut child: Vec<Entry> = c;
            remove_parts(&mut child, parts, from + 1);
            let ghost new_child = tree_of(Node::Table(child));
            set_key(table, key, Node::Table(child));
            proof {
                lemma_set_twice(before, key@, Tree::Table(Seq::empty()), new_child);
            }
        },
        None => {},
    }
}

/// Put the value at a path; what is in the way becomes a table.
pub fn insert_by_path(root: &mut Vec<Entry>, path: &Vec<String>, value: Node)
    ensures
        branches_of(final(root)@) == inserted(
            branches_of(old(root)@),
            texts(path@),
            tree_of(value),
        ),
{
    if path.len() > 0 {
        assert(texts(path@).skip(0) =~= texts(path@));
        insert_parts(root, path, 0, value);
    }
}

/// Remove what is at a path.
pub fn remove_by_path(root: &mut Vec<Entry>, path: &Vec<String>)
    ensures
        branches_of(final(root)@) == removed(branches_of(old(root)@), texts(path@)),
{
    if path.len() > 0 {
        assert(texts(path@).skip(0) =~= texts(path@));
        remove_parts(root, path, 0);
    }
}

fn copy_node(node: &Node) -> (r: Node)
    ensures
        tree_of(r) == tree_of(*node),
    decreases node,
{
    match node {
        Node::Leaf(text) => Node::Leaf(text.clone()),
        Node::Table(entries) => Node::Table(copy_entries(entries)),
    }
}

fn copy_entries(entries: &Vec<Entry>) -> (r: Vec<Entry>)
    ensures
        branches_of(r@) == branches_of(entries@),
    decreases entries,
{
    let mut out: Vec<Entry> = Vec::new();
    let mut i: usize = 0;
    proof {
        lemma_branches_index(entries@);
    }
    while i < entries.len()
        invariant
            i <= entries@.len(),
            out@.len() == i,
            forall|k: int|
                0 <= k < i ==> (#[trigger] out@[k]).key@ == entries@[k].key@ && tree_of(
                    out@[k].value,
                ) == tree_of(entries@[k].value),
        decreases entries@.len() - i,
    {
        assert(decreases_to!(entries => entries@));
        assert(decreases_to!(entries@ => entries@[i as int]));
        assert(decreases_to!(entries@[i as int] => entries@[i as int].value));
        out.push(Entry { key: entries[i].key.clone(), value: copy_node(&entries[i].value) });
        i = i + 1;
    }
    proof {
        lemma_branches_index(out@);
        assert forall|k: int| 0 <= k < out@.len() implies branches_of(out@)[k] == branches_of(
            entries@,
        )[k] by {
            assert(out@[k].key@ == entries@[k].key@);
            assert(branches_of(entries@)[k] == (Branch {
                key: entries@[k].key@,
                value: tree_of(entries@[k].value),
            }));
        }
        assert(branches_of(out@) =~= branches_of(entries@));
    }
    out
}

/// The table is one that `accepts` says yes to.
pub open spec fn is_accepted<F: Fn(&Vec<Entry>) -> bool>(accepts: F, table: Seq<Branch>) -> bool {
    exists|v: Vec<Entry>| #[trigger] branches_of(v@) == table && call_ensures(accepts, (&v,), true)
}

/// `accepts` can be asked about every table, and its answer depends on the table's content alone.
pub open spec fn decides<F: Fn(&Vec<Entry>) -> bool>(accepts: F) -> bool {
    &&& forall|v: Vec<Entry>| call_requires(accepts, (&v,))
    &&& forall|a: Vec<Entry>, b: Vec<Entry>, x: bool, y: bool|
        #![trigger call_ensures(accepts, (&a,), x), call_ensures(accepts, (&b,), y)]
        branches_of(a@) == branches_of(b@) && call_ensures(accepts, (&a,), x) && call_ensures(
            accepts,
            (&b,),
            y,
        ) ==> x == y
}

/// Keep what `accepts` takes of `src`, on top of `root`. Each key is tried as a whole value; if a
/// table fails, its children are tried on their own.
pub fn apply_lenient<F: Fn(&Vec<Entry>) -> bool>(
    root: &mut Vec<Entry>,
    src: &Vec<Entry>,
    prefix: &Vec<String>,
    accepts: &F,
)
    requires
        decides(*accepts),
    ensures
        branches_of(final(root)@) == kept(
            branches_of(old(root)@),
            branches_of(src@),
            texts(prefix@),
            |t: Seq<Branch>| is_accepted(*accepts, t),
            src@.len() as int,
        ),
    decreases src,
{
    let ghost accepted = |t: Seq<Branch>| is_accepted(*accepts, t);
    let ghost start = branches_of(root@);
    let mut i: usize = 0;
    proof {
        lemma_branches_index(src@);
    }
    while i < src.len()
        invariant
            i <= src@.len(),
            decides(*accepts),
            accepted == (|t: Seq<Branch>| is_accepted(*accepts, t)),
            branches_of(src@).len() == src@.len(),
            forall|k: int|
                0 <= k < src@.len() ==> #[trigger] branches_of(src@)[k] == (Branch {
                    key: src@[k].key@,
                    value: tree_of(src@[k].value),
                }),
            branches_of(root@) == kept(
                start,
                branches_of(src@),
                texts(prefix@),
                accepted,
                i as int,
            ),
        decreases src@.len() - i,
    {
        let path: Vec<String> = path_below(prefix, &src[i].key);
        assert(branches_of(src@)[i as int].key == src@[i as int].key@);
        insert_by_path(root, &path, copy_node(&src[i].value));
        let ghost tried = *root;
        if !accepts(root) {
            assert(call_ensures(*accepts, (&tried,), false));
            assert(!accepted(branches_of(tried@)));
            remove_by_path(root, &path);
            match &src[i].value {
                Node::Table(child) => {
                    assert(decreases_to!(src => src@));
                    assert(decreases_to!(src@ => src@[i as int]));
                    assert(decreases_to!(src@[i as int] => src@[i as int].value));
                    assert(decreases_to!(src@[i as int].value => src@[i as int].value->Table_0));
                    proof {
                        lemma_branches_index(child@);
                    }
                    apply_lenient(root, child, &path, accepts);
                },
                Node::Leaf(_) => {},
            }
        } else {
            assert(call_ensures(*accepts, (&tried,), true));
            assert(accepted(branches_of(tried@)));
        }
        i = i + 1;
    }
}

/// Parse TOML and keep the entries that `accepts` takes, one by one. A syntax error fails.
pub fn from_toml_lenient<F: Fn(&Vec<Entry>) -> bool>(text: &str, accepts: &F) -> (r: Result<
    Vec<Entry>,
    ConfigError,
>)
    requires
        decides(*accepts),
    ensures
        match document_tree(text@) {
            Ok(src) => r matches Ok(dest) && branches_of(dest@) == kept(
                Seq::empty(),
                src,
                Seq::empty(),
                |t: Seq<Branch>| is_accepted(*accepts, t),
                src.len() as int,
            ),
            Err(message) => (r matches Err(ConfigError::Parse(m)) && m@ == message),
        },
{
    match parse_document(text) {
        Ok(values) => {
            let src: Vec<Entry> = entries_of(values);
            Ok(keep_accepted(&src, accepts))
        },
        Err(message) => Err(ConfigError::Parse(message)),
    }
}

/// The part of a document that `accepts` takes.
pub fn keep_accepted<F: Fn(&Vec<Entry>) -> bool>(src: &Vec<Entry>, accepts: &F) -> (r: Vec<Entry>)
    requires
        decides(*accepts),
    ensures
        branches_of(r@) == kept(
            Seq::empty(),
            branches_of(src@),
            Seq::empty(),
            |t: Seq<Branch>| is_accepted(*accepts, t),
            src@.len() as int,
        ),
        branches_of(src@).len() == src@.len(),
{
    proof {
        lemma_branches_index(src@);
    }
    let mut dest: Vec<Entry> = Vec::new();
    assert(dest@ =~= Seq::<Entry>::empty());
    assert(branches_of(dest@) =~= Seq::<Branch>::empty());
    let top: Vec<String> = Vec::new();
    assert(texts(top@) =~= Seq::<Seq<char>>::empty());
    apply_lenient(&mut dest, src, &top, accepts);
    dest
}

/// The path leads through tables to a key that the last of them does not have.
pub open spec fn is_free(table: Seq<Branch>, path: Seq<Seq<char>>) -> bool
    decreases path.len(),
{
    if path.len() == 0 {
        false
    } else if path.len() == 1 {
        position(table, path[0], table.len() as int) is None
    } else {
        subtable(table, path[0]) matches Some(t) && is_free(t, path.skip(1))
    }
}

/// A value that is not accepted leaves no trace: every other field, at the top or in a table,
/// stays as it was.
pub proof fn law_rejected_value_leaves_no_trace(
    table: Seq<Branch>,
    path: Seq<Seq<char>>,
    value: Tree,
)
    requires
        is_free(table, path),
    ensures
        removed(inserted(table, path, value), path) == table,
    decreases path.len(),
{
    let key = path[0];
    lemma_position_bound(table, key, table.len() as int);
    if path.len() == 1 {
        let tried = with_key(table, key, value);
        lemma_position_same_keys(table, tried, key, table.len() as int);
        assert(position(tried, key, tried.len() as int) == Some(table.len() as int));
        assert(without_key(tried, key) =~= table);
    } else {
        let child = subtable(table, key)->0;
        law_rejected_value_leaves_no_trace(child, path.skip(1), value);
        let grown = Tree::Table(inserted(child, path.skip(1), value));
        let tried = with_key(table, key, grown);
        lemma_position_same_keys(table, tried, key, table.len() as int);
        lemma_set_twice(table, key, grown, Tree::Table(child));
        assert(with_key(table, key, Tree::Table(child)) =~= table);
    }
}

/// A document of which every leading part is accepted is kept whole: all its keys, in order, with
/// their values.
pub proof fn law_valid_document_is_kept_whole(
    src: Seq<Branch>,
    accepted: spec_fn(Seq<Branch>) -> bool,
    n: int,
)
    requires
        0 <= n <= src.len(),
        forall|k: int| 0 < k <= src.len() ==> accepted(#[trigger] src.take(k)),
        forall|i: int, j: int|
            0 <= i < j < src.len() ==> (#[trigger] src[i]).key != (#[trigger] src[j]).key,
    ensures
        kept(Seq::empty(), src, Seq::empty(), accepted, n) == src.take(n),
    decreases n,
{
    if n > 0 {
        law_valid_document_is_kept_whole(src, accepted, n - 1);
        let before = src.take(n - 1);
        let branch = src[n - 1];
        lemma_position_bound(before, branch.key, before.len() as int);
        assert(position(before, branch.key, before.len() as int) is None);
        assert(with_key(before, branch.key, branch.value) =~= src.take(n));
        assert(Seq::<Seq<char>>::empty().push(branch.key) =~= seq![branch.key]);
        assert(accepted(inserted(before, seq![branch.key], branch.value)));
    } else {
        assert(src.take(0) =~= Seq::<Branch>::empty());
    }
}

/// What stands at the first branch of the key.
pub open spec fn found(table: Seq<Branch>, key: Seq<char>) -> Option<Tree>
    decreases table.len(),
{
    if table.len() == 0 {
        None
    } else if table[0].key == key {
        Some(table[0].value)
    } else {
        found(table.skip(1), key)
    }
}

/// What stands at the path.
pub open spec fn found_at(table: Seq<Branch>, path: Seq<Seq<char>>) -> Option<Tree>
    decreases path.len(),
{
    if path.len() == 0 {
        None
    } else if path.len() == 1 {
        found(table, path[0])
    } else {
        match found(table, path[0]) {
            Some(Tree::Table(t)) => found_at(t, path.skip(1)),
            _ => None,
        }
    }
}

proof fn lemma_found_is(table: Seq<Branch>, key: Seq<char>, i: int)
    requires
        0 <= i < table.len(),
        table[i].key == key,
        forall|j: int| 0 <= j < i ==> (#[trigger] table[j]).key != key,
    ensures
        found(table, key) == Some(table[i].value),
    decreases i,
{
    if i > 0 {
        assert(table[0].key != key);
        assert forall|j: int| 0 <= j < i - 1 implies (#[trigger] table.skip(1)[j]).key != key by {
            assert(table[j + 1].key != key);
        }
        lemma_found_is(table.skip(1), key, i - 1);
    }
}

proof fn lemma_found_none(table: Seq<Branch>, key: Seq<char>)
    requires
        forall|j: int| 0 <= j < table.len() ==> (#[trigger] table[j]).key != key,
    ensures
        found(table, key) is None,
    decreases table.len(),
{
    if table.len() > 0 {
        assert(table[0].key != key);
        assert forall|j: int| 0 <= j < table.skip(1).len() implies (#[trigger] table.skip(
            1,
        )[j]).key != key by {
            assert(table[j + 1].key != key);
        }
        lemma_found_none(table.skip(1), key);
    }
}

proof fn lemma_position_first(table: Seq<Branch>, key: Seq<char>, n: int)
    requires
        0 <= n <= table.len(),
    ensures
        match position(table, key, n) {
            Some(i) => 0 <= i < n && table[i].key == key && forall|j: int|
                0 <= j < i ==> (#[trigger] table[j]).key != key,
            None => forall|j: int| 0 <= j < n ==> (#[trigger] table[j]).key != key,
        },
    decreases n,
{
    if n > 0 {
        lemma_position_first(table, key, n - 1);
    }
}

proof fn lemma_found_position(table: Seq<Branch>, key: Seq<char>)
    ensures
        match position(table, key, table.len() as int) {
            Some(i) => 0 <= i < table.len() && found(table, key) == Some(table[i].value),
            None => found(table, key) is None,
        },
{
    lemma_position_first(table, key, table.len() as int);
    match position(table, key, table.len() as int) {
        Some(i) => lemma_found_is(table, key, i),
        None => lemma_found_none(table, key),
    }
}

proof fn lemma_with_key_found(table: Seq<Branch>, key: Seq<char>, value: Tree, other: Seq<char>)
    ensures
        found(with_key(table, key, value), key) == Some(value),
        other != key ==> found(with_key(table, key, value), other) == found(table, other),
{
    let now = with_key(table, key, value);
    lemma_position_first(table, key, table.len() as int);
    lemma_position_first(table, other, table.len() as int);
    lemma_found_position(table, other);
    let at = match position(table, key, table.len() as int) {
        Some(i) => i,
        None => table.len() as int,
    };
    assert forall|j: int| 0 <= j < table.len() && j != at implies #[trigger] now[j] == table[j] by {}
    assert forall|j: int| 0 <= j < at implies (#[trigger] now[j]).key != key by {
        assert(now[j] == table[j]);
    }
    lemma_found_is(now, key, at);
    if other != key {
        match position(table, other, table.len() as int) {
            Some(i) => {
                assert forall|j: int| 0 <= j < i implies (#[trigger] now[j]).key != other by {
                    if j != at {
                        assert(now[j] == table[j]);
                    }
                }
                assert(now[i] == table[i]);
                lemma_found_is(now, other, i);
            },
            None => {
                assert forall|j: int| 0 <= j < now.len() implies (#[trigger] now[j]).key
                    != other by {
                    if j != at {
                        assert(now[j] == table[j]);
                    }
                }
                lemma_found_none(now, other);
            },
        }
    }
}

/// What is put at a path is found there, and every other key of the table keeps its value.
pub proof fn law_inserted_value_is_found(
    table: Seq<Branch>,
    path: Seq<Seq<char>>,
    value: Tree,
    other: Seq<char>,
)
    requires
        path.len() > 0,
    ensures
        found_at(inserted(table, path, value), path) == Some(value),
        other != path[0] ==> found(inserted(table, path, value), other) == found(table, other),
    decreases path.len(),
{
    if path.len() == 1 {
        lemma_with_key_found(table, path[0], value, other);
    } else {
        let child = match subtable(table, path[0]) {
            Some(t) => t,
            None => Seq::empty(),
        };
        law_inserted_value_is_found(child, path.skip(1), value, other);
        lemma_with_key_found(
            table,
            path[0],
            Tree::Table(inserted(child, path.skip(1), value)),
            other,
        );
    }
}

/// A value in a table leaves its siblings alone.
pub proof fn law_inserted_value_keeps_its_siblings(
    table: Seq<Branch>,
    key: Seq<char>,
    name: Seq<char>,
    value: Tree,
    sibling: Seq<char>,
)
    requires
        sibling != name,
    ensures
        found_at(inserted(table, seq![key, name], value), seq![key, sibling]) == found_at(
            table,
            seq![key, sibling],
        ),
{
    let path = seq![key, name];
    let child = match subtable(table, key) {
        Some(t) => t,
        None => Seq::empty(),
    };
    assert(path.skip(1) =~= seq![name]);
    assert(seq![key, sibling].skip(1) =~= seq![sibling]);
    lemma_found_position(table, key);
    lemma_with_key_found(child, name, value, sibling);
    lemma_with_key_found(table, key, Tree::Table(with_key(child, name, value)), key);
    lemma_found_none(Seq::empty(), sibling);
    reveal_with_fuel(found_at, 3);
    reveal_with_fuel(inserted, 3);
}

/// Each key is tried as a whole first. What is accepted is found where the document has it; a
/// value that is not accepted costs nothing but itself; and of a table that is not accepted as a
/// whole the children are tried one by one.
pub proof fn law_bad_value_costs_only_itself(
    root: Seq<Branch>,
    src: Seq<Branch>,
    prefix: Seq<Seq<char>>,
    accepted: spec_fn(Seq<Branch>) -> bool,
    n: int,
)
    requires
        0 < n <= src.len(),
    ensures
        ({
            let before = kept(root, src, prefix, accepted, n - 1);
            let now = kept(root, src, prefix, accepted, n);
            let path = prefix.push(src[n - 1].key);
            let value = src[n - 1].value;
            &&& accepted(inserted(before, path, value)) ==> accepted(now) && found_at(now, path)
                == Some(value)
            &&& !accepted(inserted(before, path, value)) && value is Leaf && is_free(before, path)
                ==> now == before
            &&& !accepted(inserted(before, path, value)) && is_free(before, path) ==> (
            value matches Tree::Table(child) ==> now == kept(
                before,
                child,
                path,
                accepted,
                child.len() as int,
            ))
        }),
{
    let before = kept(root, src, prefix, accepted, n - 1);
    let path = prefix.push(src[n - 1].key);
    let value = src[n - 1].value;
    law_inserted_value_is_found(before, path, value, path[0]);
    if is_free(before, path) {
        law_rejected_value_leaves_no_trace(before, path, value);
    }
}

} // verus!
