//! Trees of files.
use vstd::prelude::*;

verus! {

/// Whether `left` comes before `right` in the lexicographic order of bytes.
pub open spec fn precedes(left: Seq<u8>, right: Seq<u8>) -> bool
    decreases left.len(),
{
    if right.len() == 0 {
        false
    } else if left.len() == 0 {
        true
    } else if left[0] == right[0] {
        precedes(left.drop_first(), right.drop_first())
    } else {
        left[0] < right[0]
    }
}

proof fn lemma_precedes_irreflexive(name: Seq<u8>)
    ensures
        !precedes(name, name),
    decreases name.len(),
{
    if name.len() != 0 {
        lemma_precedes_irreflexive(name.drop_first());
    }
}

proof fn lemma_precedes_transitive(a: Seq<u8>, b: Seq<u8>, c: Seq<u8>)
    requires
        precedes(a, b),
        precedes(b, c),
    ensures
        precedes(a, c),
    decreases a.len(),
{
    if a.len() != 0 && a[0] == b[0] && b[0] == c[0] {
        lemma_precedes_transitive(a.drop_first(), b.drop_first(), c.drop_first());
    }
}

proof fn lemma_precedes_total(a: Seq<u8>, b: Seq<u8>)
    requires
        a != b,
        !precedes(a, b),
    ensures
        precedes(b, a),
    decreases a.len(),
{
    if a.len() == 0 {
        if b.len() == 0 {
            assert(a =~= b);
        }
    } else if b.len() != 0 && a[0] == b[0] {
        if a.drop_first() == b.drop_first() {
            assert(a =~= seq![a[0]] + a.drop_first());
            assert(b =~= seq![b[0]] + b.drop_first());
        }
        lemma_precedes_total(a.drop_first(), b.drop_first());
    }
}

/// Whether `left` comes before `right` in the lexicographic order of bytes.
fn comes_before(left: &[u8], right: &[u8]) -> (before: bool)
    ensures
        before == precedes(left@, right@),
{
    let mut i: usize = 0;
    assert(left@.skip(0) == left@);
    assert(right@.skip(0) == right@);
    while i < left.len() && i < right.len()
        invariant
            i <= left.len(),
            i <= right.len(),
            precedes(left@, right@) == precedes(left@.skip(i as int), right@.skip(i as int)),
        decreases left.len() - i,
    {
        let ghost l = left@.skip(i as int);
        let ghost r = right@.skip(i as int);
        if left[i] != right[i] {
            return left[i] < right[i];
        }
        proof {
            assert(l.drop_first() == left@.skip(i + 1));
            assert(r.drop_first() == right@.skip(i + 1));
        }
        i += 1;
    }
    i < right.len()
}

/// A file, or a directory with everything in it. Names are given to files by the directory that
/// they are in.
#[derive(Debug, PartialEq, Eq)]
pub enum FileTree {
    /// A regular file.
    Regular {
        /// The size in bytes.
        size: u64,
        /// Whether the file is executable.
        executable: bool,
    },
    /// A symbolic link.
    Symlink {
        /// The path that the link points to.
        target: Vec<u8>,
    },
    /// A directory.
    Directory {
        /// The files in the directory.
        entries: Entries,
    },
}

/// What the root of a [`FileTree`] stands for.
pub enum FileNodeView {
    Regular { size: u64, executable: bool },
    Symlink { target: Seq<u8> },
    Directory { entries: Map<Seq<u8>, FileTree> },
}

impl View for FileTree {
    type V = FileNodeView;

    open spec fn view(&self) -> FileNodeView {
        match *self {
            FileTree::Regular { size, executable } => FileNodeView::Regular { size, executable },
            FileTree::Symlink { target } => FileNodeView::Symlink { target: target@ },
            FileTree::Directory { entries } => FileNodeView::Directory { entries: entries@ },
        }
    }
}

impl FileTree {
    /// A regular file.
    pub fn regular(size: u64, executable: bool) -> (tree: FileTree)
        ensures
            tree@ == (FileNodeView::Regular { size, executable }),
    {
        FileTree::Regular { size, executable }
    }

    /// A symbolic link.
    pub fn symlink(target: Vec<u8>) -> (tree: FileTree)
        ensures
            tree@ == (FileNodeView::Symlink { target: target@ }),
    {
        FileTree::Symlink { target }
    }

    /// A directory.
    pub fn directory(entries: Entries) -> (tree: FileTree)
        ensures
            tree@ == (FileNodeView::Directory { entries: entries@ }),
    {
        FileTree::Directory { entries }
    }
}

/// The files in a directory by their names, which are arbitrary bytes. No name occurs twice.
#[derive(Debug, PartialEq, Eq)]
pub struct Entries {
    list: Vec<(Vec<u8>, FileTree)>,
}

spec fn is_named(list: Seq<(Vec<u8>, FileTree)>, i: int, name: Seq<u8>) -> bool {
    0 <= i < list.len() && list[i].0@ == name
}

spec fn names_ascend(list: Seq<(Vec<u8>, FileTree)>) -> bool {
    forall|i: int, j: int|
        0 <= i < j < list.len() ==> precedes(#[trigger] list[i].0@, #[trigger] list[j].0@)
}

spec fn entry_map(list: Seq<(Vec<u8>, FileTree)>) -> Map<Seq<u8>, FileTree> {
    Map::new(
        |name: Seq<u8>| exists|i: int| is_named(list, i, name),
        |name: Seq<u8>| list[choose|i: int| is_named(list, i, name)].1,
    )
}

proof fn lemma_name_is_unique(list: Seq<(Vec<u8>, FileTree)>, i: int)
    requires
        names_ascend(list),
        0 <= i < list.len(),
    ensures
        entry_map(list).contains_key(list[i].0@),
        entry_map(list)[list[i].0@] == list[i].1,
        forall|j: int| is_named(list, j, list[i].0@) ==> j == i,
{
    let name = list[i].0@;
    assert(is_named(list, i, name));
    assert forall|j: int| is_named(list, j, name) implies j == i by {
        lemma_precedes_irreflexive(name);
        if j < i {
            assert(precedes(list[j].0@, list[i].0@));
        } else if i < j {
            assert(precedes(list[i].0@, list[j].0@));
        }
    }
}

impl View for Entries {
    type V = Map<Seq<u8>, FileTree>;

    closed spec fn view(&self) -> Map<Seq<u8>, FileTree> {
        entry_map(self.list@)
    }
}

impl Entries {
    #[verifier::type_invariant]
    spec fn ascending(self) -> bool {
        names_ascend(self.list@)
    }

    /// A directory without files.
    pub fn new() -> (entries: Entries)
        ensures
            entries@ == Map::<Seq<u8>, FileTree>::empty(),
    {
        let entries = Entries { list: Vec::new() };
        assert(entries@ =~= Map::<Seq<u8>, FileTree>::empty());
        entries
    }

    /// The position behind the last name that does not come after `name`.
    fn position(&self, name: &[u8]) -> (p: usize)
        ensures
            p <= self.list@.len(),
            forall|k: int| p <= k < self.list@.len() ==> precedes(name@, #[trigger] self.list@[k].0@),
            p > 0 ==> !precedes(name@, self.list@[p - 1].0@),
    {
        let mut p: usize = self.list.len();
        while p > 0 && comes_before(name, self.list[p - 1].0.as_slice())
            invariant
                p <= self.list@.len(),
                forall|k: int|
                    p <= k < self.list@.len() ==> precedes(name@, #[trigger] self.list@[k].0@),
            decreases p,
        {
            p -= 1;
        }
        p
    }

    /// Adds a file, in place of the one of the same name if there is one.
    pub fn insert(self, name: Vec<u8>, tree: FileTree) -> (entries: Entries)
        ensures
            entries@ == self@.insert(name@, tree),
    {
        proof {
            use_type_invariant(&self);
        }
        let p = self.position(name.as_slice());
        let replaces = p > 0 && !comes_before(self.list[p - 1].0.as_slice(), name.as_slice());
        let ghost before = self.list@;
        let ghost new_name = name@;
        let mut list = self.list;
        if replaces {
            proof {
                if before[p - 1].0@ != new_name {
                    lemma_precedes_total(before[p - 1].0@, new_name);
                }
            }
            list[p - 1] = (name, tree);
            proof {
                lemma_replaced(before, p - 1, list@);
            }
        } else {
            list.insert(p, (name, tree));
            proof {
                lemma_inserted(before, p as int, list@);
            }
        }
        Entries { list }
    }

    /// The file called `name`.
    pub fn get(&self, name: &[u8]) -> (tree: Option<&FileTree>)
        ensures
            match tree {
                Some(tree) => self@.contains_key(name@) && *tree == self@[name@],
                None => !self@.contains_key(name@),
            },
    {
        proof {
            use_type_invariant(self);
        }
        let p = self.position(name);
        if p > 0 && !comes_before(self.list[p - 1].0.as_slice(), name) {
            proof {
                if self.list@[p - 1].0@ != name@ {
                    lemma_precedes_total(self.list@[p - 1].0@, name@);
                }
                lemma_name_is_unique(self.list@, p - 1);
            }
            Some(&self.list[p - 1].1)
        } else {
            proof {
                lemma_not_named(self.list@, p as int, name@);
            }
            None
        }
    }

    /// The number of files.
    pub fn len(&self) -> (n: usize)
        ensures
            self@.dom().finite(),
            n == self@.len(),
    {
        proof {
            use_type_invariant(self);
            lemma_entry_count(self.list@);
        }
        self.list.len()
    }
}

proof fn lemma_not_named(list: Seq<(Vec<u8>, FileTree)>, p: int, name: Seq<u8>)
    requires
        names_ascend(list),
        0 <= p <= list.len(),
        forall|k: int| p <= k < list.len() ==> precedes(name, #[trigger] list[k].0@),
        p > 0 ==> precedes(list[p - 1].0@, name),
    ensures
        !entry_map(list).contains_key(name),
        forall|k: int| 0 <= k < p ==> precedes(#[trigger] list[k].0@, name),
{
    assert forall|k: int| 0 <= k < p implies precedes(#[trigger] list[k].0@, name) by {
        if k < p - 1 {
            assert(precedes(list[k].0@, list[p - 1].0@));
            lemma_precedes_transitive(list[k].0@, list[p - 1].0@, name);
        }
    }
    lemma_precedes_irreflexive(name);
    assert forall|i: int| !is_named(list, i, name) by {}
}

proof fn lemma_replaced(
    before: Seq<(Vec<u8>, FileTree)>,
    p: int,
    after: Seq<(Vec<u8>, FileTree)>,
)
    requires
        names_ascend(before),
        0 <= p < before.len(),
        after.len() == before.len(),
        forall|k: int| 0 <= k < before.len() && k != p ==> after[k] == before[k],
        after[p].0@ == before[p].0@,
    ensures
        names_ascend(after),
        entry_map(after) == entry_map(before).insert(after[p].0@, after[p].1),
{
    assert forall|i: int, j: int| 0 <= i < j < after.len() implies precedes(
        #[trigger] after[i].0@,
        #[trigger] after[j].0@,
    ) by {
        assert(after[i].0@ == before[i].0@);
        assert(after[j].0@ == before[j].0@);
    }
    let expected = entry_map(before).insert(after[p].0@, after[p].1);
    assert forall|name: Seq<u8>| entry_map(after).contains_key(name) == expected.contains_key(
        name,
    ) by {
        if entry_map(after).contains_key(name) {
            let i = choose|i: int| is_named(after, i, name);
            assert(is_named(before, i, name));
        }
        if entry_map(before).contains_key(name) {
            let i = choose|i: int| is_named(before, i, name);
            assert(is_named(after, i, name));
        }
        assert(is_named(after, p, after[p].0@));
    }
    assert forall|name: Seq<u8>| entry_map(after).contains_key(name) implies entry_map(after)[name]
        == expected[name] by {
        let i = choose|i: int| is_named(after, i, name);
        lemma_name_is_unique(after, i);
        lemma_name_is_unique(before, i);
        assert(is_named(after, p, after[p].0@));
        if i != p {
            assert(after[i] == before[i]);
        }
    }
    assert(entry_map(after) =~= expected);
}

proof fn lemma_inserted(
    before: Seq<(Vec<u8>, FileTree)>,
    p: int,
    after: Seq<(Vec<u8>, FileTree)>,
)
    requires
        names_ascend(before),
        0 <= p <= before.len(),
        after.len() == before.len() + 1,
        after == before.insert(p, after[p]),
        forall|k: int| p <= k < before.len() ==> precedes(after[p].0@, #[trigger] before[k].0@),
        p > 0 ==> precedes(before[p - 1].0@, after[p].0@),
    ensures
        names_ascend(after),
        entry_map(after) == entry_map(before).insert(after[p].0@, after[p].1),
{
    let new_name = after[p].0@;
    lemma_not_named(before, p, new_name);
    assert forall|i: int, j: int| 0 <= i < j < after.len() implies precedes(
        #[trigger] after[i].0@,
        #[trigger] after[j].0@,
    ) by {
        let old_i = if i < p { i } else { i - 1 };
        let old_j = if j < p { j } else { j - 1 };
        if i != p {
            assert(after[i] == before[old_i]);
        }
        if j != p {
            assert(after[j] == before[old_j]);
        }
        if i != p && j != p {
            assert(precedes(before[old_i].0@, before[old_j].0@));
        }
    }
    let expected = entry_map(before).insert(new_name, after[p].1);
    assert forall|name: Seq<u8>| entry_map(after).contains_key(name) == expected.contains_key(
        name,
    ) by {
        if entry_map(after).contains_key(name) {
            let i = choose|i: int| is_named(after, i, name);
            if i != p {
                assert(is_named(before, if i < p { i } else { i - 1 }, name));
            }
        }
        if entry_map(before).contains_key(name) {
            let i = choose|i: int| is_named(before, i, name);
            assert(is_named(after, if i < p { i } else { i + 1 }, name));
        }
        assert(is_named(after, p, new_name));
    }
    assert forall|name: Seq<u8>| entry_map(after).contains_key(name) implies entry_map(after)[name]
        == expected[name] by {
        let i = choose|i: int| is_named(after, i, name);
        lemma_name_is_unique(after, i);
        if i != p {
            let old_i = if i < p { i } else { i - 1 };
            assert(after[i] == before[old_i]);
            lemma_name_is_unique(before, old_i);
        }
    }
    assert(entry_map(after) =~= expected);
}

proof fn lemma_entry_count(list: Seq<(Vec<u8>, FileTree)>)
    requires
        names_ascend(list),
    ensures
        entry_map(list).dom().finite(),
        entry_map(list).len() == list.len(),
    decreases list.len(),
{
    if list.len() == 0 {
        assert(entry_map(list) =~= Map::empty());
    } else {
        let rest = list.drop_last();
        let last = list.last();
        assert forall|i: int, j: int| 0 <= i < j < rest.len() implies precedes(
            #[trigger] rest[i].0@,
            #[trigger] rest[j].0@,
        ) by {
            assert(precedes(list[i].0@, list[j].0@));
        }
        lemma_entry_count(rest);
        assert(list =~= rest.insert(rest.len() as int, last));
        if rest.len() > 0 {
            assert(precedes(list[rest.len() - 1].0@, list[rest.len() as int].0@));
        }
        lemma_inserted(rest, rest.len() as int, list);
        lemma_not_named(rest, rest.len() as int, last.0@);
    }
}

/// A tree stands for what it holds: the size and the mode of a file, the target of a link, and the
/// files of a directory.
pub proof fn law_trees_are_what_they_hold(
    size: u64,
    executable: bool,
    target: Vec<u8>,
    entries: Entries,
)
    ensures
        (FileTree::Regular { size, executable })@ == (FileNodeView::Regular { size, executable }),
        (FileTree::Symlink { target })@ == (FileNodeView::Symlink { target: target@ }),
        (FileTree::Directory { entries })@ == (FileNodeView::Directory { entries: entries@ }),
{
}

} // verus!
