//! Store paths and where they come from.
use crate::text::chars_of;
use vstd::prelude::*;
use vstd::string::*;

verus! {

/// How a store path was reached.
#[derive(Debug, PartialEq, Eq)]
pub struct PathOrigin {
    /// The attribute of the package that the path was found through.
    pub attr: String,
    /// The output of that package.
    pub output: String,
    /// Whether the path is an output of the package itself, not just something that it refers to.
    pub toplevel: bool,
}

/// What a [`PathOrigin`] stands for.
pub struct PathOriginView {
    pub attr: Seq<char>,
    pub output: Seq<char>,
    pub toplevel: bool,
}

impl View for PathOrigin {
    type V = PathOriginView;

    open spec fn view(&self) -> PathOriginView {
        PathOriginView { attr: self.attr@, output: self.output@, toplevel: self.toplevel }
    }
}

impl PathOriginView {
    /// The origin of a path that is referred to by a path of this origin.
    pub open spec fn of_reference(self) -> PathOriginView {
        PathOriginView { toplevel: false, ..self }
    }
}

impl Clone for PathOrigin {
    fn clone(&self) -> (copy: PathOrigin)
        ensures
            copy@ == self@,
    {
        PathOrigin {
            attr: self.attr.clone(),
            output: self.output.clone(),
            toplevel: self.toplevel,
        }
    }
}

impl PathOrigin {
    /// The same origin, marked as that of a path that is only referred to.
    pub fn of_reference(&self) -> (origin: PathOrigin)
        ensures
            origin@ == self@.of_reference(),
    {
        PathOrigin { attr: self.attr.clone(), output: self.output.clone(), toplevel: false }
    }
}

/// A path in the store, taken apart into the store's directory, the hash and the name.
#[derive(Debug, PartialEq, Eq)]
pub struct StorePath {
    store_dir: String,
    hash: String,
    name: String,
    origin: PathOrigin,
}

/// What a [`StorePath`] stands for.
pub struct StorePathView {
    pub store_dir: Seq<char>,
    pub hash: Seq<char>,
    pub name: Seq<char>,
    pub origin: PathOriginView,
}

impl View for StorePath {
    type V = StorePathView;

    closed spec fn view(&self) -> StorePathView {
        StorePathView {
            store_dir: self.store_dir@,
            hash: self.hash@,
            name: self.name@,
            origin: self.origin@,
        }
    }
}

/// The store path that `path` denotes. The name begins after the first `-`; before it stand the
/// hash and, in front of the last `/`, the store's directory, which may be missing.
pub open spec fn parsed_path(origin: PathOriginView, path: Seq<char>) -> Option<StorePathView> {
    match path.index_of_first('-') {
        None => None,
        Some(dash) => {
            let prefix = path.take(dash);
            let name = path.skip(dash + 1);
            match prefix.index_of_last('/') {
                None => Some(
                    StorePathView { store_dir: Seq::empty(), hash: prefix, name, origin },
                ),
                Some(slash) => Some(
                    StorePathView {
                        store_dir: prefix.take(slash),
                        hash: prefix.skip(slash + 1),
                        name,
                        origin,
                    },
                ),
            }
        },
    }
}

/// The position of the first `c` in `chars`.
fn first_position(chars: &Vec<char>, c: char) -> (found: Option<usize>)
    ensures
        match found {
            Some(i) => chars@.index_of_first(c) == Some(i as int) && i < chars.len(),
            None => chars@.index_of_first(c) is None,
        },
{
    proof {
        chars@.index_of_first_ensures(c);
    }
    for i in 0..chars.len()
        invariant
            forall|k: int| 0 <= k < i ==> chars@[k] != c,
    {
        if chars[i] == c {
            proof {
                chars@.index_of_first_ensures(c);
                let first = chars@.index_of_first(c)->0;
                assert(chars@.contains(c));
                assert(first == i) by {
                    if first < i {
                        assert(chars@[first] != c);
                    } else if i < first {
                        assert(chars@[i as int] != c);
                    }
                }
            }
            return Some(i);
        }
    }
    None
}

/// The position of the last `c` among the first `end` of `chars`.
fn last_position(chars: &Vec<char>, end: usize, c: char) -> (found: Option<usize>)
    requires
        end <= chars@.len(),
    ensures
        match found {
            Some(i) => chars@.take(end as int).index_of_last(c) == Some(i as int) && i < end,
            None => chars@.take(end as int).index_of_last(c) is None,
        },
{
    let ghost prefix = chars@.take(end as int);
    let mut i: usize = end;
    while i > 0
        invariant
            i <= end <= chars@.len(),
            prefix == chars@.take(end as int),
            forall|k: int| i <= k < end ==> prefix[k] != c,
        decreases i,
    {
        i -= 1;
        if chars[i] == c {
            proof {
                prefix.index_of_last_ensures(c);
                let last = prefix.index_of_last(c)->0;
                assert(prefix[i as int] == c);
                assert(prefix.contains(c));
                assert(last == i) by {
                    if last < i {
                        assert(prefix[i as int] != c);
                    } else if i < last {
                        assert(prefix[last] != c);
                    }
                }
            }
            return Some(i);
        }
    }
    proof {
        prefix.index_of_last_ensures(c);
    }
    None
}

impl StorePath {
    /// Reads a store path. `None` where `path` has no `-`; nothing else is checked.
    pub fn parse(origin: PathOrigin, path: &str) -> (result: Option<StorePath>)
        ensures
            match result {
                Some(store_path) => parsed_path(origin@, path@) == Some(store_path@),
                None => parsed_path(origin@, path@) is None,
            },
    {
        let chars = chars_of(path);
        let dash = match first_position(&chars, '-') {
            Some(dash) => dash,
            None => return None,
        };
        let name = path.substring_char(dash + 1, chars.len()).to_owned();
        let store_path = match last_position(&chars, dash, '/') {
            Some(slash) => {
                assert(path@.take(dash as int).take(slash as int) == path@.subrange(
                    0,
                    slash as int,
                ));
                assert(path@.take(dash as int).skip(slash + 1) == path@.subrange(
                    slash + 1,
                    dash as int,
                ));
                StorePath {
                    store_dir: path.substring_char(0, slash).to_owned(),
                    hash: path.substring_char(slash + 1, dash).to_owned(),
                    name,
                    origin,
                }
            },
            None => StorePath {
                store_dir: String::new(),
                hash: path.substring_char(0, dash).to_owned(),
                name,
                origin,
            },
        };
        Some(store_path)
    }

    /// The directory of the store, or nothing where the path was given without it.
    pub fn store_dir(&self) -> (store_dir: &str)
        ensures
            store_dir@ == self@.store_dir,
    {
        self.store_dir.as_str()
    }

    /// The hash that identifies the path.
    pub fn hash(&self) -> (hash: &str)
        ensures
            hash@ == self@.hash,
    {
        self.hash.as_str()
    }

    /// What follows the hash.
    pub fn name(&self) -> (name: &str)
        ensures
            name@ == self@.name,
    {
        self.name.as_str()
    }

    /// How the path was reached.
    pub fn origin(&self) -> (origin: &PathOrigin)
        ensures
            origin@ == self@.origin,
    {
        &self.origin
    }
}

/// A path that is read is made up of its parts: the directory, `/`, the hash, `-` and the name, or
/// the hash, `-` and the name alone. The hash holds neither `-` nor `/`.
pub proof fn law_path_is_its_parts(origin: PathOriginView, path: Seq<char>)
    ensures
        parsed_path(origin, path) matches Some(p) ==> {
            &&& p.origin == origin
            &&& !p.hash.contains('-') && !p.hash.contains('/') && !p.store_dir.contains('-')
            &&& path == p.hash + seq!['-'] + p.name || path == p.store_dir + seq!['/'] + p.hash
                + seq!['-'] + p.name
        },
{
    path.index_of_first_ensures('-');
    if let Some(dash) = path.index_of_first('-') {
        let prefix = path.take(dash);
        prefix.index_of_last_ensures('/');
        let p = parsed_path(origin, path)->0;
        assert(path =~= prefix + seq!['-'] + p.name);
        assert(!prefix.contains('-'));
        if let Some(slash) = prefix.index_of_last('/') {
            assert(prefix =~= p.store_dir + seq!['/'] + p.hash);
            assert forall|k: int| 0 <= k < p.hash.len() implies p.hash[k] != '-' && p.hash[k]
                != '/' by {
                assert(p.hash[k] == prefix[slash + 1 + k]);
            }
            assert forall|k: int| 0 <= k < p.store_dir.len() implies p.store_dir[k] != '-' by {
                assert(p.store_dir[k] == prefix[k]);
            }
        } else {
            assert(p.hash == prefix);
        }
    }
}

/// A directory without `-`, a hash without `-` and `/`, and any name can be read back from the path
/// that they make up.
pub proof fn law_parts_are_read_back(
    origin: PathOriginView,
    store_dir: Seq<char>,
    hash: Seq<char>,
    name: Seq<char>,
)
    requires
        !store_dir.contains('-'),
        !hash.contains('-'),
        !hash.contains('/'),
    ensures
        parsed_path(origin, store_dir + seq!['/'] + hash + seq!['-'] + name) == Some(
            StorePathView { store_dir, hash, name, origin },
        ),
        parsed_path(origin, hash + seq!['-'] + name) == Some(
            StorePathView { store_dir: Seq::empty(), hash, name, origin },
        ),
{
    let full_prefix = store_dir + seq!['/'] + hash;
    lemma_first_dash(full_prefix, name);
    lemma_first_dash(hash, name);
    full_prefix.index_of_last_ensures('/');
    hash.index_of_last_ensures('/');
    assert(full_prefix[store_dir.len() as int] == '/');
    assert(full_prefix.contains('/'));
    let slash = full_prefix.index_of_last('/')->0;
    assert(slash == store_dir.len()) by {
        if slash > store_dir.len() {
            assert(hash[slash - store_dir.len() - 1] == '/');
        }
    }
    assert(full_prefix.take(slash) =~= store_dir);
    assert(full_prefix.skip(slash + 1) =~= hash);
}

proof fn lemma_first_dash(prefix: Seq<char>, name: Seq<char>)
    requires
        !prefix.contains('-'),
    ensures
        ({
            let path = prefix + seq!['-'] + name;
            &&& path.index_of_first('-') == Some(prefix.len() as int)
            &&& path.take(prefix.len() as int) == prefix
            &&& path.skip(prefix.len() as int + 1) == name
        }),
{
    let path = prefix + seq!['-'] + name;
    path.index_of_first_ensures('-');
    assert(path[prefix.len() as int] == '-');
    assert(path.contains('-'));
    let dash = path.index_of_first('-')->0;
    assert(dash == prefix.len()) by {
        if dash < prefix.len() {
            assert(prefix[dash] == '-');
        }
    }
    assert(path.take(dash) =~= prefix);
    assert(path.skip(dash + 1) =~= name);
}

/// Something denotes a store path exactly if it holds a `-`.
pub proof fn law_a_path_needs_a_dash(origin: PathOriginView, path: Seq<char>)
    ensures
        parsed_path(origin, path) is Some <==> path.contains('-'),
{
    path.index_of_first_ensures('-');
}

/// A reference has the attribute and the output of what refers to it, and is not top-level.
pub proof fn law_references_keep_their_origin(origin: PathOriginView)
    ensures
        origin.of_reference().attr == origin.attr,
        origin.of_reference().output == origin.output,
        !origin.of_reference().toplevel,
{
}

/// An origin stands for what its fields hold.
pub proof fn law_origins_are_what_they_hold(origin: PathOrigin)
    ensures
        origin@.attr == origin.attr@,
        origin@.output == origin.output@,
        origin@.toplevel == origin.toplevel,
{
}

} // verus!
