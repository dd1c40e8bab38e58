//! An explicit model of the slice of the filesystem the engine touches: a
//! finite set of paths, each holding a regular file (content and permission
//! mode) or a symlink. Its mathematical value is a map from path to entry.
use vstd::prelude::*;

verus! {

/// The mathematical value of one filesystem entry.
pub enum FsVal {
    Regular { content: Seq<char>, mode: u32 },
    Link { source: Seq<char> },
}

/// One filesystem entry: a regular file with its content and permission
/// mode, or a symlink to a source path.
#[derive(Debug)]
pub enum FsEntry {
    Regular { content: String, mode: u32 },
    Link { source: String },
}

impl View for FsEntry {
    type V = FsVal;

    open spec fn view(&self) -> FsVal {
        match self {
            FsEntry::Regular { content, mode } => FsVal::Regular {
                content: content@,
                mode: *mode,
            },
            FsEntry::Link { source } => FsVal::Link { source: source@ },
        }
    }
}

impl Clone for FsEntry {
    /// The copy shows the same entry.
    fn clone(&self) -> (r: Self)
        ensures
            r@ == self@,
    {
        match self {
            FsEntry::Regular { content, mode } => FsEntry::Regular {
                content: content.clone(),
                mode: *mode,
            },
            FsEntry::Link { source } => FsEntry::Link { source: source.clone() },
        }
    }
}

/// A path bound to the entry it holds.
#[derive(Debug)]
pub struct NamedEntry {
    pub path: String,
    pub entry: FsEntry,
}

impl DeepView for NamedEntry {
    type V = (Seq<char>, FsVal);

    open spec fn deep_view(&self) -> (Seq<char>, FsVal) {
        (self.path@, self.entry@)
    }
}

/// The map an association sequence denotes; later bindings win.
pub open spec fn map_of(s: Seq<(Seq<char>, FsVal)>) -> Map<Seq<char>, FsVal>
    decreases s.len(),
{
    if s.len() == 0 {
        Map::empty()
    } else {
        map_of(s.drop_last()).insert(s.last().0, s.last().1)
    }
}

/// No two bindings share a path.
pub open spec fn unique_keys(s: Seq<(Seq<char>, FsVal)>) -> bool {
    forall|i: int, j: int| 0 <= i < j < s.len() ==> (#[trigger] s[i].0) != (#[trigger] s[j].0)
}

/// A key is in the denoted map exactly when some binding carries it.
pub proof fn lemma_map_of_contains(s: Seq<(Seq<char>, FsVal)>, k: Seq<char>)
    ensures
        map_of(s).contains_key(k) <==> exists|i: int|
            0 <= i < s.len() && (#[trigger] s[i].0) == k,
    decreases s.len(),
{
    if s.len() > 0 {
        lemma_map_of_contains(s.drop_last(), k);
        if s.last().0 == k {
            assert(s[s.len() - 1].0 == k);
        } else {
            if map_of(s).contains_key(k) {
                let i = choose|i: int| 0 <= i < s.drop_last().len() && (#[trigger] s.drop_last()[i].0) == k;
                assert(s[i].0 == k);
            }
            if exists|i: int| 0 <= i < s.len() && (#[trigger] s[i].0) == k {
                let i = choose|i: int| 0 <= i < s.len() && (#[trigger] s[i].0) == k;
                assert(i < s.len() - 1);
                assert(s.drop_last()[i].0 == k);
            }
        }
    }
}

/// Under unique keys, the binding at any index gives the map's value there.
pub proof fn lemma_map_of_index(s: Seq<(Seq<char>, FsVal)>, i: int)
    requires
        unique_keys(s),
        0 <= i < s.len(),
    ensures
        map_of(s).contains_key(s[i].0),
        map_of(s)[s[i].0] == s[i].1,
    decreases s.len(),
{
    if i == s.len() - 1 {
    } else {
        assert(s[i].0 != s.last().0);
        assert(s.drop_last()[i] == s[i]);
        lemma_map_of_index(s.drop_last(), i);
    }
}

/// Under unique keys, rebinding the path at index `i` denotes `insert`.
pub proof fn lemma_map_of_update(s: Seq<(Seq<char>, FsVal)>, i: int, v: FsVal)
    requires
        unique_keys(s),
        0 <= i < s.len(),
    ensures
        map_of(s.update(i, (s[i].0, v))) == map_of(s).insert(s[i].0, v),
    decreases s.len(),
{
    let k = s[i].0;
    let t = s.update(i, (k, v));
    if i == s.len() - 1 {
        assert(t.drop_last() =~= s.drop_last());
        assert(map_of(t) =~= map_of(s).insert(k, v));
    } else {
        assert(t.drop_last() =~= s.drop_last().update(i, (k, v)));
        assert(s.drop_last()[i] == s[i]);
        lemma_map_of_update(s.drop_last(), i, v);
        assert(k != s.last().0);
        assert(map_of(t) =~= map_of(s).insert(k, v));
    }
}

/// Under unique keys, dropping the binding at index `i` denotes `remove`.
pub proof fn lemma_map_of_remove(s: Seq<(Seq<char>, FsVal)>, i: int)
    requires
        unique_keys(s),
        0 <= i < s.len(),
    ensures
        map_of(s.remove(i)) == map_of(s).remove(s[i].0),
    decreases s.len(),
{
    let k = s[i].0;
    if i == s.len() - 1 {
        assert(s.remove(i) =~= s.drop_last());
        lemma_map_of_contains(s.drop_last(), k);
        assert(forall|j: int|
            0 <= j < s.drop_last().len() ==> (#[trigger] s.drop_last()[j].0) == s[j].0);
        assert(!map_of(s.drop_last()).contains_key(k));
        assert(map_of(s.remove(i)) =~= map_of(s).remove(k));
    } else {
        assert(s.remove(i).drop_last() =~= s.drop_last().remove(i));
        assert(s.drop_last()[i] == s[i]);
        lemma_map_of_remove(s.drop_last(), i);
        assert(k != s.last().0);
        assert(s.remove(i).last() == s.last());
        assert(map_of(s.remove(i)) =~= map_of(s).remove(k));
    }
}

/// The filesystem model: a finite association of paths to entries.
#[derive(Debug)]
pub struct FileSystem {
    files: Vec<NamedEntry>,
}

impl View for FileSystem {
    type V = Map<Seq<char>, FsVal>;

    open spec fn view(&self) -> Map<Seq<char>, FsVal> {
        map_of(self.entries())
    }
}

impl FileSystem {
    /// The bindings in insertion order.
    pub closed spec fn entries(self) -> Seq<(Seq<char>, FsVal)> {
        self.files.deep_view()
    }

    /// Every path is bound at most once.
    pub open spec fn wf(self) -> bool {
        unique_keys(self.entries())
    }

    /// An empty filesystem model.
    pub fn new() -> (r: FileSystem)
        ensures
            r.wf(),
            r@ == Map::<Seq<char>, FsVal>::empty(),
            r.entries() == Seq::<(Seq<char>, FsVal)>::empty(),
    {
        let r = FileSystem { files: Vec::new() };
        proof {
            assert(r.entries() =~= Seq::<(Seq<char>, FsVal)>::empty());
        }
        r
    }

    /// The index at which a path is bound, if it is.
    fn find_index(&self, path: &str) -> (r: Option<usize>)
        ensures
            match r {
                Some(i) => i < self.entries().len() && self.entries()[i as int].0 == path@,
                None => forall|i: int|
                    0 <= i < self.entries().len() ==> (#[trigger] self.entries()[i].0) != path@,
            },
    {
        let mut i: usize = 0;
        while i < self.files.len()
            invariant
                i <= self.files@.len(),
                forall|j: int| 0 <= j < i ==> (#[trigger] self.entries()[j].0) != path@,
            decreases self.files@.len() - i,
        {
            if crate::textutil::str_eq(self.files[i].path.as_str(), path) {
                return Some(i);
            }
            i += 1;
        }
        None
    }

    /// Whether a path currently exists in the model.
    pub fn contains_path(&self, path: &str) -> (r: bool)
        ensures
            r == self@.contains_key(path@),
    {
        proof {
            lemma_map_of_contains(self.entries(), path@);
        }
        match self.find_index(path) {
            Some(_) => true,
            None => false,
        }
    }

    /// The entry a path holds, if the path exists.
    pub fn get(&self, path: &str) -> (r: Option<&FsEntry>)
        requires
            self.wf(),
        ensures
            match r {
                Some(e) => self@.contains_key(path@) && self@[path@] == e@,
                None => !self@.contains_key(path@),
            },
    {
        proof {
            lemma_map_of_contains(self.entries(), path@);
        }
        match self.find_index(path) {
            Some(i) => {
                proof {
                    lemma_map_of_index(self.entries(), i as int);
                }
                Some(&self.files[i].entry)
            },
            None => None,
        }
    }

    /// Whether a path exists and holds a symlink.
    pub fn is_symlink(&self, path: &str) -> (r: bool)
        requires
            self.wf(),
        ensures
            r == (self@.contains_key(path@) && self@[path@] is Link),
    {
        match self.get(path) {
            Some(e) => match e {
                FsEntry::Link { .. } => true,
                _ => false,
            },
            None => false,
        }
    }

    /// Binds a path to an entry, replacing any previous binding.
    pub fn put(&mut self, path: &str, entry: FsEntry)
        requires
            old(self).wf(),
        ensures
            final(self).wf(),
            final(self)@ == old(self)@.insert(path@, entry@),
            !old(self)@.contains_key(path@) ==> final(self).entries() == old(self).entries().push(
                (path@, entry@),
            ),
    {
        let ghost s = self.entries();
        let ghost v = entry@;
        proof {
            lemma_map_of_contains(s, path@);
        }
        match self.find_index(path) {
            Some(i) => {
                self.files.set(i, NamedEntry { path: String::from_str(path), entry });
                proof {
                    assert(self.entries() =~= s.update(i as int, (path@, v)));
                    lemma_map_of_update(s, i as int, v);
                    assert(forall|a: int, b: int|
                        0 <= a < b < self.entries().len() ==> (#[trigger] self.entries()[a].0)
                            != (#[trigger] self.entries()[b].0)) by {
                        assert(forall|a: int|
                            0 <= a < s.len() && a != i ==> (#[trigger] self.entries()[a].0)
                                == s[a].0);
                    }
                }
            },
            None => {
                self.files.push(NamedEntry { path: String::from_str(path), entry });
                proof {
                    assert(self.entries() =~= s.push((path@, v)));
                    assert(self.entries().drop_last() =~= s);
                    assert(self@ == map_of(s).insert(path@, v));
                }
            },
        }
    }

    /// Unbinds a path; a path that does not exist is left as it is.
    pub fn remove_path(&mut self, path: &str)
        requires
            old(self).wf(),
        ensures
            final(self).wf(),
            final(self)@ == old(self)@.remove(path@),
    {
        let ghost s = self.entries();
        proof {
            lemma_map_of_contains(s, path@);
        }
        match self.find_index(path) {
            Some(i) => {
                self.files.remove(i);
                proof {
                    assert(self.entries() =~= s.remove(i as int));
                    lemma_map_of_remove(s, i as int);
                    assert(forall|a: int, b: int|
                        0 <= a < b < self.entries().len() ==> (#[trigger] self.entries()[a].0)
                            != (#[trigger] self.entries()[b].0)) by {
                        assert(forall|a: int|
                            0 <= a < self.entries().len() ==> (#[trigger] self.entries()[a])
                                == (if a < i { s[a] } else { s[a + 1] }));
                    }
                }
            },
            None => {
                proof {
                    assert(!self@.contains_key(path@));
                    assert(self@ =~= old(self)@.remove(path@));
                }
            },
        }
    }

    /// The number of bindings.
    pub fn len(&self) -> (r: usize)
        ensures
            r == self.entries().len(),
    {
        self.files.len()
    }

    /// The path bound at an index, in insertion order.
    pub fn path_at(&self, i: usize) -> (r: &String)
        requires
            i < self.entries().len(),
        ensures
            r@ == self.entries()[i as int].0,
    {
        &self.files[i].path
    }

    /// The entry bound at an index, in insertion order.
    pub fn entry_at(&self, i: usize) -> (r: &FsEntry)
        requires
            i < self.entries().len(),
        ensures
            r@ == self.entries()[i as int].1,
    {
        &self.files[i].entry
    }
}

impl Clone for FileSystem {
    /// The copy shows the same bindings in the same order.
    fn clone(&self) -> (r: Self)
        ensures
            r.entries() == self.entries(),
            r@ == self@,
            r.wf() == self.wf(),
    {
        let mut files: Vec<NamedEntry> = Vec::new();
        let mut i: usize = 0;
        while i < self.files.len()
            invariant
                i <= self.files@.len(),
                files@.len() == i,
                forall|j: int|
                    0 <= j < i ==> (#[trigger] files@[j]).path@ == self.files@[j].path@
                        && files@[j].entry@ == self.files@[j].entry@,
            decreases self.files@.len() - i,
        {
            let ne = NamedEntry {
                path: self.files[i].path.clone(),
                entry: self.files[i].entry.clone(),
            };
            files.push(ne);
            i += 1;
        }
        let r = FileSystem { files };
        proof {
            assert(r.entries() =~= self.entries());
        }
        r
    }
}

} // verus!
