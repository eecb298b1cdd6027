//! Stand-in files of the directory diff: for submodules and symbolic links
//! the two directories get a regular file whose text shows what changed.
use vstd::prelude::*;
use vstd::string::StrSliceExecFns;

verus! {

/// The texts of the left and right stand-in files of a path.
pub type StandinPair = (Option<Seq<char>>, Option<Seq<char>>);

/// The text of an optional string.
pub open spec fn opt_view(o: Option<String>) -> Option<Seq<char>> {
    match o {
        Some(s) => Some(s@),
        None => None,
    }
}

/// A path with the texts of its left and right stand-in files.
pub struct StandinEntry {
    pub path: String,
    pub left: Option<String>,
    pub right: Option<String>,
}

impl StandinEntry {
    /// The texts of the entry.
    pub open spec fn pair(&self) -> StandinPair {
        (opt_view(self.left), opt_view(self.right))
    }
}

/// Whether no two entries have the same path.
pub open spec fn distinct_paths(e: Seq<StandinEntry>) -> bool {
    forall|i: int, j: int| 0 <= i < j < e.len() ==> e[i].path@ != e[j].path@
}

/// The map from paths to texts that a list of entries with distinct paths
/// stands for.
pub open spec fn entries_map(e: Seq<StandinEntry>) -> Map<Seq<char>, StandinPair> {
    Map::new(
        |k: Seq<char>| exists|i: int| 0 <= i < e.len() && e[i].path@ == k,
        |k: Seq<char>| e[choose|i: int| 0 <= i < e.len() && e[i].path@ == k].pair(),
    )
}

proof fn lemma_entries_map_lookup(e: Seq<StandinEntry>, i: int)
    requires
        distinct_paths(e),
        0 <= i < e.len(),
    ensures
        entries_map(e).contains_key(e[i].path@),
        entries_map(e)[e[i].path@] == e[i].pair(),
{
    let k = e[i].path@;
    assert(exists|j: int| 0 <= j < e.len() && e[j].path@ == k);
    let j = choose|j: int| 0 <= j < e.len() && e[j].path@ == k;
    if j != i {
        if j < i {
            assert(e[j].path@ != e[i].path@);
        } else {
            assert(e[i].path@ != e[j].path@);
        }
    }
}

proof fn lemma_entries_map_update(e: Seq<StandinEntry>, i: int, x: StandinEntry)
    requires
        distinct_paths(e),
        0 <= i < e.len(),
        x.path@ == e[i].path@,
    ensures
        distinct_paths(e.update(i, x)),
        entries_map(e.update(i, x)) == entries_map(e).insert(x.path@, x.pair()),
{
    let f = e.update(i, x);
    assert forall|a: int, b: int| 0 <= a < b < f.len() implies f[a].path@ != f[b].path@ by {
        assert(e[a].path@ != e[b].path@);
    }
    let m = entries_map(e).insert(x.path@, x.pair());
    assert forall|k: Seq<char>| #[trigger] entries_map(f).contains_key(k) <==> m.contains_key(k) by {
        if entries_map(f).contains_key(k) {
            let j = choose|j: int| 0 <= j < f.len() && f[j].path@ == k;
            if j != i {
                lemma_entries_map_lookup(e, j);
            }
        }
        if m.contains_key(k) && k != x.path@ {
            let j = choose|j: int| 0 <= j < e.len() && e[j].path@ == k;
            assert(f[j].path@ == k);
        }
        if k == x.path@ {
            assert(f[i].path@ == k);
        }
    }
    assert forall|k: Seq<char>| #[trigger] entries_map(f).contains_key(k) implies entries_map(f)[k]
        == m[k] by {
        let j = choose|j: int| 0 <= j < f.len() && f[j].path@ == k;
        lemma_entries_map_lookup(f, j);
        if j != i {
            lemma_entries_map_lookup(e, j);
        }
    }
    assert(entries_map(f) =~= m);
}

proof fn lemma_entries_map_push(e: Seq<StandinEntry>, x: StandinEntry)
    requires
        distinct_paths(e),
        !entries_map(e).contains_key(x.path@),
    ensures
        distinct_paths(e.push(x)),
        entries_map(e.push(x)) == entries_map(e).insert(x.path@, x.pair()),
{
    let f = e.push(x);
    let n = e.len() as int;
    assert forall|a: int, b: int| 0 <= a < b < f.len() implies f[a].path@ != f[b].path@ by {
        if b == n {
            if e[a].path@ == x.path@ {
                assert(entries_map(e).contains_key(e[a].path@));
            }
        } else {
            assert(e[a].path@ != e[b].path@);
        }
    }
    let m = entries_map(e).insert(x.path@, x.pair());
    assert forall|k: Seq<char>| #[trigger] entries_map(f).contains_key(k) <==> m.contains_key(k) by {
        if entries_map(f).contains_key(k) {
            let j = choose|j: int| 0 <= j < f.len() && f[j].path@ == k;
            if j < n {
                lemma_entries_map_lookup(e, j);
            }
        }
        if m.contains_key(k) && k != x.path@ {
            let j = choose|j: int| 0 <= j < e.len() && e[j].path@ == k;
            assert(f[j].path@ == k);
        }
        if k == x.path@ {
            assert(f[n].path@ == k);
        }
    }
    assert forall|k: Seq<char>| #[trigger] entries_map(f).contains_key(k) implies entries_map(f)[k]
        == m[k] by {
        let j = choose|j: int| 0 <= j < f.len() && f[j].path@ == k;
        lemma_entries_map_lookup(f, j);
        if j < n {
            lemma_entries_map_lookup(e, j);
        }
    }
    assert(entries_map(f) =~= m);
}

/// Paths with the texts of their stand-in files, each path once.
pub struct StandinMap {
    entries: Vec<StandinEntry>,
}

impl View for StandinMap {
    type V = Map<Seq<char>, StandinPair>;

    closed spec fn view(&self) -> Map<Seq<char>, StandinPair> {
        entries_map(self.entries@)
    }
}

/// The pair after setting one side to `value`: an entry that exists keeps
/// its other side, a new one has nothing on the other side.
pub open spec fn with_side(old: Option<StandinPair>, value: Seq<char>, is_right: bool) -> StandinPair {
    match old {
        Some(p) => if is_right {
            (p.0, Some(value))
        } else {
            (Some(value), p.1)
        },
        None => if is_right {
            (None, Some(value))
        } else {
            (Some(value), None)
        },
    }
}

impl StandinMap {
    #[verifier::type_invariant]
    spec fn inv(self) -> bool {
        distinct_paths(self.entries@)
    }

    /// The entries in the order they were first added.
    pub closed spec fn spec_entries(&self) -> Seq<StandinEntry> {
        self.entries@
    }

    /// An empty map.
    pub fn new() -> (m: Self)
        ensures
            m@ == Map::<Seq<char>, StandinPair>::empty(),
            m.spec_entries().len() == 0,
    {
        let m = StandinMap { entries: Vec::new() };
        assert(m@ =~= Map::<Seq<char>, StandinPair>::empty());
        m
    }

    /// The number of paths.
    pub fn len(&self) -> (n: usize)
        ensures
            n == self.spec_entries().len(),
    {
        self.entries.len()
    }

    /// The entries with the map they stand for.
    pub fn entries(&self) -> (e: &[StandinEntry])
        ensures
            e@ == self.spec_entries(),
            distinct_paths(e@),
            entries_map(e@) == self@,
    {
        proof {
            use_type_invariant(self);
        }
        self.entries.as_slice()
    }

    fn find(&self, key: &String) -> (idx: Option<usize>)
        ensures
            match idx {
                Some(i) => i < self.entries@.len() && self.entries@[i as int].path@ == key@,
                None => !self@.contains_key(key@),
            },
    {
        let mut i: usize = 0;
        while i < self.entries.len()
            invariant
                i <= self.entries@.len(),
                forall|j: int| 0 <= j < i ==> self.entries@[j].path@ != key@,
            decreases self.entries@.len() - i,
        {
            if self.entries[i].path == *key {
                return Some(i);
            }
            i = i + 1;
        }
        None
    }

    /// Set the texts of a path, replacing any it had.
    pub fn insert(&mut self, key: String, left: Option<String>, right: Option<String>)
        ensures
            final(self)@ == old(self)@.insert(key@, (opt_view(left), opt_view(right))),
    {
        proof {
            use_type_invariant(&*self);
        }
        let entry = StandinEntry { path: key, left, right };
        match self.find(&entry.path) {
            Some(i) => {
                proof {
                    lemma_entries_map_update(self.entries@, i as int, entry);
                }
                let ghost before = self.entries@;
                let mut entries: Vec<StandinEntry> = Vec::new();
                std::mem::swap(&mut entries, &mut self.entries);
                entries.remove(i);
                entries.insert(i, entry);
                assert(entries@ =~= before.update(i as int, entry));
                self.entries = entries;
            },
            None => {
                proof {
                    lemma_entries_map_push(self.entries@, entry);
                }
                let mut entries: Vec<StandinEntry> = Vec::new();
                std::mem::swap(&mut entries, &mut self.entries);
                entries.push(entry);
                self.entries = entries;
            },
        }
    }
}

/// Add an entry to the map. The value being added is only one of the two
/// sides of the pair. Which side to update is controlled by the `is_right`
/// parameter: an existing entry keeps its other side, a new entry has none.
pub fn add_left_or_right(map: &mut StandinMap, key: &String, value: String, is_right: bool)
    ensures
        final(map)@ == old(map)@.insert(
            key@,
            with_side(
                if old(map)@.contains_key(key@) {
                    Some(old(map)@[key@])
                } else {
                    None
                },
                value@,
                is_right,
            ),
        ),
{
    proof {
        use_type_invariant(&*map);
    }
    match map.find(key) {
        Some(i) => {
            let ghost before = map.entries@;
            proof {
                lemma_entries_map_lookup(before, i as int);
            }
            let mut entries: Vec<StandinEntry> = Vec::new();
            std::mem::swap(&mut entries, &mut map.entries);
            let mut entry = entries.remove(i);
            if is_right {
                entry.right = Some(value);
            } else {
                entry.left = Some(value);
            }
            proof {
                lemma_entries_map_update(before, i as int, entry);
            }
            entries.insert(i, entry);
            assert(entries@ =~= before.update(i as int, entry));
            map.entries = entries;
        },
        None => {
            let entry = if is_right {
                StandinEntry { path: key.clone(), left: None, right: Some(value) }
            } else {
                StandinEntry { path: key.clone(), left: Some(value), right: None }
            };
            proof {
                lemma_entries_map_push(map.entries@, entry);
            }
            let mut entries: Vec<StandinEntry> = Vec::new();
            std::mem::swap(&mut entries, &mut map.entries);
            entries.push(entry);
            map.entries = entries;
        },
    }
}

/// The text written to a stand-in file: the value, with a newline added
/// unless it already ends with one.
pub open spec fn spec_standin_content(value: Seq<char>) -> Seq<char> {
    if value.len() > 0 && value.last() == '\n' {
        value
    } else {
        value.push('\n')
    }
}

/// The text written to a stand-in file.
pub fn standin_content(value: &str) -> (s: String)
    ensures
        s@ == spec_standin_content(value@),
{
    let n = value.unicode_len();
    let ends_with_newline = n > 0 && value.get_char(n - 1) == '\n';
    let mut s = value.to_owned();
    if !ends_with_newline {
        proof {
            reveal_strlit("\n");
        }
        s.append("\n");
        assert(s@ =~= value@.push('\n'));
    }
    s
}

/// A stand-in file to write: under the right directory or the left one, at
/// `path`, with `content`.
pub struct StandinFile {
    pub is_right: bool,
    pub path: String,
    pub content: String,
}

/// What a stand-in file holds.
pub open spec fn file_view(f: StandinFile) -> (bool, Seq<char>, Seq<char>) {
    (f.is_right, f.path@, f.content@)
}

/// The files of one entry: the left one, then the right one, each where
/// the entry has a text for that side.
pub open spec fn entry_files(e: StandinEntry) -> Seq<(bool, Seq<char>, Seq<char>)> {
    (match e.left {
        Some(v) => seq![(false, e.path@, spec_standin_content(v@))],
        None => Seq::empty(),
    }) + (match e.right {
        Some(v) => seq![(true, e.path@, spec_standin_content(v@))],
        None => Seq::empty(),
    })
}

/// The files of a list of entries, entry by entry.
pub open spec fn spec_standin_files(e: Seq<StandinEntry>) -> Seq<(bool, Seq<char>, Seq<char>)>
    decreases e.len(),
{
    if e.len() == 0 {
        Seq::empty()
    } else {
        spec_standin_files(e.drop_last()) + entry_files(e.last())
    }
}

/// The stand-in files to write for a map, entry by entry: the left file,
/// then the right one, where the entry has a text for that side.
pub fn standin_files(map: &StandinMap) -> (files: Vec<StandinFile>)
    ensures
        files@.map_values(|f: StandinFile| file_view(f)) == spec_standin_files(map.spec_entries()),
        distinct_paths(map.spec_entries()),
        entries_map(map.spec_entries()) == map@,
{
    let entries = map.entries();
    let mut files: Vec<StandinFile> = Vec::new();
    let mut i: usize = 0;
    while i < entries.len()
        invariant
            i <= entries@.len(),
            entries@ == map.spec_entries(),
            files@.map_values(|f: StandinFile| file_view(f)) == spec_standin_files(entries@.take(i as int)),
        decreases entries@.len() - i,
    {
        let e = &entries[i];
        let ghost before = files@.map_values(|f: StandinFile| file_view(f));
        match &e.left {
            Some(v) => {
                files.push(StandinFile { is_right: false, path: e.path.clone(), content: standin_content(v.as_str()) });
            },
            None => {},
        }
        match &e.right {
            Some(v) => {
                files.push(StandinFile { is_right: true, path: e.path.clone(), content: standin_content(v.as_str()) });
            },
            None => {},
        }
        assert(entries@.take(i + 1).drop_last() =~= entries@.take(i as int));
        assert(files@.map_values(|f: StandinFile| file_view(f)) =~= before + entry_files(*e));
        i = i + 1;
    }
    assert(entries@.take(entries@.len() as int) =~= entries@);
    files
}

/// Adding the left text of a new path and then its right text gives the
/// path both texts, and leaves every other path as it was.
pub proof fn lemma_left_then_right(m: Map<Seq<char>, StandinPair>, k: Seq<char>, l: Seq<char>, r: Seq<char>)
    requires
        !m.contains_key(k),
    ensures
        ({
            let m1 = m.insert(k, with_side(None, l, false));
            m1.insert(k, with_side(Some(m1[k]), r, true))
        }) == m.insert(k, (Some(l), Some(r))),
{
    let m1 = m.insert(k, with_side(None, l, false));
    assert(m1.insert(k, with_side(Some(m1[k]), r, true)) =~= m.insert(k, (Some(l), Some(r))));
}

/// Setting a side keeps the other side of an existing path.
pub proof fn lemma_with_side_keeps_other(p: StandinPair, value: Seq<char>)
    ensures
        with_side(Some(p), value, true).0 == p.0,
        with_side(Some(p), value, false).1 == p.1,
        with_side(Some(p), value, true).1 == Some(value),
        with_side(Some(p), value, false).0 == Some(value),
{
}

/// A stand-in file always ends with a newline, and holds the value with at
/// most that newline added.
pub proof fn lemma_standin_content_ends_with_newline(value: Seq<char>)
    ensures
        spec_standin_content(value).len() > 0,
        spec_standin_content(value).last() == '\n',
        spec_standin_content(value).take(value.len() as int) == value,
        spec_standin_content(value).len() <= value.len() + 1,
        spec_standin_content(spec_standin_content(value)) == spec_standin_content(value),
{
    assert(spec_standin_content(value).take(value.len() as int) =~= value);
}

} // verus!
