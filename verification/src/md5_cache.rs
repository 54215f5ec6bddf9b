//! The MD5 cache: remembered fingerprints of game files, keyed by their path
//! relative to the game folder and valid while the file's modification time
//! is unchanged.

use vstd::prelude::*;
use vstd::string::*;
use crate::text::{str_eq, replace_backslashes, slashes_forward};
use crate::paths::{PathStyle, strip_prefix, strip_prefix_spec, file_name, file_name_spec};

verus! {

/// A remembered fingerprint.
#[derive(Debug)]
pub struct CacheEntry {
    /// Modification time of the file (seconds since the Unix epoch) when the
    /// fingerprint was taken.
    pub mtime: i64,
    /// Lower-case hexadecimal MD5 of the file.
    pub md5: String,
}

/// The map that a list of entries describes; a later entry for a key wins.
pub open spec fn table_map(entries: Seq<(String, CacheEntry)>) -> Map<Seq<char>, (i64, Seq<char>)>
    decreases entries.len(),
{
    if entries.len() == 0 {
        Map::empty()
    } else {
        table_map(entries.drop_last()).insert(
            entries.last().0@,
            (entries.last().1.mtime, entries.last().1.md5@),
        )
    }
}

/// Whether no key occurs twice.
pub open spec fn keys_unique(entries: Seq<(String, CacheEntry)>) -> bool {
    forall|i: int, j: int| 0 <= i < j < entries.len() ==> (#[trigger] entries[i]).0@ != (#[trigger] entries[j]).0@
}

/// The fingerprint remembered for `key` when the file's modification time is `mtime`.
pub open spec fn cached_md5(m: Map<Seq<char>, (i64, Seq<char>)>, key: Seq<char>, mtime: i64) -> Option<Seq<char>> {
    if m.contains_key(key) && m[key].0 == mtime {
        Some(m[key].1)
    } else {
        None
    }
}

proof fn lemma_table_map_keys(entries: Seq<(String, CacheEntry)>, k: Seq<char>)
    ensures
        table_map(entries).contains_key(k) <==> exists|i: int| 0 <= i < entries.len() && (#[trigger] entries[i]).0@ == k,
    decreases entries.len(),
{
    if entries.len() > 0 {
        let p = entries.drop_last();
        lemma_table_map_keys(p, k);
        if exists|i: int| 0 <= i < p.len() && (#[trigger] p[i]).0@ == k {
            let i = choose|i: int| 0 <= i < p.len() && (#[trigger] p[i]).0@ == k;
            assert(entries[i] == p[i]);
        }
        if exists|i: int| 0 <= i < entries.len() && (#[trigger] entries[i]).0@ == k {
            let i = choose|i: int| 0 <= i < entries.len() && (#[trigger] entries[i]).0@ == k;
            if i < p.len() {
                assert(p[i] == entries[i]);
            }
        }
    }
}

proof fn lemma_table_map_value(entries: Seq<(String, CacheEntry)>, i: int)
    requires
        keys_unique(entries),
        0 <= i < entries.len(),
    ensures
        table_map(entries).contains_key(entries[i].0@),
        table_map(entries)[entries[i].0@] == (entries[i].1.mtime, entries[i].1.md5@),
    decreases entries.len(),
{
    let p = entries.drop_last();
    if i < entries.len() - 1 {
        assert(keys_unique(p)) by {
            assert forall|a: int, b: int| 0 <= a < b < p.len() implies (#[trigger] p[a]).0@ != (#[trigger] p[b]).0@ by {
                assert(p[a] == entries[a] && p[b] == entries[b]);
            }
        }
        assert(p[i] == entries[i]);
        lemma_table_map_value(p, i);
        assert(entries[i].0@ != entries[entries.len() - 1].0@);
    }
}

/// The fingerprints remembered for a game folder.
pub struct CacheTable {
    entries: Vec<(String, CacheEntry)>,
    updated: bool,
}

impl CacheTable {
    #[verifier::type_invariant]
    spec fn wf(self) -> bool {
        keys_unique(self.entries@)
    }

    /// The remembered fingerprints, by relative path.
    pub closed spec fn map(self) -> Map<Seq<char>, (i64, Seq<char>)> {
        table_map(self.entries@)
    }

    /// Whether the table changed since it was loaded or last saved.
    pub closed spec fn dirty(self) -> bool {
        self.updated
    }

    /// An empty table that has nothing to save.
    pub fn new() -> (r: CacheTable)
        ensures
            r.map() == Map::<Seq<char>, (i64, Seq<char>)>::empty(),
            !r.dirty(),
    {
        CacheTable { entries: Vec::new(), updated: false }
    }

    /// The index of `key` in the entries, if present.
    fn find(&self, key: &str) -> (r: Option<usize>)
        ensures
            match r {
                Some(i) => i < self.entries@.len() && self.entries@[i as int].0@ == key@,
                None => forall|i: int| 0 <= i < self.entries@.len() ==> (#[trigger] self.entries@[i]).0@ != key@,
            },
    {
        let mut i: usize = 0;
        while i < self.entries.len()
            invariant
                i <= self.entries@.len(),
                forall|j: int| 0 <= j < i ==> (#[trigger] self.entries@[j]).0@ != key@,
            decreases self.entries@.len() - i,
        {
            if str_eq(self.entries[i].0.as_str(), key) {
                return Some(i);
            }
            i = i + 1;
        }
        None
    }

    /// The fingerprint remembered for `key`, valid for modification time `mtime`.
    pub fn lookup(&self, key: &str, mtime: i64) -> (r: Option<String>)
        ensures
            crate::config::opt_view(r) == cached_md5(self.map(), key@, mtime),
    {
        proof {
            use_type_invariant(self);
            lemma_table_map_keys(self.entries@, key@);
        }
        match self.find(key) {
            Some(i) => {
                proof {
                    lemma_table_map_value(self.entries@, i as int);
                }
                let e = &self.entries[i].1;
                if e.mtime == mtime {
                    Some(e.md5.clone())
                } else {
                    None
                }
            },
            None => None,
        }
    }

    /// The entries without the one for `key`.
    fn without(&self, key: &str) -> (r: Vec<(String, CacheEntry)>)
        ensures
            keys_unique(r@),
            table_map(r@) =~= self.map().remove(key@),
    {
        proof {
            use_type_invariant(self);
        }
        let mut r: Vec<(String, CacheEntry)> = Vec::new();
        let mut i: usize = 0;
        let ghost src = self.entries@;
        while i < self.entries.len()
            invariant
                src == self.entries@,
                keys_unique(src),
                i <= src.len(),
                keys_unique(r@),
                forall|k: int| 0 <= k < r@.len() ==> (#[trigger] r@[k]).0@ != key@
                    && exists|j: int| 0 <= j < i && r@[k].0@ == (#[trigger] src[j]).0@
                        && r@[k].1.mtime == src[j].1.mtime && r@[k].1.md5@ == src[j].1.md5@,
                forall|j: int| 0 <= j < i && (#[trigger] src[j]).0@ != key@
                    ==> exists|k: int| 0 <= k < r@.len() && (#[trigger] r@[k]).0@ == src[j].0@,
            decreases src.len() - i,
        {
            let (k, e) = &self.entries[i];
            if !str_eq(k.as_str(), key) {
                let ghost before = r@;
                r.push((k.clone(), CacheEntry { mtime: e.mtime, md5: e.md5.clone() }));
                proof {
                    assert forall|a: int, b: int| 0 <= a < b < r@.len() implies (#[trigger] r@[a]).0@ != (#[trigger] r@[b]).0@ by {
                        if b == before.len() {
                            assert(r@[a] == before[a]);
                            let j = choose|j: int| 0 <= j < i && before[a].0@ == (#[trigger] src[j]).0@
                                && before[a].1.mtime == src[j].1.mtime && before[a].1.md5@ == src[j].1.md5@;
                            assert(src[j].0@ != src[i as int].0@);
                        } else {
                            assert(r@[a] == before[a] && r@[b] == before[b]);
                        }
                    }
                    assert forall|q: int| 0 <= q < r@.len() implies (#[trigger] r@[q]).0@ != key@
                        && exists|j: int| 0 <= j < i + 1 && r@[q].0@ == (#[trigger] src[j]).0@
                            && r@[q].1.mtime == src[j].1.mtime && r@[q].1.md5@ == src[j].1.md5@ by {
                        if q < before.len() {
                            assert(r@[q] == before[q]);
                        } else {
                            assert(r@[q].0@ == src[i as int].0@);
                        }
                    }
                    assert forall|j: int| 0 <= j < i + 1 && (#[trigger] src[j]).0@ != key@
                        implies exists|q: int| 0 <= q < r@.len() && (#[trigger] r@[q]).0@ == src[j].0@ by {
                        if j < i {
                            let q = choose|q: int| 0 <= q < before.len() && (#[trigger] before[q]).0@ == src[j].0@;
                            assert(r@[q] == before[q]);
                        } else {
                            assert(r@[before.len() as int].0@ == src[j].0@);
                        }
                    }
                }
            }
            i = i + 1;
        }
        proof {
            let m = self.map();
            assert forall|k: Seq<char>| #[trigger] table_map(r@).contains_key(k) <==> m.remove(key@).contains_key(k) by {
                lemma_table_map_keys(r@, k);
                lemma_table_map_keys(src, k);
                if table_map(r@).contains_key(k) {
                    let q = choose|q: int| 0 <= q < r@.len() && (#[trigger] r@[q]).0@ == k;
                    let j = choose|j: int| 0 <= j < i && r@[q].0@ == (#[trigger] src[j]).0@
                        && r@[q].1.mtime == src[j].1.mtime && r@[q].1.md5@ == src[j].1.md5@;
                }
                if m.remove(key@).contains_key(k) {
                    let j = choose|j: int| 0 <= j < src.len() && (#[trigger] src[j]).0@ == k;
                }
            }
            assert forall|k: Seq<char>| #[trigger] table_map(r@).contains_key(k) implies table_map(r@)[k] == m.remove(key@)[k] by {
                lemma_table_map_keys(r@, k);
                let q = choose|q: int| 0 <= q < r@.len() && (#[trigger] r@[q]).0@ == k;
                let j = choose|j: int| 0 <= j < i && r@[q].0@ == (#[trigger] src[j]).0@
                    && r@[q].1.mtime == src[j].1.mtime && r@[q].1.md5@ == src[j].1.md5@;
                lemma_table_map_value(r@, q);
                lemma_table_map_value(src, j);
            }
        }
        r
    }

    /// Remembers `md5` for `key` at modification time `mtime`, replacing any
    /// earlier fingerprint of `key`; the table then has changes to save.
    pub fn record(&mut self, key: String, mtime: i64, md5: String)
        ensures
            final(self).map() == old(self).map().insert(key@, (mtime, md5@)),
            final(self).dirty(),
    {
        let mut rest = self.without(key.as_str());
        let ghost before = rest@;
        rest.push((key, CacheEntry { mtime, md5 }));
        proof {
            assert(rest@.drop_last() =~= before);
            assert forall|a: int, b: int| 0 <= a < b < rest@.len() implies (#[trigger] rest@[a]).0@ != (#[trigger] rest@[b]).0@ by {
                if b == before.len() {
                    assert(rest@[a] == before[a]);
                    lemma_table_map_keys(before, before[a].0@);
                } else {
                    assert(rest@[a] == before[a] && rest@[b] == before[b]);
                }
            }
        }
        self.entries = rest;
        self.updated = true;
        proof {
            assert(self.map() =~= old(self).map().remove(key@).insert(key@, (mtime, md5@)));
            assert(old(self).map().remove(key@).insert(key@, (mtime, md5@)) =~= old(self).map().insert(key@, (mtime, md5@)));
        }
    }

    /// Forgets the fingerprint of `key`; the table has changes to save when
    /// one was remembered.
    pub fn forget(&mut self, key: &str)
        ensures
            final(self).map() == old(self).map().remove(key@),
            final(self).dirty() == (old(self).dirty() || old(self).map().contains_key(key@)),
    {
        proof {
            use_type_invariant(&*self);
            lemma_table_map_keys(self.entries@, key@);
        }
        match self.find(key) {
            Some(_) => {
                let rest = self.without(key);
                self.entries = rest;
                self.updated = true;
            },
            None => {
                proof {
                    assert(self.map().remove(key@) =~= self.map());
                }
            },
        }
    }

    /// Whether the table has changes to save.
    pub fn needs_save(&self) -> (r: bool)
        ensures
            r == self.dirty(),
    {
        self.updated
    }

    /// Marks the table as saved.
    pub fn mark_saved(&mut self)
        ensures
            final(self).map() == old(self).map(),
            !final(self).dirty(),
    {
        proof {
            use_type_invariant(&*self);
        }
        self.updated = false;
    }

    /// The entries to save; they describe the table's map.
    pub fn entries(&self) -> (r: &Vec<(String, CacheEntry)>)
        ensures
            table_map(r@) == self.map(),
            keys_unique(r@),
    {
        proof {
            use_type_invariant(self);
        }
        &self.entries
    }

    /// A table holding the loaded entries `loaded` (a later entry for a key
    /// wins), with nothing to save.
    pub fn from_entries(loaded: Vec<(String, CacheEntry)>) -> (r: CacheTable)
        ensures
            r.map() == table_map(loaded@),
            !r.dirty(),
    {
        let mut t = CacheTable::new();
        let mut i: usize = 0;
        let ghost src = loaded@;
        let mut items = loaded;
        proof {
            assert(src.take(0) =~= Seq::<(String, CacheEntry)>::empty());
        }
        let mut rev: Vec<(String, CacheEntry)> = Vec::new();
        while items.len() > 0
            invariant
                items@.len() + rev@.len() == src.len(),
                items@ == src.take(items@.len() as int),
                forall|k: int| 0 <= k < rev@.len() ==> (#[trigger] rev@[k]) == src[src.len() - 1 - k],
            decreases items@.len(),
        {
            let ghost before = rev@;
            let x = items.pop().unwrap();
            proof {
                assert(x == src[items@.len() as int]);
                assert(items@ =~= src.take(items@.len() as int));
            }
            rev.push(x);
        }
        let n: usize = rev.len();
        while rev.len() > 0
            invariant
                rev@.len() <= n,
                n == src.len(),
                forall|k: int| 0 <= k < rev@.len() ==> (#[trigger] rev@[k]) == src[src.len() - 1 - k],
                t.map() == table_map(src.take(n - rev@.len())),
                !t.dirty(),
            decreases rev@.len(),
        {
            let (k, e) = rev.pop().unwrap();
            let ghost done = n - rev@.len() - 1;
            proof {
                assert(src.take(done + 1).drop_last() =~= src.take(done));
                assert(src[done] == (k, e));
            }
            t.record(k, e.mtime, e.md5);
            proof {
                use_type_invariant(&t);
            }
            t.updated = false;
        }
        proof {
            assert(src.take(n as int) =~= src);
        }
        t
    }
}

/// The fingerprint remembered for a file is the one recorded last for it,
/// and only while its modification time is unchanged; forgetting a file's
/// fingerprint leaves no fingerprint for it; other files are unaffected.
pub proof fn lemma_cache_read_your_write(
    m: Map<Seq<char>, (i64, Seq<char>)>,
    key: Seq<char>,
    other: Seq<char>,
    mtime: i64,
    other_mtime: i64,
    md5: Seq<char>,
)
    requires
        other != key,
    ensures
        cached_md5(m.insert(key, (mtime, md5)), key, mtime) == Some(md5),
        other_mtime != mtime ==> cached_md5(m.insert(key, (mtime, md5)), key, other_mtime) is None,
        cached_md5(m.remove(key), key, mtime) is None,
        cached_md5(m.insert(key, (mtime, md5)), other, other_mtime) == cached_md5(m, other, other_mtime),
        cached_md5(m.remove(key), other, other_mtime) == cached_md5(m, other, other_mtime),
{
}

/// The cache key of `file` when its fingerprint is looked up: its path
/// relative to the game folder with `/` separators, or its file name when
/// it is not inside the game folder.
pub open spec fn lookup_key_spec(style: PathStyle, file: Seq<char>, root: Seq<char>) -> Seq<char> {
    match strip_prefix_spec(style, file, root) {
        Some(rel) => slashes_forward(rel),
        None => match file_name_spec(style, file) {
            Some(n) => n,
            None => Seq::empty(),
        },
    }
}

/// The cache key of `file` when its fingerprint is looked up.
pub fn lookup_key(style: PathStyle, file: &str, root: &str) -> (r: String)
    ensures
        r@ == lookup_key_spec(style, file@, root@),
{
    match strip_prefix(style, file, root) {
        Some(rel) => replace_backslashes(rel.as_str()),
        None => match file_name(style, file) {
            Some(n) => n,
            None => String::new(),
        },
    }
}

/// The cache key of `file` when its fingerprint is forgotten: only files
/// inside the game folder have one.
pub fn clear_key(style: PathStyle, file: &str, root: &str) -> (r: Option<String>)
    ensures
        match r {
            Some(k) => strip_prefix_spec(style, file@, root@) matches Some(rel) && k@ == slashes_forward(rel),
            None => strip_prefix_spec(style, file@, root@) is None,
        },
{
    match strip_prefix(style, file, root) {
        Some(rel) => Some(replace_backslashes(rel.as_str())),
        None => None,
    }
}

/// A file inside the game folder is forgotten under the same key it is
/// looked up and recorded under.
pub proof fn lemma_clear_key_matches_lookup_key(style: PathStyle, file: Seq<char>, root: Seq<char>)
    requires
        strip_prefix_spec(style, file, root) is Some,
    ensures
        lookup_key_spec(style, file, root) == slashes_forward(strip_prefix_spec(style, file, root)->0),
{
}

} // verus!
