//! The asset store: files known when the program was built, looked up by
//! their exact relative path.
use vstd::prelude::*;

use crate::text::same_text;

verus! {

/// The MIME type that `mime_guess` gives a path, from its extension
/// (`application/octet-stream` where it knows none).
pub uninterp spec fn mime_of(path: Seq<char>) -> Seq<char>;

/// Relies on `mime_guess::from_path(..).first_or_octet_stream()`: the MIME
/// type of a path depends on the path's text alone.
#[verifier::external_body]
fn guess_mime(path: &str) -> (r: String)
    ensures
        r@ == mime_of(path@),
{
    mime_guess::from_path(path).first_or_octet_stream().to_string()
}

/// What the store holds for a path: the bytes and the MIME type.
pub type AssetContent = (Seq<u8>, Seq<char>);

/// The mapping that a list of keyed entries gives: a later entry replaces an
/// earlier one with the same key.
pub open spec fn map_of(s: Seq<(Seq<char>, AssetContent)>) -> Map<Seq<char>, AssetContent>
    decreases s.len(),
{
    if s.len() == 0 {
        Map::empty()
    } else {
        map_of(s.drop_last()).insert(s.last().0, s.last().1)
    }
}

/// Whether no two entries of `s` share a key.
pub open spec fn distinct_keys<V>(s: Seq<(Seq<char>, V)>) -> bool {
    forall|i: int, j: int|
        0 <= i < s.len() && 0 <= j < s.len() && i != j ==> #[trigger] s[i].0 != #[trigger] s[j].0
}

/// The entries that a list of files gives: each file's MIME type comes from
/// its path.
pub open spec fn file_entries(files: Seq<(Seq<char>, Seq<u8>)>) -> Seq<(Seq<char>, AssetContent)> {
    files.map_values(|f: (Seq<char>, Seq<u8>)| (f.0, (f.1, mime_of(f.0))))
}

/// The store that a list of files builds.
pub open spec fn store_of(files: Seq<(Seq<char>, Seq<u8>)>) -> Map<Seq<char>, AssetContent> {
    map_of(file_entries(files))
}

/// A key is in the mapping exactly when some entry has it.
pub proof fn lemma_map_of_contains(s: Seq<(Seq<char>, AssetContent)>, p: Seq<char>)
    ensures
        map_of(s).contains_key(p) <==> exists|i: int| 0 <= i < s.len() && (#[trigger] s[i]).0 == p,
    decreases s.len(),
{
    if s.len() > 0 {
        let t = s.drop_last();
        lemma_map_of_contains(t, p);
        if map_of(t).contains_key(p) {
            let i = choose|i: int| 0 <= i < t.len() && (#[trigger] t[i]).0 == p;
            assert(s[i] == t[i]);
        }
        if exists|i: int| 0 <= i < s.len() && (#[trigger] s[i]).0 == p {
            let i = choose|i: int| 0 <= i < s.len() && (#[trigger] s[i]).0 == p;
            if i < s.len() - 1 {
                assert(t[i] == s[i]);
            }
        }
    }
}

/// With distinct keys, each entry's key maps to that entry's value.
pub proof fn lemma_map_of_value(s: Seq<(Seq<char>, AssetContent)>, i: int)
    requires
        distinct_keys(s),
        0 <= i < s.len(),
    ensures
        map_of(s).contains_key(s[i].0),
        map_of(s)[s[i].0] == s[i].1,
    decreases s.len(),
{
    let t = s.drop_last();
    if i < s.len() - 1 {
        assert(t[i] == s[i]);
        assert(distinct_keys(t)) by {
            assert forall|a: int, b: int| 0 <= a < t.len() && 0 <= b < t.len() && a != b
                implies #[trigger] t[a].0 != #[trigger] t[b].0 by {
                assert(t[a] == s[a] && t[b] == s[b]);
            }
        }
        lemma_map_of_value(t, i);
        assert(s[i].0 != s[s.len() - 1].0);
    }
}

/// Replacing the entry of a key, among distinct keys, sets that key alone.
proof fn lemma_map_of_update(s: Seq<(Seq<char>, AssetContent)>, i: int, x: (Seq<char>, AssetContent))
    requires
        distinct_keys(s),
        0 <= i < s.len(),
        s[i].0 == x.0,
    ensures
        map_of(s.update(i, x)) == map_of(s).insert(x.0, x.1),
    decreases s.len(),
{
    let u = s.update(i, x);
    let t = s.drop_last();
    if i == s.len() - 1 {
        assert(u.drop_last() == t);
        assert(map_of(u) =~= map_of(s).insert(x.0, x.1));
    } else {
        assert(u.drop_last() == t.update(i, x));
        assert(distinct_keys(t)) by {
            assert forall|a: int, b: int| 0 <= a < t.len() && 0 <= b < t.len() && a != b
                implies #[trigger] t[a].0 != #[trigger] t[b].0 by {
                assert(t[a] == s[a] && t[b] == s[b]);
            }
        }
        lemma_map_of_update(t, i, x);
        assert(s[s.len() - 1].0 != s[i].0);
        assert(map_of(u) =~= map_of(s).insert(x.0, x.1));
    }
}

/// Every file of a store built from files with distinct paths is found under
/// its path, with its exact bytes and the MIME type of its extension.
pub proof fn law_embedded_file_found(files: Seq<(Seq<char>, Seq<u8>)>, i: int)
    requires
        distinct_keys(files),
        0 <= i < files.len(),
    ensures
        store_of(files).contains_key(files[i].0),
        store_of(files)[files[i].0] == (files[i].1, mime_of(files[i].0)),
{
    let s = file_entries(files);
    assert forall|a: int, b: int| 0 <= a < s.len() && 0 <= b < s.len() && a != b
        implies #[trigger] s[a].0 != #[trigger] s[b].0 by {
        assert(s[a].0 == files[a].0 && s[b].0 == files[b].0);
    }
    lemma_map_of_value(s, i);
}

/// A path that is none of the files' paths is not in the store.
pub proof fn law_other_path_missing(files: Seq<(Seq<char>, Seq<u8>)>, p: Seq<char>)
    requires
        forall|i: int| 0 <= i < files.len() ==> (#[trigger] files[i]).0 != p,
    ensures
        !store_of(files).contains_key(p),
{
    let s = file_entries(files);
    lemma_map_of_contains(s, p);
    assert forall|i: int| 0 <= i < s.len() implies (#[trigger] s[i]).0 != p by {
        assert(s[i].0 == files[i].0);
    }
}

/// One embedded file: its relative path, its bytes and its MIME type.
pub struct EmbeddedAsset {
    pub path: String,
    pub data: Vec<u8>,
    pub mime: String,
}

impl EmbeddedAsset {
    pub open spec fn entry(&self) -> (Seq<char>, AssetContent) {
        (self.path@, (self.data@, self.mime@))
    }
}

/// A read-only mapping from relative path to embedded file.
pub struct AssetStore {
    entries: Vec<EmbeddedAsset>,
}

impl View for AssetStore {
    type V = Map<Seq<char>, AssetContent>;

    /// Each stored path with its bytes and MIME type.
    closed spec fn view(&self) -> Map<Seq<char>, AssetContent> {
        map_of(self.entry_seq())
    }
}

impl AssetStore {
    closed spec fn entry_seq(&self) -> Seq<(Seq<char>, AssetContent)> {
        self.entries@.map_values(|e: EmbeddedAsset| e.entry())
    }

    /// No two entries share a path.
    pub closed spec fn wf(&self) -> bool {
        distinct_keys(self.entry_seq())
    }

    /// An empty store.
    pub fn new() -> (r: AssetStore)
        ensures
            r.wf(),
            r@ == Map::<Seq<char>, AssetContent>::empty(),
    {
        let r = AssetStore { entries: Vec::new() };
        assert(r.entry_seq().len() == 0);
        r
    }

    /// The file stored under exactly `path`, if any. Paths are compared as
    /// they are: nothing is normalised.
    pub fn lookup(&self, path: &str) -> (r: Option<&EmbeddedAsset>)
        requires
            self.wf(),
        ensures
            r is None <==> !self@.contains_key(path@),
            r matches Some(a) ==> a.path@ == path@ && self@[path@] == (a.data@, a.mime@),
    {
        let n = self.entries.len();
        let mut i: usize = 0;
        while i < n
            invariant
                n == self.entries@.len(),
                i <= n,
                self.wf(),
                forall|k: int| 0 <= k < i ==> (#[trigger] self.entries@[k]).path@ != path@,
            decreases n - i,
        {
            if same_text(self.entries[i].path.as_str(), path) {
                proof {
                    assert(self.entry_seq()[i as int] == self.entries@[i as int].entry());
                    lemma_map_of_value(self.entry_seq(), i as int);
                }
                return Some(&self.entries[i]);
            }
            i = i + 1;
        }
        proof {
            lemma_map_of_contains(self.entry_seq(), path@);
            assert forall|k: int| 0 <= k < self.entry_seq().len()
                implies (#[trigger] self.entry_seq()[k]).0 != path@ by {
                assert(self.entry_seq()[k] == self.entries@[k].entry());
            }
        }
        None
    }

    /// Stores `data` under `path`, with the MIME type of the path's
    /// extension, replacing what the path held before.
    pub fn insert(&mut self, path: String, data: Vec<u8>)
        requires
            old(self).wf(),
        ensures
            final(self).wf(),
            final(self)@ == old(self)@.insert(path@, (data@, mime_of(path@))),
    {
        let mime = guess_mime(path.as_str());
        let n = self.entries.len();
        let mut i: usize = 0;
        while i < n
            invariant
                n == self.entries@.len(),
                i <= n,
                self.wf(),
                self.entries@ == old(self).entries@,
                mime@ == mime_of(path@),
                forall|k: int| 0 <= k < i ==> (#[trigger] self.entries@[k]).path@ != path@,
            decreases n - i,
        {
            if same_text(self.entries[i].path.as_str(), path.as_str()) {
                let ghost before = self.entry_seq();
                let asset = EmbeddedAsset { path, data, mime };
                let ghost x = asset.entry();
                self.entries.set(i, asset);
                proof {
                    assert(before[i as int] == old(self).entries@[i as int].entry());
                    assert(self.entry_seq() =~= before.update(i as int, x));
                    lemma_map_of_update(before, i as int, x);
                    assert(before == old(self).entry_seq());
                    assert(x == (path@, (data@, mime_of(path@))));
                    assert(self@ == map_of(before.update(i as int, x)));
                    assert forall|a: int, b: int|
                        0 <= a < self.entry_seq().len() && 0 <= b < self.entry_seq().len() && a != b
                        implies #[trigger] self.entry_seq()[a].0 != #[trigger] self.entry_seq()[b].0 by {
                        if a != i && b != i {
                            assert(self.entry_seq()[a] == before[a]);
                            assert(self.entry_seq()[b] == before[b]);
                        } else if a == i {
                            assert(self.entry_seq()[b] == before[b]);
                        } else {
                            assert(self.entry_seq()[a] == before[a]);
                        }
                    }
                }
                return;
            }
            i = i + 1;
        }
        let ghost before = self.entry_seq();
        let asset = EmbeddedAsset { path, data, mime };
        let ghost x = asset.entry();
        self.entries.push(asset);
        proof {
            assert(self.entry_seq() =~= before.push(x));
            assert(self.entry_seq().drop_last() == before);
            assert forall|a: int, b: int|
                0 <= a < self.entry_seq().len() && 0 <= b < self.entry_seq().len() && a != b
                implies #[trigger] self.entry_seq()[a].0 != #[trigger] self.entry_seq()[b].0 by {
                if a < n {
                    assert(self.entry_seq()[a] == old(self).entries@[a].entry());
                }
                if b < n {
                    assert(self.entry_seq()[b] == old(self).entries@[b].entry());
                }
            }
        }
    }

    /// A store of the given files: each path maps to its bytes and the MIME
    /// type of its extension; a later file replaces an earlier one of the same
    /// path.
    pub fn from_files(files: Vec<(String, Vec<u8>)>) -> (r: AssetStore)
        ensures
            r.wf(),
            r@ == store_of(files@.map_values(|f: (String, Vec<u8>)| (f.0@, f.1@))),
    {
        let mut store = AssetStore::new();
        let mut files = files;
        let ghost all = files@;
        let ghost total = all.len();
        while files.len() > 0
            invariant
                store.wf(),
                files@.len() <= total,
                total == all.len(),
                files@ == all.subrange(total - files@.len(), total as int),
                store@ == store_of(
                    all.subrange(0, total - files@.len()).map_values(
                        |f: (String, Vec<u8>)| (f.0@, f.1@),
                    ),
                ),
            decreases files.len(),
        {
            let ghost k = total - files@.len();
            let f = files.remove(0);
            let (path, data) = f;
            store.insert(path, data);
            proof {
                assert(all[k] == f);
                let prev = all.subrange(0, k).map_values(|f: (String, Vec<u8>)| (f.0@, f.1@));
                let next = all.subrange(0, k + 1).map_values(|f: (String, Vec<u8>)| (f.0@, f.1@));
                assert(file_entries(next).drop_last() =~= file_entries(prev));
                assert(files@ =~= all.subrange(total - files@.len(), total as int));
            }
        }
        assert(all.subrange(0, total as int) == all);
        store
    }
}

} // verus!
