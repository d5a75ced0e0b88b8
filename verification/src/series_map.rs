//! An index of series by path that can also be walked in order.

use vstd::prelude::*;
use vstd::hash_map::StringHashMap;

use crate::model::{Series, SeriesView};
use crate::text::{chars_of, dir_holds_path, holds_path};

verus! {

/// The character sequences of a list of strings.
pub open spec fn string_views(s: Seq<String>) -> Seq<Seq<char>> {
    s.map_values(|p: String| p@)
}

/// Series keyed by their path; `paths` lists the keys in the order in which
/// they were first added.
pub struct SeriesMap {
    by_path: StringHashMap<Series>,
    paths: Vec<String>,
}

impl SeriesMap {
    /// The series held, keyed by path.
    pub closed spec fn view(&self) -> Map<Seq<char>, SeriesView> {
        self.by_path@.map_values(|s: Series| s@)
    }

    /// Every key is listed once, and every series is stored under its own path.
    pub closed spec fn wf(&self) -> bool {
        &&& string_views(self.paths@).no_duplicates()
        &&& self.by_path@.dom() == string_views(self.paths@).to_set()
        &&& forall|k: Seq<char>| #[trigger] self.by_path@.contains_key(k) ==> self.by_path@[k].path@ == k
    }

    /// Every stored series sits under its own path.
    pub proof fn lemma_keys_are_paths(&self, k: Seq<char>)
        requires
            self.wf(),
            self@.contains_key(k),
        ensures
            self@[k].path == k,
    {
    }

    /// An empty index.
    pub fn new() -> (res: Self)
        ensures
            res.wf(),
            res@ == Map::<Seq<char>, SeriesView>::empty(),
    {
        let res = SeriesMap { by_path: StringHashMap::new(), paths: Vec::new() };
        assert(string_views(res.paths@) =~= Seq::<Seq<char>>::empty());
        assert(res.by_path@.dom() =~= string_views(res.paths@).to_set());
        assert(res@ =~= Map::<Seq<char>, SeriesView>::empty());
        res
    }

    /// The series stored under `path`.
    pub fn get(&self, path: &str) -> (res: Option<&Series>)
        requires
            self.wf(),
        ensures
            match res {
                Some(s) => self@.contains_key(path@) && s@ == self@[path@],
                None => !self@.contains_key(path@),
            },
    {
        self.by_path.get(path)
    }

    /// Stores `s` under its path, replacing a series stored there before.
    pub fn insert(&mut self, s: Series)
        requires
            old(self).wf(),
        ensures
            final(self).wf(),
            final(self)@ == old(self)@.insert(s.path@, s@),
    {
        let ghost old_paths = string_views(self.paths@);
        let ghost key = s.path@;
        if !self.by_path.contains_key(s.path.as_str()) {
            self.paths.push(s.path.clone());
            proof {
                assert(string_views(self.paths@) =~= old_paths.push(key));
                assert(!old_paths.contains(key));
                assert(string_views(self.paths@).no_duplicates()) by {
                    assert forall|i: int, j: int|
                        0 <= i < string_views(self.paths@).len() && 0 <= j
                            < string_views(self.paths@).len() && i != j implies
                        string_views(self.paths@)[i] != string_views(self.paths@)[j] by {
                        if i == old_paths.len() as int {
                            assert(old_paths[j] == string_views(self.paths@)[j]);
                        } else if j == old_paths.len() as int {
                            assert(old_paths[i] == string_views(self.paths@)[i]);
                        }
                    }
                }
                assert(string_views(self.paths@).to_set() =~= old_paths.to_set().insert(key)) by {
                    broadcast use vstd::seq_lib::lemma_seq_contains_after_push;
                }
            }
        }
        let k = s.path.clone();
        self.by_path.insert(k, s);
        proof {
            assert(self.by_path@.dom() =~= string_views(self.paths@).to_set());
            assert(self@ =~= old(self)@.insert(key, s@));
        }
    }

    /// The id of the stored series whose directory holds `path` most
    /// closely: of the series whose directories hold `path`, the one with
    /// the longest path (there is only one such series, as its path is a
    /// prefix of `path` of that length).
    pub fn find_holder(&self, path: &str) -> (res: Option<String>)
        requires
            self.wf(),
        ensures
            res is None <==> !exists|k: Seq<char>| #[trigger] self@.contains_key(k) && holds_path(k, path@),
            res matches Some(id) ==> exists|k: Seq<char>|
                #[trigger] self@.contains_key(k) && holds_path(k, path@) && self@[k].id == id@
                    && forall|k2: Seq<char>| #[trigger] self@.contains_key(k2) && holds_path(k2, path@) ==> k2.len() <= k.len(),
    {
        let mut best: Option<usize> = None;
        let mut best_len: usize = 0;
        let mut i: usize = 0;
        while i < self.paths.len()
            invariant
                self.wf(),
                i <= self.paths@.len(),
                best matches Some(b) ==> {
                    &&& b < i
                    &&& holds_path(self.paths@[b as int]@, path@)
                    &&& best_len == self.paths@[b as int]@.len()
                    &&& forall|j: int| 0 <= j < i && holds_path(#[trigger] self.paths@[j]@, path@) ==> self.paths@[j]@.len() <= best_len
                },
                best is None ==> forall|j: int| 0 <= j < i ==> !holds_path(#[trigger] self.paths@[j]@, path@),
            decreases self.paths@.len() - i,
        {
            let p = &self.paths[i];
            if dir_holds_path(p.as_str(), path) {
                let len = chars_of(p.as_str()).len();
                match best {
                    None => {
                        best = Some(i);
                        best_len = len;
                    },
                    Some(_) => {
                        if len > best_len {
                            best = Some(i);
                            best_len = len;
                        }
                    },
                }
            }
            i = i + 1;
        }
        match best {
            None => {
                assert forall|k: Seq<char>| #[trigger] self@.contains_key(k) implies !holds_path(k, path@) by {
                    assert(string_views(self.paths@).to_set().contains(k));
                    assert(string_views(self.paths@).contains(k));
                    let j = choose|j: int| 0 <= j < string_views(self.paths@).len() && string_views(self.paths@)[j] == k;
                    assert(self.paths@[j]@ == k);
                }
                None
            },
            Some(b) => {
                let key = &self.paths[b];
                let ghost k = key@;
                assert(string_views(self.paths@)[b as int] == k);
                assert(string_views(self.paths@).to_set().contains(k));
                let s = self.by_path.get(key.as_str()).unwrap();
                let id = s.id.clone();
                assert forall|k2: Seq<char>| #[trigger] self@.contains_key(k2) && holds_path(k2, path@) implies k2.len() <= k.len() by {
                    assert(string_views(self.paths@).to_set().contains(k2));
                    assert(string_views(self.paths@).contains(k2));
                    let j = choose|j: int| 0 <= j < string_views(self.paths@).len() && string_views(self.paths@)[j] == k2;
                    assert(self.paths@[j]@ == k2);
                }
                assert(self@.contains_key(k) && holds_path(k, path@) && self@[k].id == id@);
                Some(id)
            },
        }
    }
}

} // verus!
