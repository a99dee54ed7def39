//! The crate's unmutated sources, by path: what each mutant is patched into,
//! and what is written back after it. Paths are compared by their components,
//! as `std::path::Path` compares them.
use vstd::prelude::*;
use crate::path::{components_of, path_components, same_components};

verus! {

/// The unmutated text of each source file, keyed by path.
pub struct Sources {
    paths: Vec<String>,
    keys: Vec<Vec<String>>,
    texts: Vec<String>,
    contents: Ghost<Map<Seq<Seq<char>>, Seq<char>>>,
}

/// The index of the first key equal to `key`, if any.
fn find(keys: &Vec<Vec<String>>, key: &Vec<String>) -> (r: Option<usize>)
    ensures
        r is None <==> forall|j: int| 0 <= j < keys.len() ==> keys@[j].deep_view() != key.deep_view(),
        r matches Some(i) ==> i < keys.len() && keys@[i as int].deep_view() == key.deep_view(),
{
    let mut i: usize = 0;
    while i < keys.len()
        invariant
            i <= keys.len(),
            forall|j: int| 0 <= j < i ==> keys@[j].deep_view() != key.deep_view(),
        decreases keys.len() - i,
    {
        if same_components(&keys[i], key) {
            return Some(i);
        }
        i = i + 1;
    }
    None
}

impl Sources {
    /// Each entry's key is its path's components, the keys are distinct, and
    /// the entries are exactly the contents.
    pub closed spec fn wf(&self) -> bool {
        &&& self.keys.len() == self.paths.len()
        &&& self.texts.len() == self.paths.len()
        &&& forall|i: int|
            0 <= i < self.paths.len() ==> #[trigger] self.keys@[i].deep_view() == components_of(
                self.paths@[i]@,
            )
        &&& forall|i: int, j: int|
            0 <= i < j < self.keys.len() ==> self.keys@[i].deep_view() != self.keys@[j].deep_view()
        &&& forall|i: int|
            0 <= i < self.keys.len() ==> #[trigger] self.contents@.contains_key(
                self.keys@[i].deep_view(),
            ) && self.contents@[self.keys@[i].deep_view()] == self.texts@[i]@
        &&& forall|k: Seq<Seq<char>>|
            #[trigger] self.contents@.contains_key(k) ==> exists|i: int|
                0 <= i < self.keys.len() && self.keys@[i].deep_view() == k
    }

    /// The text of every path, keyed by the path's components.
    pub closed spec fn view(&self) -> Map<Seq<Seq<char>>, Seq<char>> {
        self.contents@
    }

    /// The paths, in the order `entry` gives them.
    pub closed spec fn paths(&self) -> Seq<Seq<char>> {
        self.paths@.map_values(|p: String| p@)
    }

    /// The keys of the entries, in the order of `paths`.
    spec fn key_seq(&self) -> Seq<Seq<Seq<char>>> {
        self.keys@.map_values(|k: Vec<String>| k.deep_view())
    }

    /// The set of the keys is the domain of the contents, each key once.
    proof fn lemma_keys(&self)
        requires
            self.wf(),
        ensures
            self.key_seq().no_duplicates(),
            self.key_seq().to_set() == self.contents@.dom(),
            self.contents@.dom().finite(),
            self.contents@.len() == self.keys.len(),
    {
        let keys = self.key_seq();
        assert(keys.no_duplicates()) by {
            assert forall|i: int, j: int|
                0 <= i < keys.len() && 0 <= j < keys.len() && i != j implies keys[i] != keys[j] by {
                if i < j {
                    assert(self.keys@[i].deep_view() != self.keys@[j].deep_view());
                } else {
                    assert(self.keys@[j].deep_view() != self.keys@[i].deep_view());
                }
            }
        }
        assert(keys.to_set() =~= self.contents@.dom()) by {
            assert forall|k: Seq<Seq<char>>| keys.to_set().contains(k) implies self.contents@.contains_key(k) by {
                let i = choose|i: int| 0 <= i < keys.len() && keys[i] == k;
                assert(self.contents@.contains_key(self.keys@[i].deep_view()));
            }
            assert forall|k: Seq<Seq<char>>| self.contents@.contains_key(k) implies keys.to_set().contains(k) by {
                let i = choose|i: int| 0 <= i < self.keys.len() && self.keys@[i].deep_view() == k;
                assert(keys[i] == k);
            }
        }
        keys.unique_seq_to_set();
    }

    /// The paths' components are the keys of the contents, each once.
    pub proof fn paths_cover(&self)
        requires
            self.wf(),
        ensures
            self.paths().len() == self.view().len(),
            self.paths().map_values(|p: Seq<char>| components_of(p)).no_duplicates(),
            forall|k: Seq<Seq<char>>|
                self.view().contains_key(k) <==> self.paths().map_values(
                    |p: Seq<char>| components_of(p),
                ).contains(k),
    {
        self.lemma_keys();
        let comps = self.paths().map_values(|p: Seq<char>| components_of(p));
        assert(comps =~= self.key_seq()) by {
            assert forall|i: int| 0 <= i < comps.len() implies comps[i] == self.key_seq()[i] by {
                assert(self.keys@[i].deep_view() == components_of(self.paths@[i]@));
            }
        }
        assert forall|k: Seq<Seq<char>>| self.view().contains_key(k) <==> comps.contains(k) by {
            assert(comps.to_set().contains(k) == comps.contains(k));
        }
    }

    /// No sources.
    pub fn new() -> (r: Sources)
        ensures
            r.wf(),
            r.view() == Map::<Seq<Seq<char>>, Seq<char>>::empty(),
    {
        Sources {
            paths: Vec::new(),
            keys: Vec::new(),
            texts: Vec::new(),
            contents: Ghost(Map::empty()),
        }
    }

    /// The number of paths.
    pub fn len(&self) -> (r: usize)
        requires
            self.wf(),
        ensures
            r == self.view().len(),
    {
        proof {
            self.lemma_keys();
        }
        self.paths.len()
    }

    /// The index of the entry for the path whose components are `key`.
    fn index_of(&self, key: &Vec<String>) -> (r: Option<usize>)
        requires
            self.wf(),
        ensures
            r is None <==> !self.view().contains_key(key.deep_view()),
            r matches Some(i) ==> i < self.keys.len() && self.keys@[i as int].deep_view()
                == key.deep_view(),
    {
        let r = find(&self.keys, key);
        proof {
            if self.contents@.contains_key(key.deep_view()) {
                let i = choose|i: int|
                    0 <= i < self.keys.len() && self.keys@[i].deep_view() == key.deep_view();
            }
            if let Some(i) = r {
                assert(self.contents@.contains_key(self.keys@[i as int].deep_view()));
            }
        }
        r
    }

    /// Whether `path` has a text.
    pub fn contains(&self, path: &str) -> (r: bool)
        requires
            self.wf(),
        ensures
            r == self.view().contains_key(components_of(path@)),
    {
        self.index_of(&path_components(path)).is_some()
    }

    /// The text of `path`, if it has one.
    pub fn get(&self, path: &str) -> (r: Option<&String>)
        requires
            self.wf(),
        ensures
            r is Some <==> self.view().contains_key(components_of(path@)),
            r matches Some(t) ==> t@ == self.view()[components_of(path@)],
    {
        match self.index_of(&path_components(path)) {
            Some(i) => {
                proof {
                    assert(self.contents@.contains_key(self.keys@[i as int].deep_view()));
                }
                Some(&self.texts[i])
            },
            None => None,
        }
    }

    /// Sets the text of `path`, replacing any that a path with the same
    /// components had (that entry keeps its path, as a `BTreeMap` keeps its
    /// key).
    pub fn insert(&mut self, path: String, text: String)
        requires
            old(self).wf(),
        ensures
            final(self).wf(),
            final(self).view() == old(self).view().insert(components_of(path@), text@),
            final(self).paths() == (if old(self).view().contains_key(components_of(path@)) {
                old(self).paths()
            } else {
                old(self).paths().push(path@)
            }),
    {
        let ghost old_paths = self.paths@;
        let ghost pv = path@;
        let key = path_components(path.as_str());
        let ghost k0 = key.deep_view();
        let ghost old_keys = self.keys@;
        let ghost old_texts = self.texts@;
        let ghost old_contents = self.contents@;
        let ghost new_contents = self.contents@.insert(k0, text@);
        let found = self.index_of(&key);
        match found {
            Some(i) => {
                self.texts.set(i, text);
            },
            None => {
                self.paths.push(path);
                self.keys.push(key);
                self.texts.push(text);
            },
        }
        self.contents = Ghost(new_contents);
        proof {
            assert forall|k: Seq<Seq<char>>| #[trigger] new_contents.contains_key(k) implies exists|
                j: int,
            | 0 <= j < self.keys.len() && self.keys@[j].deep_view() == k by {
                if k != k0 {
                    let j = choose|j: int| 0 <= j < old_keys.len() && old_keys[j].deep_view() == k;
                    assert(self.keys@[j].deep_view() == k);
                } else {
                    match found {
                        Some(i) => assert(self.keys@[i as int].deep_view() == k),
                        None => assert(self.keys@[old_keys.len() as int].deep_view() == k),
                    }
                }
            }
            match found {
                Some(_) => {
                    assert(self.paths@ =~= old_paths);
                },
                None => {
                    assert(self.paths@ =~= old_paths.push(path));
                    assert(self.paths() =~= old_paths.map_values(|p: String| p@).push(pv));
                },
            }
            assert forall|i: int|
                0 <= i < self.keys.len() implies #[trigger] self.contents@.contains_key(
                self.keys@[i].deep_view(),
            ) && self.contents@[self.keys@[i].deep_view()] == self.texts@[i]@ by {
                if i < old_keys.len() {
                    assert(old_keys[i].deep_view() == self.keys@[i].deep_view());
                    assert(old_contents.contains_key(old_keys[i].deep_view()));
                    assert(old_contents[old_keys[i].deep_view()] == old_texts[i]@);
                    match found {
                        Some(f) => {
                            if i != f {
                                assert(self.texts@[i] == old_texts[i]);
                            }
                        },
                        None => {
                            assert(self.texts@[i] == old_texts[i]);
                        },
                    }
                }
            }
        }
    }

    /// The path and text of entry `i`: the entries `0..len()` give every
    /// path once (see `paths_cover`), in no particular order.
    pub fn entry(&self, i: usize) -> (r: (&String, &String))
        requires
            self.wf(),
            i < self.view().len(),
        ensures
            r.0@ == self.paths()[i as int],
            self.view().contains_key(components_of(r.0@)),
            self.view()[components_of(r.0@)] == r.1@,
    {
        proof {
            self.lemma_keys();
            assert(self.keys@[i as int].deep_view() == components_of(self.paths@[i as int]@));
            assert(self.contents@.contains_key(self.keys@[i as int].deep_view()));
        }
        (&self.paths[i as usize], &self.texts[i as usize])
    }
}

} // verus!
