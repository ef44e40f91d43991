//! An in-memory file store: the model of the files that template deployment
//! and backups touch. It backs the fake session backend used to exercise the
//! lifecycle operations without real file I/O.

use vstd::prelude::*;

use crate::template::secrets_view;
use crate::template::substitute_secrets;
use crate::template::substitute_seq;

verus! {

/// The map view of a list of path/content entries; a later entry for the
/// same path wins.
pub open spec fn store_map(s: Seq<(String, Vec<u8>)>) -> Map<Seq<char>, Seq<u8>>
    decreases s.len(),
{
    if s.len() == 0 {
        Map::<Seq<char>, Seq<u8>>::empty()
    } else {
        store_map(s.drop_last()).insert(s.last().0@, s.last().1@)
    }
}

/// The entries' paths are pairwise distinct.
pub open spec fn unique_keys(s: Seq<(String, Vec<u8>)>) -> bool {
    forall|i: int, j: int| 0 <= i < j < s.len() ==> (#[trigger] s[i]).0@ != (#[trigger] s[j]).0@
}

/// A path occurs in the entry list exactly when the map view knows it.
proof fn lemma_store_map_contains(s: Seq<(String, Vec<u8>)>, k: Seq<char>)
    ensures
        store_map(s).contains_key(k) <==> exists|i: int| 0 <= i < s.len() && (#[trigger] s[i]).0@
            == k,
    decreases s.len(),
{
    if s.len() > 0 {
        lemma_store_map_contains(s.drop_last(), k);
        if s.last().0@ == k {
            assert(s[s.len() - 1].0@ == k);
        } else {
            if exists|i: int| 0 <= i < s.len() && (#[trigger] s[i]).0@ == k {
                let i = choose|i: int| 0 <= i < s.len() && (#[trigger] s[i]).0@ == k;
                assert(i < s.len() - 1);
                assert(s.drop_last()[i].0@ == k);
            }
            if exists|i: int| 0 <= i < s.drop_last().len() && (#[trigger] s.drop_last()[i]).0@
                == k {
                let i = choose|i: int|
                    0 <= i < s.drop_last().len() && (#[trigger] s.drop_last()[i]).0@ == k;
                assert(s[i].0@ == k);
            }
        }
    }
}

/// With distinct paths, the map view of entry `i` is its content.
proof fn lemma_store_map_get(s: Seq<(String, Vec<u8>)>, i: int)
    requires
        unique_keys(s),
        0 <= i < s.len(),
    ensures
        store_map(s).contains_key(s[i].0@),
        store_map(s)[s[i].0@] == s[i].1@,
    decreases s.len(),
{
    if i == s.len() - 1 {
    } else {
        assert(s[i].0@ != s[s.len() - 1].0@);
        assert(s.drop_last()[i] == s[i]);
        lemma_store_map_get(s.drop_last(), i);
    }
}

/// With distinct paths, overwriting entry `i` in place updates the map view
/// at that path.
proof fn lemma_store_map_update(s: Seq<(String, Vec<u8>)>, i: int, path: String, data: Vec<u8>)
    requires
        unique_keys(s),
        0 <= i < s.len(),
        s[i].0@ == path@,
    ensures
        store_map(s.update(i, (path, data))) =~= store_map(s).insert(path@, data@),
    decreases s.len(),
{
    let su = s.update(i, (path, data));
    if i == s.len() - 1 {
        assert(su.drop_last() =~= s.drop_last());
        assert(su.last() == (path, data));
    } else {
        assert(s[i].0@ != s[s.len() - 1].0@);
        assert(su.drop_last() =~= s.drop_last().update(i, (path, data)));
        assert(s.drop_last()[i] == s[i]);
        lemma_store_map_update(s.drop_last(), i, path, data);
        assert(su.last() == s.last());
        assert(store_map(su) =~= store_map(s.drop_last()).insert(path@, data@).insert(
            s.last().0@,
            s.last().1@,
        ));
        assert(store_map(s.drop_last()).insert(path@, data@).insert(s.last().0@, s.last().1@)
            =~= store_map(s).insert(path@, data@));
    }
}

/// With distinct paths, removing entry `i` removes its path from the map
/// view.
proof fn lemma_store_map_remove(s: Seq<(String, Vec<u8>)>, i: int)
    requires
        unique_keys(s),
        0 <= i < s.len(),
    ensures
        store_map(s.remove(i)) =~= store_map(s).remove(s[i].0@),
    decreases s.len(),
{
    let sr = s.remove(i);
    if i == s.len() - 1 {
        assert(sr =~= s.drop_last());
        lemma_store_map_contains(s.drop_last(), s[i].0@);
        assert(forall|j: int|
            0 <= j < s.drop_last().len() ==> (#[trigger] s.drop_last()[j]).0@ != s[i].0@);
        assert(!store_map(s.drop_last()).contains_key(s[i].0@));
        assert(store_map(s.drop_last()).insert(s[i].0@, s[i].1@).remove(s[i].0@) =~= store_map(
            s.drop_last(),
        ));
    } else {
        assert(s[i].0@ != s[s.len() - 1].0@);
        assert(sr.drop_last() =~= s.drop_last().remove(i));
        assert(s.drop_last()[i] == s[i]);
        lemma_store_map_remove(s.drop_last(), i);
        assert(sr.last() == s.last());
        assert(store_map(sr) =~= store_map(s.drop_last()).remove(s[i].0@).insert(
            s.last().0@,
            s.last().1@,
        ));
        assert(store_map(s.drop_last()).remove(s[i].0@).insert(s.last().0@, s.last().1@)
            =~= store_map(s).remove(s[i].0@));
    }
}

/// The errors of template deployment into the store: the source template
/// must exist.
#[derive(Debug)]
pub enum DeployError {
    /// The source template does not exist.
    SourceNotFound { path: String },
}

/// An in-memory file store: a map from path to byte content.
pub struct FileStore {
    entries: Vec<(String, Vec<u8>)>,
}

impl FileStore {
    /// The stored files: a map from path to content.
    pub closed spec fn contents(&self) -> Map<Seq<char>, Seq<u8>> {
        store_map(self.entries@)
    }

    /// Well-formedness: entry paths are pairwise distinct.
    pub closed spec fn wf(&self) -> bool {
        unique_keys(self.entries@)
    }

    /// An empty store.
    pub fn new() -> (s: FileStore)
        ensures
            s.wf(),
            s.contents() == Map::<Seq<char>, Seq<u8>>::empty(),
    {
        FileStore { entries: Vec::new() }
    }

    /// The index of the entry for a path, if one exists.
    fn find(&self, path: &String) -> (r: Option<usize>)
        ensures
            r matches Some(i) ==> i < self.entries@.len() && self.entries@[i as int].0@ == path@,
            r is None ==> forall|j: int|
                0 <= j < self.entries@.len() ==> (#[trigger] self.entries@[j]).0@ != path@,
    {
        let mut k: usize = 0;
        while k < self.entries.len()
            invariant
                k <= self.entries@.len(),
                forall|j: int| 0 <= j < k ==> (#[trigger] self.entries@[j]).0@ != path@,
            decreases self.entries@.len() - k,
        {
            if self.entries[k].0.eq(path) {
                return Some(k);
            }
            k = k + 1;
        }
        None
    }

    /// The content of the file at a path, if one exists.
    pub fn read_file(&self, path: &String) -> (r: Option<&Vec<u8>>)
        requires
            self.wf(),
        ensures
            r matches Some(v) ==> self.contents().contains_key(path@) && v@
                == self.contents()[path@],
            r is None ==> !self.contents().contains_key(path@),
    {
        proof {
            lemma_store_map_contains(self.entries@, path@);
        }
        match self.find(path) {
            Some(i) => {
                proof {
                    lemma_store_map_get(self.entries@, i as int);
                }
                Some(&self.entries[i].1)
            },
            None => None,
        }
    }

    /// Whether a file exists at a path.
    pub fn file_exists(&self, path: &String) -> (r: bool)
        requires
            self.wf(),
        ensures
            r == self.contents().contains_key(path@),
    {
        match self.read_file(path) {
            Some(_) => true,
            None => false,
        }
    }

    /// Write `data` to `path`, replacing any file already there.
    pub fn write_file(&mut self, path: &String, data: Vec<u8>)
        requires
            old(self).wf(),
        ensures
            final(self).wf(),
            final(self).contents() == old(self).contents().insert(path@, data@),
    {
        let entry = (path.clone(), data);
        match self.find(path) {
            Some(i) => {
                proof {
                    lemma_store_map_update(self.entries@, i as int, entry.0, entry.1);
                }
                vstd::pervasive::VecAdditionalExecFns::set(&mut self.entries, i, entry);
            },
            None => {
                proof {
                    assert(self.entries@.push(entry).drop_last() =~= self.entries@);
                }
                self.entries.push(entry);
                proof {
                    assert(store_map(self.entries@) =~= store_map(old(self).entries@).insert(
                        path@,
                        data@,
                    ));
                }
            },
        }
    }

    /// Remove the file at `path`; a path with no file is left as it is.
    pub fn remove_file(&mut self, path: &String)
        requires
            old(self).wf(),
        ensures
            final(self).wf(),
            final(self).contents() == old(self).contents().remove(path@),
    {
        proof {
            lemma_store_map_contains(self.entries@, path@);
        }
        match self.find(path) {
            Some(i) => {
                proof {
                    lemma_store_map_remove(self.entries@, i as int);
                }
                self.entries.remove(i);
            },
            None => {
                proof {
                    assert(store_map(self.entries@).remove(path@) =~= store_map(self.entries@));
                }
            },
        }
    }

    /// Deploy a configuration template: read the template at `src`,
    /// substitute the secrets into it, and write the result to `dest`,
    /// replacing any file already there. Fails exactly when no file exists
    /// at `src`, leaving the store unchanged.
    pub fn copy_secret_file(
        &mut self,
        src: &String,
        dest: &String,
        secrets: &Vec<(Vec<u8>, Vec<u8>)>,
    ) -> (r: Result<(), DeployError>)
        requires
            old(self).wf(),
        ensures
            final(self).wf(),
            old(self).contents().contains_key(src@) ==> (r is Ok && final(self).contents() == old(
                self,
            ).contents().insert(
                dest@,
                substitute_seq(old(self).contents()[src@], secrets_view(secrets@)),
            )),
            !old(self).contents().contains_key(src@) ==> (r matches Err(
                DeployError::SourceNotFound { path },
            ) && path@ == src@ && final(self).contents() == old(self).contents()),
    {
        let deployed: Vec<u8> = match self.read_file(src) {
            Some(content) => substitute_secrets(content, secrets),
            None => {
                return Err(DeployError::SourceNotFound { path: src.clone() });
            },
        };
        self.write_file(dest, deployed);
        Ok(())
    }
}

/// Deploying twice to the same destination leaves only the second content:
/// in the file map, the later write wins and nothing of the earlier one
/// remains.
pub proof fn lemma_deploy_overwrites(
    m: Map<Seq<char>, Seq<u8>>,
    dest: Seq<char>,
    first: Seq<u8>,
    second: Seq<u8>,
)
    ensures
        m.insert(dest, first).insert(dest, second) == m.insert(dest, second),
{
    assert(m.insert(dest, first).insert(dest, second) =~= m.insert(dest, second));
}

} // verus!
