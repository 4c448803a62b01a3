//! Remembers which files an agent downloaded and which scripts it ran.
use vstd::prelude::*;

use crate::text::string_views;

verus! {

/// Downloaded files and executed scripts, each a set of paths.
///
/// A tracker has no `Clone`: one tracker is kept and every scanner that
/// records or asks reaches that same tracker, so no copy can miss a record.
#[derive(Debug)]
pub struct StateTracker {
    downloaded_files: Vec<String>,
    executed_scripts: Vec<String>,
}

/// No path occurs twice in the list.
pub open spec fn distinct_paths(set: Seq<String>) -> bool {
    string_views(set).no_duplicates()
}

/// Adds `path` to a list of paths unless it is there already.
fn insert_path(set: &mut Vec<String>, path: String)
    requires
        distinct_paths(old(set)@),
    ensures
        distinct_paths(final(set)@),
        string_views(final(set)@).to_set() == string_views(old(set)@).to_set().insert(path@),
{
    let mut i: usize = 0;
    while i < set.len()
        invariant
            i <= set.len(),
            distinct_paths(set@),
            forall|k: int| 0 <= k < i ==> set@[k]@ != path@,
        decreases set.len() - i,
    {
        if set[i] == path {
            proof {
                let s = string_views(set@);
                assert(s[i as int] == path@);
                assert(s.to_set().insert(path@) =~= s.to_set());
            }
            return;
        }
        i = i + 1;
    }
    let ghost before = string_views(set@);
    set.push(path);
    proof {
        assert(string_views(set@) =~= before.push(path@));
        let t = before.push(path@);
        assert forall|a: int, b: int| 0 <= a < t.len() && 0 <= b < t.len() && a != b implies t[a] != t[b] by {
            if a < before.len() && b < before.len() {
                assert(t[a] == before[a] && t[b] == before[b]);
            } else if a < before.len() {
                assert(t[a] == set@[a]@);
            } else {
                assert(t[b] == set@[b]@);
            }
        }
        assert(t.drop_last() =~= before);
        assert(t.drop_last().to_set().insert(t.last()) =~= t.to_set());
    }
}

/// Whether `path` is in a list of paths.
fn has_path(set: &Vec<String>, path: &str) -> (b: bool)
    ensures
        b == string_views(set@).to_set().contains(path@),
{
    let wanted = path.to_owned();
    let mut i: usize = 0;
    while i < set.len()
        invariant
            i <= set.len(),
            wanted@ == path@,
            forall|k: int| 0 <= k < i ==> set@[k]@ != path@,
        decreases set.len() - i,
    {
        if set[i] == wanted {
            assert(string_views(set@)[i as int] == path@);
            return true;
        }
        i = i + 1;
    }
    proof {
        let s = string_views(set@);
        if s.contains(path@) {
            let k = choose|k: int| 0 <= k < s.len() && s[k] == path@;
            assert(set@[k]@ == path@);
        }
    }
    false
}

impl StateTracker {
    /// Each list holds a path at most once, as a set does.
    #[verifier::type_invariant]
    spec fn lists_are_sets(&self) -> bool {
        &&& distinct_paths(self.downloaded_files@)
        &&& distinct_paths(self.executed_scripts@)
    }

    /// The paths recorded as downloaded.
    pub closed spec fn downloads(&self) -> Set<Seq<char>> {
        string_views(self.downloaded_files@).to_set()
    }

    /// The paths recorded as executed.
    pub closed spec fn executions(&self) -> Set<Seq<char>> {
        string_views(self.executed_scripts@).to_set()
    }

    /// A tracker that has seen nothing.
    pub fn new() -> (t: Self)
        ensures
            t.downloads() == Set::<Seq<char>>::empty(),
            t.executions() == Set::<Seq<char>>::empty(),
    {
        let t = StateTracker { downloaded_files: Vec::new(), executed_scripts: Vec::new() };
        assert(string_views(t.downloaded_files@) =~= Seq::<Seq<char>>::empty());
        assert(string_views(t.executed_scripts@) =~= Seq::<Seq<char>>::empty());
        assert(t.downloads() =~= Set::<Seq<char>>::empty());
        assert(t.executions() =~= Set::<Seq<char>>::empty());
        t
    }

    /// Records that `path` was downloaded.
    pub fn record_download(&mut self, path: String)
        ensures
            final(self).downloads() == old(self).downloads().insert(path@),
            final(self).executions() == old(self).executions(),
    {
        proof {
            use_type_invariant(&*self);
        }
        let mut list: Vec<String> = Vec::new();
        std::mem::swap(&mut list, &mut self.downloaded_files);
        insert_path(&mut list, path);
        self.downloaded_files = list;
    }

    /// Whether `path` was recorded as downloaded.
    pub fn is_downloaded(&self, path: &str) -> (b: bool)
        ensures
            b == self.downloads().contains(path@),
    {
        has_path(&self.downloaded_files, path)
    }

    /// Records that `path` was executed.
    pub fn record_execution(&mut self, path: String)
        ensures
            final(self).executions() == old(self).executions().insert(path@),
            final(self).downloads() == old(self).downloads(),
    {
        proof {
            use_type_invariant(&*self);
        }
        let mut list: Vec<String> = Vec::new();
        std::mem::swap(&mut list, &mut self.executed_scripts);
        insert_path(&mut list, path);
        self.executed_scripts = list;
    }
}

impl Default for StateTracker {
    /// A tracker that has seen nothing.
    fn default() -> (t: Self)
        ensures
            t.downloads() == Set::<Seq<char>>::empty(),
            t.executions() == Set::<Seq<char>>::empty(),
    {
        Self::new()
    }
}

} // verus!
