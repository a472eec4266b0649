//! Bookkeeping of the running workspace scripts: one entry per process key
//! (repository, script type, workspace), holding the process id and a
//! handle that the host uses to signal and stop the process.

use vstd::prelude::*;

verus! {

/// Identifies a running script: the repository, the kind of script and the
/// workspace it runs for (none for repository-wide scripts).
pub struct ProcessKey {
    pub repo_id: String,
    pub script_type: String,
    pub workspace_id: Option<String>,
}

/// What a process key stands for: its three parts as character sequences.
pub type KeyView = (Seq<char>, Seq<char>, Option<Seq<char>>);

/// The character sequences of an optional string.
pub open spec fn opt_view(o: Option<String>) -> Option<Seq<char>> {
    match o {
        Some(s) => Some(s@),
        None => None,
    }
}

impl View for ProcessKey {
    type V = KeyView;

    open spec fn view(&self) -> KeyView {
        (self.repo_id@, self.script_type@, opt_view(self.workspace_id))
    }
}

/// Whether two optional strings hold the same text.
pub fn opt_string_eq(a: &Option<String>, b: &Option<String>) -> (r: bool)
    ensures
        r == (opt_view(*a) == opt_view(*b)),
{
    match (a, b) {
        (Some(x), Some(y)) => *x == *y,
        (None, None) => true,
        _ => false,
    }
}

impl ProcessKey {
    /// Builds a key from its three parts.
    pub fn new(repo_id: &str, script_type: &str, workspace_id: Option<&str>) -> (r: ProcessKey)
        ensures
            r@.0 == repo_id@,
            r@.1 == script_type@,
            r@.2 == match workspace_id {
                Some(w) => Some(w@),
                None => None::<Seq<char>>,
            },
    {
        let workspace = match workspace_id {
            Some(w) => Some(String::from_str(w)),
            None => None,
        };
        ProcessKey {
            repo_id: String::from_str(repo_id),
            script_type: String::from_str(script_type),
            workspace_id: workspace,
        }
    }

    /// Whether two keys name the same script.
    pub fn same(&self, other: &ProcessKey) -> (r: bool)
        ensures
            r == (self@ == other@),
    {
        self.repo_id == other.repo_id && self.script_type == other.script_type && opt_string_eq(
            &self.workspace_id,
            &other.workspace_id,
        )
    }

    /// A copy of the key.
    pub fn duplicate(&self) -> (r: ProcessKey)
        ensures
            r@ == self@,
    {
        let workspace = match &self.workspace_id {
            Some(w) => Some(w.clone()),
            None => None,
        };
        ProcessKey {
            repo_id: self.repo_id.clone(),
            script_type: self.script_type.clone(),
            workspace_id: workspace,
        }
    }
}

/// A registered script process: its key, process id and handle.
pub struct ProcessEntry<H> {
    pub key: ProcessKey,
    pub pid: u32,
    pub handle: H,
}

/// No two entries share a key.
pub open spec fn keys_unique<H>(es: Seq<ProcessEntry<H>>) -> bool {
    forall|i: int, j: int|
        0 <= i < es.len() && 0 <= j < es.len() && i != j ==> #[trigger] es[i].key@
            != #[trigger] es[j].key@
}

/// Some entry has key `k`.
pub open spec fn has_key<H>(es: Seq<ProcessEntry<H>>, k: KeyView) -> bool {
    exists|p: int| 0 <= p < es.len() && #[trigger] es[p].key@ == k
}

/// The position of the entry with key `k` (meaningful when `has_key`).
pub open spec fn key_pos<H>(es: Seq<ProcessEntry<H>>, k: KeyView) -> int {
    choose|p: int| 0 <= p < es.len() && #[trigger] es[p].key@ == k
}

/// The entry registered under `k`, if any.
pub open spec fn lookup<H>(es: Seq<ProcessEntry<H>>, k: KeyView) -> Option<ProcessEntry<H>> {
    if has_key(es, k) {
        Some(es[key_pos(es, k)])
    } else {
        None
    }
}

/// The entry under key `k` of a sequence with unique keys sits at `p`.
pub proof fn lemma_lookup_at<H>(es: Seq<ProcessEntry<H>>, k: KeyView, p: int)
    requires
        keys_unique(es),
        0 <= p < es.len(),
        es[p].key@ == k,
    ensures
        has_key(es, k),
        key_pos(es, k) == p,
        lookup(es, k) == Some(es[p]),
{
    assert(has_key(es, k));
    let q = key_pos(es, k);
    assert(es[q].key@ == k);
    if q != p {
        assert(es[q].key@ != es[p].key@);
    }
}

/// An entry matches a kill request for a repository and script type: same
/// repository and type, and a workspace other than the one to keep.
pub open spec fn is_victim<H>(
    e: ProcessEntry<H>,
    repo_id: Seq<char>,
    script_type: Seq<char>,
    keep: Option<Seq<char>>,
) -> bool {
    e.key@.0 == repo_id && e.key@.1 == script_type && e.key@.2 != keep
}

/// Law: unregistering a process right after registering it under a key
/// that was free gives back the registry it started from. Register appends
/// the entry (its `ensures` for a free key) and unregister with the same
/// process id removes the entry at the key's position.
pub proof fn law_unregister_undoes_register<H>(before: Seq<ProcessEntry<H>>, e: ProcessEntry<H>)
    requires
        keys_unique(before),
        !has_key(before, e.key@),
    ensures
        keys_unique(before.push(e)),
        lookup(before.push(e), e.key@) == Some(e),
        before.push(e).remove(key_pos(before.push(e), e.key@)) == before,
{
    let after = before.push(e);
    let n = before.len() as int;
    assert forall|i: int, j: int|
        0 <= i < after.len() && 0 <= j < after.len() && i != j implies #[trigger] after[i].key@
        != #[trigger] after[j].key@ by {
        if i != n && j != n {
            assert(before[i].key@ != before[j].key@);
        } else if i == n {
            assert(before[j].key@ != e.key@);
        } else {
            assert(before[i].key@ != e.key@);
        }
    }
    lemma_lookup_at(after, e.key@, n);
    assert(after.remove(n) =~= before);
}

/// Law: a stop request for a repository never stops the workspace it is
/// asked to keep, nor a script of another repository or type.
pub proof fn law_victims_spare_kept_workspace<H>(
    e: ProcessEntry<H>,
    repo_id: Seq<char>,
    script_type: Seq<char>,
    keep: Option<Seq<char>>,
)
    requires
        e.key@.2 == keep || e.key@.0 != repo_id || e.key@.1 != script_type,
    ensures
        !is_victim(e, repo_id, script_type, keep),
{
}

/// Law: a stop request for a repository stops every script of that
/// repository and type whose workspace is not the one to keep.
pub proof fn law_victims_cover_other_workspaces<H>(
    e: ProcessEntry<H>,
    repo_id: Seq<char>,
    script_type: Seq<char>,
    keep: Option<Seq<char>>,
)
    requires
        e.key@.0 == repo_id,
        e.key@.1 == script_type,
        e.key@.2 != keep,
    ensures
        is_victim(e, repo_id, script_type, keep),
{
}

/// The registry of running scripts.
pub struct ProcessRegistry<H> {
    entries: Vec<ProcessEntry<H>>,
}

impl<H> ProcessRegistry<H> {
    /// The registered entries, in registration order.
    pub closed spec fn entries(&self) -> Seq<ProcessEntry<H>> {
        self.entries@
    }

    /// The registry's invariant: at most one entry per key.
    pub open spec fn wf(&self) -> bool {
        keys_unique(self.entries())
    }

    /// An empty registry.
    pub fn new() -> (r: ProcessRegistry<H>)
        ensures
            r.wf(),
            r.entries() == Seq::<ProcessEntry<H>>::empty(),
    {
        ProcessRegistry { entries: Vec::new() }
    }

    /// Number of registered processes.
    pub fn len(&self) -> (r: usize)
        ensures
            r == self.entries().len(),
    {
        self.entries.len()
    }

    /// The entry at position `i`.
    pub fn entry_at(&self, i: usize) -> (r: &ProcessEntry<H>)
        requires
            i < self.entries().len(),
        ensures
            *r == self.entries()[i as int],
    {
        &self.entries[i]
    }

    /// Where the entry with this key sits, if there is one.
    pub fn position(&self, key: &ProcessKey) -> (r: Option<usize>)
        requires
            self.wf(),
        ensures
            match r {
                Some(p) => p < self.entries().len() && self.entries()[p as int].key@ == key@
                    && key_pos(self.entries(), key@) == p,
                None => !has_key(self.entries(), key@),
            },
            lookup(self.entries(), key@) == match r {
                Some(p) => Some(self.entries()[p as int]),
                None => None::<ProcessEntry<H>>,
            },
    {
        let mut i: usize = 0;
        while i < self.entries.len()
            invariant
                i <= self.entries@.len(),
                keys_unique(self.entries@),
                forall|q: int| 0 <= q < i ==> self.entries@[q].key@ != key@,
            decreases self.entries@.len() - i,
        {
            if self.entries[i].key.same(key) {
                proof {
                    lemma_lookup_at(self.entries@, key@, i as int);
                }
                return Some(i);
            }
            i = i + 1;
        }
        assert(!has_key(self.entries@, key@)) by {
            if has_key(self.entries@, key@) {
                let p = key_pos(self.entries@, key@);
                assert(self.entries@[p].key@ == key@);
            }
        }
        None
    }

    /// The entry registered under `key`, if any.
    pub fn get(&self, key: &ProcessKey) -> (r: Option<&ProcessEntry<H>>)
        requires
            self.wf(),
        ensures
            match r {
                Some(e) => lookup(self.entries(), key@) == Some(*e),
                None => lookup(self.entries(), key@) == None::<ProcessEntry<H>>,
            },
    {
        match self.position(key) {
            Some(p) => Some(&self.entries[p]),
            None => None,
        }
    }

    /// Registers a process under `key`. An entry already registered under
    /// the same key is replaced in place and handed back, so that the caller
    /// can stop the process it stands for; a new key is appended.
    pub fn register(&mut self, key: ProcessKey, pid: u32, handle: H) -> (displaced: Option<
        ProcessEntry<H>,
    >)
        requires
            old(self).wf(),
        ensures
            final(self).wf(),
            displaced == lookup(old(self).entries(), key@),
            lookup(final(self).entries(), key@) == Some(ProcessEntry { key, pid, handle }),
            forall|k: KeyView|
                k != key@ ==> #[trigger] lookup(final(self).entries(), k) == lookup(
                    old(self).entries(),
                    k,
                ),
            has_key(old(self).entries(), key@) ==> final(self).entries() == old(
                self,
            ).entries().update(
                key_pos(old(self).entries(), key@),
                ProcessEntry { key, pid, handle },
            ),
            !has_key(old(self).entries(), key@) ==> final(self).entries() == old(
                self,
            ).entries().push(ProcessEntry { key, pid, handle }),
    {
        let ghost old_es = self.entries@;
        let ghost kv = key@;
        let pos = self.position(&key);
        let entry = ProcessEntry { key, pid, handle };
        let ghost new_e = entry;
        match pos {
            Some(p) => {
                let old_entry = self.entries.remove(p);
                self.entries.insert(p, entry);
                proof {
                    assert(self.entries@ =~= old_es.update(p as int, new_e));
                    assert(keys_unique(self.entries@)) by {
                        assert forall|i: int, j: int|
                            0 <= i < self.entries@.len() && 0 <= j < self.entries@.len() && i
                                != j implies #[trigger] self.entries@[i].key@
                            != #[trigger] self.entries@[j].key@ by {
                            if i != p && j != p {
                                assert(old_es[i].key@ != old_es[j].key@);
                            } else if i == p {
                                assert(old_es[j].key@ != old_es[p as int].key@);
                            } else {
                                assert(old_es[i].key@ != old_es[p as int].key@);
                            }
                        }
                    }
                    lemma_lookup_at(self.entries@, kv, p as int);
                    assert forall|k: KeyView| k != kv implies #[trigger] lookup(
                        self.entries@,
                        k,
                    ) == lookup(old_es, k) by {
                        if has_key(old_es, k) {
                            let q = key_pos(old_es, k);
                            assert(q != p);
                            lemma_lookup_at(self.entries@, k, q);
                        } else if has_key(self.entries@, k) {
                            let q = key_pos(self.entries@, k);
                            assert(q != p);
                            assert(old_es[q].key@ == k);
                        }
                    }
                }
                Some(old_entry)
            },
            None => {
                self.entries.push(entry);
                proof {
                    let n = old_es.len() as int;
                    assert(self.entries@ =~= old_es.push(new_e));
                    assert(keys_unique(self.entries@)) by {
                        assert forall|i: int, j: int|
                            0 <= i < self.entries@.len() && 0 <= j < self.entries@.len() && i
                                != j implies #[trigger] self.entries@[i].key@
                            != #[trigger] self.entries@[j].key@ by {
                            if i != n && j != n {
                                assert(old_es[i].key@ != old_es[j].key@);
                            } else if i == n {
                                assert(old_es[j].key@ != kv);
                            } else {
                                assert(old_es[i].key@ != kv);
                            }
                        }
                    }
                    lemma_lookup_at(self.entries@, kv, n);
                    assert forall|k: KeyView| k != kv implies #[trigger] lookup(
                        self.entries@,
                        k,
                    ) == lookup(old_es, k) by {
                        if has_key(old_es, k) {
                            let q = key_pos(old_es, k);
                            lemma_lookup_at(self.entries@, k, q);
                        } else if has_key(self.entries@, k) {
                            let q = key_pos(self.entries@, k);
                            assert(q != n);
                            assert(old_es[q].key@ == k);
                        }
                    }
                }
                None
            },
        }
    }

    /// Removes the entry under `key`, but only when it still belongs to the
    /// process `pid` (a newer run under the same key stays registered).
    /// Returns whether an entry was removed.
    pub fn unregister(&mut self, key: &ProcessKey, pid: u32) -> (removed: bool)
        requires
            old(self).wf(),
        ensures
            final(self).wf(),
            removed == (lookup(old(self).entries(), key@) matches Some(e) && e.pid == pid),
            removed ==> final(self).entries() == old(self).entries().remove(
                key_pos(old(self).entries(), key@),
            ),
            removed ==> lookup(final(self).entries(), key@) == None::<ProcessEntry<H>>,
            !removed ==> final(self).entries() == old(self).entries(),
            forall|k: KeyView|
                k != key@ ==> #[trigger] lookup(final(self).entries(), k) == lookup(
                    old(self).entries(),
                    k,
                ),
    {
        let ghost old_es = self.entries@;
        let ghost kv = key@;
        match self.position(key) {
            Some(p) => {
                if self.entries[p].pid == pid {
                    let _gone = self.entries.remove(p);
                    proof {
                        let es = self.entries@;
                        assert(es =~= old_es.remove(p as int));
                        assert forall|i: int| 0 <= i < es.len() implies #[trigger] es[i] == (
                            if i < p { old_es[i] } else { old_es[i + 1] }) by {}
                        assert(keys_unique(es)) by {
                            assert forall|i: int, j: int|
                                0 <= i < es.len() && 0 <= j < es.len() && i != j implies #[trigger] es[i].key@
                                != #[trigger] es[j].key@ by {
                                let oi = if i < p { i } else { i + 1 };
                                let oj = if j < p { j } else { j + 1 };
                                assert(es[i] == old_es[oi]);
                                assert(es[j] == old_es[oj]);
                                assert(old_es[oi].key@ != old_es[oj].key@);
                            }
                        }
                        assert(!has_key(es, kv)) by {
                            if has_key(es, kv) {
                                let q = key_pos(es, kv);
                                let oq = if q < p { q } else { q + 1 };
                                assert(es[q] == old_es[oq]);
                                assert(old_es[oq].key@ != old_es[p as int].key@);
                            }
                        }
                        assert forall|k: KeyView| k != kv implies #[trigger] lookup(es, k)
                            == lookup(old_es, k) by {
                            if has_key(old_es, k) {
                                let q = key_pos(old_es, k);
                                assert(q != p);
                                let nq = if q < p { q } else { q - 1 };
                                assert(es[nq] == old_es[q]);
                                lemma_lookup_at(es, k, nq);
                            } else if has_key(es, k) {
                                let q = key_pos(es, k);
                                let oq = if q < p { q } else { q + 1 };
                                assert(es[q] == old_es[oq]);
                            }
                        }
                    }
                    true
                } else {
                    false
                }
            },
            None => false,
        }
    }

    /// Positions (ascending) of the entries a repository-wide kill request
    /// stops: same repository and script type, any workspace other than
    /// `keep_workspace_id`.
    pub fn victims_in_repo(
        &self,
        repo_id: &str,
        script_type: &str,
        keep_workspace_id: Option<&str>,
    ) -> (r: Vec<usize>)
        ensures
            forall|i: int| 0 <= i < r@.len() ==> #[trigger] r@[i] < self.entries().len(),
            forall|i: int, j: int| 0 <= i < j < r@.len() ==> #[trigger] r@[i] < #[trigger] r@[j],
            forall|p: int|
                0 <= p < self.entries().len() ==> (r@.contains(p as usize) <== is_victim(
                    #[trigger] self.entries()[p],
                    repo_id@,
                    script_type@,
                    match keep_workspace_id {
                        Some(w) => Some(w@),
                        None => None::<Seq<char>>,
                    },
                )),
            forall|i: int|
                0 <= i < r@.len() ==> is_victim(
                    #[trigger] self.entries()[r@[i] as int],
                    repo_id@,
                    script_type@,
                    match keep_workspace_id {
                        Some(w) => Some(w@),
                        None => None::<Seq<char>>,
                    },
                ),
    {
        let ghost keep: Option<Seq<char>> = match keep_workspace_id {
            Some(w) => Some(w@),
            None => None::<Seq<char>>,
        };
        let keep_owned: Option<String> = match keep_workspace_id {
            Some(w) => Some(String::from_str(w)),
            None => None,
        };
        let repo = String::from_str(repo_id);
        let stype = String::from_str(script_type);
        let mut r: Vec<usize> = Vec::new();
        let mut i: usize = 0;
        while i < self.entries.len()
            invariant
                i <= self.entries@.len(),
                repo@ == repo_id@,
                stype@ == script_type@,
                opt_view(keep_owned) == keep,
                forall|m: int| 0 <= m < r@.len() ==> #[trigger] r@[m] < i,
                forall|m: int, n: int| 0 <= m < n < r@.len() ==> #[trigger] r@[m] < #[trigger] r@[n],
                forall|p: int|
                    0 <= p < i ==> (r@.contains(p as usize) <== is_victim(
                        #[trigger] self.entries@[p],
                        repo_id@,
                        script_type@,
                        keep,
                    )),
                forall|m: int|
                    0 <= m < r@.len() ==> is_victim(
                        #[trigger] self.entries@[r@[m] as int],
                        repo_id@,
                        script_type@,
                        keep,
                    ),
            decreases self.entries@.len() - i,
        {
            let e = &self.entries[i];
            let hit = e.key.repo_id == repo && e.key.script_type == stype && !opt_string_eq(
                &e.key.workspace_id,
                &keep_owned,
            );
            let ghost old_r = r@;
            if hit {
                r.push(i);
                proof {
                    assert(r@[old_r.len() as int] == i);
                    assert forall|p: int|
                        0 <= p < i + 1 && is_victim(
                            #[trigger] self.entries@[p],
                            repo_id@,
                            script_type@,
                            keep,
                        ) implies r@.contains(p as usize) by {
                        if p < i {
                            assert(old_r.contains(p as usize));
                            let m = choose|m: int| 0 <= m < old_r.len() && old_r[m] == p as usize;
                            assert(r@[m] == p as usize);
                        } else {
                            assert(r@[old_r.len() as int] == p as usize);
                        }
                    }
                }
            } else {
                proof {
                    assert forall|p: int|
                        0 <= p < i + 1 && is_victim(
                            #[trigger] self.entries@[p],
                            repo_id@,
                            script_type@,
                            keep,
                        ) implies r@.contains(p as usize) by {
                        if p == i {
                            assert(false);
                        }
                    }
                }
            }
            i = i + 1;
        }
        r
    }
}

} // verus!
