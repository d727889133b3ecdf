//! Tracks all registered cdb sessions by id and enforces the global session
//! limit. The table is generic over the session handle; the handle's state
//! is read by the caller (under the table's lock) and passed in when
//! pruning.

use vstd::prelude::*;

use crate::cdb::session::{state_is_active, SessionState, SpawnConfig};
use crate::config::model::Config;
use crate::error::Error;
use crate::text::{chars_eq, chars_of};

verus! {

/// Registered sessions, oldest registration first, ids distinct.
pub struct SessionTable<S> {
    entries: Vec<(String, S)>,
}

/// No id occurs twice.
pub open spec fn distinct_ids<S>(es: Seq<(Seq<char>, S)>) -> bool {
    forall|i: int, j: int| 0 <= i < j < es.len() ==> #[trigger] es[i].0 != #[trigger] es[j].0
}

/// Index of the entry with this id.
pub open spec fn index_of<S>(es: Seq<(Seq<char>, S)>, id: Seq<char>) -> Option<int> {
    if exists|i: int| 0 <= i < es.len() && es[i].0 == id {
        Some(choose|i: int| 0 <= i < es.len() && es[i].0 == id)
    } else {
        None
    }
}

/// Entries whose state is active, order kept.
pub open spec fn keep_active<S>(es: Seq<(Seq<char>, S)>, states: Seq<SessionState>) -> Seq<
    (Seq<char>, S),
>
    decreases es.len(),
{
    if es.len() == 0 || states.len() == 0 {
        Seq::empty()
    } else if state_is_active(states.last()) {
        keep_active(es.drop_last(), states.drop_last()).push(es.last())
    } else {
        keep_active(es.drop_last(), states.drop_last())
    }
}

/// Entries without the one with this id, order kept.
pub open spec fn without<S>(es: Seq<(Seq<char>, S)>, id: Seq<char>) -> Seq<(Seq<char>, S)> {
    match index_of(es, id) {
        Some(i) => es.remove(i),
        None => es,
    }
}

/// The entries after registering `s` under `id`: it replaces the session
/// already registered under `id`, or is appended.
pub open spec fn inserted<S>(es: Seq<(Seq<char>, S)>, id: Seq<char>, s: S) -> Seq<(Seq<char>, S)> {
    match index_of(es, id) {
        Some(i) => es.update(i, (id, s)),
        None => es.push((id, s)),
    }
}

/// The session registered under `id`.
pub open spec fn lookup<S>(es: Seq<(Seq<char>, S)>, id: Seq<char>) -> Option<S> {
    match index_of(es, id) {
        Some(i) => Some(es[i].1),
        None => None,
    }
}

/// Number of active states.
pub open spec fn active_count(states: Seq<SessionState>) -> nat
    decreases states.len(),
{
    if states.len() == 0 {
        0
    } else if state_is_active(states.last()) {
        active_count(states.drop_last()) + 1
    } else {
        active_count(states.drop_last())
    }
}

/// With distinct ids, the entry carrying `id` is the one `index_of` finds.
proof fn lemma_index_of_unique<S>(es: Seq<(Seq<char>, S)>, i: int)
    requires
        distinct_ids(es),
        0 <= i < es.len(),
    ensures
        index_of(es, es[i].0) == Some(i),
{
    let id = es[i].0;
    assert(exists|k: int| 0 <= k < es.len() && es[k].0 == id);
    let k = choose|k: int| 0 <= k < es.len() && es[k].0 == id;
    if k < i {
        assert(es[k].0 != es[i].0);
    } else if k > i {
        assert(es[i].0 != es[k].0);
    }
}

/// What `lookup` finds is an entry with that id, and an entry with that id
/// is found.
proof fn lemma_lookup<S>(es: Seq<(Seq<char>, S)>, id: Seq<char>)
    requires
        distinct_ids(es),
    ensures
        lookup(es, id) is None <==> forall|k: int| 0 <= k < es.len() ==> es[k].0 != id,
        forall|k: int| 0 <= k < es.len() && es[k].0 == id ==> lookup(es, id) == Some(es[k].1),
{
    assert forall|k: int| 0 <= k < es.len() && es[k].0 == id implies lookup(es, id) == Some(
        es[k].1,
    ) by {
        lemma_index_of_unique(es, k);
    }
    if lookup(es, id) is None {
        assert forall|k: int| 0 <= k < es.len() implies es[k].0 != id by {
            if es[k].0 == id {
                lemma_index_of_unique(es, k);
            }
        }
    }
}

/// Entries kept by pruning are as many as the active states.
proof fn lemma_keep_active_len<S>(es: Seq<(Seq<char>, S)>, states: Seq<SessionState>)
    requires
        es.len() == states.len(),
    ensures
        keep_active(es, states).len() == active_count(states),
    decreases es.len(),
{
    if es.len() > 0 {
        lemma_keep_active_len(es.drop_last(), states.drop_last());
    }
}

/// Removing an entry keeps the ids distinct.
proof fn lemma_remove_distinct<S>(es: Seq<(Seq<char>, S)>, i: int)
    requires
        distinct_ids(es),
        0 <= i < es.len(),
    ensures
        distinct_ids(es.remove(i)),
{
    let r = es.remove(i);
    assert forall|a: int, b: int| 0 <= a < b < r.len() implies #[trigger] r[a].0 != #[trigger] r[b].0 by {
        let a2 = if a < i { a } else { a + 1 };
        let b2 = if b < i { b } else { b + 1 };
        assert(r[a] == es[a2]);
        assert(r[b] == es[b2]);
        assert(es[a2].0 != es[b2].0);
    }
}

impl<S> View for SessionTable<S> {
    type V = Seq<(Seq<char>, S)>;

    closed spec fn view(&self) -> Seq<(Seq<char>, S)> {
        self.entries@.map_values(|e: (String, S)| (e.0@, e.1))
    }
}

impl<S> SessionTable<S> {
    /// Ids are distinct.
    pub closed spec fn wf(&self) -> bool {
        distinct_ids(self@)
    }

    pub fn new() -> (t: SessionTable<S>)
        ensures
            t.wf(),
            t@.len() == 0,
    {
        let t = SessionTable { entries: Vec::new() };
        assert(t@ =~= Seq::<(Seq<char>, S)>::empty());
        t
    }

    pub fn len(&self) -> (n: usize)
        ensures
            n == self@.len(),
    {
        self.entries.len()
    }

    /// The registered sessions, oldest registration first.
    pub fn entries(&self) -> (r: &Vec<(String, S)>)
        ensures
            r@.map_values(|e: (String, S)| (e.0@, e.1)) == self@,
    {
        &self.entries
    }

    fn find(&self, id: &str) -> (r: Option<usize>)
        requires
            self.wf(),
        ensures
            match r {
                Some(i) => i < self@.len() && self@[i as int].0 == id@ && index_of(self@, id@)
                    == Some(i as int),
                None => index_of(self@, id@) is None,
            },
    {
        let key = chars_of(id);
        let n = self.entries.len();
        for i in 0..n
            invariant
                n == self.entries@.len() == self@.len(),
                key@ == id@,
                self.wf(),
                forall|k: int| 0 <= k < i ==> self@[k].0 != id@,
        {
            let c = chars_of(self.entries[i].0.as_str());
            assert(self@[i as int].0 == self.entries@[i as int].0@);
            if chars_eq(c.as_slice(), key.as_slice()) {
                proof {
                    assert(self@[i as int].0 == id@);
                    assert(exists|j: int| 0 <= j < self@.len() && self@[j].0 == id@);
                    let j = choose|j: int| 0 <= j < self@.len() && self@[j].0 == id@;
                    assert(j == i) by {
                        if j < i {
                            assert(self@[j].0 != id@);
                        } else if j > i {
                            assert(self@[i as int].0 != self@[j].0);
                        }
                    }
                }
                return Some(i);
            }
        }
        None
    }

    /// Register a session under `id`, replacing a session already
    /// registered under it.
    pub fn insert(&mut self, id: String, s: S)
        requires
            old(self).wf(),
        ensures
            final(self).wf(),
            final(self)@ == inserted(old(self)@, id@, s),
    {
        match self.find(id.as_str()) {
            Some(i) => {
                let ghost before = self@;
                self.entries.set(i, (id, s));
                assert(self@ =~= before.update(i as int, (id@, s)));
                assert(distinct_ids(self@)) by {
                    assert forall|a: int, b: int| 0 <= a < b < self@.len() implies #[trigger] self@[a].0
                        != #[trigger] self@[b].0 by {
                        assert(before[a].0 != before[b].0);
                    }
                }
            },
            None => {
                let ghost before = self@;
                let ghost key = id@;
                self.entries.push((id, s));
                assert(self@ =~= before.push((key, s)));
                assert(distinct_ids(self@)) by {
                    assert forall|a: int, b: int| 0 <= a < b < self@.len() implies #[trigger] self@[a].0
                        != #[trigger] self@[b].0 by {
                        if b == before.len() {
                            assert(!(0 <= a < before.len() && before[a].0 == key));
                        } else {
                            assert(before[a].0 != before[b].0);
                        }
                    }
                }
            },
        }
    }

    /// The session registered under `id`.
    pub fn get(&self, id: &str) -> (r: Result<&S, Error>)
        requires
            self.wf(),
        ensures
            match index_of(self@, id@) {
                Some(i) => r matches Ok(s) && *s == self@[i].1,
                None => r matches Err(Error::SessionNotFound(m)) && m@ == id@,
            },
    {
        match self.find(id) {
            Some(i) => {
                assert(self@[i as int].1 == self.entries@[i as int].1);
                Ok(&self.entries[i].1)
            },
            None => Err(Error::SessionNotFound(id.to_string())),
        }
    }

    /// Forget the session registered under `id` (if any).
    pub fn remove(&mut self, id: &str)
        requires
            old(self).wf(),
        ensures
            final(self).wf(),
            final(self)@ == without(old(self)@, id@),
    {
        if let Some(i) = self.find(id) {
            let ghost before = self@;
            let _ = self.entries.remove(i);
            assert(self@ =~= before.remove(i as int));
            proof {
                lemma_remove_distinct(before, i as int);
            }
        }
    }

    /// Drop every session whose state (`states[k]` for the `k`-th entry) is
    /// no longer active; returns how many were removed.
    pub fn prune_inactive(&mut self, states: &[SessionState]) -> (removed: usize)
        requires
            old(self).wf(),
            states@.len() == old(self)@.len(),
        ensures
            final(self).wf(),
            final(self)@ == keep_active(old(self)@, states@),
            removed == old(self)@.len() - final(self)@.len(),
    {
        let ghost orig = self@;
        let n = states.len();
        let mut i: usize = 0;
        let mut j: usize = 0;
        assert(orig.take(0) =~= Seq::<(Seq<char>, S)>::empty());
        assert(orig.skip(0) == orig);
        while j < n
            invariant
                n == states@.len() == orig.len(),
                i <= j <= n,
                self.wf(),
                self@ == keep_active(orig.take(j as int), states@.take(j as int)) + orig.skip(j as int),
                i == keep_active(orig.take(j as int), states@.take(j as int)).len(),
                self.entries@.len() == self@.len(),
            decreases n - j,
        {
            let ghost kept = keep_active(orig.take(j as int), states@.take(j as int));
            assert(orig.take(j + 1).drop_last() == orig.take(j as int));
            assert(states@.take(j + 1).drop_last() == states@.take(j as int));
            assert(orig.take(j + 1).last() == orig[j as int]);
            assert(states@.take(j + 1).last() == states@[j as int]);
            assert(self@[i as int] == orig[j as int]);
            if states[j].is_active() {
                assert(kept.push(orig[j as int]) + orig.skip(j + 1) =~= kept + orig.skip(j as int));
                i = i + 1;
            } else {
                let ghost before = self@;
                let _ = self.entries.remove(i);
                assert(self@ =~= before.remove(i as int));
                proof {
                    lemma_remove_distinct(before, i as int);
                }
                assert(before.remove(i as int) =~= kept + orig.skip(j + 1));
            }
            j = j + 1;
        }
        assert(orig.take(n as int) == orig);
        assert(states@.take(n as int) == states@);
        assert(orig.skip(n as int) =~= Seq::<(Seq<char>, S)>::empty());
        assert(self@ =~= keep_active(orig, states@));
        n - self.entries.len()
    }

    /// Admission of a new session: sessions no longer active (by
    /// `states`, as for `prune_inactive`) are dropped first, then the
    /// request is refused when `max_sessions` remain.
    pub fn check_capacity(&mut self, states: &[SessionState], max_sessions: usize) -> (r: Result<
        (),
        Error,
    >)
        requires
            old(self).wf(),
            states@.len() == old(self)@.len(),
        ensures
            final(self).wf(),
            final(self)@ == keep_active(old(self)@, states@),
            active_count(states@) >= max_sessions ==> (r matches Err(Error::SessionLimit(m)) && m
                == max_sessions),
            active_count(states@) < max_sessions ==> r is Ok,
    {
        proof {
            lemma_keep_active_len(self@, states@);
        }
        let _ = self.prune_inactive(states);
        if self.entries.len() >= max_sessions {
            return Err(Error::SessionLimit(max_sessions));
        }
        Ok(())
    }
}

/// Pruning keeps exactly the active sessions: as many entries as there are
/// active states, each an entry whose state is active.
pub proof fn law_prune_keeps_only_active<S>(es: Seq<(Seq<char>, S)>, states: Seq<SessionState>)
    requires
        es.len() == states.len(),
    ensures
        keep_active(es, states).len() == active_count(states),
        forall|k: int|
            0 <= k < keep_active(es, states).len() ==> exists|j: int|
                0 <= j < es.len() && #[trigger] keep_active(es, states)[k] == es[j]
                    && state_is_active(states[j]),
    decreases es.len(),
{
    lemma_keep_active_len(es, states);
    if es.len() > 0 {
        let (e0, s0) = (es.drop_last(), states.drop_last());
        law_prune_keeps_only_active(e0, s0);
        let kept = keep_active(es, states);
        let prev = keep_active(e0, s0);
        assert forall|k: int| 0 <= k < kept.len() implies exists|j: int|
            0 <= j < es.len() && #[trigger] kept[k] == es[j] && state_is_active(states[j]) by {
            if k < prev.len() {
                assert(kept[k] == prev[k]);
                let j = choose|j: int| 0 <= j < e0.len() && prev[k] == e0[j] && state_is_active(s0[j]);
                assert(es[j] == e0[j] && states[j] == s0[j]);
            } else {
                let j = es.len() - 1;
                assert(kept[k] == es[j]);
                assert(state_is_active(states[j]));
            }
        }
    }
}

/// Looking up an id right after registering a session under it gives that
/// session; other ids are unaffected.
pub proof fn law_lookup_after_insert<S>(es: Seq<(Seq<char>, S)>, id: Seq<char>, s: S, other: Seq<char>)
    requires
        distinct_ids(es),
    ensures
        lookup(inserted(es, id, s), id) == Some(s),
        other != id ==> lookup(inserted(es, id, s), other) == lookup(es, other),
        distinct_ids(inserted(es, id, s)),
{
    let n = inserted(es, id, s);
    match index_of(es, id) {
        Some(i) => {
            lemma_index_of_unique(es, i);
            assert(distinct_ids(n)) by {
                assert forall|a: int, b: int| 0 <= a < b < n.len() implies #[trigger] n[a].0
                    != #[trigger] n[b].0 by {
                    assert(es[a].0 != es[b].0);
                }
            }
        },
        None => {
            lemma_lookup(es, id);
            assert(distinct_ids(n)) by {
                assert forall|a: int, b: int| 0 <= a < b < n.len() implies #[trigger] n[a].0
                    != #[trigger] n[b].0 by {
                    if b < es.len() {
                        assert(es[a].0 != es[b].0);
                    } else {
                        assert(es[a].0 != id);
                    }
                }
            }
        },
    }
    lemma_lookup(n, id);
    lemma_lookup(n, other);
    lemma_lookup(es, other);
    match index_of(es, id) {
        Some(i) => {
            assert(n[i].0 == id);
        },
        None => {
            assert(n[es.len() as int].0 == id);
        },
    }
    if other != id {
        assert forall|k: int| 0 <= k < n.len() && n[k].0 == other implies 0 <= k < es.len()
            && es[k] == n[k] by {
            match index_of(es, id) {
                Some(i) => {
                    assert(k != i);
                },
                None => {},
            }
        }
        if lookup(es, other) is Some {
            let k = choose|k: int| 0 <= k < es.len() && es[k].0 == other;
            if lookup(n, other) is None {
                match index_of(es, id) {
                    Some(i) => {
                        assert(k != i);
                        assert(n[k] == es[k]);
                    },
                    None => {
                        assert(n[k] == es[k]);
                    },
                }
            }
        }
    }
}

/// After removing an id, nothing is registered under it; other ids are
/// unaffected.
pub proof fn law_lookup_after_remove<S>(es: Seq<(Seq<char>, S)>, id: Seq<char>, other: Seq<char>)
    requires
        distinct_ids(es),
    ensures
        lookup(without(es, id), id) is None,
        other != id ==> lookup(without(es, id), other) == lookup(es, other),
{
    let n = without(es, id);
    match index_of(es, id) {
        Some(i) => {
            lemma_index_of_unique(es, i);
            lemma_remove_distinct(es, i);
            assert forall|k: int| 0 <= k < n.len() implies n[k].0 != id by {
                if k < i {
                    assert(n[k] == es[k]);
                    assert(es[k].0 != es[i].0);
                } else {
                    assert(n[k] == es[k + 1]);
                    assert(es[i].0 != es[k + 1].0);
                }
            }
        },
        None => {
            lemma_lookup(es, id);
        },
    }
    lemma_lookup(n, id);
    lemma_lookup(n, other);
    lemma_lookup(es, other);
    if other != id {
        match index_of(es, id) {
            Some(i) => {
                if lookup(es, other) is Some {
                    let k = choose|k: int| 0 <= k < es.len() && es[k].0 == other;
                    assert(k != i);
                    if k < i {
                        assert(n[k] == es[k]);
                    } else {
                        assert(n[k - 1] == es[k]);
                    }
                } else if lookup(n, other) is Some {
                    let k = choose|k: int| 0 <= k < n.len() && n[k].0 == other;
                    if k < i {
                        assert(n[k] == es[k]);
                    } else {
                        assert(n[k] == es[k + 1]);
                    }
                }
            },
            None => {},
        }
    }
}

/// The settings every spawned session shares, from the configuration.
pub fn spawn_config(cfg: &Config) -> (r: Result<SpawnConfig, Error>)
    ensures
        match cfg.debugger.cdb_path {
            Some(p) => r matches Ok(c) && c.cdb_path@ == p@ && c.symbol_path
                == cfg.debugger.symbol_path && c.output_ring_bytes
                == cfg.debugger.output_ring_bytes && c.attach_timeout_ms
                == cfg.debugger.attach_timeout_ms && c.launch_timeout_ms
                == cfg.debugger.launch_timeout_ms,
            None => r matches Err(Error::CdbNotFound(m)) && m@
                == "no cdb path configured or autodetected"@,
        },
{
    let cdb_path = cfg.cdb_path()?;
    Ok(
        SpawnConfig {
            cdb_path: cdb_path.to_string(),
            symbol_path: crate::cdb::session::clone_opt_string(&cfg.debugger.symbol_path),
            output_ring_bytes: cfg.debugger.output_ring_bytes,
            attach_timeout_ms: cfg.debugger.attach_timeout_ms,
            launch_timeout_ms: cfg.debugger.launch_timeout_ms,
        },
    )
}

} // verus!
