//! The open sessions, by id.

use vstd::prelude::*;

use crate::protocol::{Session, SessionView};

verus! {

/// A session and its id.
#[derive(Debug)]
pub struct SessionEntry {
    pub id: String,
    pub session: Session,
}

/// The open sessions. No id occurs twice.
#[derive(Debug)]
pub struct SessionStore {
    pub entries: Vec<SessionEntry>,
}

/// Whether an id stands at position `i`.
pub open spec fn stands_at(entries: Seq<SessionEntry>, id: Seq<char>, i: int) -> bool {
    0 <= i < entries.len() && entries[i].id@ == id
}

/// Where an id stands.
pub open spec fn position(entries: Seq<SessionEntry>, id: Seq<char>) -> int {
    choose|i: int| stands_at(entries, id, i)
}

impl View for SessionStore {
    type V = Map<Seq<char>, SessionView>;

    open spec fn view(&self) -> Map<Seq<char>, SessionView> {
        Map::new(
            |id: Seq<char>| exists|i: int| stands_at(self.entries@, id, i),
            |id: Seq<char>| self.entries@[position(self.entries@, id)].session@,
        )
    }
}

/// Whether a session has been idle for less than `timeout` nanoseconds.
pub open spec fn fresh(session: SessionView, now: nat, timeout: nat) -> bool {
    session.idle(now) < timeout
}

/// The sessions that have been idle for less than `timeout` nanoseconds.
pub open spec fn fresh_sessions(
    sessions: Map<Seq<char>, SessionView>,
    now: nat,
    timeout: nat,
) -> Map<Seq<char>, SessionView> {
    Map::new(
        |id: Seq<char>| sessions.contains_key(id) && fresh(sessions[id], now, timeout),
        |id: Seq<char>| sessions[id],
    )
}

impl SessionStore {
    /// No id occurs twice.
    pub open spec fn wf(self) -> bool {
        forall|i: int, j: int|
            0 <= i < self.entries@.len() && 0 <= j < self.entries@.len() && i != j ==> (
            #[trigger] self.entries@[i]).id@ != (#[trigger] self.entries@[j]).id@
    }

    /// In a store without duplicates, an entry is what its id stands for.
    proof fn lemma_entry(self, i: int)
        requires
            self.wf(),
            0 <= i < self.entries@.len(),
        ensures
            self@.contains_key(self.entries@[i].id@),
            self@[self.entries@[i].id@] == self.entries@[i].session@,
    {
        let id = self.entries@[i].id@;
        assert(stands_at(self.entries@, id, i));
        assert(stands_at(self.entries@, id, position(self.entries@, id)));
    }

    /// A store has as many sessions as entries.
    proof fn lemma_len(self)
        requires
            self.wf(),
        ensures
            self@.dom().finite(),
            self@.len() == self.entries@.len(),
    {
        let ids = self.entries@.map_values(|e: SessionEntry| e.id@);
        assert(ids.no_duplicates());
        ids.unique_seq_to_set();
        assert forall|id: Seq<char>| self@.dom().contains(id) <==> #[trigger] ids.to_set().contains(id) by {
            if self@.dom().contains(id) {
                let i = position(self.entries@, id);
                assert(stands_at(self.entries@, id, i));
                assert(ids[i] == id);
            }
            if ids.to_set().contains(id) {
                let i = choose|i: int| 0 <= i < ids.len() && ids[i] == id;
                assert(stands_at(self.entries@, id, i));
            }
        }
        assert(self@.dom() == ids.to_set());
        vstd::seq_lib::seq_to_set_is_finite(ids);
    }

    /// Whether two stores differ at most in the session at position `i`.
    spec fn differs_at(self, other: SessionStore, i: int) -> bool {
        &&& self.entries@.len() == other.entries@.len()
        &&& 0 <= i < self.entries@.len()
        &&& self.entries@[i].id@ == other.entries@[i].id@
        &&& forall|k: int| 0 <= k < self.entries@.len() && k != i ==> #[trigger] self.entries@[k] == other.entries@[k]
    }

    /// Changing the session of an entry changes what its id stands for, and nothing else.
    proof fn lemma_changed(self, after: SessionStore, i: int)
        requires
            self.wf(),
            self.differs_at(after, i),
        ensures
            after.wf(),
            after@ == self@.insert(self.entries@[i].id@, after.entries@[i].session@),
    {
        let id = self.entries@[i].id@;
        let expected = self@.insert(id, after.entries@[i].session@);
        assert forall|k: int| 0 <= k < self.entries@.len() implies #[trigger] after.entries@[k].id@
            == self.entries@[k].id@ by {
            if k != i {
                assert(self.entries@[k] == after.entries@[k]);
            }
        }
        assert(after.wf());
        assert forall|key: Seq<char>| #[trigger] after@.contains_key(key) == expected.contains_key(key) by {
            if after@.contains_key(key) {
                let k = position(after.entries@, key);
                assert(stands_at(after.entries@, key, k));
                assert(stands_at(self.entries@, key, k));
            }
            if expected.contains_key(key) {
                if key == id {
                    assert(stands_at(after.entries@, key, i));
                } else {
                    let k = position(self.entries@, key);
                    assert(stands_at(self.entries@, key, k));
                    assert(stands_at(after.entries@, key, k));
                }
            }
        }
        assert forall|key: Seq<char>| #[trigger] after@.contains_key(key) implies after@[key] == expected[key] by {
            let k = position(after.entries@, key);
            assert(stands_at(after.entries@, key, k));
            after.lemma_entry(k);
            if k == i {
                assert(key == id);
            } else {
                self.lemma_entry(k);
                assert(self.entries@[k] == after.entries@[k]);
                assert(self.entries@[k].id@ != self.entries@[i].id@);
            }
        }
        assert(after@ == expected);
    }

    /// No sessions.
    pub fn new() -> (r: SessionStore)
        ensures
            r.wf(),
            r@ == Map::<Seq<char>, SessionView>::empty(),
    {
        let r = SessionStore { entries: Vec::new() };
        assert(r@ == Map::<Seq<char>, SessionView>::empty());
        r
    }

    /// How many sessions are open.
    pub fn len(&self) -> (r: usize)
        requires
            self.wf(),
        ensures
            r == self@.len(),
            self@.dom().finite(),
    {
        proof {
            self.lemma_len();
        }
        self.entries.len()
    }

    fn find(&self, id: &str) -> (r: Option<usize>)
        ensures
            match r {
                Some(i) => stands_at(self.entries@, id@, i as int),
                None => !self@.contains_key(id@),
            },
    {
        let wanted: String = id.to_owned();
        let mut i: usize = 0;
        while i < self.entries.len()
            invariant
                wanted@ == id@,
                i <= self.entries@.len(),
                forall|k: int| 0 <= k < i ==> !#[trigger] stands_at(self.entries@, id@, k),
            decreases self.entries@.len() - i,
        {
            if self.entries[i].id == wanted {
                return Some(i);
            }
            i += 1;
        }
        None
    }

    /// The session with the id.
    pub fn get(&self, id: &str) -> (r: Option<&Session>)
        requires
            self.wf(),
        ensures
            match r {
                Some(session) => self@.contains_key(id@) && self@[id@] == session@,
                None => !self@.contains_key(id@),
            },
    {
        match self.find(id) {
            Some(i) => {
                proof {
                    self.lemma_entry(i as int);
                }
                Some(&self.entries[i].session)
            },
            None => None,
        }
    }

    /// The session with the id, to be changed.
    pub fn get_mut(&mut self, id: &str) -> (r: Option<&mut Session>)
        requires
            old(self).wf(),
        ensures
            final(self).wf(),
            match r {
                Some(session) => {
                    &&& old(self)@.contains_key(id@)
                    &&& session@ == old(self)@[id@]
                    &&& final(self)@ == old(self)@.insert(id@, final(session)@)
                },
                None => !old(self)@.contains_key(id@) && final(self)@ == old(self)@,
            },
    {
        match self.find(id) {
            Some(i) => {
                proof {
                    let before = *self;
                    before.lemma_entry(i as int);
                    assert forall|after: SessionStore| before.differs_at(after, i as int) implies
                        #[trigger] after@ == before@.insert(id@, after.entries@[i as int].session@) by {
                        before.lemma_changed(after, i as int);
                    }
                }
                Some(&mut self.entries[i].session)
            },
            None => None,
        }
    }

    /// Adding an entry with a new id adds what the id stands for.
    proof fn lemma_added(self, after: SessionStore)
        requires
            self.wf(),
            after.entries@.len() == self.entries@.len() + 1,
            after.entries@.drop_last() == self.entries@,
            !self@.contains_key(after.entries@.last().id@),
        ensures
            after.wf(),
            after@ == self@.insert(after.entries@.last().id@, after.entries@.last().session@),
    {
        let n = self.entries@.len() as int;
        let id = after.entries@[n].id@;
        let expected = self@.insert(id, after.entries@[n].session@);
        assert forall|k: int| 0 <= k < n implies #[trigger] after.entries@[k] == self.entries@[k] by {
            assert(after.entries@.drop_last()[k] == after.entries@[k]);
        }
        assert forall|k: int| 0 <= k < n implies (#[trigger] after.entries@[k]).id@ != id by {
            assert(!stands_at(self.entries@, id, k));
        }
        assert(after.wf());
        assert forall|key: Seq<char>| #[trigger] after@.contains_key(key) == expected.contains_key(key) by {
            if after@.contains_key(key) {
                let k = position(after.entries@, key);
                assert(stands_at(after.entries@, key, k));
                if k < n {
                    assert(stands_at(self.entries@, key, k));
                }
            }
            if expected.contains_key(key) {
                if key == id {
                    assert(stands_at(after.entries@, key, n));
                } else {
                    let k = position(self.entries@, key);
                    assert(stands_at(self.entries@, key, k));
                    assert(stands_at(after.entries@, key, k));
                }
            }
        }
        assert forall|key: Seq<char>| #[trigger] after@.contains_key(key) implies after@[key] == expected[key] by {
            let k = position(after.entries@, key);
            assert(stands_at(after.entries@, key, k));
            after.lemma_entry(k);
            if k < n {
                self.lemma_entry(k);
            }
        }
        assert(after@ == expected);
    }

    /// Opens a session, in place of an earlier one with the same id.
    pub fn insert(&mut self, id: String, session: Session)
        requires
            old(self).wf(),
        ensures
            final(self).wf(),
            final(self)@ == old(self)@.insert(id@, session@),
    {
        let ghost before = *self;
        match self.find(id.as_str()) {
            Some(i) => {
                self.entries.set(i, SessionEntry { id, session });
                proof {
                    before.lemma_changed(*self, i as int);
                }
            },
            None => {
                self.entries.push(SessionEntry { id, session });
                proof {
                    assert(self.entries@.drop_last() == before.entries@);
                    before.lemma_added(*self);
                }
            },
        }
    }

    /// Closes a session. Says whether there was one with the id.
    pub fn remove(&mut self, id: &str) -> (r: bool)
        requires
            old(self).wf(),
        ensures
            final(self).wf(),
            r == old(self)@.contains_key(id@),
            final(self)@ == old(self)@.remove(id@),
    {
        let ghost before = *self;
        match self.find(id) {
            Some(i) => {
                self.entries.remove(i);
                proof {
                    before.lemma_entry(i as int);
                    before.lemma_removed(*self, i as int);
                }
                true
            },
            None => {
                assert(self@ == before@.remove(id@));
                false
            },
        }
    }

    /// Removing an entry removes what its id stands for.
    proof fn lemma_removed(self, after: SessionStore, i: int)
        requires
            self.wf(),
            0 <= i < self.entries@.len(),
            after.entries@ == self.entries@.remove(i),
        ensures
            after.wf(),
            after@ == self@.remove(self.entries@[i].id@),
    {
        let id = self.entries@[i].id@;
        let expected = self@.remove(id);
        assert forall|k: int| 0 <= k < after.entries@.len() implies #[trigger] after.entries@[k]
            == self.entries@[if k < i { k } else { k + 1 }] by {}
        assert(after.wf());
        assert forall|key: Seq<char>| #[trigger] after@.contains_key(key) == expected.contains_key(key) by {
            if after@.contains_key(key) {
                let k = position(after.entries@, key);
                assert(stands_at(after.entries@, key, k));
                let m = if k < i { k } else { k + 1 };
                assert(stands_at(self.entries@, key, m));
                assert(self.entries@[m].id@ != self.entries@[i].id@);
            }
            if expected.contains_key(key) {
                let m = position(self.entries@, key);
                assert(stands_at(self.entries@, key, m));
                assert(stands_at(after.entries@, key, if m < i { m } else { m - 1 }));
            }
        }
        assert forall|key: Seq<char>| #[trigger] after@.contains_key(key) implies after@[key] == expected[key] by {
            let k = position(after.entries@, key);
            assert(stands_at(after.entries@, key, k));
            after.lemma_entry(k);
            self.lemma_entry(if k < i { k } else { k + 1 });
        }
        assert(after@ == expected);
    }

    /// Closes the sessions that have been idle for `timeout` nanoseconds or longer.
    pub fn retain_fresh(&mut self, now: u128, timeout: u128)
        requires
            old(self).wf(),
        ensures
            final(self).wf(),
            final(self)@ == fresh_sessions(old(self)@, now as nat, timeout as nat),
    {
        let mut i: usize = 0;
        let ghost before = self@;
        let ghost expected = fresh_sessions(before, now as nat, timeout as nat);
        while i < self.entries.len()
            invariant
                self.wf(),
                i <= self.entries@.len(),
                expected == fresh_sessions(before, now as nat, timeout as nat),
                fresh_sessions(self@, now as nat, timeout as nat) == expected,
                forall|k: int|
                    0 <= k < i ==> fresh(
                        (#[trigger] self.entries@[k]).session@,
                        now as nat,
                        timeout as nat,
                    ),
            decreases self.entries@.len() - i,
        {
            proof {
                self.lemma_entry(i as int);
            }
            let last: u128 = self.entries[i].session.last_active;
            let idle: u128 = if now >= last {
                now - last
            } else {
                0
            };
            if idle < timeout {
                i += 1;
            } else {
                let ghost was = *self;
                self.entries.remove(i);
                proof {
                    was.lemma_removed(*self, i as int);
                    assert(fresh_sessions(self@, now as nat, timeout as nat) == fresh_sessions(
                        was@,
                        now as nat,
                        timeout as nat,
                    ));
                }
            }
        }
        proof {
            assert forall|key: Seq<char>| #[trigger] self@.contains_key(key) implies fresh(
                self@[key],
                now as nat,
                timeout as nat,
            ) by {
                let k = position(self.entries@, key);
                assert(stands_at(self.entries@, key, k));
                self.lemma_entry(k);
            }
            assert(fresh_sessions(self@, now as nat, timeout as nat) == self@);
        }
    }

    /// Closes all sessions.
    pub fn clear(&mut self)
        ensures
            final(self).wf(),
            final(self)@ == Map::<Seq<char>, SessionView>::empty(),
    {
        self.entries.clear();
        assert(self@ == Map::<Seq<char>, SessionView>::empty());
    }
}

/// A store without duplicates stands for its sessions: each under its id, and no others.
pub proof fn stores_stand_for_their_sessions(store: SessionStore, id: Seq<char>, i: int)
    requires
        store.wf(),
    ensures
        store@.contains_key(id) <==> exists|k: int|
            0 <= k < store.entries@.len() && (#[trigger] store.entries@[k]).id@ == id,
        0 <= i < store.entries@.len() && store.entries@[i].id@ == id ==> store@[id]
            == store.entries@[i].session@,
        store@.dom().finite(),
        store@.len() == store.entries@.len(),
{
    store.lemma_len();
    if 0 <= i < store.entries@.len() && store.entries@[i].id@ == id {
        store.lemma_entry(i);
    }
    if store@.contains_key(id) {
        let k = position(store.entries@, id);
        assert(stands_at(store.entries@, id, k));
        assert(store.entries@[k].id@ == id);
    }
    if exists|k: int| 0 <= k < store.entries@.len() && (#[trigger] store.entries@[k]).id@ == id {
        let k = choose|k: int|
            0 <= k < store.entries@.len() && (#[trigger] store.entries@[k]).id@ == id;
        assert(stands_at(store.entries@, id, k));
    }
}

} // verus!
