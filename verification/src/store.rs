//! The session record store: the authoritative in-memory table of sessions,
//! keyed by session identifier.
//!
//! The store itself is a sequential structure whose operations carry exact
//! contracts over its map view; the surrounding server shares one store
//! among tasks behind a reader/writer lock, so that any number of reads
//! proceed together while an upsert excludes them all. Under that
//! discipline the contracts here say that a lookup observes either the
//! value before or the value after any given upsert, never a partial one.

use vstd::prelude::*;
use crate::models::AgentSession;
use crate::models::SessionSummary;
use crate::models::is_summary_of;

verus! {

/// All session identifiers in the sequence are pairwise distinct.
spec fn ids_unique(s: Seq<AgentSession>) -> bool {
    forall|i: int, j: int| 0 <= i < j < s.len() ==> s[i].session_id@ != s[j].session_id@
}

/// The association that a sequence of records represents: each record
/// under its identifier, later records winning (identifiers are unique
/// under `ids_unique`, so nothing is ever overridden).
spec fn seq_to_map(s: Seq<AgentSession>) -> Map<Seq<char>, AgentSession>
    decreases s.len(),
{
    if s.len() == 0 {
        Map::empty()
    } else {
        seq_to_map(s.drop_last()).insert(s.last().session_id@, s.last())
    }
}

/// A record present at index `i` is present in the map, under its
/// identifier, with exactly that record as the value.
proof fn lemma_map_of_index(s: Seq<AgentSession>, i: int)
    requires
        ids_unique(s),
        0 <= i < s.len(),
    ensures
        seq_to_map(s).contains_key(s[i].session_id@),
        seq_to_map(s)[s[i].session_id@] == s[i],
    decreases s.len(),
{
    if i < s.len() - 1 {
        lemma_map_of_index(s.drop_last(), i);
    }
}

/// An identifier that matches no record is absent from the map.
proof fn lemma_map_no_key(s: Seq<AgentSession>, k: Seq<char>)
    requires
        forall|i: int| 0 <= i < s.len() ==> s[i].session_id@ != k,
    ensures
        !seq_to_map(s).contains_key(k),
    decreases s.len(),
{
    if s.len() > 0 {
        lemma_map_no_key(s.drop_last(), k);
    }
}

/// Replacing the record at index `i` by one with the same identifier is,
/// on the map view, an insert at that identifier.
proof fn lemma_map_update(s: Seq<AgentSession>, i: int, x: AgentSession)
    requires
        ids_unique(s),
        0 <= i < s.len(),
        x.session_id@ == s[i].session_id@,
    ensures
        seq_to_map(s.update(i, x)) =~= seq_to_map(s).insert(x.session_id@, x),
    decreases s.len(),
{
    if i == s.len() - 1 {
        assert(s.update(i, x).drop_last() =~= s.drop_last());
        assert(s.update(i, x).last() == x);
    } else {
        lemma_map_update(s.drop_last(), i, x);
        assert(s.update(i, x).drop_last() =~= s.drop_last().update(i, x));
        assert(s.update(i, x).last() == s.last());
        assert(x.session_id@ != s.last().session_id@);
    }
}

/// Appending a record with a fresh identifier is, on the map view, an
/// insert at that identifier.
proof fn lemma_map_push(s: Seq<AgentSession>, x: AgentSession)
    ensures
        seq_to_map(s.push(x)) =~= seq_to_map(s).insert(x.session_id@, x),
{
    assert(s.push(x).drop_last() =~= s);
    assert(s.push(x).last() == x);
}

/// The authoritative table of sessions. Owned exclusively; callers reach
/// records only through the operations below, never through the raw table.
pub struct SessionStore {
    sessions: Vec<AgentSession>,
}

impl View for SessionStore {
    type V = Map<Seq<char>, AgentSession>;

    closed spec fn view(&self) -> Map<Seq<char>, AgentSession> {
        seq_to_map(self.sessions@)
    }
}

impl SessionStore {
    /// Internal well-formedness: one record per identifier.
    pub closed spec fn inv(&self) -> bool {
        ids_unique(self.sessions@)
    }

    /// An empty store.
    pub fn new() -> (r: SessionStore)
        ensures
            r.inv(),
            r@ == Map::<Seq<char>, AgentSession>::empty(),
    {
        SessionStore { sessions: Vec::new() }
    }

    /// Looks a session up by identifier: the stored record, or a typed
    /// absence when the identifier is unknown. Never fatal.
    pub fn get(&self, session_id: &String) -> (r: Option<&AgentSession>)
        requires
            self.inv(),
        ensures
            match r {
                Option::Some(s) => self@.contains_key(session_id@) && *s == self@[session_id@],
                Option::None => !self@.contains_key(session_id@),
            },
    {
        let n = self.sessions.len();
        let mut i: usize = 0;
        while i < n
            invariant
                self.inv(),
                n == self.sessions@.len(),
                i <= n,
                forall|j: int| 0 <= j < i ==> self.sessions@[j].session_id@ != session_id@,
            decreases n - i,
        {
            if self.sessions[i].session_id == *session_id {
                proof {
                    lemma_map_of_index(self.sessions@, i as int);
                }
                return Option::Some(&self.sessions[i]);
            }
            i += 1;
        }
        proof {
            lemma_map_no_key(self.sessions@, session_id@);
        }
        Option::None
    }

    /// Inserts or wholesale-replaces the record with `session`'s
    /// identifier: no partial merge. On the map view this is exactly an
    /// insert; every other key keeps its previous value, so a concurrent
    /// reader serialized before or after this call sees the old or the
    /// new record, never a mixture.
    pub fn upsert(&mut self, session: AgentSession)
        requires
            old(self).inv(),
        ensures
            final(self).inv(),
            final(self)@ == old(self)@.insert(session.session_id@, session),
    {
        let n = self.sessions.len();
        let mut i: usize = 0;
        while i < n
            invariant
                self.inv(),
                self.sessions@ == old(self).sessions@,
                n == self.sessions@.len(),
                i <= n,
                forall|j: int| 0 <= j < i ==> self.sessions@[j].session_id@ != session.session_id@,
            decreases n - i,
        {
            if self.sessions[i].session_id == session.session_id {
                proof {
                    lemma_map_update(self.sessions@, i as int, session);
                }
                self.sessions[i] = session;
                return;
            }
            i += 1;
        }
        proof {
            lemma_map_push(self.sessions@, session);
        }
        self.sessions.push(session);
    }

    /// Lists every stored session as its summary projection, in one
    /// consistent snapshot: one summary per record, each the projection of
    /// the record it came from.
    pub fn list(&self) -> (r: Vec<SessionSummary>)
        requires
            self.inv(),
        ensures
            r@.len() == self@.dom().len(),
            forall|i: int| 0 <= i < r@.len()
                ==> self@.contains_key((#[trigger] r@[i]).session_id@)
                    && is_summary_of(r@[i], self@[r@[i].session_id@]),
            forall|k: Seq<char>| self@.contains_key(k)
                ==> exists|i: int| 0 <= i < r@.len() && (#[trigger] r@[i]).session_id@ == k,
    {
        proof {
            lemma_dom_len(self.sessions@);
        }
        let n = self.sessions.len();
        let mut r: Vec<SessionSummary> = Vec::new();
        let mut i: usize = 0;
        while i < n
            invariant
                self.inv(),
                n == self.sessions@.len(),
                i <= n,
                r@.len() == i,
                forall|j: int| 0 <= j < i
                    ==> is_summary_of(#[trigger] r@[j], self.sessions@[j]),
            decreases n - i,
        {
            let s = &self.sessions[i];
            r.push(s.summary());
            i += 1;
        }
        proof {
            assert forall|i0: int| 0 <= i0 < r@.len()
                implies self@.contains_key((#[trigger] r@[i0]).session_id@)
                    && is_summary_of(r@[i0], self@[r@[i0].session_id@]) by {
                lemma_map_of_index(self.sessions@, i0);
                assert(r@[i0].session_id@ == self.sessions@[i0].session_id@);
            }
            assert forall|k: Seq<char>| self@.contains_key(k)
                implies exists|i0: int| 0 <= i0 < r@.len() && (#[trigger] r@[i0]).session_id@ == k by {
                lemma_key_has_index(self.sessions@, k);
                let i0 = choose|i0: int| 0 <= i0 < self.sessions@.len()
                    && self.sessions@[i0].session_id@ == k;
                assert(0 <= i0 < r@.len() && r@[i0].session_id@ == k);
            }
        }
        r
    }
}

/// A key present in the map is the identifier of some record.
proof fn lemma_key_has_index(s: Seq<AgentSession>, k: Seq<char>)
    requires
        seq_to_map(s).contains_key(k),
    ensures
        exists|i: int| 0 <= i < s.len() && s[i].session_id@ == k,
    decreases s.len(),
{
    if s.len() > 0 {
        if s.last().session_id@ == k {
            assert(s[s.len() - 1].session_id@ == k);
        } else {
            lemma_key_has_index(s.drop_last(), k);
            let i = choose|i: int| 0 <= i < s.drop_last().len() && s.drop_last()[i].session_id@ == k;
            assert(s[i].session_id@ == k);
        }
    }
}

/// Under unique identifiers, the map has exactly one key per record.
proof fn lemma_dom_len(s: Seq<AgentSession>)
    requires
        ids_unique(s),
    ensures
        seq_to_map(s).dom().len() == s.len(),
        seq_to_map(s).dom().finite(),
    decreases s.len(),
{
    if s.len() > 0 {
        lemma_dom_len(s.drop_last());
        lemma_map_no_key(s.drop_last(), s.last().session_id@);
        assert(seq_to_map(s).dom() =~= seq_to_map(s.drop_last()).dom().insert(
            s.last().session_id@,
        ));
        vstd::set::axiom_set_insert_len(
            seq_to_map(s.drop_last()).dom(),
            s.last().session_id@,
        );
    }
}

/// Looking a key up observes, for that key, exactly the pre- or the
/// post-state of any replacement: after an upsert of `x`, the key of `x`
/// maps to `x` and every other key maps to what it mapped to before.
pub proof fn lemma_upsert_frames_reads(
    m: Map<Seq<char>, AgentSession>,
    x: AgentSession,
    k: Seq<char>,
)
    ensures
        m.insert(x.session_id@, x).contains_key(k)
            == if k == x.session_id@ { true } else { m.contains_key(k) },
        k == x.session_id@ ==> m.insert(x.session_id@, x)[k] == x,
        k != x.session_id@ && m.contains_key(k) ==> m.insert(x.session_id@, x)[k] == m[k],
{
}

} // verus!
