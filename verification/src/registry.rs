//! The subscription registry: a multi-map from session identifier to the
//! set of live connections interested in that session.
//!
//! A connection is named by a plain numeric handle that the transport
//! layer assigns. The registry's view is the set of (connection, session
//! identifier) pairs; subscribing is idempotent, and removing a connection
//! removes every pair it owns, so membership stays proportional to live
//! connections. As with the store, one registry is shared behind a lock by
//! all connection tasks; the contracts here pin each serialized mutation.

use vstd::prelude::*;
use crate::codec::WsEvent;
use crate::codec::render_event;
use crate::codec::step_update_text;

verus! {

/// The pair a registry entry stands for: connection handle and the
/// subscribed session's identifier.
spec fn pair_view(e: (u64, String)) -> (u64, Seq<char>) {
    (e.0, e.1@)
}

/// The set of pairs a sequence of entries represents.
spec fn pairs_set(s: Seq<(u64, String)>) -> Set<(u64, Seq<char>)>
    decreases s.len(),
{
    if s.len() == 0 {
        Set::empty()
    } else {
        pairs_set(s.drop_last()).insert(pair_view(s.last()))
    }
}

/// No two entries stand for the same pair.
spec fn pairs_unique(s: Seq<(u64, String)>) -> bool {
    forall|i: int, j: int| 0 <= i < j < s.len() ==> pair_view(s[i]) != pair_view(s[j])
}

/// An entry present at an index is present in the set.
proof fn lemma_set_of_index(s: Seq<(u64, String)>, i: int)
    requires
        0 <= i < s.len(),
    ensures
        pairs_set(s).contains(pair_view(s[i])),
    decreases s.len(),
{
    if i < s.len() - 1 {
        lemma_set_of_index(s.drop_last(), i);
    }
}

/// A pair that no entry stands for is absent from the set.
proof fn lemma_set_no_pair(s: Seq<(u64, String)>, p: (u64, Seq<char>))
    requires
        forall|i: int| 0 <= i < s.len() ==> pair_view(s[i]) != p,
    ensures
        !pairs_set(s).contains(p),
    decreases s.len(),
{
    if s.len() > 0 {
        lemma_set_no_pair(s.drop_last(), p);
    }
}

/// Membership in the set is existence of an entry.
proof fn lemma_contains_iff_index(s: Seq<(u64, String)>, p: (u64, Seq<char>))
    ensures
        pairs_set(s).contains(p) <==> exists|i: int| 0 <= i < s.len() && pair_view(s[i]) == p,
{
    if exists|i: int| 0 <= i < s.len() && pair_view(s[i]) == p {
        let i = choose|i: int| 0 <= i < s.len() && pair_view(s[i]) == p;
        lemma_set_of_index(s, i);
    } else {
        lemma_set_no_pair(s, p);
    }
}

/// Appending an entry inserts its pair into the set.
proof fn lemma_set_push(s: Seq<(u64, String)>, x: (u64, String))
    ensures
        pairs_set(s.push(x)) =~= pairs_set(s).insert(pair_view(x)),
{
    assert(s.push(x).drop_last() =~= s);
    assert(s.push(x).last() == x);
}

/// Removing the entry at an index removes its pair from the set, provided
/// entries are unique.
proof fn lemma_set_remove(s: Seq<(u64, String)>, i: int)
    requires
        pairs_unique(s),
        0 <= i < s.len(),
    ensures
        pairs_set(s.remove(i)) =~= pairs_set(s).remove(pair_view(s[i])),
    decreases s.len(),
{
    if i == s.len() - 1 {
        assert(s.remove(i) =~= s.drop_last());
        assert(forall|j: int| 0 <= j < s.drop_last().len()
            ==> pair_view(#[trigger] s.drop_last()[j]) != pair_view(s[i]));
        lemma_set_no_pair(s.drop_last(), pair_view(s[i]));
    } else {
        lemma_set_remove(s.drop_last(), i);
        assert(s.remove(i).drop_last() =~= s.drop_last().remove(i));
        assert(s.remove(i).last() == s.last());
        assert(pair_view(s.last()) != pair_view(s[i]));
    }
}

/// The registry. Callers reach memberships only through the operations
/// below; the raw table stays encapsulated.
pub struct SubscriptionRegistry {
    subs: Vec<(u64, String)>,
}

impl View for SubscriptionRegistry {
    type V = Set<(u64, Seq<char>)>;

    closed spec fn view(&self) -> Set<(u64, Seq<char>)> {
        pairs_set(self.subs@)
    }
}

impl SubscriptionRegistry {
    /// Internal well-formedness: one entry per (connection, session) pair.
    pub closed spec fn inv(&self) -> bool {
        pairs_unique(self.subs@)
    }

    /// An empty registry.
    pub fn new() -> (r: SubscriptionRegistry)
        ensures
            r.inv(),
            r@ == Set::<(u64, Seq<char>)>::empty(),
    {
        SubscriptionRegistry { subs: Vec::new() }
    }

    /// Registers `conn`'s interest in `session_id`. Idempotent: the view
    /// becomes the old view plus the pair, which is the old view itself
    /// when the pair was already a member.
    pub fn subscribe(&mut self, conn: u64, session_id: &String)
        requires
            old(self).inv(),
        ensures
            final(self).inv(),
            final(self)@ == old(self)@.insert((conn, session_id@)),
    {
        let n = self.subs.len();
        let mut i: usize = 0;
        while i < n
            invariant
                self.inv(),
                self.subs@ == old(self).subs@,
                n == self.subs@.len(),
                i <= n,
                forall|j: int| 0 <= j < i
                    ==> pair_view(self.subs@[j]) != (conn, session_id@),
            decreases n - i,
        {
            if self.subs[i].0 == conn && self.subs[i].1 == *session_id {
                proof {
                    lemma_set_of_index(self.subs@, i as int);
                    assert(self@.insert((conn, session_id@)) =~= self@);
                }
                return;
            }
            i += 1;
        }
        let entry = (conn, session_id.clone());
        proof {
            lemma_set_push(self.subs@, entry);
            assert(pair_view(entry) == (conn, session_id@));
        }
        self.subs.push(entry);
        proof {
            assert(self.subs@ == old(self).subs@.push(entry));
            assert forall|a: int, b: int| 0 <= a < b < self.subs@.len()
                implies pair_view(#[trigger] self.subs@[a]) != pair_view(
                    #[trigger] self.subs@[b],
                ) by {
                if b == self.subs@.len() - 1 {
                    assert(pair_view(old(self).subs@[a]) != (conn, session_id@));
                }
            }
        }
    }

    /// Withdraws `conn`'s interest in `session_id`, if registered; the
    /// view becomes the old view minus the pair either way.
    pub fn unsubscribe(&mut self, conn: u64, session_id: &String)
        requires
            old(self).inv(),
        ensures
            final(self).inv(),
            final(self)@ == old(self)@.remove((conn, session_id@)),
    {
        let n = self.subs.len();
        let mut i: usize = 0;
        while i < n
            invariant
                self.inv(),
                self.subs@ == old(self).subs@,
                n == self.subs@.len(),
                i <= n,
                forall|j: int| 0 <= j < i
                    ==> pair_view(self.subs@[j]) != (conn, session_id@),
            decreases n - i,
        {
            if self.subs[i].0 == conn && self.subs[i].1 == *session_id {
                proof {
                    lemma_set_remove(self.subs@, i as int);
                    assert(pair_view(self.subs@[i as int]) == (conn, session_id@));
                }
                self.subs.remove(i);
                return;
            }
            i += 1;
        }
        proof {
            lemma_set_no_pair(self.subs@, (conn, session_id@));
            assert(self@.remove((conn, session_id@)) =~= self@);
        }
    }

    /// Withdraws every subscription `conn` owns: invoked when `conn`'s
    /// transport closes, so no dangling handle is retained. Exactly the
    /// pairs of other connections remain.
    pub fn remove_connection(&mut self, conn: u64)
        requires
            old(self).inv(),
        ensures
            final(self).inv(),
            forall|p: (u64, Seq<char>)|
                final(self)@.contains(p) <==> (old(self)@.contains(p) && p.0 != conn),
    {
        let n = self.subs.len();
        let mut kept: Vec<(u64, String)> = Vec::new();
        let mut i: usize = 0;
        while i < n
            invariant
                self.inv(),
                self.subs@ == old(self).subs@,
                n == self.subs@.len(),
                i <= n,
                pairs_unique(kept@),
                forall|p: (u64, Seq<char>)|
                    pairs_set(kept@).contains(p)
                        <==> (exists|j: int| 0 <= j < i && pair_view(#[trigger] self.subs@[j]) == p
                            && p.0 != conn),
            decreases n - i,
        {
            let c0 = self.subs[i].0;
            if c0 != conn {
                let entry = (c0, self.subs[i].1.clone());
                let ghost prevk = kept@;
                proof {
                    assert(pair_view(entry) == pair_view(self.subs@[i as int]));
                    lemma_contains_iff_index(prevk, pair_view(entry));
                    if pairs_set(prevk).contains(pair_view(entry)) {
                        let j = choose|j: int| 0 <= j < i
                            && pair_view(#[trigger] self.subs@[j]) == pair_view(entry)
                            && pair_view(entry).0 != conn;
                        assert(pair_view(self.subs@[j]) != pair_view(self.subs@[i as int]));
                        assert(false);
                    }
                    lemma_set_push(prevk, entry);
                }
                kept.push(entry);
                proof {
                    assert(kept@ == prevk.push(entry));
                    assert forall|a: int, b: int| 0 <= a < b < kept@.len()
                        implies pair_view(#[trigger] kept@[a]) != pair_view(
                            #[trigger] kept@[b],
                        ) by {
                        if b == kept@.len() - 1 {
                            lemma_set_of_index(prevk, a);
                        }
                    }
                    assert forall|p: (u64, Seq<char>)|
                        pairs_set(kept@).contains(p)
                            <==> (exists|j: int| 0 <= j < i + 1
                                && pair_view(#[trigger] self.subs@[j]) == p
                                && p.0 != conn) by {
                        if pairs_set(kept@).contains(p) {
                            if p == pair_view(entry) {
                                assert(pair_view(self.subs@[i as int]) == p && p.0 != conn);
                            } else {
                                assert(pairs_set(prevk).contains(p));
                            }
                        }
                        if exists|j: int| 0 <= j < i + 1
                            && pair_view(#[trigger] self.subs@[j]) == p && p.0 != conn {
                            let j = choose|j: int| 0 <= j < i + 1
                                && pair_view(#[trigger] self.subs@[j]) == p && p.0 != conn;
                            if j == i {
                                assert(pairs_set(kept@).contains(pair_view(entry)));
                            } else {
                                assert(pairs_set(prevk).contains(p));
                            }
                        }
                    }
                }
            } else {
                proof {
                    assert forall|p: (u64, Seq<char>)|
                        pairs_set(kept@).contains(p)
                            <==> (exists|j: int| 0 <= j < i + 1
                                && pair_view(#[trigger] self.subs@[j]) == p
                                && p.0 != conn) by {
                        if exists|j: int| 0 <= j < i + 1
                            && pair_view(#[trigger] self.subs@[j]) == p && p.0 != conn {
                            let j = choose|j: int| 0 <= j < i + 1
                                && pair_view(#[trigger] self.subs@[j]) == p && p.0 != conn;
                            assert(j != i);
                        }
                    }
                }
            }
            i += 1;
        }
        proof {
            assert forall|p: (u64, Seq<char>)|
                pairs_set(kept@).contains(p)
                    <==> (pairs_set(self.subs@).contains(p) && p.0 != conn) by {
                lemma_contains_iff_index(self.subs@, p);
            }
        }
        self.subs = kept;
    }

    /// The connections currently subscribed to `session_id`: every one of
    /// them, no other, and each once.
    pub fn subscribers(&self, session_id: &String) -> (r: Vec<u64>)
        requires
            self.inv(),
        ensures
            forall|c: u64| r@.contains(c) <==> self@.contains((c, session_id@)),
            forall|a: int, b: int| 0 <= a < b < r@.len() ==> r@[a] != r@[b],
    {
        let n = self.subs.len();
        let mut r: Vec<u64> = Vec::new();
        let mut i: usize = 0;
        while i < n
            invariant
                self.inv(),
                n == self.subs@.len(),
                i <= n,
                forall|c: u64| r@.contains(c)
                    <==> (exists|j: int| 0 <= j < i
                        && pair_view(#[trigger] self.subs@[j]) == (c, session_id@)),
                forall|a: int, b: int| 0 <= a < b < r@.len() ==> r@[a] != r@[b],
            decreases n - i,
        {
            if self.subs[i].1 == *session_id {
                let c = self.subs[i].0;
                let ghost prevr = r@;
                proof {
                    assert(pair_view(self.subs@[i as int]) == (c, session_id@));
                    if r@.contains(c) {
                        let j = choose|j: int| 0 <= j < i
                            && pair_view(#[trigger] self.subs@[j]) == (c, session_id@);
                        assert(pair_view(self.subs@[j]) != pair_view(self.subs@[i as int]));
                        assert(false);
                    }
                }
                r.push(c);
                proof {
                    assert(r@ == prevr.push(c));
                    assert forall|c2: u64| r@.contains(c2)
                        implies (exists|j: int| 0 <= j < i + 1
                            && pair_view(#[trigger] self.subs@[j]) == (c2, session_id@)) by {
                        if c2 == c {
                            assert(pair_view(self.subs@[i as int]) == (c2, session_id@));
                        } else {
                            let a = choose|a: int| 0 <= a < r@.len() && r@[a] == c2;
                            assert(prevr[a] == c2);
                            assert(prevr.contains(c2));
                        }
                    }
                    assert forall|c2: u64|
                        (exists|j: int| 0 <= j < i + 1
                            && pair_view(#[trigger] self.subs@[j]) == (c2, session_id@))
                        implies r@.contains(c2) by {
                        let j = choose|j: int| 0 <= j < i + 1
                            && pair_view(#[trigger] self.subs@[j]) == (c2, session_id@);
                        if j == i {
                            assert(r@[r@.len() - 1] == c);
                        } else {
                            assert(prevr.contains(c2));
                            let a = choose|a: int| 0 <= a < prevr.len() && prevr[a] == c2;
                            assert(r@[a] == c2);
                        }
                    }
                }
            } else {
                proof {
                    assert forall|c2: u64|
                        (exists|j: int| 0 <= j < i + 1
                            && pair_view(#[trigger] self.subs@[j]) == (c2, session_id@))
                        implies r@.contains(c2) by {
                        let j = choose|j: int| 0 <= j < i + 1
                            && pair_view(#[trigger] self.subs@[j]) == (c2, session_id@);
                        assert(j != i);
                    }
                }
            }
            i += 1;
        }
        proof {
            assert forall|c: u64| r@.contains(c) <==> self@.contains((c, session_id@)) by {
                lemma_contains_iff_index(self.subs@, (c, session_id@));
            }
        }
        r
    }

    /// The fan-out of one step update: the wire text of the event and the
    /// connections owed a delivery — every connection subscribed to
    /// `session_id`, no connection subscribed only elsewhere, each once.
    /// The delivered count is the length of the target list. Sending is
    /// the transport's job and is best-effort per connection: a failed
    /// target is removed via `remove_connection` and the rest are
    /// unaffected.
    pub fn publish(&self, session_id: &String, payload: &String) -> (r: (Vec<u64>, String))
        requires
            self.inv(),
        ensures
            forall|c: u64| r.0@.contains(c) <==> self@.contains((c, session_id@)),
            forall|a: int, b: int| 0 <= a < b < r.0@.len() ==> r.0@[a] != r.0@[b],
            r.1@ == step_update_text(payload@),
    {
        let targets = self.subscribers(session_id);
        let ev = render_event(&WsEvent::StepUpdate(payload.clone()));
        (targets, ev)
    }
}

/// Subscribing twice from one connection to one session is subscribing
/// once: the second insert changes nothing, and membership size does not
/// grow past the first.
pub proof fn lemma_subscribe_idempotent(s: Set<(u64, Seq<char>)>, conn: u64, sid: Seq<char>)
    ensures
        s.insert((conn, sid)).insert((conn, sid)) == s.insert((conn, sid)),
        s.finite() ==> s.insert((conn, sid)).insert((conn, sid)).len() == s.insert(
            (conn, sid),
        ).len(),
{
    assert(s.insert((conn, sid)).insert((conn, sid)) =~= s.insert((conn, sid)));
}

/// After a connection is removed, it is a member of no session's audience,
/// and every other connection's memberships are exactly what they were: a
/// later fan-out reaches the others untouched.
pub proof fn lemma_removed_connection_is_gone(
    pre: Set<(u64, Seq<char>)>,
    post: Set<(u64, Seq<char>)>,
    conn: u64,
)
    requires
        forall|p: (u64, Seq<char>)| post.contains(p) <==> (pre.contains(p) && p.0 != conn),
    ensures
        forall|sid: Seq<char>| !post.contains((conn, sid)),
        forall|c: u64, sid: Seq<char>|
            c != conn ==> (post.contains((c, sid)) <==> pre.contains((c, sid))),
{
}

} // verus!
