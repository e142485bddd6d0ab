//! The listeners that connections are forwarded from.
//!
//! A listener is known by its address and port, and belongs to the conversation that
//! asked for it. No other conversation can stop it.

use crate::text::same_text;
use vstd::prelude::*;
use vstd::string::*;

verus! {

/// A listener, with what the program keeps for it.
#[derive(Debug)]
pub struct Listener<T> {
    pub address: String,
    pub port: u16,
    pub owner: u64,
    pub task: T,
}

impl<T> Listener<T> {
    /// What the listener is known by.
    pub open spec fn key(self) -> (Seq<char>, u16) {
        (self.address@, self.port)
    }
}

/// No two listeners have the same address and port.
pub open spec fn distinct_keys<T>(s: Seq<Listener<T>>) -> bool {
    forall|i: int, j: int|
        0 <= i < j < s.len() ==> (#[trigger] s[i]).key() != (#[trigger] s[j]).key()
}

/// There is a listener with this address and port.
pub open spec fn has_key<T>(s: Seq<Listener<T>>, k: (Seq<char>, u16)) -> bool {
    exists|i: int| 0 <= i < s.len() && (#[trigger] s[i]).key() == k
}

/// The owner and the task of each listener.
pub open spec fn listener_map<T>(s: Seq<Listener<T>>) -> Map<(Seq<char>, u16), (u64, T)> {
    Map::new(
        |k: (Seq<char>, u16)| has_key(s, k),
        |k: (Seq<char>, u16)|
            {
                let i = choose|i: int| 0 <= i < s.len() && (#[trigger] s[i]).key() == k;
                (s[i].owner, s[i].task)
            },
    )
}

/// Each listener's owner and task are those that the map gives.
pub proof fn lemma_listener_map<T>(s: Seq<Listener<T>>, i: int)
    requires
        distinct_keys(s),
        0 <= i < s.len(),
    ensures
        listener_map(s).contains_key(s[i].key()),
        listener_map(s)[s[i].key()] == (s[i].owner, s[i].task),
{
    let k = s[i].key();
    assert(has_key(s, k));
    let j = choose|j: int| 0 <= j < s.len() && (#[trigger] s[j]).key() == k;
    if i < j {
        assert(s[i].key() != s[j].key());
    } else if j < i {
        assert(s[j].key() != s[i].key());
    }
}

/// Taking one listener out takes its entry out of the map.
proof fn lemma_map_remove<T>(s: Seq<Listener<T>>, i: int)
    requires
        distinct_keys(s),
        0 <= i < s.len(),
    ensures
        distinct_keys(s.remove(i)),
        listener_map(s.remove(i)) == listener_map(s).remove(s[i].key()),
{
    let t = s.remove(i);
    let k = s[i].key();
    assert(distinct_keys(t)) by {
        assert forall|a: int, b: int| 0 <= a < b < t.len() implies (#[trigger] t[a]).key() != (
        #[trigger] t[b]).key() by {
            let a2 = if a < i {
                a
            } else {
                a + 1
            };
            let b2 = if b < i {
                b
            } else {
                b + 1
            };
            assert(s[a2].key() != s[b2].key());
        }
    }
    let m = listener_map(t);
    let n = listener_map(s).remove(k);
    assert forall|q: (Seq<char>, u16)| #[trigger] m.contains_key(q) == n.contains_key(q) by {
        if m.contains_key(q) {
            let a = choose|a: int| 0 <= a < t.len() && (#[trigger] t[a]).key() == q;
            let a2 = if a < i {
                a
            } else {
                a + 1
            };
            assert(s[a2].key() == q);
            if a2 < i {
                assert(s[a2].key() != s[i].key());
            } else {
                assert(s[i].key() != s[a2].key());
            }
        }
        if n.contains_key(q) {
            let a = choose|a: int| 0 <= a < s.len() && (#[trigger] s[a]).key() == q;
            assert(a != i);
            let a2 = if a < i {
                a
            } else {
                a - 1
            };
            assert(t[a2].key() == q);
        }
    }
    assert forall|q: (Seq<char>, u16)| m.contains_key(q) implies #[trigger] m[q] == n[q] by {
        let a = choose|a: int| 0 <= a < t.len() && (#[trigger] t[a]).key() == q;
        let a2 = if a < i {
            a
        } else {
            a + 1
        };
        lemma_listener_map(t, a);
        lemma_listener_map(s, a2);
        assert(n.contains_key(q));
    }
    assert(m =~= n);
}

/// Adding a listener with a new address and port adds its entry to the map.
proof fn lemma_map_push<T>(s: Seq<Listener<T>>, l: Listener<T>)
    requires
        distinct_keys(s),
        !has_key(s, l.key()),
    ensures
        distinct_keys(s.push(l)),
        listener_map(s.push(l)) == listener_map(s).insert(l.key(), (l.owner, l.task)),
{
    let t = s.push(l);
    assert(distinct_keys(t)) by {
        assert forall|a: int, b: int| 0 <= a < b < t.len() implies (#[trigger] t[a]).key() != (
        #[trigger] t[b]).key() by {
            if b < s.len() {
                assert(s[a].key() != s[b].key());
            } else {
                assert(s[a].key() != l.key());
            }
        }
    }
    let m = listener_map(t);
    let n = listener_map(s).insert(l.key(), (l.owner, l.task));
    assert(t[s.len() as int] == l);
    lemma_listener_map(t, s.len() as int);
    assert forall|q: (Seq<char>, u16)| #[trigger] m.contains_key(q) == n.contains_key(q) by {
        if m.contains_key(q) && q != l.key() {
            let a = choose|a: int| 0 <= a < t.len() && (#[trigger] t[a]).key() == q;
            assert(s[a].key() == q);
        }
        if n.contains_key(q) && q != l.key() {
            let a = choose|a: int| 0 <= a < s.len() && (#[trigger] s[a]).key() == q;
            assert(t[a].key() == q);
        }
    }
    assert forall|q: (Seq<char>, u16)| m.contains_key(q) implies #[trigger] m[q] == n[q] by {
        if q != l.key() {
            let a = choose|a: int| 0 <= a < t.len() && (#[trigger] t[a]).key() == q;
            lemma_listener_map(t, a);
            lemma_listener_map(s, a);
            assert(s[a] == t[a]);
        }
    }
    assert(m =~= n);
}

/// The entries that belong to a conversation.
pub open spec fn owned_by<T>(
    m: Map<(Seq<char>, u16), (u64, T)>,
    owner: u64,
) -> Map<(Seq<char>, u16), (u64, T)> {
    Map::new(
        |k: (Seq<char>, u16)| m.contains_key(k) && m[k].0 == owner,
        |k: (Seq<char>, u16)| m[k],
    )
}

/// The entries that belong to other conversations.
pub open spec fn not_owned_by<T>(
    m: Map<(Seq<char>, u16), (u64, T)>,
    owner: u64,
) -> Map<(Seq<char>, u16), (u64, T)> {
    Map::new(
        |k: (Seq<char>, u16)| m.contains_key(k) && m[k].0 != owner,
        |k: (Seq<char>, u16)| m[k],
    )
}

/// Cleaning up for a conversation a second time changes nothing.
pub proof fn lemma_cleanup_idempotent<T>(m: Map<(Seq<char>, u16), (u64, T)>, owner: u64)
    ensures
        not_owned_by(not_owned_by(m, owner), owner) == not_owned_by(m, owner),
        owned_by(not_owned_by(m, owner), owner) == Map::<(Seq<char>, u16), (u64, T)>::empty(),
{
    assert(not_owned_by(not_owned_by(m, owner), owner) =~= not_owned_by(m, owner));
    assert(owned_by(not_owned_by(m, owner), owner) =~= Map::<
        (Seq<char>, u16),
        (u64, T),
    >::empty());
}

/// Cleaning up for a conversation leaves the listeners of every other one.
pub proof fn lemma_cleanup_preserves_others<T>(
    m: Map<(Seq<char>, u16), (u64, T)>,
    owner: u64,
    other: u64,
)
    requires
        other != owner,
    ensures
        owned_by(not_owned_by(m, owner), other) == owned_by(m, other),
{
    assert(owned_by(not_owned_by(m, owner), other) =~= owned_by(m, other));
}

/// The listeners.
pub struct ListenerTable<T> {
    entries: Vec<Listener<T>>,
}

impl<T> View for ListenerTable<T> {
    type V = Map<(Seq<char>, u16), (u64, T)>;

    closed spec fn view(&self) -> Map<(Seq<char>, u16), (u64, T)> {
        listener_map(self.entries@)
    }
}

impl<T> ListenerTable<T> {
    /// No two listeners have the same address and port.
    pub closed spec fn wf(&self) -> bool {
        distinct_keys(self.entries@)
    }

    /// No listeners.
    pub fn new() -> (r: Self)
        ensures
            r.wf(),
            r@ == Map::<(Seq<char>, u16), (u64, T)>::empty(),
    {
        let r = ListenerTable { entries: Vec::new() };
        assert(r@ =~= Map::<(Seq<char>, u16), (u64, T)>::empty());
        r
    }

    fn find(&self, address: &str, port: u16) -> (r: Option<usize>)
        ensures
            match r {
                Some(i) => i < self.entries@.len() && self.entries@[i as int].key() == (
                    address@,
                    port,
                ),
                None => !has_key(self.entries@, (address@, port)),
            },
    {
        let mut i: usize = 0;
        while i < self.entries.len()
            invariant
                i <= self.entries@.len(),
                forall|j: int| 0 <= j < i ==> (#[trigger] self.entries@[j]).key() != (address@, port),
            decreases self.entries@.len() - i,
        {
            if self.entries[i].port == port && same_text(self.entries[i].address.as_str(), address) {
                return Some(i);
            }
            i = i + 1;
        }
        None
    }

    /// Whether there is a listener with this address and port.
    pub fn contains(&self, address: &str, port: u16) -> (r: bool)
        ensures
            r == self@.contains_key((address@, port)),
    {
        match self.find(address, port) {
            Some(i) => {
                assert(has_key(self.entries@, (address@, port)));
                true
            },
            None => false,
        }
    }

    /// Adds a listener, and gives back the one whose place it takes.
    pub fn insert(&mut self, listener: Listener<T>) -> (r: Option<Listener<T>>)
        requires
            old(self).wf(),
        ensures
            final(self).wf(),
            final(self)@ == old(self)@.insert(listener.key(), (listener.owner, listener.task)),
            match r {
                Some(l) => {
                    &&& old(self)@.contains_key(listener.key())
                    &&& l.key() == listener.key()
                    &&& old(self)@[listener.key()] == (l.owner, l.task)
                },
                None => !old(self)@.contains_key(listener.key()),
            },
    {
        let ghost m = self@;
        let ghost k = listener.key();
        let displaced = match self.find(listener.address.as_str(), listener.port) {
            Some(i) => {
                proof {
                    lemma_listener_map(self.entries@, i as int);
                    lemma_map_remove(self.entries@, i as int);
                }
                Some(self.entries.remove(i))
            },
            None => None,
        };
        proof {
            assert(!self@.contains_key(k));
            lemma_map_push(self.entries@, listener);
        }
        self.entries.push(listener);
        assert(self@ =~= m.insert(k, (listener.owner, listener.task)));
        displaced
    }

    /// Removes a listener where it belongs to the given conversation.
    pub fn remove_owned(&mut self, address: &str, port: u16, owner: u64) -> (r: Option<Listener<T>>)
        requires
            old(self).wf(),
        ensures
            final(self).wf(),
            ({
                let k = (address@, port);
                if old(self)@.contains_key(k) && old(self)@[k].0 == owner {
                    &&& r matches Some(l)
                    &&& l.key() == k
                    &&& old(self)@[k] == (l.owner, l.task)
                    &&& final(self)@ == old(self)@.remove(k)
                } else {
                    r is None && final(self)@ == old(self)@
                }
            }),
    {
        match self.find(address, port) {
            None => None,
            Some(i) => {
                proof {
                    lemma_listener_map(self.entries@, i as int);
                }
                if self.entries[i].owner != owner {
                    return None;
                }
                proof {
                    lemma_map_remove(self.entries@, i as int);
                }
                Some(self.entries.remove(i))
            },
        }
    }

    /// Removes every listener of a conversation.
    pub fn remove_all_of(&mut self, owner: u64) -> (r: Vec<Listener<T>>)
        requires
            old(self).wf(),
        ensures
            final(self).wf(),
            final(self)@ == not_owned_by(old(self)@, owner),
            distinct_keys(r@),
            listener_map(r@) == owned_by(old(self)@, owner),
    {
        let ghost m = self@;
        let ghost none = Map::<(Seq<char>, u16), (u64, T)>::empty();
        let mut rest: Vec<Listener<T>> = Vec::new();
        std::mem::swap(&mut rest, &mut self.entries);
        let mut removed: Vec<Listener<T>> = Vec::new();
        proof {
            assert(self@ =~= none);
            assert(listener_map(removed@) =~= none);
            assert(not_owned_by(m, owner) =~= not_owned_by(listener_map(rest@), owner));
        }
        while rest.len() > 0
            invariant
                distinct_keys(rest@),
                self.wf(),
                distinct_keys(removed@),
                forall|q: (Seq<char>, u16)|
                    #![trigger m.contains_key(q)]
                    #![trigger self@.contains_key(q)]
                    #![trigger listener_map(removed@).contains_key(q)]
                    {
                        &&& m.contains_key(q) <==> listener_map(rest@).contains_key(q)
                            || self@.contains_key(q) || listener_map(removed@).contains_key(q)
                        &&& listener_map(rest@).contains_key(q) ==> m[q] == listener_map(rest@)[q]
                            && !self@.contains_key(q) && !listener_map(removed@).contains_key(q)
                        &&& self@.contains_key(q) ==> m[q] == self@[q] && m[q].0 != owner
                            && !listener_map(removed@).contains_key(q)
                        &&& listener_map(removed@).contains_key(q) ==> m[q] == listener_map(
                            removed@,
                        )[q] && m[q].0 == owner
                    },
            decreases rest@.len(),
        {
            let ghost last = rest@.len() - 1;
            let ghost before = rest@;
            proof {
                lemma_listener_map(rest@, last);
                lemma_map_remove(rest@, last);
                assert(rest@.remove(last) =~= rest@.drop_last());
                assert(m.contains_key(rest@[last].key()));
            }
            if let Some(l) = rest.pop() {
                let ghost k = l.key();
                if l.owner == owner {
                    proof {
                        assert(!listener_map(removed@).contains_key(k));
                        lemma_map_push(removed@, l);
                    }
                    removed.push(l);
                } else {
                    proof {
                        assert(!self@.contains_key(k));
                        lemma_map_push(self.entries@, l);
                    }
                    self.entries.push(l);
                }
            }
        }
        proof {
            assert(listener_map(rest@) =~= none);
            assert(self@ =~= not_owned_by(m, owner));
            assert(listener_map(removed@) =~= owned_by(m, owner));
        }
        removed
    }
}

} // verus!
