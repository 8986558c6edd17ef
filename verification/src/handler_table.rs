//! A table that holds at most one handler per message type. It is a vector
//! of entries with distinct keys: std's `HashMap` has no specification that
//! Verus can use for a `TypeId` key.

use vstd::prelude::*;
use crate::type_key::same_key;

verus! {

/// No key occurs twice among the entries.
pub open spec fn keys_unique<H>(s: Seq<(std::any::TypeId, H)>) -> bool {
    forall|i: int, j: int| 0 <= i < j < s.len() ==> s[i].0 != s[j].0
}

/// The map that the entries describe.
pub open spec fn entries_map<H>(s: Seq<(std::any::TypeId, H)>) -> Map<std::any::TypeId, H>
    decreases s.len(),
{
    if s.len() == 0 {
        Map::empty()
    } else {
        entries_map(s.drop_last()).insert(s.last().0, s.last().1)
    }
}

/// Handlers keyed by the type of message they serve.
pub struct HandlerTable<H> {
    entries: Vec<(std::any::TypeId, H)>,
}

impl<H> View for HandlerTable<H> {
    type V = Map<std::any::TypeId, H>;

    closed spec fn view(&self) -> Map<std::any::TypeId, H> {
        entries_map(self.entries@)
    }
}

impl<H> HandlerTable<H> {
    #[verifier::type_invariant]
    spec fn one_per_key(self) -> bool {
        keys_unique(self.entries@)
    }

    pub fn new() -> (r: Self)
        ensures
            r@ == Map::<std::any::TypeId, H>::empty(),
            r@.dom().finite(),
    {
        HandlerTable { entries: Vec::new() }
    }

    /// The position of the entry for `key`, if there is one.
    fn position(&self, key: &std::any::TypeId) -> (r: Option<usize>)
        ensures
            match r {
                Some(i) => i < self.entries@.len() && self.entries@[i as int].0 == *key,
                None => forall|i: int| 0 <= i < self.entries@.len() ==> self.entries@[i].0 != *key,
            },
    {
        let mut i: usize = 0;
        while i < self.entries.len()
            invariant
                i <= self.entries@.len(),
                forall|j: int| 0 <= j < i ==> self.entries@[j].0 != *key,
            decreases self.entries@.len() - i,
        {
            if same_key(&self.entries[i].0, key) {
                return Some(i);
            }
            i = i + 1;
        }
        None
    }

    /// The handler registered for `key`.
    pub fn get(&self, key: &std::any::TypeId) -> (r: Option<&H>)
        ensures
            match r {
                Some(h) => self@.contains_key(*key) && *h == self@[*key],
                None => !self@.contains_key(*key),
            },
    {
        proof {
            use_type_invariant(self);
            lemma_entries_map(self.entries@);
        }
        match self.position(key) {
            Some(i) => Some(&self.entries[i].1),
            None => None,
        }
    }

    /// Registers `handler` for `key`, replacing the handler registered for
    /// it before.
    pub fn insert(&mut self, key: std::any::TypeId, handler: H)
        ensures
            final(self)@ == old(self)@.insert(key, handler),
            final(self)@.dom().finite(),
            final(self)@.len() == old(self)@.len() + (if old(self)@.contains_key(key) {
                0int
            } else {
                1int
            }),
    {
        proof {
            use_type_invariant(&*self);
            lemma_entries_map(self.entries@);
        }
        let pos = self.position(&key);
        let mut list: Vec<(std::any::TypeId, H)> = Vec::new();
        std::mem::swap(&mut list, &mut self.entries);
        let ghost old_list = list@;
        match pos {
            Some(i) => {
                list.set(i, (key, handler));
                proof {
                    let s = list@;
                    assert forall|a: int, b: int| 0 <= a < b < s.len() implies s[a].0
                        != s[b].0 by {
                        assert(s[a].0 == old_list[a].0);
                        assert(s[b].0 == old_list[b].0);
                    }
                    lemma_entries_map(s);
                    assert forall|k: std::any::TypeId| #[trigger]
                        entries_map(s).contains_key(k) == entries_map(old_list).insert(
                            key,
                            handler,
                        ).contains_key(k) by {
                        if entries_map(s).contains_key(k) {
                            let j = choose|j: int| 0 <= j < s.len() && s[j].0 == k;
                            assert(old_list[j].0 == k);
                        }
                        if entries_map(old_list).contains_key(k) {
                            let j = choose|j: int| 0 <= j < old_list.len() && old_list[j].0 == k;
                            assert(s[j].0 == k);
                        }
                    }
                    assert forall|k: std::any::TypeId| #[trigger]
                        entries_map(s).contains_key(k) implies entries_map(s)[k]
                        == entries_map(old_list).insert(key, handler)[k] by {
                        let j = choose|j: int| 0 <= j < s.len() && s[j].0 == k;
                        if j != i {
                            assert(old_list[j] == s[j]);
                        }
                    }
                    assert(entries_map(s) =~= entries_map(old_list).insert(key, handler));
                }
            },
            None => {
                list.push((key, handler));
                proof {
                    let s = list@;
                    assert(s.drop_last() =~= old_list);
                    assert forall|a: int, b: int| 0 <= a < b < s.len() implies s[a].0
                        != s[b].0 by {
                        if b < s.len() - 1 {
                            assert(s[a] == old_list[a]);
                            assert(s[b] == old_list[b]);
                        } else {
                            assert(s[a] == old_list[a]);
                        }
                    }
                    lemma_entries_map(s);
                }
            },
        }
        self.entries = list;
    }

    /// The number of registered handlers.
    pub fn len(&self) -> (r: usize)
        ensures
            r == self@.len(),
            self@.dom().finite(),
    {
        proof {
            use_type_invariant(self);
            lemma_entries_map(self.entries@);
        }
        self.entries.len()
    }
}

/// The map holds exactly the keys of the entries, each with its entry's
/// handler, and as many keys as there are entries.
proof fn lemma_entries_map<H>(s: Seq<(std::any::TypeId, H)>)
    requires
        keys_unique(s),
    ensures
        entries_map(s).dom().finite(),
        entries_map(s).len() == s.len(),
        forall|k: std::any::TypeId| #[trigger]
            entries_map(s).contains_key(k) <==> exists|i: int| 0 <= i < s.len() && s[i].0 == k,
        forall|i: int| 0 <= i < s.len() ==> entries_map(s)[#[trigger] s[i].0] == s[i].1,
    decreases s.len(),
{
    if s.len() > 0 {
        let t = s.drop_last();
        lemma_entries_map(t);
        let last = s.last();
        assert(!entries_map(t).contains_key(last.0)) by {
            if entries_map(t).contains_key(last.0) {
                let j = choose|j: int| 0 <= j < t.len() && t[j].0 == last.0;
                assert(s[j].0 == s[s.len() - 1].0);
            }
        }
        assert forall|k: std::any::TypeId| #[trigger]
            entries_map(s).contains_key(k) implies exists|i: int| 0 <= i < s.len() && s[i].0 == k by {
            if k != last.0 {
                let j = choose|j: int| 0 <= j < t.len() && t[j].0 == k;
                assert(s[j] == t[j]);
            } else {
                assert(s[s.len() - 1].0 == k);
            }
        }
        assert forall|k: std::any::TypeId|
            (exists|i: int| 0 <= i < s.len() && s[i].0 == k) implies #[trigger]
            entries_map(s).contains_key(k) by {
            let j = choose|j: int| 0 <= j < s.len() && s[j].0 == k;
            if j < s.len() - 1 {
                assert(t[j] == s[j]);
            }
        }
        assert forall|i: int| 0 <= i < s.len() implies entries_map(s)[#[trigger] s[i].0]
            == s[i].1 by {
            if i < s.len() - 1 {
                assert(t[i] == s[i]);
                assert(s[i].0 != last.0);
            }
        }
    }
}

} // verus!
