//! Values kept per conversation: a small map from ids to values.

use vstd::prelude::*;
use crate::text::same;

verus! {

/// A map from ids to values.
pub struct IdMap<V> {
    entries: Vec<(String, V)>,
}

/// The value last entered for `key`.
spec fn found<V>(entries: Seq<(String, V)>, key: Seq<char>) -> Option<V>
    decreases entries.len(),
{
    if entries.len() == 0 {
        None
    } else {
        let last = entries[entries.len() - 1];
        if last.0@ == key {
            Some(last.1)
        } else {
            found(entries.take(entries.len() - 1), key)
        }
    }
}

impl<V> View for IdMap<V> {
    type V = Map<Seq<char>, V>;

    closed spec fn view(&self) -> Map<Seq<char>, V> {
        Map::new(
            |key: Seq<char>| found(self.entries@, key) is Some,
            |key: Seq<char>| found(self.entries@, key)->0,
        )
    }
}

impl<V> IdMap<V> {
    pub fn new() -> (m: IdMap<V>)
        ensures
            m@ == Map::<Seq<char>, V>::empty(),
    {
        let m = IdMap { entries: Vec::new() };
        assert(m@ =~= Map::<Seq<char>, V>::empty());
        m
    }

    fn place(&self, key: &str) -> (at: Option<usize>)
        ensures
            match at {
                Some(i) => i < self.entries@.len() && found(self.entries@, key@) == Some(
                    self.entries@[i as int].1,
                ),
                None => found(self.entries@, key@) is None,
            },
    {
        let mut i: usize = self.entries.len();
        assert(self.entries@.take(i as int) =~= self.entries@);
        while i > 0
            invariant
                i <= self.entries@.len(),
                found(self.entries@, key@) == found(self.entries@.take(i as int), key@),
            decreases i,
        {
            let ghost t = self.entries@.take(i as int);
            assert(t.take(t.len() - 1) =~= self.entries@.take(i - 1));
            if same(self.entries[i - 1].0.as_str(), key) {
                return Some(i - 1);
            }
            i -= 1;
        }
        None
    }

    /// The value of `key`.
    pub fn get(&self, key: &str) -> (v: Option<&V>)
        ensures
            match v {
                Some(x) => self@.contains_key(key@) && *x == self@[key@],
                None => !self@.contains_key(key@),
            },
    {
        match self.place(key) {
            Some(i) => Some(&self.entries[i].1),
            None => None,
        }
    }

    /// Forgets `key`.
    pub fn remove(&mut self, key: &str)
        ensures
            final(self)@ == old(self)@.remove(key@),
    {
        let ghost all = self.entries@;
        let mut kept: Vec<(String, V)> = Vec::new();
        let mut rest: Vec<(String, V)> = Vec::new();
        std::mem::swap(&mut rest, &mut self.entries);
        let n: usize = rest.len();
        let mut i: usize = 0;
        while i < n
            invariant
                n == all.len(),
                i <= n,
                rest@ == all.skip(i as int),
                forall|k: Seq<char>|
                    #[trigger] found(kept@, k) == (if k == key@ {
                        None
                    } else {
                        found(all.take(i as int), k)
                    }),
            decreases n - i,
        {
            let ghost kept0 = kept@;
            let entry = rest.remove(0);
            assert(entry == all[i as int]);
            let ghost t = all.take(i + 1);
            assert(t.take(t.len() - 1) =~= all.take(i as int));
            assert(t[t.len() - 1] == entry);
            if !same(entry.0.as_str(), key) {
                kept.push(entry);
                assert(kept@.take(kept@.len() - 1) =~= kept0);
            }
            i += 1;
            assert forall|k: Seq<char>| #[trigger] found(kept@, k) == (if k == key@ {
                None
            } else {
                found(all.take(i as int), k)
            }) by {
                assert(found(kept0, k) == (if k == key@ {
                    None
                } else {
                    found(all.take(i - 1), k)
                }));
            }
        }
        assert(all.take(n as int) =~= all);
        self.entries = kept;
        assert(self@ =~= old(self)@.remove(key@));
    }

    /// Enters `value` for `key`.
    pub fn set(&mut self, key: &str, value: V)
        ensures
            final(self)@ == old(self)@.insert(key@, value),
    {
        self.remove(key);
        let ghost removed = *self;
        self.entries.push((key.to_owned(), value));
        assert(self.entries@.take(self.entries@.len() - 1) =~= removed.entries@);
        assert forall|k: Seq<char>| #[trigger] found(self.entries@, k) == (if k == key@ {
            Some(value)
        } else {
            found(removed.entries@, k)
        }) by {}
        assert(self@ =~= removed@.insert(key@, value));
        assert(self@ =~= old(self)@.insert(key@, value));
    }
}

} // verus!
