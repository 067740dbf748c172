//! Values kept under text keys.
//!
//! A handful of hosts or projects is all there ever is, so a list that is searched from end to
//! end serves as the map.

use crate::text::{copy_text, same_text};
use vstd::prelude::*;

verus! {

/// What a list of keys and values holds under each key; of two entries under one key, the
/// later counts.
pub open spec fn held_under<V>(entries: Seq<(String, V)>) -> Map<Seq<char>, V>
    decreases entries.len(),
{
    if entries.len() == 0 {
        Map::empty()
    } else {
        held_under(entries.drop_last()).insert(entries.last().0@, entries.last().1)
    }
}

/// No two entries are under one key.
pub open spec fn distinct_keys<V>(entries: Seq<(String, V)>) -> bool {
    forall|i: int, j: int|
        0 <= i < j < entries.len() ==> (#[trigger] entries[i]).0@ != (#[trigger] entries[j]).0@
}

/// A map from texts to values.
pub struct KeyedList<V> {
    entries: Vec<(String, V)>,
}

impl<V> View for KeyedList<V> {
    type V = Map<Seq<char>, V>;

    closed spec fn view(&self) -> Map<Seq<char>, V> {
        held_under(self.entries@)
    }
}

proof fn lemma_held<V>(entries: Seq<(String, V)>)
    requires
        distinct_keys(entries),
    ensures
        held_under(entries).dom().finite(),
        held_under(entries).dom().len() == entries.len(),
        forall|key: Seq<char>| #[trigger]
            held_under(entries).contains_key(key) ==> exists|i: int|
                0 <= i < entries.len() && (#[trigger] entries[i]).0@ == key,
        forall|i: int|
            0 <= i < entries.len() ==> held_under(entries).contains_key(
                (#[trigger] entries[i]).0@,
            ) && held_under(entries)[entries[i].0@] == entries[i].1,
    decreases entries.len(),
{
    if entries.len() > 0 {
        let front = entries.drop_last();
        assert(distinct_keys(front)) by {
            assert forall|i: int, j: int| 0 <= i < j < front.len() implies (#[trigger] front[i]).0@
                != (#[trigger] front[j]).0@ by {
                assert(entries[i].0@ != entries[j].0@);
            }
        }
        lemma_held(front);
        let last = entries.last();
        assert(!held_under(front).contains_key(last.0@)) by {
            if held_under(front).contains_key(last.0@) {
                let i = choose|i: int| 0 <= i < front.len() && (#[trigger] front[i]).0@ == last.0@;
                assert(entries[i].0@ == entries[entries.len() - 1].0@);
            }
        }
        assert forall|key: Seq<char>| #[trigger] held_under(entries).contains_key(key) implies exists|
            i: int,
        |
            0 <= i < entries.len() && (#[trigger] entries[i]).0@ == key by {
            if key == last.0@ {
                assert(entries[entries.len() - 1].0@ == key);
            } else {
                assert(held_under(front).contains_key(key));
                let i = choose|i: int| 0 <= i < front.len() && (#[trigger] front[i]).0@ == key;
                assert(entries[i].0@ == key);
            }
        }
        assert forall|i: int| 0 <= i < entries.len() implies held_under(entries).contains_key(
            (#[trigger] entries[i]).0@,
        ) && held_under(entries)[entries[i].0@] == entries[i].1 by {
            if i < front.len() {
                assert(front[i] == entries[i]);
            }
        }
    }
}

proof fn lemma_removed<V>(entries: Seq<(String, V)>, at: int)
    requires
        distinct_keys(entries),
        0 <= at < entries.len(),
    ensures
        distinct_keys(entries.remove(at)),
        held_under(entries.remove(at)) == held_under(entries).remove(entries[at].0@),
{
    let left = entries.remove(at);
    assert forall|i: int, j: int| 0 <= i < j < left.len() implies (#[trigger] left[i]).0@ != (
    #[trigger] left[j]).0@ by {
        let a = if i < at {
            i
        } else {
            i + 1
        };
        let b = if j < at {
            j
        } else {
            j + 1
        };
        assert(left[i] == entries[a] && left[j] == entries[b]);
    }
    lemma_held(entries);
    lemma_held(left);
    let before = held_under(entries);
    let after = held_under(left);
    assert forall|key: Seq<char>| after.contains_key(key) == before.remove(
        entries[at].0@,
    ).contains_key(key) by {
        if after.contains_key(key) {
            let i = choose|i: int| 0 <= i < left.len() && (#[trigger] left[i]).0@ == key;
            let a = if i < at {
                i
            } else {
                i + 1
            };
            assert(left[i] == entries[a]);
            assert(entries[a].0@ != entries[at].0@);
        }
        if before.contains_key(key) && key != entries[at].0@ {
            let a = choose|a: int| 0 <= a < entries.len() && (#[trigger] entries[a]).0@ == key;
            let i = if a < at {
                a
            } else {
                a - 1
            };
            assert(left[i] == entries[a]);
        }
    }
    assert forall|key: Seq<char>| after.contains_key(key) implies after[key] == before.remove(
        entries[at].0@,
    )[key] by {
        let i = choose|i: int| 0 <= i < left.len() && (#[trigger] left[i]).0@ == key;
        let a = if i < at {
            i
        } else {
            i + 1
        };
        assert(left[i] == entries[a]);
        assert(entries[a].0@ != entries[at].0@);
    }
    assert(after =~= before.remove(entries[at].0@));
}

impl<V> KeyedList<V> {
    #[verifier::type_invariant]
    spec fn has_distinct_keys(self) -> bool {
        distinct_keys(self.entries@)
    }

    pub fn new() -> (r: KeyedList<V>)
        ensures
            r@ == Map::<Seq<char>, V>::empty(),
    {
        KeyedList { entries: Vec::new() }
    }

    /// How many keys there are.
    pub fn len(&self) -> (r: usize)
        ensures
            self@.dom().finite(),
            r == self@.dom().len(),
    {
        proof {
            use_type_invariant(self);
            lemma_held(self.entries@);
        }
        self.entries.len()
    }

    fn position(entries: &Vec<(String, V)>, key: &str) -> (r: Option<usize>)
        ensures
            match r {
                Some(i) => i < entries@.len() && entries@[i as int].0@ == key@,
                None => forall|i: int|
                    0 <= i < entries@.len() ==> (#[trigger] entries@[i]).0@ != key@,
            },
    {
        let mut i: usize = 0;
        while i < entries.len()
            invariant
                i <= entries@.len(),
                forall|j: int| 0 <= j < i ==> (#[trigger] entries@[j]).0@ != key@,
            decreases entries@.len() - i,
        {
            if same_text(entries[i].0.as_str(), key) {
                return Some(i);
            }
            i += 1;
        }
        None
    }

    /// The value under a key.
    pub fn get(&self, key: &str) -> (r: Option<&V>)
        ensures
            match r {
                Some(value) => self@.contains_key(key@) && self@[key@] == *value,
                None => !self@.contains_key(key@),
            },
    {
        proof {
            use_type_invariant(self);
            lemma_held(self.entries@);
        }
        match Self::position(&self.entries, key) {
            Some(i) => Some(&self.entries[i].1),
            None => None,
        }
    }

    /// Takes a key out, with the value under it.
    pub fn remove(&mut self, key: &str) -> (r: Option<V>)
        ensures
            final(self)@ == old(self)@.remove(key@),
            match r {
                Some(value) => old(self)@.contains_key(key@) && old(self)@[key@] == value,
                None => !old(self)@.contains_key(key@),
            },
    {
        proof {
            use_type_invariant(&*self);
            lemma_held(self.entries@);
        }
        match Self::position(&self.entries, key) {
            Some(i) => {
                proof {
                    lemma_removed(self.entries@, i as int);
                }
                let mut entries: Vec<(String, V)> = Vec::new();
                core::mem::swap(&mut entries, &mut self.entries);
                let (_, value) = entries.remove(i);
                self.entries = entries;
                Some(value)
            },
            None => {
                assert(self@.remove(key@) =~= self@);
                None
            },
        }
    }

    /// Puts a value under a key, in place of whatever was there.
    pub fn insert(&mut self, key: &str, value: V)
        ensures
            final(self)@ == old(self)@.insert(key@, value),
    {
        let _ = self.remove(key);
        proof {
            use_type_invariant(&*self);
            lemma_held(self.entries@);
        }
        let ghost before = self.entries@;
        let mut entries: Vec<(String, V)> = Vec::new();
        core::mem::swap(&mut entries, &mut self.entries);
        entries.push((copy_text(key), value));
        proof {
            let now = entries@;
            assert(now.drop_last() =~= before);
            assert forall|i: int, j: int| 0 <= i < j < now.len() implies (#[trigger] now[i]).0@ != (
            #[trigger] now[j]).0@ by {
                if j == before.len() {
                    assert(held_under(before).contains_key(before[i].0@));
                }
            }
            assert(held_under(now) =~= old(self)@.insert(key@, value));
        }
        self.entries = entries;
    }

    /// Takes out any one key, with the value under it.
    pub fn pop(&mut self) -> (r: Option<(String, V)>)
        ensures
            match r {
                Some((key, value)) => old(self)@.contains_key(key@) && old(self)@[key@] == value
                    && final(self)@ == old(self)@.remove(key@),
                None => old(self)@ == Map::<Seq<char>, V>::empty() && final(self)@ == old(self)@,
            },
    {
        proof {
            use_type_invariant(&*self);
            lemma_held(self.entries@);
        }
        let n = self.entries.len();
        if n == 0 {
            return None;
        }
        proof {
            lemma_removed(self.entries@, n - 1);
            assert(self.entries@.remove(n - 1) =~= self.entries@.drop_last());
        }
        let mut entries: Vec<(String, V)> = Vec::new();
        core::mem::swap(&mut entries, &mut self.entries);
        let taken = entries.pop();
        self.entries = entries;
        taken
    }
}

} // verus!
