//! Registry of live streams, keyed by stream id.
//!
//! One registry is shared by every concurrently running turn: a turn registers
//! its cancellation sender under its stream id before opening the backend
//! stream, a stop request signals the id, and the turn retires the id when the
//! stream ends, on every exit path. The registry owns the id-to-sender
//! correspondence; the caller wraps it in a mutex and fires or drops the
//! senders it hands back. Registering an id that is already present replaces
//! the prior entry (last registration wins); signalling or retiring an absent
//! id changes nothing and reports the miss.

use vstd::prelude::*;

verus! {

/// The finite map induced by an association list; later entries win.
pub open spec fn map_of<T>(entries: Seq<(String, T)>) -> Map<Seq<char>, T>
    decreases entries.len(),
{
    if entries.len() == 0 {
        Map::empty()
    } else {
        map_of(entries.drop_last()).insert(entries.last().0@, entries.last().1)
    }
}

/// A key is in the induced map exactly when some entry carries it.
pub proof fn lemma_map_of_contains<T>(entries: Seq<(String, T)>, k: Seq<char>)
    ensures
        map_of(entries).contains_key(k) <==> exists|i: int|
            0 <= i < entries.len() && entries[i].0@ == k,
    decreases entries.len(),
{
    if entries.len() > 0 {
        lemma_map_of_contains(entries.drop_last(), k);
        if map_of(entries).contains_key(k) && entries.last().0@ != k {
            let i = choose|i: int| 0 <= i < entries.drop_last().len()
                && entries.drop_last()[i].0@ == k;
            assert(entries[i].0@ == k);
        }
        if exists|i: int| 0 <= i < entries.len() && entries[i].0@ == k {
            let i = choose|i: int| 0 <= i < entries.len() && entries[i].0@ == k;
            if i < entries.len() - 1 {
                assert(entries.drop_last()[i].0@ == k);
            }
        }
    }
}

/// No two entries carry the same key.
pub open spec fn distinct_keys<T>(entries: Seq<(String, T)>) -> bool {
    forall|i: int, j: int|
        0 <= i < j < entries.len() ==> entries[i].0@ != entries[j].0@
}

/// With distinct keys, the induced map sends each entry's key to its value.
pub proof fn lemma_map_of_index<T>(entries: Seq<(String, T)>, i: int)
    requires
        distinct_keys(entries),
        0 <= i < entries.len(),
    ensures
        map_of(entries).contains_key(entries[i].0@),
        map_of(entries)[entries[i].0@] == entries[i].1,
    decreases entries.len(),
{
    if i == entries.len() - 1 {
    } else {
        assert(distinct_keys(entries.drop_last())) by {
            assert(forall|p: int, q: int|
                0 <= p < q < entries.drop_last().len() ==> entries[p].0@ != entries[q].0@);
        }
        lemma_map_of_index(entries.drop_last(), i);
        assert(entries.drop_last()[i] == entries[i]);
    }
}

/// With distinct keys, removing the entry at `i` removes exactly its key from
/// the induced map.
pub proof fn lemma_map_of_remove<T>(entries: Seq<(String, T)>, i: int)
    requires
        distinct_keys(entries),
        0 <= i < entries.len(),
    ensures
        map_of(entries.remove(i)) =~= map_of(entries).remove(entries[i].0@),
    decreases entries.len(),
{
    let k = entries[i].0@;
    if i == entries.len() - 1 {
        assert(entries.remove(i) =~= entries.drop_last());
        lemma_map_of_contains(entries.drop_last(), k);
        assert(!map_of(entries.drop_last()).contains_key(k));
        assert(map_of(entries.drop_last()) =~= map_of(entries.drop_last()).insert(
            k,
            entries[i].1,
        ).remove(k));
    } else {
        assert(distinct_keys(entries.drop_last())) by {
            assert(forall|p: int, q: int|
                0 <= p < q < entries.drop_last().len() ==> entries[p].0@ != entries[q].0@);
        }
        lemma_map_of_remove(entries.drop_last(), i);
        assert(entries.remove(i).drop_last() =~= entries.drop_last().remove(i));
        assert(entries.remove(i).last() == entries.last());
        assert(map_of(entries.remove(i)) == map_of(entries.drop_last().remove(i)).insert(
            entries.last().0@,
            entries.last().1,
        ));
        assert(map_of(entries.remove(i)) =~= map_of(entries).remove(k));
    }
}

/// Map from stream id to the cancellation sender of the turn streaming under
/// that id. The sender type is opaque to the registry; it is moved in whole.
pub struct CancellationRegistry<T> {
    entries: Vec<(String, T)>,
}

impl<T> CancellationRegistry<T> {
    /// The registry as a map from stream id to sender.
    pub closed spec fn view(&self) -> Map<Seq<char>, T> {
        map_of(self.entries@)
    }

    /// Internal shape: each id appears at most once.
    pub closed spec fn wf(&self) -> bool {
        distinct_keys(self.entries@)
    }

    /// An empty registry.
    pub fn new() -> (r: Self)
        ensures
            r.wf(),
            r@ =~= Map::<Seq<char>, T>::empty(),
    {
        CancellationRegistry { entries: Vec::new() }
    }

    /// The position of the entry registered under `id`, if any.
    fn index_of(&self, id: &str) -> (r: Option<usize>)
        ensures
            match r {
                Some(i) => i < self.entries@.len() && self.entries@[i as int].0@ == id@,
                None => forall|i: int|
                    0 <= i < self.entries@.len() ==> self.entries@[i].0@ != id@,
            },
    {
        let key: String = id.to_owned();
        let n = self.entries.len();
        let mut i: usize = 0;
        while i < n
            invariant
                0 <= i <= n,
                n == self.entries@.len(),
                key@ == id@,
                forall|j: int| 0 <= j < i ==> self.entries@[j].0@ != id@,
            decreases n - i,
        {
            if self.entries[i].0 == key {
                return Some(i);
            }
            i = i + 1;
        }
        None
    }

    /// Whether a turn is currently registered under `id`.
    pub fn contains(&self, id: &str) -> (r: bool)
        ensures
            r == self@.contains_key(id@),
    {
        proof {
            lemma_map_of_contains(self.entries@, id@);
        }
        let found = self.index_of(id);
        found.is_some()
    }

    /// Register `sender` under `id`, replacing and returning any sender a
    /// prior registration left there: the last registration wins.
    pub fn register(&mut self, id: &str, sender: T) -> (displaced: Option<T>)
        requires
            old(self).wf(),
        ensures
            final(self).wf(),
            final(self)@ =~= old(self)@.insert(id@, sender),
            match displaced {
                Some(prior) => old(self)@.contains_key(id@) && prior == old(self)@[id@],
                None => !old(self)@.contains_key(id@),
            },
    {
        proof {
            lemma_map_of_contains(self.entries@, id@);
        }
        let found = self.index_of(id);
        let displaced = match found {
            Some(i) => {
                proof {
                    lemma_map_of_index(self.entries@, i as int);
                    lemma_map_of_remove(self.entries@, i as int);
                }
                let prior = self.entries.remove(i);
                proof {
                    lemma_map_of_contains(self.entries@, id@);
                }
                Some(prior.1)
            }
            None => None,
        };
        let key: String = id.to_owned();
        let ghost before = self.entries@;
        self.entries.push((key, sender));
        proof {
            assert(self.entries@.drop_last() =~= before);
            assert(forall|i: int| 0 <= i < before.len() ==> before[i].0@ != id@) by {
                lemma_map_of_contains(before, id@);
            }
            assert(distinct_keys(self.entries@));
            assert(final(self)@ =~= old(self)@.insert(id@, sender));
        }
        displaced
    }

    /// Remove and return the sender registered under `id`: the caller fires
    /// it. An absent id leaves the registry untouched and reports the miss,
    /// which is a normal condition, not an error.
    pub fn signal(&mut self, id: &str) -> (r: Option<T>)
        requires
            old(self).wf(),
        ensures
            final(self).wf(),
            match r {
                Some(sender) => old(self)@.contains_key(id@) && sender == old(self)@[id@]
                    && final(self)@ =~= old(self)@.remove(id@),
                None => !old(self)@.contains_key(id@) && *final(self) == *old(self),
            },
    {
        self.take_entry(id)
    }

    /// Remove the sender registered under `id` when the stream ends, so it can
    /// be dropped: retiring an id that is not present changes nothing.
    pub fn retire(&mut self, id: &str) -> (r: Option<T>)
        requires
            old(self).wf(),
        ensures
            final(self).wf(),
            match r {
                Some(sender) => old(self)@.contains_key(id@) && sender == old(self)@[id@]
                    && final(self)@ =~= old(self)@.remove(id@),
                None => !old(self)@.contains_key(id@) && *final(self) == *old(self),
            },
    {
        self.take_entry(id)
    }

    /// Remove and return the entry under `id`, if any.
    fn take_entry(&mut self, id: &str) -> (r: Option<T>)
        requires
            old(self).wf(),
        ensures
            final(self).wf(),
            match r {
                Some(sender) => old(self)@.contains_key(id@) && sender == old(self)@[id@]
                    && final(self)@ =~= old(self)@.remove(id@),
                None => !old(self)@.contains_key(id@) && *final(self) == *old(self),
            },
    {
        proof {
            lemma_map_of_contains(self.entries@, id@);
        }
        let found = self.index_of(id);
        match found {
            Some(i) => {
                proof {
                    lemma_map_of_index(self.entries@, i as int);
                    lemma_map_of_remove(self.entries@, i as int);
                }
                let prior = self.entries.remove(i);
                Some(prior.1)
            }
            None => None,
        }
    }
}

} // verus!
