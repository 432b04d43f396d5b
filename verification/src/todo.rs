//! Domain operations: create a task, retrieve a task, over any backend
//! that implements the persistence driver interface.

use vstd::prelude::*;

verus! {

/// A to-do entry: a single title and nothing else.
pub struct Task {
    pub title: String,
}

/// The two-operation contract a storage backend satisfies.
///
/// A backend is modelled by the map of its stored records, from assigned
/// identifier to title. `reliable` marks a backend whose operations never
/// fail; `failing` marks one that refuses every write. Of a backend for
/// which neither is known, the contracts only say that whatever came back
/// is consistent with the stored records.
pub trait PersistencyDriver {
    /// The stored records: assigned identifier to stored title. The
    /// default leaves them unspecified, as for a backend outside this
    /// crate.
    open spec fn contents(&self) -> Map<Seq<char>, Seq<char>> {
        vstd::pervasive::arbitrary()
    }

    /// Every write is acknowledged with a fresh identifier, and every
    /// lookup of a stored identifier finds its record. Not assumed by
    /// default.
    open spec fn reliable(&self) -> bool {
        false
    }

    /// Every write is refused. Not assumed by default.
    open spec fn failing(&self) -> bool {
        false
    }

    /// Stores `title` as a new record. On success the result is the fresh
    /// identifier the backend assigned; on failure it is `None` and the
    /// stored records are unchanged.
    fn insert(&mut self, title: &str) -> (r: Option<String>)
        ensures
            (match r {
                Some(id) => !old(self).contents().contains_key(id@)
                    && final(self).contents() == old(self).contents().insert(id@, title@),
                None => final(self).contents() == old(self).contents(),
            }),
            old(self).reliable() ==> r is Some,
            old(self).failing() ==> r is None,
            final(self).reliable() == old(self).reliable(),
            final(self).failing() == old(self).failing(),
    ;

    /// Looks up the record stored under `id`. A malformed identifier, a
    /// miss and a failed lookup all collapse to `None`.
    fn get(&self, id: String) -> (r: Option<Task>)
        ensures
            (match r {
                Some(t) => self.contents().contains_key(id@)
                    && t.title@ == self.contents()[id@],
                None => true,
            }),
            self.reliable() ==> (r is Some <==> self.contents().contains_key(id@)),
    ;
}

/// Stores a task with the given title; returns the identifier the backend
/// assigned, or `None` where the backend refused the write.
pub fn create_task<P: PersistencyDriver>(persistency: &mut P, title: &str) -> (r: Option<String>)
    ensures
        (match r {
            Some(id) => !old(persistency).contents().contains_key(id@)
                && final(persistency).contents() == old(persistency).contents().insert(
                id@,
                title@,
            ),
            None => final(persistency).contents() == old(persistency).contents(),
        }),
        old(persistency).reliable() ==> r is Some,
        old(persistency).failing() ==> r is None,
        final(persistency).reliable() == old(persistency).reliable(),
        final(persistency).failing() == old(persistency).failing(),
{
    persistency.insert(title)
}

/// Retrieves the task stored under `id`; `None` where there is none, the
/// identifier is malformed, or the lookup failed.
pub fn get_task<P: PersistencyDriver>(persistency: &P, id: String) -> (r: Option<Task>)
    ensures
        (match r {
            Some(t) => persistency.contents().contains_key(id@)
                && t.title@ == persistency.contents()[id@],
            None => true,
        }),
        persistency.reliable() ==> (r is Some <==> persistency.contents().contains_key(id@)),
{
    persistency.get(id)
}

/// Round trip: a title stored under an identifier is exactly what a lookup
/// of that identifier yields afterwards. With the contracts of
/// `create_task` and `get_task` this gives: on a reliable backend,
/// `get_task` after a successful `create_task` returns the created title.
pub proof fn lemma_store_round_trip(m: Map<Seq<char>, Seq<char>>, id: Seq<char>, title: Seq<char>)
    ensures
        m.insert(id, title).contains_key(id),
        m.insert(id, title)[id] == title,
{
}

} // verus!
