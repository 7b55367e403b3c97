//! The subscriber registry: the one piece of state shared between the
//! dispatcher and the client sessions. It maps a subscriber id to the
//! subscriber's routing identity and the sending half of its outbound
//! channel. A subscriber is inserted exactly once, at connect time, and
//! removed exactly once, when its stream terminates for any reason.

use vstd::prelude::*;

verus! {

/// A live subscriber: its registry key, its routing identity, the count of
/// consecutive dispatch drops it has suffered, and the sending half of its
/// outbound frame channel.
pub struct Subscriber {
    pub id: u64,
    pub user_id: i64,
    pub workspace_id: i64,
    pub drops: u64,
    pub tx: tokio::sync::mpsc::Sender<String>,
}

/// The mathematical value of a [`Subscriber`]: everything but the channel
/// endpoint, which has no mathematical content.
pub struct SubscriberV {
    pub id: u64,
    pub user_id: i64,
    pub workspace_id: i64,
    pub drops: u64,
}

impl View for Subscriber {
    type V = SubscriberV;

    open spec fn view(&self) -> SubscriberV {
        SubscriberV {
            id: self.id,
            user_id: self.user_id,
            workspace_id: self.workspace_id,
            drops: self.drops,
        }
    }
}

/// Whether some record in `s` carries the id.
pub open spec fn has_id(s: Seq<SubscriberV>, id: u64) -> bool {
    exists|i: int| 0 <= i < s.len() && s[i].id == id
}

/// Inserting a record fails with this when its id is already present; the
/// caller retries with a fresh id.
#[derive(Clone, Copy, Debug, PartialEq, Eq, Structural)]
pub enum RegistryError {
    Duplicate,
}

/// The registry itself. Its value is the sequence of subscriber records in
/// insertion order; well-formedness says the ids are distinct, so the value
/// determines a finite map from id to record.
pub struct Registry {
    pub(crate) entries: Vec<Subscriber>,
}

impl View for Registry {
    type V = Seq<SubscriberV>;

    closed spec fn view(&self) -> Seq<SubscriberV> {
        self.entries@.map_values(|s: Subscriber| s@)
    }
}

impl Registry {
    /// Distinct ids: each subscriber is registered under exactly one key.
    pub open spec fn wf(&self) -> bool {
        forall|i: int, j: int| 0 <= i < j < self@.len() ==> self@[i].id != self@[j].id
    }

    /// An empty registry.
    pub fn new() -> (r: Registry)
        ensures
            r@ == Seq::<SubscriberV>::empty(),
            r.wf(),
    {
        let r = Registry { entries: Vec::new() };
        proof {
            assert(r@ =~= Seq::<SubscriberV>::empty());
        }
        r
    }

    /// The number of currently registered subscribers.
    pub fn len(&self) -> (r: usize)
        ensures
            r == self@.len(),
    {
        self.entries.len()
    }

    /// Whether a subscriber is registered under `id`.
    pub fn contains(&self, id: u64) -> (r: bool)
        ensures
            r == has_id(self@, id),
    {
        let mut i: usize = 0;
        while i < self.entries.len()
            invariant
                i <= self@.len(),
                self@.len() == self.entries@.len(),
                forall|j: int| 0 <= j < i ==> self@[j].id != id,
            decreases self@.len() - i,
        {
            if self.entries[i].id == id {
                assert(self@[i as int].id == id);
                return true;
            }
            i = i + 1;
        }
        false
    }

    /// Registers a subscriber. Fails with `Duplicate`, leaving the registry
    /// unchanged, exactly when the id is already taken.
    pub fn insert(&mut self, sub: Subscriber) -> (r: Result<(), RegistryError>)
        requires
            old(self).wf(),
        ensures
            final(self).wf(),
            match r {
                Ok(()) => !has_id(old(self)@, sub.id) && final(self)@ == old(self)@.push(sub@),
                Err(RegistryError::Duplicate) => has_id(old(self)@, sub.id) && final(self)@ == old(
                    self,
                )@,
            },
    {
        if self.contains(sub.id) {
            Err(RegistryError::Duplicate)
        } else {
            let ghost pre = self@;
            let ghost subv = sub@;
            self.entries.push(sub);
            proof {
                assert(self@ =~= pre.push(subv));
            }
            Ok(())
        }
    }

    /// Unregisters the subscriber with this id, reporting whether one was
    /// present; removing an absent id is a no-op, so removal is idempotent.
    pub fn remove(&mut self, id: u64) -> (r: bool)
        requires
            old(self).wf(),
        ensures
            final(self).wf(),
            r == has_id(old(self)@, id),
            !r ==> final(self)@ == old(self)@,
            r ==> exists|i: int|
                0 <= i < old(self)@.len() && #[trigger] old(self)@[i].id == id && final(self)@
                    == old(self)@.remove(i),
    {
        let ghost pre = old(self)@;
        let mut i: usize = 0;
        while i < self.entries.len()
            invariant
                i <= pre.len(),
                self@ == pre,
                old(self).wf(),
                pre == old(self)@,
                pre.len() == self.entries@.len(),
                forall|j: int| 0 <= j < i ==> pre[j].id != id,
            decreases pre.len() - i,
        {
            if self.entries[i].id == id {
                self.entries.remove(i);
                proof {
                    assert(pre[i as int].id == id);
                    assert(has_id(pre, id));
                    assert(self@ =~= pre.remove(i as int));
                    pre.remove_ensures(i as int);
                    assert forall|m: int, n: int|
                        0 <= m < n < self@.len() implies self@[m].id != self@[n].id by {
                        if m < i {
                            assert(self@[m] == pre[m]);
                        } else {
                            assert(self@[m] == pre[m + 1]);
                        }
                        if n < i {
                            assert(self@[n] == pre[n]);
                        } else {
                            assert(self@[n] == pre[n + 1]);
                        }
                    }
                }
                return true;
            }
            i = i + 1;
        }
        false
    }

    /// A snapshot of the routing identities currently present: for each
    /// record, in registry order, the tuple `(id, user_id, workspace_id)`.
    pub fn snapshot(&self) -> (r: Vec<(u64, i64, i64)>)
        ensures
            r@.len() == self@.len(),
            forall|i: int|
                0 <= i < self@.len() ==> #[trigger] r@[i] == (
                    self@[i].id,
                    self@[i].user_id,
                    self@[i].workspace_id,
                ),
    {
        let mut r: Vec<(u64, i64, i64)> = Vec::new();
        let mut i: usize = 0;
        while i < self.entries.len()
            invariant
                i <= self@.len(),
                self@.len() == self.entries@.len(),
                r@.len() == i,
                forall|j: int|
                    0 <= j < i ==> #[trigger] r@[j] == (
                        self@[j].id,
                        self@[j].user_id,
                        self@[j].workspace_id,
                    ),
            decreases self@.len() - i,
        {
            let e = &self.entries[i];
            r.push((e.id, e.user_id, e.workspace_id));
            i = i + 1;
        }
        r
    }

    /// Hands the records over to the dispatcher for one pass, leaving the
    /// registry empty until they are put back.
    pub(crate) fn take_entries(&mut self) -> (r: Vec<Subscriber>)
        ensures
            r@.map_values(|s: Subscriber| s@) == old(self)@,
            final(self)@ == Seq::<SubscriberV>::empty(),
    {
        let mut taken: Vec<Subscriber> = Vec::new();
        core::mem::swap(&mut self.entries, &mut taken);
        proof {
            assert(self@ =~= Seq::<SubscriberV>::empty());
        }
        taken
    }

    /// Puts the records back after a dispatch pass.
    pub(crate) fn put_entries(&mut self, entries: Vec<Subscriber>)
        ensures
            final(self)@ == entries@.map_values(|s: Subscriber| s@),
    {
        self.entries = entries;
    }

    /// Unregisters everything: the shutdown path, after which no session owns
    /// an entry any more.
    pub fn clear(&mut self)
        ensures
            final(self)@ == Seq::<SubscriberV>::empty(),
            final(self).wf(),
    {
        self.entries.clear();
        proof {
            assert(self@ =~= Seq::<SubscriberV>::empty());
        }
    }
}

/// The registry invariant of a completed session: a session that registered a
/// fresh id and later removed it leaves the registry exactly as it found it —
/// whichever record the removal hit, distinctness of ids forces it to be the
/// session's own, the last one pushed.
pub proof fn lemma_session_roundtrip(s: Seq<SubscriberV>, v: SubscriberV, i: int)
    requires
        !has_id(s, v.id),
        0 <= i < s.push(v).len(),
        s.push(v)[i].id == v.id,
    ensures
        i == s.len(),
        s.push(v).remove(i) == s,
{
    if i < s.len() {
        assert(s[i].id == v.id);
        assert(has_id(s, v.id));
    }
    assert(s.push(v).remove(s.len() as int) =~= s);
}

} // verus!
