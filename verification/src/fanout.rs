//! The delivery semantics of the dispatcher, stated over explicit
//! per-subscriber queues. Here the bounded outbound channel of each
//! subscriber is a queue of pre-rendered frames with a capacity, so the
//! outcome of every non-blocking send is determined: delivered when there is
//! room, a consecutive drop when the queue is full, eviction at the drop
//! threshold. On this structure the delivery guarantees are theorems:
//! per-subscriber order of delivered frames, isolation of one subscriber
//! from another's backpressure, and exact eligibility.

use vstd::prelude::*;

use crate::event::eligible;
use crate::event::spec_eligible;
use crate::event::Event;
use crate::event::EventV;
use crate::frame::render_frame;
use crate::frame::spec_frame;
use crate::registry::RegistryError;

verus! {

/// A subscriber of the model: routing identity, the queue of frames placed
/// in its bounded channel and not yet read, and its consecutive-drop count.
pub struct ModelSubscriber {
    pub id: u64,
    pub user_id: i64,
    pub workspace_id: i64,
    pub queue: Vec<String>,
    pub drops: u64,
}

/// The mathematical value of a [`ModelSubscriber`].
pub struct ModelSubscriberV {
    pub id: u64,
    pub user_id: i64,
    pub workspace_id: i64,
    pub queue: Seq<Seq<char>>,
    pub drops: u64,
}

impl View for ModelSubscriber {
    type V = ModelSubscriberV;

    open spec fn view(&self) -> ModelSubscriberV {
        ModelSubscriberV {
            id: self.id,
            user_id: self.user_id,
            workspace_id: self.workspace_id,
            queue: self.queue@.map_values(|f: String| f@),
            drops: self.drops,
        }
    }
}

/// Whether some record in `s` carries the id.
pub open spec fn fan_has_id(s: Seq<ModelSubscriberV>, id: u64) -> bool {
    exists|i: int| 0 <= i < s.len() && s[i].id == id
}

/// Distinct ids: the sequence determines a map from id to record.
pub open spec fn fan_distinct(s: Seq<ModelSubscriberV>) -> bool {
    forall|i: int, j: int| 0 <= i < j < s.len() ==> s[i].id != s[j].id
}

/// The record registered under `id`, if any.
pub open spec fn lookup(s: Seq<ModelSubscriberV>, id: u64) -> Option<ModelSubscriberV>
    decreases s.len(),
{
    if s.len() == 0 {
        None
    } else if s.last().id == id {
        Some(s.last())
    } else {
        lookup(s.drop_last(), id)
    }
}

/// The fate of one subscriber under one published event: untouched when the
/// event does not concern it; the frame enqueued and the drop count reset
/// when its queue has room; one more consecutive drop when the queue is
/// full, with eviction as soon as the count reaches the threshold `k`.
pub open spec fn model_step_sub(
    s: ModelSubscriberV,
    ev: EventV,
    cap: usize,
    k: u64,
) -> Option<ModelSubscriberV> {
    if !spec_eligible(ev, s.user_id, s.workspace_id) {
        Some(s)
    } else if s.queue.len() < cap {
        Some(ModelSubscriberV { queue: s.queue.push(spec_frame(ev)), drops: 0, ..s })
    } else if s.drops + 1 < k {
        Some(ModelSubscriberV { drops: (s.drops + 1) as u64, ..s })
    } else {
        None
    }
}

/// One publish pass: every subscriber meets [`model_step_sub`] on its own,
/// and the evicted ones disappear.
pub open spec fn spec_publish(
    s: Seq<ModelSubscriberV>,
    ev: EventV,
    cap: usize,
    k: u64,
) -> Seq<ModelSubscriberV>
    decreases s.len(),
{
    if s.len() == 0 {
        Seq::empty()
    } else {
        let rest = spec_publish(s.drop_last(), ev, cap, k);
        match model_step_sub(s.last(), ev, cap, k) {
            Some(v) => rest.push(v),
            None => rest,
        }
    }
}

/// A publish pass keeps ids distinct and introduces none.
pub proof fn lemma_publish_distinct(s: Seq<ModelSubscriberV>, ev: EventV, cap: usize, k: u64)
    requires
        fan_distinct(s),
    ensures
        forall|id: u64| fan_has_id(spec_publish(s, ev, cap, k), id) ==> fan_has_id(s, id),
        fan_distinct(spec_publish(s, ev, cap, k)),
    decreases s.len(),
{
    if s.len() == 0 {
    } else {
        let pre = s.drop_last();
        let rest = spec_publish(pre, ev, cap, k);
        lemma_publish_distinct(pre, ev, cap, k);
        assert forall|id: u64| fan_has_id(rest, id) implies fan_has_id(s, id) by {
            assert(fan_has_id(pre, id));
            let i = choose|i: int| 0 <= i < pre.len() && pre[i].id == id;
            assert(s[i].id == id);
        }
        match model_step_sub(s.last(), ev, cap, k) {
            Some(v) => {
                let r = rest.push(v);
                assert(v.id == s.last().id);
                assert forall|id: u64| fan_has_id(r, id) implies fan_has_id(s, id) by {
                    let i = choose|i: int| 0 <= i < r.len() && r[i].id == id;
                    if i < rest.len() {
                        assert(rest[i].id == id);
                        assert(fan_has_id(rest, id));
                    } else {
                        assert(r[i] == v);
                        assert(s[s.len() - 1].id == id);
                    }
                }
                assert forall|i: int, j: int| 0 <= i < j < r.len() implies r[i].id != r[j].id by {
                    if j < rest.len() {
                        assert(r[i] == rest[i]);
                        assert(r[j] == rest[j]);
                    } else {
                        assert(r[j] == v);
                        assert(r[i] == rest[i]);
                        if rest[i].id == v.id {
                            assert(fan_has_id(rest, v.id));
                            assert(fan_has_id(pre, v.id));
                            let m = choose|m: int| 0 <= m < pre.len() && pre[m].id == v.id;
                            assert(pre[m] == s[m]);
                            assert(s[m].id == s[s.len() - 1].id);
                            assert(false);
                        }
                    }
                }
            },
            None => {},
        }
    }
}

/// An absent id stays absent from a lookup.
pub proof fn lemma_lookup_absent(s: Seq<ModelSubscriberV>, id: u64)
    requires
        !fan_has_id(s, id),
    ensures
        lookup(s, id) is None,
    decreases s.len(),
{
    if s.len() > 0 {
        assert(s[s.len() - 1].id != id);
        assert forall|i: int| 0 <= i < s.drop_last().len() implies s.drop_last()[i].id != id by {
            assert(s.drop_last()[i] == s[i]);
        }
        lemma_lookup_absent(s.drop_last(), id);
    }
}

/// What one publish does to the subscriber registered under `id`, and to it
/// alone: exactly its own [`model_step_sub`]. This is the eligibility rule
/// made pointwise — the record under `id` gains the frame exactly when the
/// event concerns it and its queue has room, whatever happens to every other
/// subscriber.
pub proof fn lemma_publish_lookup(
    s: Seq<ModelSubscriberV>,
    ev: EventV,
    cap: usize,
    k: u64,
    id: u64,
)
    requires
        fan_distinct(s),
    ensures
        lookup(spec_publish(s, ev, cap, k), id) == match lookup(s, id) {
            None => None::<ModelSubscriberV>,
            Some(v) => model_step_sub(v, ev, cap, k),
        },
    decreases s.len(),
{
    if s.len() == 0 {
    } else {
        let pre = s.drop_last();
        let rest = spec_publish(pre, ev, cap, k);
        lemma_publish_lookup(pre, ev, cap, k, id);
        lemma_publish_distinct(pre, ev, cap, k);
        if s.last().id == id {
            assert forall|i: int| 0 <= i < pre.len() implies pre[i].id != id by {
                assert(pre[i] == s[i]);
                assert(s[i].id != s[s.len() - 1].id);
            }
            lemma_lookup_absent(pre, id);
            match model_step_sub(s.last(), ev, cap, k) {
                Some(v) => {
                    assert(rest.push(v).last() == v);
                    assert(v.id == id);
                },
                None => {
                    if fan_has_id(rest, id) {
                        assert(fan_has_id(pre, id));
                        assert(false);
                    }
                    lemma_lookup_absent(rest, id);
                },
            }
        } else {
            match model_step_sub(s.last(), ev, cap, k) {
                Some(v) => {
                    assert(v.id == s.last().id);
                    assert(rest.push(v).last() == v);
                    assert(rest.push(v).drop_last() =~= rest);
                },
                None => {},
            }
        }
    }
}

/// Isolation under backpressure: two fan-out states that agree on the record
/// of one subscriber — however much they differ on every other subscriber,
/// for instance on a slow peer whose queue has filled — agree on that
/// subscriber's record after publishing the same event.
pub proof fn lemma_isolation(
    s1: Seq<ModelSubscriberV>,
    s2: Seq<ModelSubscriberV>,
    ev: EventV,
    cap: usize,
    k: u64,
    id: u64,
)
    requires
        fan_distinct(s1),
        fan_distinct(s2),
        lookup(s1, id) == lookup(s2, id),
    ensures
        lookup(spec_publish(s1, ev, cap, k), id) == lookup(spec_publish(s2, ev, cap, k), id),
{
    lemma_publish_lookup(s1, ev, cap, k, id);
    lemma_publish_lookup(s2, ev, cap, k, id);
}

/// The bounded channels stay bounded: when every queue is within the
/// capacity before a publish, every queue is within it afterwards — an
/// enqueue happens only below the capacity, and nothing else grows a queue.
pub proof fn lemma_publish_bounded(s: Seq<ModelSubscriberV>, ev: EventV, cap: usize, k: u64)
    requires
        forall|i: int| 0 <= i < s.len() ==> #[trigger] s[i].queue.len() <= cap,
    ensures
        forall|i: int|
            0 <= i < spec_publish(s, ev, cap, k).len() ==> #[trigger] spec_publish(
                s,
                ev,
                cap,
                k,
            )[i].queue.len() <= cap,
    decreases s.len(),
{
    if s.len() > 0 {
        let pre = s.drop_last();
        let rest = spec_publish(pre, ev, cap, k);
        assert forall|i: int| 0 <= i < pre.len() implies #[trigger] pre[i].queue.len() <= cap by {
            assert(pre[i] == s[i]);
        }
        lemma_publish_bounded(pre, ev, cap, k);
        match model_step_sub(s.last(), ev, cap, k) {
            Some(v) => {
                assert(v.queue.len() <= cap);
                assert forall|i: int|
                    0 <= i < rest.push(v).len() implies #[trigger] rest.push(v)[i].queue.len()
                    <= cap by {
                    if i < rest.len() {
                        assert(rest.push(v)[i] == rest[i]);
                    } else {
                        assert(rest.push(v)[i] == v);
                    }
                }
            },
            None => {},
        }
    }
}

/// The frames of a run of events, in publish order.
pub open spec fn frames_of(evs: Seq<EventV>) -> Seq<Seq<char>> {
    evs.map_values(|e: EventV| spec_frame(e))
}

/// The fan-out state after publishing a run of events in order.
pub open spec fn spec_run(
    s: Seq<ModelSubscriberV>,
    evs: Seq<EventV>,
    cap: usize,
    k: u64,
) -> Seq<ModelSubscriberV>
    decreases evs.len(),
{
    if evs.len() == 0 {
        s
    } else {
        spec_run(spec_publish(s, evs[0], cap, k), evs.drop_first(), cap, k)
    }
}

/// Whether each event of the run, published in order, finds the subscriber
/// registered under `id` eligible and with room in its queue — the premise
/// under which delivery of the whole run is owed.
pub open spec fn all_delivered(
    s: Seq<ModelSubscriberV>,
    evs: Seq<EventV>,
    cap: usize,
    k: u64,
    id: u64,
) -> bool
    decreases evs.len(),
{
    if evs.len() == 0 {
        true
    } else {
        match lookup(s, id) {
            None => false,
            Some(v) => spec_eligible(evs[0], v.user_id, v.workspace_id) && v.queue.len() < cap
                && all_delivered(spec_publish(s, evs[0], cap, k), evs.drop_first(), cap, k, id),
        }
    }
}

/// The deterministic fan-out engine: the registry of model subscribers
/// together with the channel capacity and the drop threshold, moving along
/// [`spec_publish`] on every published event.
pub struct Fanout {
    pub subs: Vec<ModelSubscriber>,
    pub capacity: usize,
    pub threshold: u64,
}

impl Fanout {
    /// The subscriber records as mathematical values.
    pub open spec fn views(&self) -> Seq<ModelSubscriberV> {
        self.subs@.map_values(|s: ModelSubscriber| s@)
    }

    /// Distinct ids and a meaningful drop threshold.
    pub open spec fn wf(&self) -> bool {
        fan_distinct(self.views()) && self.threshold >= 1
    }

    /// An empty fan-out with the given channel capacity and drop threshold.
    pub fn new(capacity: usize, threshold: u64) -> (r: Fanout)
        requires
            capacity >= 1,
            threshold >= 1,
        ensures
            r.views() == Seq::<ModelSubscriberV>::empty(),
            r.capacity == capacity,
            r.threshold == threshold,
            r.wf(),
    {
        let r = Fanout { subs: Vec::new(), capacity, threshold };
        proof {
            assert(r.views() =~= Seq::<ModelSubscriberV>::empty());
        }
        r
    }

    /// The number of live subscribers.
    pub fn len(&self) -> (r: usize)
        ensures
            r == self.views().len(),
    {
        self.subs.len()
    }

    /// Registers a subscriber with an empty queue. Fails with `Duplicate`,
    /// leaving everything unchanged, exactly when the id is taken.
    pub fn subscribe(&mut self, id: u64, user_id: i64, workspace_id: i64) -> (r: Result<
        (),
        RegistryError,
    >)
        requires
            old(self).wf(),
        ensures
            final(self).wf(),
            final(self).capacity == old(self).capacity,
            final(self).threshold == old(self).threshold,
            match r {
                Ok(()) => !fan_has_id(old(self).views(), id) && final(self).views() == old(self).views().push(
                    ModelSubscriberV {
                        id,
                        user_id,
                        workspace_id,
                        queue: Seq::empty(),
                        drops: 0,
                    },
                ),
                Err(RegistryError::Duplicate) => fan_has_id(old(self).views(), id) && final(self).views() == old(self).views(),
            },
    {
        let ghost pre = old(self).views();
        let mut i: usize = 0;
        while i < self.subs.len()
            invariant
                i <= pre.len(),
                self == old(self),
                old(self).wf(),
                pre == old(self).views(),
                pre.len() == self.subs@.len(),
                forall|j: int| 0 <= j < i ==> pre[j].id != id,
            decreases pre.len() - i,
        {
            if self.subs[i].id == id {
                proof {
                    assert(pre[i as int].id == id);
                }
                return Err(RegistryError::Duplicate);
            }
            i = i + 1;
        }
        let sub = ModelSubscriber { id, user_id, workspace_id, queue: Vec::new(), drops: 0 };
        proof {
            assert(sub@.queue =~= Seq::<Seq<char>>::empty());
        }
        self.subs.push(sub);
        proof {
            assert(self.views() =~= pre.push(
                ModelSubscriberV { id, user_id, workspace_id, queue: Seq::empty(), drops: 0 },
            ));
        }
        Ok(())
    }

    /// Unregisters the subscriber with this id, reporting whether one was
    /// present; removal is idempotent.
    pub fn unsubscribe(&mut self, id: u64) -> (r: bool)
        requires
            old(self).wf(),
        ensures
            final(self).wf(),
            final(self).capacity == old(self).capacity,
            final(self).threshold == old(self).threshold,
            r == fan_has_id(old(self).views(), id),
            !r ==> final(self).views() == old(self).views(),
            r ==> exists|i: int|
                0 <= i < old(self).views().len() && #[trigger] old(self).views()[i].id == id
                    && final(self).views() == old(self).views().remove(i),
    {
        let ghost pre = old(self).views();
        let mut i: usize = 0;
        while i < self.subs.len()
            invariant
                i <= pre.len(),
                self == old(self),
                old(self).wf(),
                pre == old(self).views(),
                pre.len() == self.subs@.len(),
                forall|j: int| 0 <= j < i ==> pre[j].id != id,
            decreases pre.len() - i,
        {
            if self.subs[i].id == id {
                self.subs.remove(i);
                proof {
                    assert(pre[i as int].id == id);
                    assert(fan_has_id(pre, id));
                    assert(self.views() =~= pre.remove(i as int));
                    pre.remove_ensures(i as int);
                    assert forall|m: int, n: int|
                        0 <= m < n < self.views().len() implies self.views()[m].id
                        != self.views()[n].id by {
                        if m < i {
                            assert(self.views()[m] == pre[m]);
                        } else {
                            assert(self.views()[m] == pre[m + 1]);
                        }
                        if n < i {
                            assert(self.views()[n] == pre[n]);
                        } else {
                            assert(self.views()[n] == pre[n + 1]);
                        }
                    }
                }
                return true;
            }
            i = i + 1;
        }
        false
    }

    /// Publishes one event: renders its frame once and lets every subscriber
    /// meet [`model_step_sub`], exactly as [`spec_publish`] says.
    pub fn publish(&mut self, ev: &Event)
        requires
            old(self).wf(),
        ensures
            final(self).wf(),
            final(self).capacity == old(self).capacity,
            final(self).threshold == old(self).threshold,
            final(self).views() == spec_publish(
                old(self).views(),
                ev@,
                old(self).capacity,
                old(self).threshold,
            ),
    {
        let frame = render_frame(ev);
        let cap = self.capacity;
        let k = self.threshold;
        let ghost orig: Seq<ModelSubscriberV> = old(self).views();
        let mut taken: Vec<ModelSubscriber> = Vec::new();
        core::mem::swap(&mut self.subs, &mut taken);
        let mut kept: Vec<ModelSubscriber> = Vec::new();
        let ghost mut i: int = 0;
        proof {
            assert(kept@.map_values(|s: ModelSubscriber| s@) =~= spec_publish(
                orig.take(0),
                ev@,
                cap,
                k,
            ));
            assert(taken@.map_values(|s: ModelSubscriber| s@) =~= orig.skip(0));
        }
        while taken.len() > 0
            invariant
                0 <= i <= orig.len(),
                old(self).wf(),
                orig == old(self).views(),
                cap == old(self).capacity,
                k == old(self).threshold,
                frame@ == spec_frame(ev@),
                taken@.map_values(|s: ModelSubscriber| s@) == orig.skip(i),
                kept@.map_values(|s: ModelSubscriber| s@) == spec_publish(
                    orig.take(i),
                    ev@,
                    cap,
                    k,
                ),
                taken@.len() == orig.len() - i,
            decreases taken@.len(),
        {
            let ghost taken_pre = taken@;
            let mut sub = taken.remove(0);
            proof {
                assert(orig.skip(i)[0] == orig[i]);
                assert(taken_pre.map_values(|s: ModelSubscriber| s@)[0] == sub@);
                assert(sub@ == orig[i]);
                assert(taken@ =~= taken_pre.subrange(1, taken_pre.len() as int));
                let tv = taken@.map_values(|s: ModelSubscriber| s@);
                assert forall|j: int| 0 <= j < tv.len() implies #[trigger] tv[j] == orig.skip(
                    i + 1,
                )[j] by {
                    assert(taken@[j] == taken_pre[j + 1]);
                    assert(taken_pre.map_values(|s: ModelSubscriber| s@)[j + 1] == orig.skip(
                        i,
                    )[j + 1]);
                    assert(orig.skip(i)[j + 1] == orig[i + j + 1]);
                    assert(orig.skip(i + 1)[j] == orig[i + j + 1]);
                }
                assert(taken@.map_values(|s: ModelSubscriber| s@) =~= orig.skip(i + 1));
            }
            let ghost kept_pre = kept@.map_values(|s: ModelSubscriber| s@);
            if eligible(ev, sub.user_id, sub.workspace_id) {
                if sub.queue.len() < cap {
                    sub.queue.push(frame.clone());
                    sub.drops = 0;
                    proof {
                        assert(sub@.queue =~= orig[i].queue.push(spec_frame(ev@)));
                    }
                    kept.push(sub);
                } else if sub.drops < k - 1 {
                    sub.drops = sub.drops + 1;
                    kept.push(sub);
                }
            } else {
                kept.push(sub);
            }
            proof {
                i = i + 1;
                assert(orig.take(i).drop_last() =~= orig.take(i - 1));
                assert(orig.take(i).last() == orig[i - 1]);
                match model_step_sub(orig[i - 1], ev@, cap, k) {
                    Some(v) => {
                        assert(kept@.map_values(|s: ModelSubscriber| s@) =~= kept_pre.push(v));
                    },
                    None => {
                        assert(kept@.map_values(|s: ModelSubscriber| s@) =~= kept_pre);
                    },
                }
            }
        }
        proof {
            assert(orig.take(i) =~= orig);
        }
        self.subs = kept;
        proof {
            lemma_publish_distinct(orig, ev@, cap, k);
        }
    }

    /// Hands out the oldest queued frame of the subscriber under `id`: the
    /// session side of the bounded channel. Returns nothing exactly when no
    /// such subscriber exists or its queue is empty; otherwise the record
    /// loses its first frame and every other record is untouched.
    pub fn take_next(&mut self, id: u64) -> (r: Option<String>)
        requires
            old(self).wf(),
        ensures
            final(self).wf(),
            final(self).capacity == old(self).capacity,
            final(self).threshold == old(self).threshold,
            match r {
                Some(f) => exists|i: int|
                    0 <= i < old(self).views().len() && #[trigger] old(self).views()[i].id == id
                        && old(self).views()[i].queue.len() > 0 && f@ == old(self).views()[i].queue[0] && final(self).views() == old(self).views().update(
                        i,
                        ModelSubscriberV {
                            queue: old(self).views()[i].queue.drop_first(),
                            ..old(self).views()[i]
                        },
                    ),
                None => final(self).views() == old(self).views() && (!fan_has_id(
                    old(self).views(),
                    id,
                ) || exists|i: int|
                    0 <= i < old(self).views().len() && #[trigger] old(self).views()[i].id == id
                        && old(self).views()[i].queue.len() == 0),
            },
    {
        let ghost pre = old(self).views();
        let mut i: usize = 0;
        while i < self.subs.len()
            invariant
                i <= pre.len(),
                self == old(self),
                old(self).wf(),
                pre == old(self).views(),
                pre.len() == self.subs@.len(),
                forall|j: int| 0 <= j < i ==> pre[j].id != id,
            decreases pre.len() - i,
        {
            if self.subs[i].id == id {
                proof {
                    assert(pre[i as int].id == id);
                }
                if self.subs[i].queue.len() == 0 {
                    proof {
                        assert(pre[i as int].queue.len() == 0);
                    }
                    return None;
                }
                let mut sub = self.subs.remove(i);
                let ghost q_pre = sub@.queue;
                let f = sub.queue.remove(0);
                proof {
                    assert(f@ == q_pre[0]);
                    assert(sub@.queue =~= q_pre.drop_first());
                }
                self.subs.insert(i, sub);
                proof {
                    assert(self.views() =~= pre.update(
                        i as int,
                        ModelSubscriberV { queue: pre[i as int].queue.drop_first(), ..pre[i as int] },
                    ));
                    assert forall|m: int, n: int|
                        0 <= m < n < self.views().len() implies self.views()[m].id
                        != self.views()[n].id by {
                        assert(self.views()[m].id == pre[m].id);
                        assert(self.views()[n].id == pre[n].id);
                    }
                }
                return Some(f);
            }
            i = i + 1;
        }
        None
    }
}

/// Per-subscriber order of delivery: when events are produced in order and
/// every one of them is delivered to the subscriber under `id` — none
/// dropped — that subscriber's queue afterwards holds its old frames
/// followed by the run's frames in exactly the order the run was produced.
pub proof fn lemma_fifo(s: Seq<ModelSubscriberV>, evs: Seq<EventV>, cap: usize, k: u64, id: u64)
    requires
        fan_distinct(s),
        lookup(s, id) is Some,
        all_delivered(s, evs, cap, k, id),
    ensures
        lookup(spec_run(s, evs, cap, k), id) is Some,
        lookup(spec_run(s, evs, cap, k), id)->Some_0.queue == lookup(s, id)->Some_0.queue
            + frames_of(evs),
    decreases evs.len(),
{
    let v = lookup(s, id)->Some_0;
    if evs.len() == 0 {
        assert(v.queue + frames_of(evs) =~= v.queue);
    } else {
        let e0 = evs[0];
        let s1 = spec_publish(s, e0, cap, k);
        lemma_publish_lookup(s, e0, cap, k, id);
        lemma_publish_distinct(s, e0, cap, k);
        let v1 = lookup(s1, id)->Some_0;
        assert(v1.queue == v.queue.push(spec_frame(e0)));
        lemma_fifo(s1, evs.drop_first(), cap, k, id);
        assert(lookup(spec_run(s, evs, cap, k), id)->Some_0.queue == v.queue.push(spec_frame(e0))
            + frames_of(evs.drop_first()));
        assert(v.queue.push(spec_frame(e0)) + frames_of(evs.drop_first()) =~= v.queue + frames_of(
            evs,
        ));
    }
}

} // verus!
