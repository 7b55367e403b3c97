//! The fan-out dispatcher. For one event it renders the SSE frame once, walks
//! the registry, and performs one non-blocking send to every eligible
//! subscriber. A full channel counts as one consecutive drop; at the
//! configured threshold of consecutive drops, or on a closed channel, the
//! subscriber is evicted. Subscribers the event does not concern are left
//! untouched — a slow subscriber never blocks or degrades its peers.

use vstd::prelude::*;

use crate::channel::try_send_frame;
use crate::channel::SendOutcome;
use crate::event::eligible;
use crate::event::spec_eligible;
use crate::event::Event;
use crate::event::EventV;
use crate::frame::render_frame;
use crate::registry::has_id;
use crate::registry::Registry;
use crate::registry::Subscriber;
use crate::registry::SubscriberV;

verus! {

/// The fate of one subscriber under one dispatched event, given what its
/// channel reported: `None` means the subscriber is evicted, `Some` gives its
/// updated record. An ineligible subscriber is untouched whatever the channel
/// would have said; a delivery resets the consecutive-drop count; a drop
/// increments it and evicts at the threshold `k`; a closed channel evicts at
/// once.
pub open spec fn step_sub(s: SubscriberV, ev: EventV, k: u64, out: SendOutcome) -> Option<
    SubscriberV,
> {
    if !spec_eligible(ev, s.user_id, s.workspace_id) {
        Some(s)
    } else {
        match out {
            SendOutcome::Delivered => Some(SubscriberV { drops: 0, ..s }),
            SendOutcome::Full => if s.drops + 1 < k {
                Some(SubscriberV { drops: (s.drops + 1) as u64, ..s })
            } else {
                None
            },
            SendOutcome::Closed => None,
        }
    }
}

/// One dispatch pass over the whole registry value: each record meets
/// [`step_sub`] with its own channel outcome, independently of every other
/// record, and the evicted ones disappear.
pub open spec fn spec_dispatch(
    s: Seq<SubscriberV>,
    ev: EventV,
    k: u64,
    outs: Seq<SendOutcome>,
) -> Seq<SubscriberV>
    decreases s.len(),
{
    if s.len() == 0 {
        Seq::empty()
    } else {
        let rest = spec_dispatch(s.drop_last(), ev, k, outs.drop_last());
        match step_sub(s.last(), ev, k, outs.last()) {
            Some(v) => rest.push(v),
            None => rest,
        }
    }
}

/// A dispatch pass keeps the ids distinct and introduces no id that was not
/// already registered.
pub proof fn lemma_dispatch_wf(s: Seq<SubscriberV>, ev: EventV, k: u64, outs: Seq<SendOutcome>)
    requires
        forall|i: int, j: int| 0 <= i < j < s.len() ==> s[i].id != s[j].id,
    ensures
        forall|id: u64| has_id(spec_dispatch(s, ev, k, outs), id) ==> has_id(s, id),
        forall|i: int, j: int|
            0 <= i < j < spec_dispatch(s, ev, k, outs).len() ==> spec_dispatch(s, ev, k, outs)[i].id
                != spec_dispatch(s, ev, k, outs)[j].id,
    decreases s.len(),
{
    if s.len() == 0 {
    } else {
        let pre = s.drop_last();
        let rest = spec_dispatch(pre, ev, k, outs.drop_last());
        lemma_dispatch_wf(pre, ev, k, outs.drop_last());
        assert forall|id: u64| has_id(rest, id) implies has_id(s, id) by {
            assert(has_id(pre, id));
            let i = choose|i: int| 0 <= i < pre.len() && pre[i].id == id;
            assert(s[i].id == id);
        }
        match step_sub(s.last(), ev, k, outs.last()) {
            Some(v) => {
                let r = rest.push(v);
                assert(v.id == s.last().id);
                assert forall|id: u64| has_id(r, id) implies has_id(s, id) by {
                    let i = choose|i: int| 0 <= i < r.len() && r[i].id == id;
                    if i < rest.len() {
                        assert(rest[i].id == id);
                        assert(has_id(rest, id));
                    } else {
                        assert(r[i] == v);
                        assert(s[s.len() - 1].id == id);
                    }
                }
                assert forall|i: int, j: int| 0 <= i < j < r.len() implies r[i].id != r[j].id by {
                    if j < rest.len() {
                        assert(r[i] == rest[i]);
                        assert(r[j] == rest[j]);
                    } else {
                        assert(r[j] == v);
                        assert(r[i] == rest[i]);
                        if rest[i].id == v.id {
                            assert(has_id(rest, v.id));
                            assert(has_id(pre, v.id));
                            let m = choose|m: int| 0 <= m < pre.len() && pre[m].id == v.id;
                            assert(pre[m] == s[m]);
                            assert(s[m].id == s[s.len() - 1].id);
                            assert(false);
                        }
                    }
                }
            },
            None => {},
        }
    }
}

/// The record registered under `id`, if any.
pub open spec fn reg_lookup(s: Seq<SubscriberV>, id: u64) -> Option<SubscriberV>
    decreases s.len(),
{
    if s.len() == 0 {
        None
    } else if s.last().id == id {
        Some(s.last())
    } else {
        reg_lookup(s.drop_last(), id)
    }
}

/// A subscriber the event does not concern is untouched by a dispatch pass,
/// whatever every channel reported: its record survives unchanged however
/// slow, full or closed its peers were.
pub proof fn lemma_dispatch_untouched(
    s: Seq<SubscriberV>,
    ev: EventV,
    k: u64,
    outs: Seq<SendOutcome>,
    id: u64,
)
    requires
        forall|i: int, j: int| 0 <= i < j < s.len() ==> s[i].id != s[j].id,
        reg_lookup(s, id) is Some,
        !spec_eligible(
            ev,
            reg_lookup(s, id)->Some_0.user_id,
            reg_lookup(s, id)->Some_0.workspace_id,
        ),
    ensures
        reg_lookup(spec_dispatch(s, ev, k, outs), id) == reg_lookup(s, id),
    decreases s.len(),
{
    if s.len() == 0 {
    } else {
        let pre = s.drop_last();
        let rest = spec_dispatch(pre, ev, k, outs.drop_last());
        if s.last().id == id {
            assert(step_sub(s.last(), ev, k, outs.last()) == Some(s.last()));
            assert(rest.push(s.last()).last() == s.last());
        } else {
            lemma_dispatch_untouched(pre, ev, k, outs.drop_last(), id);
            match step_sub(s.last(), ev, k, outs.last()) {
                Some(v) => {
                    assert(v.id == s.last().id);
                    assert(rest.push(v).last() == v);
                    assert(rest.push(v).drop_last() =~= rest);
                },
                None => {},
            }
        }
    }
}

/// Dispatches one event to every eligible subscriber with a non-blocking
/// send, updating drop counts and evicting per [`step_sub`]. The channel
/// outcomes are outside this library's control, so the contract promises
/// that the registry moved along [`spec_dispatch`] for *some* sequence of
/// per-subscriber outcomes — in particular, ineligible subscribers are
/// untouched, and every surviving record is an updated original.
pub fn dispatch_event(reg: &mut Registry, ev: &Event, k: u64)
    requires
        old(reg).wf(),
        k >= 1,
    ensures
        final(reg).wf(),
        exists|outs: Seq<SendOutcome>|
            outs.len() == old(reg)@.len() && final(reg)@ == #[trigger] spec_dispatch(
                old(reg)@,
                ev@,
                k,
                outs,
            ),
{
    let frame = render_frame(ev);
    let ghost orig: Seq<SubscriberV> = old(reg)@;
    let mut taken = reg.take_entries();
    let mut kept: Vec<Subscriber> = Vec::new();
    let ghost mut outs: Seq<SendOutcome> = Seq::empty();
    let ghost mut i: int = 0;
    proof {
        assert(kept@.map_values(|s: Subscriber| s@) =~= spec_dispatch(orig.take(0), ev@, k, outs));
        assert(taken@.map_values(|s: Subscriber| s@) =~= orig.skip(0));
    }
    while taken.len() > 0
        invariant
            0 <= i <= orig.len(),
            old(reg).wf(),
            orig == old(reg)@,
            taken@.map_values(|s: Subscriber| s@) == orig.skip(i),
            outs.len() == i,
            kept@.map_values(|s: Subscriber| s@) == spec_dispatch(orig.take(i), ev@, k, outs),
            taken@.len() == orig.len() - i,
            k >= 1,
        decreases taken@.len(),
    {
        let ghost taken_pre = taken@;
        let sub = taken.remove(0);
        proof {
            assert(orig.skip(i)[0] == orig[i]);
            assert(taken_pre.map_values(|s: Subscriber| s@)[0] == sub@);
            assert(sub@ == orig[i]);
            assert(taken@ =~= taken_pre.subrange(1, taken_pre.len() as int));
            let tv = taken@.map_values(|s: Subscriber| s@);
            assert forall|j: int| 0 <= j < tv.len() implies #[trigger] tv[j] == orig.skip(i + 1)[j]
                by {
                assert(taken@[j] == taken_pre[j + 1]);
                assert(taken_pre.map_values(|s: Subscriber| s@)[j + 1] == orig.skip(i)[j + 1]);
                assert(orig.skip(i)[j + 1] == orig[i + j + 1]);
                assert(orig.skip(i + 1)[j] == orig[i + j + 1]);
            }
            assert(taken@.map_values(|s: Subscriber| s@) =~= orig.skip(i + 1));
        }
        let ghost kept_pre = kept@.map_values(|s: Subscriber| s@);
        let ghost mut out_here: SendOutcome = SendOutcome::Delivered;
        if eligible(ev, sub.user_id, sub.workspace_id) {
            let out = try_send_frame(&sub.tx, frame.clone());
            proof {
                out_here = out;
            }
            match out {
                SendOutcome::Delivered => {
                    let mut s2 = sub;
                    s2.drops = 0;
                    kept.push(s2);
                },
                SendOutcome::Full => {
                    if sub.drops < k - 1 {
                        let mut s2 = sub;
                        s2.drops = s2.drops + 1;
                        kept.push(s2);
                    }
                },
                SendOutcome::Closed => {},
            }
        } else {
            kept.push(sub);
        }
        proof {
            let outs_pre = outs;
            outs = outs.push(out_here);
            i = i + 1;
            assert(orig.take(i).drop_last() =~= orig.take(i - 1));
            assert(outs.drop_last() =~= outs_pre);
            assert(orig.take(i).last() == orig[i - 1]);
            match step_sub(orig[i - 1], ev@, k, out_here) {
                Some(v) => {
                    assert(kept@.map_values(|s: Subscriber| s@) =~= kept_pre.push(v));
                },
                None => {
                    assert(kept@.map_values(|s: Subscriber| s@) =~= kept_pre);
                },
            }
            assert(kept@.map_values(|s: Subscriber| s@) == spec_dispatch(
                orig.take(i),
                ev@,
                k,
                outs,
            ));
        }
    }
    proof {
        assert(orig.take(i) =~= orig);
    }
    reg.put_entries(kept);
    proof {
        lemma_dispatch_wf(orig, ev@, k, outs);
        assert(reg@ == spec_dispatch(orig, ev@, k, outs));
    }
}

} // verus!
