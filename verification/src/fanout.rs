//! The side-effect broadcaster: independently registered listeners are
//! notified whenever a dispatched message's topic is in their subscription
//! set.
//!
//! Delivery is fire-and-forget relative to the triggering call: a handler
//! that reports failure does not stop delivery to the remaining listeners,
//! and nothing a handler does reaches back into the call's result.
//! Delivery order across listeners is unspecified.

use vstd::prelude::*;

verus! {

use crate::ident::FuncId;

/// A registered listener: handlers receive a copy of every matching
/// message. Handler failure is a value, never a panic, so one failing
/// listener cannot take the broadcast down.
pub trait SideEffect: Sized {
    /// The identifier this listener registers under.
    spec fn spec_id(&self) -> FuncId;

    /// The identifier this listener registers under.
    fn get_id(&self) -> (r: FuncId)
        ensures
            r == self.spec_id(),
    ;

    /// Hand the listener a copy of a broadcast message. An `Err` reports
    /// that this listener could not take the message; it has no effect on
    /// anything outside the listener.
    fn copy_msg(&mut self, bytes: &[u8], len: usize) -> (r: Result<(), ()>)
        requires
            len == bytes@.len(),
        ensures
            final(self).spec_id() == old(self).spec_id(),
    ;
}

/// One listener with its subscription set.
struct Subscription<S> {
    topics: Vec<FuncId>,
    handler: S,
}

/// Some outcome in `outcomes` names listener `l`.
pub open spec fn spec_delivered(outcomes: Seq<(FuncId, bool)>, l: FuncId) -> bool {
    exists|k: int| 0 <= k < outcomes.len() && (#[trigger] outcomes[k]).0 == l
}

/// Among the first `i` listeners of `pre`, one registered under `l`
/// subscribes to `topic`.
spec fn spec_matched_upto<S: SideEffect>(
    pre: Seq<Subscription<S>>,
    i: int,
    topic: FuncId,
    l: FuncId,
) -> bool {
    exists|k: int|
        0 <= k < i && (#[trigger] pre[k]).handler.spec_id() == l && pre[k].topics@.contains(topic)
}

/// An atomically-replaceable registry of listeners, fanned out to after a
/// successful dispatch.
pub struct MessageBroadcaster<S: SideEffect> {
    listeners: Vec<Subscription<S>>,
}

/// `v@.contains(*id)`, decided by a scan.
fn contains_id(v: &Vec<FuncId>, id: &FuncId) -> (r: bool)
    ensures
        r == v@.contains(*id),
{
    let mut i: usize = 0;
    while i < v.len()
        invariant
            i <= v@.len(),
            forall|k: int| 0 <= k < i ==> v@[k] != *id,
        decreases v@.len() - i,
    {
        if v[i] == *id {
            return true;
        }
        i = i + 1;
    }
    proof {
        assert forall|k: int| 0 <= k < v@.len() implies v@[k] != *id by {}
    }
    false
}

impl<S: SideEffect> MessageBroadcaster<S> {
    /// How many listeners are registered.
    pub closed spec fn listener_count(&self) -> nat {
        self.listeners@.len()
    }

    /// Some listener is registered under `l`.
    pub closed spec fn has_listener(&self, l: FuncId) -> bool {
        exists|k: int|
            0 <= k < self.listeners@.len() && (#[trigger] self.listeners@[k]).handler.spec_id()
                == l
    }

    /// The listener registered under `l` subscribes to topic `t`.
    pub closed spec fn subscribed(&self, l: FuncId, t: FuncId) -> bool {
        exists|k: int|
            0 <= k < self.listeners@.len() && (#[trigger] self.listeners@[k]).handler.spec_id()
                == l && self.listeners@[k].topics@.contains(t)
    }

    /// Listener identifiers are unique: registering under a taken
    /// identifier replaces the previous registration.
    pub closed spec fn wf(&self) -> bool {
        forall|i: int, j: int|
            0 <= i < j < self.listeners@.len() ==> (#[trigger] self.listeners@[i]).handler.spec_id()
                != (#[trigger] self.listeners@[j]).handler.spec_id()
    }

    /// An empty listener registry.
    pub fn new() -> (r: MessageBroadcaster<S>)
        ensures
            r.wf(),
            r.listener_count() == 0,
            forall|l: FuncId| !r.has_listener(l),
            forall|l: FuncId, t: FuncId| !r.subscribed(l, t),
    {
        MessageBroadcaster { listeners: Vec::new() }
    }

    /// Remove the listener registered under `id`, if any; a no-op
    /// otherwise. Listeners may be unregistered at any time.
    pub fn unregister_side_effect(&mut self, id: &FuncId)
        requires
            old(self).wf(),
        ensures
            final(self).wf(),
            forall|l: FuncId| final(self).has_listener(l) <==> (old(self).has_listener(l) && l
                != *id),
            forall|l: FuncId, t: FuncId| #![auto]
                final(self).subscribed(l, t) <==> (old(self).subscribed(l, t) && l != *id),
    {
        let mut i: usize = 0;
        while i < self.listeners.len()
            invariant
                self == old(self),
                old(self).wf(),
                i <= self.listeners@.len(),
                forall|k: int|
                    0 <= k < i ==> (#[trigger] self.listeners@[k]).handler.spec_id() != *id,
            decreases self.listeners@.len() - i,
        {
            if self.listeners[i].handler.get_id() == *id {
                let ghost pre = self.listeners@;
                self.listeners.remove(i);
                proof {
                    let ghost post = self.listeners@;
                    assert(post == pre.remove(i as int));
                    assert forall|k: int| 0 <= k < post.len() implies #[trigger] post[k] == (
                    if k < i {
                        pre[k]
                    } else {
                        pre[k + 1]
                    }) by {}
                    assert(pre == old(self).listeners@);
                    assert(pre[i as int].handler.spec_id() == *id);
                    assert forall|l: FuncId| self.has_listener(l) implies (old(
                        self,
                    ).has_listener(l) && l != *id) by {
                        assert(exists|k: int|
                            0 <= k < post.len() && (#[trigger] post[k]).handler.spec_id() == l);
                        let k = choose|k: int|
                            0 <= k < post.len() && (#[trigger] post[k]).handler.spec_id() == l;
                        if k < i {
                            assert(post[k] == pre[k]);
                            assert(pre[k].handler.spec_id() == l);
                            assert(pre[k].handler.spec_id() != *id);
                            assert(old(self).has_listener(l));
                        } else {
                            assert(post[k] == pre[k + 1]);
                            assert((old(self).listeners@[k + 1]).handler.spec_id() == l);
                            assert((old(self).listeners@[i as int]).handler.spec_id() == *id);
                            assert(old(self).wf());
                            assert((old(self).listeners@[k + 1]).handler.spec_id() != (old(
                                self,
                            ).listeners@[i as int]).handler.spec_id());
                            assert(old(self).has_listener(l));
                        }
                    }
                    assert forall|l: FuncId| (old(self).has_listener(l) && l != *id)
                        implies self.has_listener(l) by {
                        let k = choose|k: int|
                            0 <= k < pre.len() && (#[trigger] pre[k]).handler.spec_id() == l;
                        assert(k != i);
                        if k < i {
                            assert(post[k].handler.spec_id() == l);
                        } else {
                            assert(post[k - 1].handler.spec_id() == l);
                        }
                    }
                    assert forall|l: FuncId, t: FuncId| #![auto] self.subscribed(l, t)
                        implies (old(self).subscribed(l, t) && l != *id) by {
                        let k = choose|k: int|
                            0 <= k < post.len() && (#[trigger] post[k]).handler.spec_id() == l
                                && post[k].topics@.contains(t);
                        if k < i {
                            assert(pre[k].handler.spec_id() == l && pre[k].topics@.contains(t));
                        } else {
                            assert(pre[k + 1].handler.spec_id() == l && pre[k
                                + 1].topics@.contains(t));
                        }
                    }
                    assert forall|l: FuncId, t: FuncId| #![auto] (old(self).subscribed(l, t) && l
                        != *id) implies self.subscribed(l, t) by {
                        let k = choose|k: int|
                            0 <= k < pre.len() && (#[trigger] pre[k]).handler.spec_id() == l
                                && pre[k].topics@.contains(t);
                        assert(k != i);
                        if k < i {
                            assert(post[k].handler.spec_id() == l && post[k].topics@.contains(t));
                        } else {
                            assert(post[k - 1].handler.spec_id() == l && post[k
                                - 1].topics@.contains(t));
                        }
                    }
                }
                return ;
            }
            i = i + 1;
        }
        proof {
            assert forall|l: FuncId| old(self).has_listener(l) implies l != *id by {
                let k = choose|k: int|
                    0 <= k < self.listeners@.len() && (#[trigger] self.listeners@[
                    k]).handler.spec_id() == l;
            }
            assert forall|l: FuncId, t: FuncId| #![auto] old(self).subscribed(l, t) implies l
                != *id by {
                assert(old(self).has_listener(l));
            }
        }
    }

    /// Register `handler` under its own identifier with the given
    /// subscription set, replacing any previous registration under that
    /// identifier.
    pub fn register_side_effect(&mut self, topics: Vec<FuncId>, handler: S)
        requires
            old(self).wf(),
        ensures
            final(self).wf(),
            forall|l: FuncId| final(self).has_listener(l) <==> (old(self).has_listener(l) || l
                == handler.spec_id()),
            forall|l: FuncId, t: FuncId| #![auto]
                final(self).subscribed(l, t) <==> (if l == handler.spec_id() {
                    topics@.contains(t)
                } else {
                    old(self).subscribed(l, t)
                }),
    {
        let id = handler.get_id();
        self.unregister_side_effect(&id);
        let ghost mid = *self;
        self.listeners.push(Subscription { topics, handler });
        proof {
            let ghost post = self.listeners@;
            let ghost n = post.len() - 1;
            assert(post[n].handler.spec_id() == handler.spec_id());
            assert(post[n].topics@ == topics@);
            assert forall|k: int| 0 <= k < n implies #[trigger] post[k] == mid.listeners@[k] by {}
            assert forall|i: int, j: int| 0 <= i < j < post.len() implies (#[trigger] post[
            i]).handler.spec_id() != (#[trigger] post[j]).handler.spec_id() by {
                if j == n {
                    assert(mid.has_listener(post[i].handler.spec_id()));
                }
            }
            assert forall|l: FuncId| self.has_listener(l) implies (old(self).has_listener(l)
                || l == handler.spec_id()) by {
                let k = choose|k: int|
                    0 <= k < post.len() && (#[trigger] post[k]).handler.spec_id() == l;
                if k < n {
                    assert(mid.has_listener(l));
                }
            }
            assert forall|l: FuncId| (old(self).has_listener(l) || l == handler.spec_id())
                implies self.has_listener(l) by {
                if l == handler.spec_id() {
                    assert(post[n].handler.spec_id() == l);
                } else {
                    assert(mid.has_listener(l));
                    let k = choose|k: int|
                        0 <= k < mid.listeners@.len() && (#[trigger] mid.listeners@[
                        k]).handler.spec_id() == l;
                    assert(post[k].handler.spec_id() == l);
                }
            }
            assert forall|l: FuncId, t: FuncId| #![auto] self.subscribed(l, t) implies (
            if l == handler.spec_id() {
                topics@.contains(t)
            } else {
                old(self).subscribed(l, t)
            }) by {
                let k = choose|k: int|
                    0 <= k < post.len() && (#[trigger] post[k]).handler.spec_id() == l && post[
                    k].topics@.contains(t);
                if k < n {
                    assert(mid.subscribed(l, t));
                    assert(mid.has_listener(l));
                }
            }
            assert forall|l: FuncId, t: FuncId| #![auto] (if l == handler.spec_id() {
                topics@.contains(t)
            } else {
                old(self).subscribed(l, t)
            }) implies self.subscribed(l, t) by {
                if l == handler.spec_id() {
                    assert(post[n].handler.spec_id() == l && post[n].topics@.contains(t));
                } else {
                    assert(mid.subscribed(l, t));
                    let k = choose|k: int|
                        0 <= k < mid.listeners@.len() && (#[trigger] mid.listeners@[
                        k]).handler.spec_id() == l && mid.listeners@[k].topics@.contains(t);
                    assert(post[k].handler.spec_id() == l && post[k].topics@.contains(t));
                }
            }
        }
    }

    /// Fan a message out: every listener whose subscription set contains
    /// `topic` is handed a copy, each exactly once, whatever any other
    /// listener's handler reports. The outcomes name each notified
    /// listener and whether its handler took the message; a failure never
    /// stops delivery to the rest.
    pub fn broadcast(&mut self, topic: &FuncId, message: &[u8]) -> (outcomes: Vec<(FuncId, bool)>)
        requires
            old(self).wf(),
        ensures
            final(self).wf(),
            final(self).listener_count() == old(self).listener_count(),
            forall|l: FuncId| final(self).has_listener(l) == old(self).has_listener(l),
            forall|l: FuncId, t: FuncId| #![auto]
                final(self).subscribed(l, t) == old(self).subscribed(l, t),
            forall|l: FuncId| #[trigger] spec_delivered(outcomes@, l) <==> old(self).subscribed(
                l,
                *topic,
            ),
    {
        let ghost pre = old(self).listeners@;
        let mut outcomes: Vec<(FuncId, bool)> = Vec::new();
        let n = self.listeners.len();
        let mut i: usize = 0;
        while i < n
            invariant
                n == self.listeners@.len(),
                pre.len() == n,
                i <= n,
                old(self).wf(),
                forall|k: int|
                    0 <= k < n ==> (#[trigger] self.listeners@[k]).handler.spec_id()
                        == pre[k].handler.spec_id() && self.listeners@[k].topics@
                        == pre[k].topics@,
                forall|l: FuncId| #[trigger] spec_delivered(outcomes@, l) <==> spec_matched_upto(
                    pre,
                    i as int,
                    *topic,
                    l,
                ),
            decreases n - i,
        {
            let ghost outcomes_pre = outcomes@;
            if contains_id(&self.listeners[i].topics, topic) {
                let lid = self.listeners[i].handler.get_id();
                let sub = &mut self.listeners[i];
                let res = sub.handler.copy_msg(message, message.len());
                outcomes.push((lid, res.is_ok()));
                proof {
                    assert(outcomes@ == outcomes_pre.push((lid, res is Ok)));
                }
            }
            proof {
                assert forall|l: FuncId| #[trigger] spec_delivered(outcomes@, l)
                    implies spec_matched_upto(pre, i + 1, *topic, l) by {
                    let k = choose|k: int| 0 <= k < outcomes@.len() && (#[trigger] outcomes@[k]).0
                        == l;
                    if k < outcomes_pre.len() {
                        assert(outcomes_pre[k].0 == l);
                        assert(spec_delivered(outcomes_pre, l));
                        assert(spec_matched_upto(pre, i as int, *topic, l));
                        let k2 = choose|k2: int|
                            0 <= k2 < i && (#[trigger] pre[k2]).handler.spec_id() == l && pre[
                            k2].topics@.contains(*topic);
                        assert(0 <= k2 < i + 1 && pre[k2].handler.spec_id() == l && pre[
                        k2].topics@.contains(*topic));
                    } else {
                        assert(pre[i as int].handler.spec_id() == l && pre[
                        i as int].topics@.contains(*topic));
                    }
                }
                assert forall|l: FuncId| #[trigger] spec_matched_upto(pre, i + 1, *topic, l)
                    implies spec_delivered(outcomes@, l) by {
                    let k = choose|k: int|
                        0 <= k < i + 1 && (#[trigger] pre[k]).handler.spec_id() == l
                            && pre[k].topics@.contains(*topic);
                    if k < i {
                        assert(spec_matched_upto(pre, i as int, *topic, l));
                        assert(spec_delivered(outcomes_pre, l));
                        let k2 = choose|k2: int|
                            0 <= k2 < outcomes_pre.len() && (#[trigger] outcomes_pre[k2]).0 == l;
                        assert(outcomes@[k2].0 == l);
                    } else {
                        assert(outcomes@[outcomes@.len() - 1].0 == l);
                    }
                }
            }
            i = i + 1;
        }
        proof {
            assert forall|i1: int, j1: int| 0 <= i1 < j1 < self.listeners@.len() implies (
            #[trigger] self.listeners@[i1]).handler.spec_id() != (#[trigger] self.listeners@[
            j1]).handler.spec_id() by {
                assert(pre[i1].handler.spec_id() != pre[j1].handler.spec_id());
            }
            assert forall|l: FuncId| self.has_listener(l) == old(self).has_listener(l) by {
                if self.has_listener(l) {
                    let k = choose|k: int|
                        0 <= k < self.listeners@.len() && (#[trigger] self.listeners@[
                        k]).handler.spec_id() == l;
                    assert(old(self).listeners@[k].handler.spec_id() == l);
                }
                if old(self).has_listener(l) {
                    let k = choose|k: int|
                        0 <= k < old(self).listeners@.len() && (#[trigger] old(self).listeners@[
                        k]).handler.spec_id() == l;
                    assert(self.listeners@[k].handler.spec_id() == l);
                }
            }
            assert forall|l: FuncId, t: FuncId| #![auto] self.subscribed(l, t) == old(
                self,
            ).subscribed(l, t) by {
                if self.subscribed(l, t) {
                    let k = choose|k: int|
                        0 <= k < self.listeners@.len() && (#[trigger] self.listeners@[
                        k]).handler.spec_id() == l && self.listeners@[k].topics@.contains(t);
                    assert(old(self).listeners@[k].handler.spec_id() == l && old(
                        self,
                    ).listeners@[k].topics@.contains(t));
                }
                if old(self).subscribed(l, t) {
                    let k = choose|k: int|
                        0 <= k < old(self).listeners@.len() && (#[trigger] old(self).listeners@[
                        k]).handler.spec_id() == l && old(self).listeners@[k].topics@.contains(t);
                    assert(self.listeners@[k].handler.spec_id() == l && self.listeners@[
                    k].topics@.contains(t));
                }
            }
            assert forall|l: FuncId| #[trigger] spec_delivered(outcomes@, l) <==> old(
                self,
            ).subscribed(l, *topic) by {
                if spec_delivered(outcomes@, l) {
                    let k = choose|k: int|
                        0 <= k < n && (#[trigger] pre[k]).handler.spec_id() == l
                            && pre[k].topics@.contains(*topic);
                    assert(old(self).listeners@[k].handler.spec_id() == l && old(
                        self,
                    ).listeners@[k].topics@.contains(*topic));
                }
                if old(self).subscribed(l, *topic) {
                    let k = choose|k: int|
                        0 <= k < old(self).listeners@.len() && (#[trigger] old(self).listeners@[
                        k]).handler.spec_id() == l && old(self).listeners@[k].topics@.contains(
                            *topic,
                        );
                    assert(0 <= k < n && pre[k].handler.spec_id() == l && pre[k].topics@.contains(
                        *topic,
                    ));
                    assert(spec_matched_upto(pre, n as int, *topic, l));
                }
            }
        }
        outcomes
    }
}

} // verus!
