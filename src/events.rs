use vstd::prelude::*;

use crate::models::Payment;

verus! {

/// Events that the library reports to its listeners.
#[derive(Clone, Debug)]
pub enum SdkEvent {
    /// The wallet has been synchronized with the network.
    Synced {},
    /// A payment succeeded.
    PaymentSucceeded {
        /// The payment record.
        payment: Payment,
    },
    /// A payment is pending.
    PaymentPending {
        /// The payment record.
        payment: Payment,
    },
}

/// An observer of library events.
pub trait EventListener: Send + Sync {
    /// Called for each event; a failure is the listener's own and is not passed on.
    fn on_event(&self, event: &SdkEvent) -> Result<(), String>;
}

/// Relies on uuid::Uuid::new_v4 and its Display: a random identifier, written in the
/// hyphenated form of 36 characters.
#[verifier::external_body]
fn new_listener_id() -> (r: String)
    ensures
        r@.len() == 36,
{
    uuid::Uuid::new_v4().to_string()
}

/// A registry of listeners, each under its own identifier.
pub struct EventEmitter {
    listeners: Vec<(String, Box<dyn EventListener>)>,
}

impl EventEmitter {
    /// The identifiers of the registered listeners.
    pub closed spec fn listener_ids(&self) -> Set<Seq<char>> {
        Set::new(
            |id: Seq<char>|
                exists|i: int| 0 <= i < self.listeners@.len() && #[trigger] self.listeners@[i].0@ == id,
        )
    }

    /// An emitter with no listeners.
    pub fn new() -> (r: Self)
        ensures
            r.listener_ids() == Set::<Seq<char>>::empty(),
    {
        let r = EventEmitter { listeners: Vec::new() };
        assert(r.listener_ids() =~= Set::<Seq<char>>::empty());
        r
    }

    /// Drops every listener registered under `id`; tells whether there was one.
    fn drop_entries(&mut self, id: &str) -> (r: bool)
        ensures
            r == old(self).listener_ids().contains(id@),
            final(self).listener_ids() == old(self).listener_ids().remove(id@),
    {
        let ghost start = self.listeners@;
        let wanted = String::from_str(id);
        let mut found = false;
        let mut i: usize = 0;
        while i < self.listeners.len()
            invariant
                wanted@ == id@,
                i <= self.listeners@.len(),
                forall|k: int| 0 <= k < i ==> #[trigger] self.listeners@[k].0@ != id@,
                forall|x: Seq<char>| x != id@ ==> (#[trigger] has_entry(start, x) <==> has_entry(
                    self.listeners@,
                    x,
                )),
                forall|k: int| i <= k < self.listeners@.len() ==> #[trigger] has_entry(
                    start,
                    self.listeners@[k].0@,
                ),
                found ==> has_entry(start, id@),
                !found ==> self.listeners@ == start,
            decreases self.listeners@.len() - i,
        {
            if self.listeners[i].0 == wanted {
                let ghost before = self.listeners@;
                let ghost found_before = found;
                self.listeners.remove(i);
                found = true;
                proof {
                    assert forall|x: Seq<char>| x != id@ implies (#[trigger] has_entry(start, x)
                        <==> has_entry(self.listeners@, x)) by {
                        if has_entry(before, x) {
                            let k = choose|k: int| 0 <= k < before.len() && before[k].0@ == x;
                            if k < i {
                                assert(self.listeners@[k] == before[k]);
                            } else {
                                assert(k != i);
                                assert(self.listeners@[k - 1] == before[k]);
                            }
                        }
                        if has_entry(self.listeners@, x) {
                            let k = choose|k: int| 0 <= k < self.listeners@.len() && self.listeners@[k].0@ == x;
                            if k < i {
                                assert(before[k] == self.listeners@[k]);
                            } else {
                                assert(before[k + 1] == self.listeners@[k]);
                            }
                        }
                    }
                    assert forall|k: int| i <= k < self.listeners@.len() implies #[trigger] has_entry(
                        start,
                        self.listeners@[k].0@,
                    ) by {
                        assert(self.listeners@[k] == before[k + 1]);
                    }
                    assert(has_entry(start, id@)) by {
                        if found_before {
                        } else {
                            assert(has_entry(start, before[i as int].0@));
                        }
                    }
                }
            } else {
                i = i + 1;
            }
        }
        proof {
            let now = self.listeners@;
            assert(!has_entry(now, id@));
            assert forall|x: Seq<char>| #[trigger] self.listener_ids().contains(x) <==> old(
                self,
            ).listener_ids().remove(id@).contains(x) by {
                if x != id@ {
                    assert(has_entry(start, x) <==> has_entry(now, x));
                }
            }
            assert(self.listener_ids() =~= old(self).listener_ids().remove(id@));
        }
        found
    }

    /// Registers a listener under a fresh random identifier and returns that identifier.
    pub fn add_listener(&mut self, listener: Box<dyn EventListener>) -> (r: String)
        ensures
            r@.len() == 36,
            final(self).listener_ids() == old(self).listener_ids().insert(r@),
    {
        let id = new_listener_id();
        self.drop_entries(id.as_str());
        let ghost before = self.listeners@;
        let ghost kept = self.listener_ids();
        let entry = (id.clone(), listener);
        let ghost added = entry;
        self.listeners.push(entry);
        proof {
            let now = self.listeners@;
            assert(now == before.push(added));
            assert forall|x: Seq<char>| #[trigger] self.listener_ids().contains(x) <==> old(
                self,
            ).listener_ids().insert(id@).contains(x) by {
                assert(kept.contains(x) == has_entry(before, x));
                assert(self.listener_ids().contains(x) == has_entry(now, x));
                if has_entry(now, x) {
                    let k = choose|k: int| 0 <= k < now.len() && now[k].0@ == x;
                    if k < before.len() {
                        assert(before[k] == now[k]);
                        assert(has_entry(before, x));
                    }
                }
                if has_entry(before, x) {
                    let k = choose|k: int| 0 <= k < before.len() && before[k].0@ == x;
                    assert(now[k] == before[k]);
                }
                if x == id@ {
                    assert(now[before.len() as int].0@ == id@);
                }
            }
            assert(self.listener_ids() =~= old(self).listener_ids().insert(id@));
        }
        id
    }

    /// Removes the listener registered under `id`; tells whether there was one.
    pub fn remove_listener(&mut self, id: &str) -> (r: bool)
        ensures
            r == old(self).listener_ids().contains(id@),
            final(self).listener_ids() == old(self).listener_ids().remove(id@),
    {
        self.drop_entries(id)
    }

    /// Hands the event to every registered listener once; a listener that fails does not stop
    /// the others, and its failure is discarded.
    pub fn emit(&self, event: &SdkEvent) {
        let n = self.listeners.len();
        for i in 0..n
            invariant
                n == self.listeners@.len(),
        {
            let _outcome = self.listeners[i].1.on_event(event);
        }
    }
}

/// Whether some entry of `entries` is registered under `id`.
pub open spec fn has_entry(entries: Seq<(String, Box<dyn EventListener>)>, id: Seq<char>) -> bool {
    exists|i: int| 0 <= i < entries.len() && #[trigger] entries[i].0@ == id
}

} // verus!
