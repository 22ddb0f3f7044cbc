//! The calls that wait for their response, and the responses that wait for
//! their caller.
//!
//! Each call that went out has a slot under its identifier. A slot is
//! waiting until the response with that identifier comes in, then ready
//! until its caller takes the response. A slot that is neither is
//! disconnected: nothing will ever come through it. The dispatcher fills
//! slots; each caller reads only its own.

use crate::cdtp::CallId;
use crate::cdtp::Response;
use crate::cdtp::ResponseView;
use crate::errors::fault_view;
use crate::errors::Fault;
use crate::errors::FaultView;
use std::collections::HashMap;
use std::collections::HashSet;
use vstd::prelude::*;

verus! {

broadcast use vstd::std_specs::hash::group_hash_axioms;

/// What a caller finds in its slot.
#[derive(Debug, PartialEq, Eq)]
pub enum Slot {
    /// The call is out and its response has not come.
    Waiting,
    /// The response has come; taking it empties the slot.
    Ready(Response),
    /// No response will come: the slot was never made, was emptied, or was
    /// failed when the dispatcher stopped.
    Disconnected,
}

/// What a [`Slot`] stands for.
pub enum SlotView {
    Waiting,
    Ready(ResponseView),
    Disconnected,
}

impl View for Slot {
    type V = SlotView;

    open spec fn view(&self) -> SlotView {
        match self {
            Slot::Waiting => SlotView::Waiting,
            Slot::Ready(response) => SlotView::Ready(response@),
            Slot::Disconnected => SlotView::Disconnected,
        }
    }
}

/// What a [`WaitingCallRegistry`] stands for: the identifiers whose slot is
/// waiting, the responses of the slots that are ready, and why the waiting
/// slots were failed, once they were.
pub struct RegistryView {
    pub waiting: Set<CallId>,
    pub delivered: Map<CallId, ResponseView>,
    pub failure: Option<FaultView>,
}

impl RegistryView {
    /// No slot is both waiting and ready, every response lies in the slot
    /// of its own identifier, the slots are finitely many, and none waits
    /// once the waiting slots were failed.
    pub open spec fn wf(self) -> bool {
        &&& self.failure is Some ==> self.waiting == Set::<CallId>::empty()
        &&& self.waiting.finite()
        &&& self.delivered.dom().finite()
        &&& forall|id: CallId| self.waiting.contains(id) ==> !self.delivered.contains_key(id)
        &&& forall|id: CallId| #[trigger]
            self.delivered.contains_key(id) ==> self.delivered[id].id == id
    }

    /// The registry without any slot.
    pub open spec fn empty() -> RegistryView {
        RegistryView { waiting: Set::empty(), delivered: Map::empty(), failure: None }
    }

    /// Whether `id` has a slot, waiting or ready.
    pub open spec fn contains(self, id: CallId) -> bool {
        self.waiting.contains(id) || self.delivered.contains_key(id)
    }

    /// What the caller of `id` finds in its slot.
    pub open spec fn slot(self, id: CallId) -> SlotView {
        if self.delivered.contains_key(id) {
            SlotView::Ready(self.delivered[id])
        } else if self.waiting.contains(id) {
            SlotView::Waiting
        } else {
            SlotView::Disconnected
        }
    }

    /// The registry with a waiting slot for `id`. Once the waiting slots
    /// were failed none is made: a call that comes after is failed with
    /// them.
    pub open spec fn register(self, id: CallId) -> RegistryView {
        if self.failure is None {
            RegistryView { waiting: self.waiting.insert(id), ..self }
        } else {
            self
        }
    }

    /// The registry after `response` came in: the waiting slot of its
    /// identifier is ready with it; where no slot waits for it, nothing
    /// changes.
    pub open spec fn resolve(self, response: ResponseView) -> RegistryView {
        if self.waiting.contains(response.id) {
            RegistryView {
                waiting: self.waiting.remove(response.id),
                delivered: self.delivered.insert(response.id, response),
                ..self
            }
        } else {
            self
        }
    }

    /// The registry after the caller of `id` looked into its slot: a ready
    /// slot is emptied, a waiting one stays.
    pub open spec fn take(self, id: CallId) -> RegistryView {
        RegistryView { delivered: self.delivered.remove(id), ..self }
    }

    /// The registry without the slot of `id`.
    pub open spec fn abandon(self, id: CallId) -> RegistryView {
        RegistryView {
            waiting: self.waiting.remove(id),
            delivered: self.delivered.remove(id),
            ..self
        }
    }

    /// The registry after every waiting slot was failed for `reason`.
    /// Ready slots keep their response. The first reason stays.
    pub open spec fn fail_all(self, reason: FaultView) -> RegistryView {
        RegistryView {
            waiting: Set::empty(),
            delivered: self.delivered,
            failure: if self.failure is None {
                Some(reason)
            } else {
                self.failure
            },
        }
    }
}

/// The slots of the calls of one connection, by identifier.
pub struct WaitingCallRegistry {
    waiting: HashSet<CallId>,
    delivered: HashMap<CallId, Response>,
    failure: Option<Fault>,
}

impl View for WaitingCallRegistry {
    type V = RegistryView;

    closed spec fn view(&self) -> RegistryView {
        RegistryView {
            waiting: self.waiting@,
            delivered: Map::new(
                |id: CallId| self.delivered@.contains_key(id),
                |id: CallId| self.delivered@[id]@,
            ),
            failure: fault_view(self.failure),
        }
    }
}

impl WaitingCallRegistry {
    /// A registry without any slot.
    pub fn new() -> (registry: WaitingCallRegistry)
        ensures
            registry@ == RegistryView::empty(),
            registry@.wf(),
    {
        let registry = WaitingCallRegistry {
            waiting: HashSet::new(),
            delivered: HashMap::new(),
            failure: None,
        };
        assert(registry@.delivered =~= Map::empty());
        registry
    }

    /// Makes the waiting slot of a call that is about to go out. Once the
    /// waiting slots were failed it makes none, and the caller finds its
    /// slot disconnected.
    pub fn register_call(&mut self, id: CallId)
        requires
            old(self)@.wf(),
            !old(self)@.contains(id),
        ensures
            final(self)@ == old(self)@.register(id),
            final(self)@.wf(),
    {
        if self.failure.is_none() {
            self.waiting.insert(id);
        }
    }

    /// Hands a response to the slot that waits for it. Returns whether one
    /// did; where none did the response is dropped.
    pub fn resolve(&mut self, response: Response) -> (delivered: bool)
        requires
            old(self)@.wf(),
        ensures
            delivered == old(self)@.waiting.contains(response.id),
            final(self)@ == old(self)@.resolve(response@),
            final(self)@.wf(),
    {
        let id = response.id;
        if self.waiting.remove(&id) {
            self.delivered.insert(id, response);
            assert(self@.delivered =~= old(self)@.delivered.insert(id, response@));
            true
        } else {
            assert(self@.waiting =~= old(self)@.waiting);
            false
        }
    }

    /// Looks into the slot of `id` for its caller, and empties it where it
    /// is ready.
    pub fn take(&mut self, id: CallId) -> (slot: Slot)
        requires
            old(self)@.wf(),
        ensures
            slot@ == old(self)@.slot(id),
            final(self)@ == old(self)@.take(id),
            final(self)@.wf(),
    {
        let slot = match self.delivered.remove(&id) {
            Some(response) => Slot::Ready(response),
            None => if self.waiting.contains(&id) {
                Slot::Waiting
            } else {
                Slot::Disconnected
            },
        };
        assert(self@.delivered =~= old(self)@.delivered.remove(id));
        slot
    }

    /// Removes the slot of `id`, whatever it holds: for a call that could
    /// not be sent, or whose caller no longer waits.
    pub fn abandon(&mut self, id: CallId)
        requires
            old(self)@.wf(),
        ensures
            final(self)@ == old(self)@.abandon(id),
            final(self)@.wf(),
    {
        self.waiting.remove(&id);
        self.delivered.remove(&id);
        assert(self@.delivered =~= old(self)@.delivered.remove(id));
        assert(Set::<CallId>::empty().remove(id) =~= Set::<CallId>::empty());
    }

    /// Fails every waiting slot for `reason`: their callers find them
    /// disconnected. Responses that came in before stay for their callers.
    pub fn fail_all(&mut self, reason: Fault)
        requires
            old(self)@.wf(),
        ensures
            final(self)@ == old(self)@.fail_all(reason@),
            final(self)@.wf(),
    {
        self.waiting.clear();
        if self.failure.is_none() {
            self.failure = Some(reason);
        }
    }

    /// Why the waiting slots were failed, once they were.
    pub fn failure(&self) -> (failure: Option<&Fault>)
        ensures
            match failure {
                Some(fault) => self@.failure == Some(fault@),
                None => self@.failure is None,
            },
    {
        self.failure.as_ref()
    }

    /// Whether `id` has a slot, waiting or ready.
    pub fn contains(&self, id: CallId) -> (found: bool)
        ensures
            found == self@.contains(id),
    {
        self.waiting.contains(&id) || self.delivered.contains_key(&id)
    }

    /// Whether the slot of `id` is waiting.
    pub fn is_waiting(&self, id: CallId) -> (waiting: bool)
        ensures
            waiting == self@.waiting.contains(id),
    {
        self.waiting.contains(&id)
    }

    /// The number of waiting slots.
    pub fn outstanding(&self) -> (count: usize)
        ensures
            count == self@.waiting.len(),
    {
        self.waiting.len()
    }
}

} // verus!
