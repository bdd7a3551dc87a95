//! A host in memory: one registry, and the log of the events that its calls
//! reported. Calls run one at a time, each to its end.

use crate::registry::Registry;
use crate::state::RegistryState;
use crate::types::{event_of, AccountId, Call, Error, Event, GroupIndex, Score};
use vstd::prelude::*;

verus! {

/// A registry together with the ordered log of what it reported.
#[derive(Debug, PartialEq, Eq)]
pub struct TestRuntime {
    registry: Registry,
    events: Vec<Event>,
}

/// How a call of `origin` changes registry and log. A call that is accepted
/// leads the registry on and adds one event to the end of the log: the event
/// that carries the call's arguments. A call that is rejected changes neither.
pub open spec fn dispatched(
    state: RegistryState,
    log: Seq<Event>,
    origin: AccountId,
    call: Call,
    next_state: RegistryState,
    next_log: Seq<Event>,
    result: Result<(), Error>,
) -> bool {
    match result {
        Ok(_) => {
            &&& state.rejection(origin, call).is_none()
            &&& next_state == state.apply(origin, call)
            &&& next_log == log.push(event_of(origin, call))
        },
        Err(error) => {
            &&& state.rejection(origin, call) == Some(error)
            &&& next_state == state
            &&& next_log == log
        },
    }
}

impl TestRuntime {
    /// The registry's stores as a mathematical value.
    pub closed spec fn state(&self) -> RegistryState {
        self.registry@
    }

    /// The events reported so far, oldest first.
    pub closed spec fn log(&self) -> Seq<Event> {
        self.events@
    }

    /// The registry's stores agree with one another.
    pub open spec fn wf(&self) -> bool {
        self.state().wf()
    }

    /// A host with an empty registry and an empty log.
    pub fn new() -> (rt: Self)
        ensures
            rt.wf(),
            rt.state() == RegistryState::empty(),
            rt.log() == Seq::<Event>::empty(),
    {
        TestRuntime { registry: Registry::new(), events: Vec::new() }
    }

    /// The registry, to ask it what it holds.
    pub fn registry(&self) -> (r: &Registry)
        ensures
            r@ == self.state(),
            r.wf() == self.wf(),
    {
        &self.registry
    }

    /// The events reported so far, oldest first.
    pub fn events(&self) -> (log: &Vec<Event>)
        ensures
            log@ == self.log(),
    {
        &self.events
    }

    /// Runs the call of `origin` on the registry and, where it succeeds,
    /// writes its event to the log.
    pub fn dispatch(&mut self, origin: AccountId, call: Call) -> (result: Result<(), Error>)
        requires
            old(self).wf(),
        ensures
            final(self).wf(),
            dispatched(
                old(self).state(),
                old(self).log(),
                origin,
                call,
                final(self).state(),
                final(self).log(),
                result,
            ),
    {
        match self.registry.dispatch(origin, call) {
            Ok(event) => {
                self.events.push(event);
                Ok(())
            },
            Err(error) => Err(error),
        }
    }

    /// `origin` asks to become a member.
    pub fn join_all_members(&mut self, origin: AccountId) -> (result: Result<(), Error>)
        requires
            old(self).wf(),
        ensures
            final(self).wf(),
            dispatched(
                old(self).state(),
                old(self).log(),
                origin,
                Call::JoinAllMembers,
                final(self).state(),
                final(self).log(),
                result,
            ),
    {
        self.dispatch(origin, Call::JoinAllMembers)
    }

    /// `origin` asks for a place in `group`, with `score`.
    pub fn join_a_group(&mut self, origin: AccountId, group: GroupIndex, score: Score) -> (result:
        Result<(), Error>)
        requires
            old(self).wf(),
        ensures
            final(self).wf(),
            dispatched(
                old(self).state(),
                old(self).log(),
                origin,
                Call::JoinAGroup(group, score),
                final(self).state(),
                final(self).log(),
                result,
            ),
    {
        self.dispatch(origin, Call::JoinAGroup(group, score))
    }

    /// `origin` asks to leave.
    pub fn remove_member(&mut self, origin: AccountId) -> (result: Result<(), Error>)
        requires
            old(self).wf(),
        ensures
            final(self).wf(),
            dispatched(
                old(self).state(),
                old(self).log(),
                origin,
                Call::RemoveMember,
                final(self).state(),
                final(self).log(),
                result,
            ),
    {
        self.dispatch(origin, Call::RemoveMember)
    }

    /// `origin` asks to clear every score of `group`.
    pub fn remove_group_score(&mut self, origin: AccountId, group: GroupIndex) -> (result: Result<
        (),
        Error,
    >)
        requires
            old(self).wf(),
        ensures
            final(self).wf(),
            dispatched(
                old(self).state(),
                old(self).log(),
                origin,
                Call::RemoveGroupScore(group),
                final(self).state(),
                final(self).log(),
                result,
            ),
    {
        self.dispatch(origin, Call::RemoveGroupScore(group))
    }
}

impl Clone for TestRuntime {
    /// A second host in the same state, with the same log.
    fn clone(&self) -> (copy: Self)
        ensures
            copy.state() == self.state(),
            copy.log() == self.log(),
            copy.wf() == self.wf(),
    {
        let events = self.events.clone();
        assert(events@ =~= self.events@);
        TestRuntime { registry: self.registry.clone(), events }
    }
}

/// Builds the host that a run starts from.
pub struct ExternalityBuilder;

impl ExternalityBuilder {
    /// A host with nothing stored and nothing reported.
    pub fn build() -> (rt: TestRuntime)
        ensures
            rt.wf(),
            rt.state() == RegistryState::empty(),
            rt.log() == Seq::<Event>::empty(),
    {
        TestRuntime::new()
    }
}

} // verus!
