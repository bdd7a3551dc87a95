//! The registry: three stores that only it writes, and the four calls that
//! keep them in agreement.

use crate::double_map::DoubleKeyStore;
use crate::kv_store::KeyValueStore;
use crate::state::{lemma_step_preserves_wf, RegistryState};
use crate::types::{event_of, AccountId, Call, Error, Event, GroupIndex, Score};
use vstd::prelude::*;

verus! {

broadcast use vstd::std_specs::hash::group_hash_axioms;

/// How the result of a call and the state after it follow from the state
/// before it. A call that is not rejected ends in the state that the call
/// leads to and reports the call's event; a rejected call reports its error
/// and leaves the state as it was.
pub open spec fn outcome(
    before: RegistryState,
    who: AccountId,
    call: Call,
    after: RegistryState,
    result: Result<Event, Error>,
) -> bool {
    match result {
        Ok(event) => {
            &&& before.rejection(who, call).is_none()
            &&& after == before.apply(who, call)
            &&& event == event_of(who, call)
        },
        Err(error) => {
            &&& before.rejection(who, call) == Some(error)
            &&& after == before
        },
    }
}

/// The members, their groups and their scores.
#[derive(Debug, PartialEq, Eq)]
pub struct Registry {
    members: Vec<AccountId>,
    groups: KeyValueStore<AccountId, GroupIndex>,
    scores: DoubleKeyStore<GroupIndex, AccountId, Score>,
}

impl Registry {
    /// The registry as a mathematical value.
    pub closed spec fn view(&self) -> RegistryState {
        RegistryState { members: self.members@, groups: self.groups@, scores: self.scores@ }
    }

    /// The stores agree with one another.
    pub open spec fn wf(&self) -> bool {
        self@.wf()
    }

    /// A registry without members.
    pub fn new() -> (r: Self)
        ensures
            r.wf(),
            r@ == RegistryState::empty(),
    {
        Registry { members: Vec::new(), groups: KeyValueStore::new(), scores: DoubleKeyStore::new() }
    }

    /// Where `who` stands in the list of members, if it is one.
    fn position(&self, who: AccountId) -> (at: Option<usize>)
        ensures
            at.is_some() == self@.is_member(who),
            at.is_some() ==> at.unwrap() < self@.members.len() && self@.members[at.unwrap() as int]
                == who,
    {
        let mut i: usize = 0;
        while i < self.members.len()
            invariant
                i <= self.members.len(),
                forall|j: int| 0 <= j < i ==> self.members@[j] != who,
            decreases self.members.len() - i,
        {
            if self.members[i] == who {
                return Some(i);
            }
            i += 1;
        }
        None
    }

    /// Whether `who` is a member.
    pub fn is_member(&self, who: AccountId) -> (b: bool)
        ensures
            b == self@.is_member(who),
    {
        self.position(who).is_some()
    }

    /// The members, in the order in which they joined.
    pub fn all_members(&self) -> (list: Vec<AccountId>)
        ensures
            list@ == self@.members,
    {
        let list = self.members.clone();
        assert(list@ =~= self.members@);
        list
    }

    /// Whether `who` has a group.
    pub fn has_group(&self, who: AccountId) -> (b: bool)
        ensures
            b == self@.groups.contains_key(who),
    {
        self.groups.contains(&who)
    }

    /// The group of `who`; zero where it has none.
    pub fn group_membership(&self, who: AccountId) -> (group: GroupIndex)
        ensures
            group == if self@.groups.contains_key(who) {
                self@.groups[who]
            } else {
                0
            },
    {
        self.groups.get_or(&who, 0)
    }

    /// Whether a score stands under the pair of `group` and `who`.
    pub fn has_score(&self, group: GroupIndex, who: AccountId) -> (b: bool)
        ensures
            b == self@.scores.contains_key((group, who)),
    {
        self.scores.contains(&group, &who)
    }

    /// The score under the pair of `group` and `who`; zero where there is none.
    pub fn member_score(&self, group: GroupIndex, who: AccountId) -> (score: Score)
        ensures
            score == if self@.scores.contains_key((group, who)) {
                self@.scores[(group, who)]
            } else {
                0
            },
    {
        self.scores.get_or(&group, &who, 0)
    }

    /// `who` becomes a member, unless it is one.
    pub fn join_all_members(&mut self, who: AccountId) -> (result: Result<Event, Error>)
        requires
            old(self).wf(),
        ensures
            final(self).wf(),
            outcome(old(self)@, who, Call::JoinAllMembers, final(self)@, result),
    {
        if self.is_member(who) {
            return Err(Error::AlreadyMember);
        }
        self.members.push(who);
        proof {
            lemma_step_preserves_wf(old(self)@, who, Call::JoinAllMembers);
        }
        Ok(Event::NewMember(who))
    }

    /// `who`, a member, takes a place in `group` with `score`. The score
    /// that it held in the group it was in before leaves the table, so that a
    /// member never holds two.
    pub fn join_a_group(&mut self, who: AccountId, group: GroupIndex, score: Score) -> (result:
        Result<Event, Error>)
        requires
            old(self).wf(),
        ensures
            final(self).wf(),
            outcome(old(self)@, who, Call::JoinAGroup(group, score), final(self)@, result),
    {
        if !self.is_member(who) {
            return Err(Error::NotAMember);
        }
        match self.groups.put(who, group) {
            Some(former) => {
                self.scores.remove(former, &who);
            },
            None => {},
        }
        self.scores.put(group, who, score);
        proof {
            lemma_step_preserves_wf(old(self)@, who, Call::JoinAGroup(group, score));
        }
        Ok(Event::MemberJoinsGroup(who, group, score))
    }

    /// `who`, a member, leaves: its entry in the list of members, its group
    /// and the one score that it holds there all go.
    pub fn remove_member(&mut self, who: AccountId) -> (result: Result<Event, Error>)
        requires
            old(self).wf(),
        ensures
            final(self).wf(),
            outcome(old(self)@, who, Call::RemoveMember, final(self)@, result),
    {
        let at = match self.position(who) {
            Some(at) => at,
            None => {
                return Err(Error::NotAMember);
            },
        };
        self.members.remove(at);
        match self.groups.remove(&who) {
            Some(group) => {
                self.scores.remove(group, &who);
            },
            None => {},
        }
        proof {
            assert(old(self)@.members.index_of(who) == at);
            lemma_step_preserves_wf(old(self)@, who, Call::RemoveMember);
        }
        Ok(Event::RemoveMember(who))
    }

    /// `who`, itself in `group`, clears every score of the group at once.
    /// The groups of the members stay as they are, those of the group's own
    /// members too: they are then in a group without a score.
    pub fn remove_group_score(&mut self, who: AccountId, group: GroupIndex) -> (result: Result<
        Event,
        Error,
    >)
        requires
            old(self).wf(),
        ensures
            final(self).wf(),
            outcome(old(self)@, who, Call::RemoveGroupScore(group), final(self)@, result),
    {
        let inside = match self.groups.get(&who) {
            Some(present) => *present == group,
            None => false,
        };
        if !inside {
            return Err(Error::NotInGroup);
        }
        self.scores.remove_all_with_primary(&group);
        proof {
            lemma_step_preserves_wf(old(self)@, who, Call::RemoveGroupScore(group));
        }
        Ok(Event::RemoveGroup(group))
    }

    /// Runs the call of `who`: validates it against the present state, and
    /// writes to the stores only where it is valid.
    pub fn dispatch(&mut self, who: AccountId, call: Call) -> (result: Result<Event, Error>)
        requires
            old(self).wf(),
        ensures
            final(self).wf(),
            outcome(old(self)@, who, call, final(self)@, result),
    {
        match call {
            Call::JoinAllMembers => self.join_all_members(who),
            Call::JoinAGroup(group, score) => self.join_a_group(who, group, score),
            Call::RemoveMember => self.remove_member(who),
            Call::RemoveGroupScore(group) => self.remove_group_score(who, group),
        }
    }
}

impl Clone for Registry {
    /// A second registry with the same members, groups and scores.
    fn clone(&self) -> (copy: Self)
        ensures
            copy@ == self@,
    {
        let members = self.members.clone();
        assert(members@ =~= self.members@);
        Registry { members, groups: self.groups.clone(), scores: self.scores.clone() }
    }
}

} // verus!
