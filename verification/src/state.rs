//! The registry as a mathematical value, and what each call does to it.

use crate::double_map::without_primary;
use crate::types::{AccountId, Call, Error, GroupIndex, Score};
use vstd::prelude::*;

verus! {

/// The three stores of the registry, as plain mathematical values.
pub ghost struct RegistryState {
    /// The members, in the order in which they joined.
    pub members: Seq<AccountId>,
    /// Each member's group, for the members that have one.
    pub groups: Map<AccountId, GroupIndex>,
    /// The scores, under the pair of group and member.
    pub scores: Map<(GroupIndex, AccountId), Score>,
}

impl RegistryState {
    /// The state with nothing in it.
    pub open spec fn empty() -> RegistryState {
        RegistryState { members: Seq::empty(), groups: Map::empty(), scores: Map::empty() }
    }

    /// Whether `who` is a member.
    pub open spec fn is_member(self, who: AccountId) -> bool {
        self.members.contains(who)
    }

    /// Whether `who` is at present in `group`.
    pub open spec fn in_group(self, who: AccountId, group: GroupIndex) -> bool {
        self.groups.contains_key(who) && self.groups[who] == group
    }

    /// The stores agree with one another: no member is listed twice, only
    /// members have a group, and a score stands only under the group that its
    /// member is in. So a member has one score at most.
    pub open spec fn wf(self) -> bool {
        &&& self.members.no_duplicates()
        &&& forall|who: AccountId| #[trigger]
            self.groups.contains_key(who) ==> self.is_member(who)
        &&& forall|group: GroupIndex, who: AccountId| #[trigger]
            self.scores.contains_key((group, who)) ==> self.in_group(who, group)
    }

    /// What is decided before anything is written: the error with which the
    /// call of `who` is rejected, or none.
    pub open spec fn rejection(self, who: AccountId, call: Call) -> Option<Error> {
        match call {
            Call::JoinAllMembers => if self.is_member(who) {
                Some(Error::AlreadyMember)
            } else {
                None
            },
            Call::JoinAGroup(_, _) | Call::RemoveMember => if self.is_member(who) {
                None
            } else {
                Some(Error::NotAMember)
            },
            Call::RemoveGroupScore(group) => if self.in_group(who, group) {
                None
            } else {
                Some(Error::NotInGroup)
            },
        }
    }

    /// The scores without the one that `who` holds in its present group.
    pub open spec fn scores_without(self, who: AccountId) -> Map<(GroupIndex, AccountId), Score> {
        if self.groups.contains_key(who) {
            self.scores.remove((self.groups[who], who))
        } else {
            self.scores
        }
    }

    /// The state after a call of `who` that was not rejected.
    pub open spec fn apply(self, who: AccountId, call: Call) -> RegistryState {
        match call {
            Call::JoinAllMembers => RegistryState { members: self.members.push(who), ..self },
            Call::JoinAGroup(group, score) => RegistryState {
                members: self.members,
                groups: self.groups.insert(who, group),
                scores: self.scores_without(who).insert((group, who), score),
            },
            Call::RemoveMember => RegistryState {
                members: self.members.remove(self.members.index_of(who)),
                groups: self.groups.remove(who),
                scores: self.scores_without(who),
            },
            Call::RemoveGroupScore(group) => RegistryState {
                scores: without_primary(self.scores, group),
                ..self
            },
        }
    }

    /// The state after a call of `who`, rejected or not: a rejected call
    /// leaves every store as it was.
    pub open spec fn step(self, who: AccountId, call: Call) -> RegistryState {
        if self.rejection(who, call).is_none() {
            self.apply(who, call)
        } else {
            self
        }
    }
}

/// Every call keeps the stores in agreement: from a state that is well
/// formed, the state after the call, rejected or not, is well formed too.
pub proof fn lemma_step_preserves_wf(s: RegistryState, who: AccountId, call: Call)
    requires
        s.wf(),
    ensures
        s.step(who, call).wf(),
{
    let t = s.step(who, call);
    if s.rejection(who, call).is_none() {
        match call {
            Call::JoinAllMembers => {
                assert forall|w: AccountId| #[trigger] t.groups.contains_key(w) implies t.is_member(
                    w,
                ) by {
                    let i = choose|i: int| 0 <= i < s.members.len() && s.members[i] == w;
                    assert(t.members[i] == w);
                }
            },
            Call::JoinAGroup(group, score) => {
                assert forall|g: GroupIndex, w: AccountId| #[trigger]
                    t.scores.contains_key((g, w)) implies t.in_group(w, g) by {
                    if w != who {
                        assert(s.scores.contains_key((g, w)));
                    } else if g != group {
                        assert(s.scores.contains_key((g, w)));
                    }
                }
            },
            Call::RemoveMember => {
                let i = s.members.index_of(who);
                assert forall|w: AccountId| #[trigger] t.groups.contains_key(w) implies t.is_member(
                    w,
                ) by {
                    assert(s.groups.contains_key(w));
                    let j = choose|j: int| 0 <= j < s.members.len() && s.members[j] == w;
                    if j < i {
                        assert(t.members[j] == w);
                    } else {
                        assert(t.members[j - 1] == w);
                    }
                }
                assert forall|g: GroupIndex, w: AccountId| #[trigger]
                    t.scores.contains_key((g, w)) implies t.in_group(w, g) by {
                    assert(s.scores.contains_key((g, w)));
                }
            },
            Call::RemoveGroupScore(group) => {
                assert forall|g: GroupIndex, w: AccountId| #[trigger]
                    t.scores.contains_key((g, w)) implies t.in_group(w, g) by {
                    assert(s.scores.contains_key((g, w)));
                }
            },
        }
    }
}

} // verus!
