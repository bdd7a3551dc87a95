//! The identifiers, calls, events and errors of the registry.

use vstd::prelude::*;

verus! {

/// The identity of a caller, already authenticated by the host.
pub type AccountId = u64;

/// The identity of a group: the primary key of the score table.
pub type GroupIndex = u32;

/// A member's score within its group.
pub type Score = u32;

/// A request to the registry. The caller's identity travels beside it.
#[derive(Clone, Copy, Debug, PartialEq, Eq, Structural)]
pub enum Call {
    /// The caller becomes a member.
    JoinAllMembers,
    /// The caller, a member, takes a place in the group with the score.
    JoinAGroup(GroupIndex, Score),
    /// The caller, a member, leaves, with all that refers to it.
    RemoveMember,
    /// The caller, itself in the group, clears every score of the group.
    RemoveGroupScore(GroupIndex),
}

/// What the registry reports of a call that succeeded.
#[derive(Clone, Copy, Debug, PartialEq, Eq, Structural)]
pub enum Event {
    /// A new member joined.
    NewMember(AccountId),
    /// A member took a place in a group, with a score.
    MemberJoinsGroup(AccountId, GroupIndex, Score),
    /// A member left.
    RemoveMember(AccountId),
    /// Every score of a group was cleared.
    RemoveGroup(GroupIndex),
}

/// Why a call was rejected. Each is decided by the state before the call
/// alone, and a rejected call changes nothing.
#[derive(Clone, Copy, Debug, PartialEq, Eq, Structural)]
pub enum Error {
    /// The caller asked to join and is a member already.
    AlreadyMember,
    /// The caller is no member.
    NotAMember,
    /// The caller is not in the group that it asked to clear.
    NotInGroup,
}

impl Error {
    /// The text that goes with each error.
    pub open spec fn spec_message(self) -> Seq<char> {
        match self {
            Error::AlreadyMember => "already a member, can't join"@,
            Error::NotAMember => "not a member, can't remove"@,
            Error::NotInGroup => "member isn't in the group, can't remove it"@,
        }
    }

    /// The text that goes with the error.
    pub fn message(&self) -> (text: &'static str)
        ensures
            text@ == self.spec_message(),
    {
        match self {
            Error::AlreadyMember => "already a member, can't join",
            Error::NotAMember => "not a member, can't remove",
            Error::NotInGroup => "member isn't in the group, can't remove it",
        }
    }
}

/// The event that a successful call of `who` emits: it carries the caller
/// and the call's own arguments, as far as the event has a place for them.
pub open spec fn event_of(who: AccountId, call: Call) -> Event {
    match call {
        Call::JoinAllMembers => Event::NewMember(who),
        Call::JoinAGroup(group, score) => Event::MemberJoinsGroup(who, group, score),
        Call::RemoveMember => Event::RemoveMember(who),
        Call::RemoveGroupScore(group) => Event::RemoveGroup(group),
    }
}

} // verus!
