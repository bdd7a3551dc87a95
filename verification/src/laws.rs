//! What holds of the registry over several calls, stated over its
//! mathematical state and proved from what each call does to it.

use crate::state::{lemma_step_preserves_wf, RegistryState};
use crate::types::{event_of, AccountId, Call, Error, Event, GroupIndex, Score};
use vstd::prelude::*;

verus! {

/// Joining does not merge: where `who` is no member yet, its first request to
/// join is accepted and its second, made right after, is rejected as coming
/// from a member; after both, the list of members holds `who` exactly once.
pub proof fn lemma_join_twice(s: RegistryState, who: AccountId)
    requires
        s.wf(),
        !s.is_member(who),
    ensures
        s.rejection(who, Call::JoinAllMembers).is_none(),
        s.step(who, Call::JoinAllMembers).rejection(who, Call::JoinAllMembers) == Some(
            Error::AlreadyMember,
        ),
        s.step(who, Call::JoinAllMembers).step(who, Call::JoinAllMembers) == s.step(
            who,
            Call::JoinAllMembers,
        ),
        s.step(who, Call::JoinAllMembers).members.to_multiset().count(who) == 1,
{
    let t = s.step(who, Call::JoinAllMembers);
    assert(t.members[s.members.len() as int] == who);
    lemma_step_preserves_wf(s, who, Call::JoinAllMembers);
    t.members.lemma_multiset_has_no_duplicates();
    t.members.to_multiset_ensures();
}

/// A member that leaves is referred to nowhere: after its removal `who` is
/// no member, has no group, and holds no score under any group.
pub proof fn lemma_removed_member_leaves_nothing(s: RegistryState, who: AccountId)
    requires
        s.wf(),
        s.is_member(who),
    ensures
        s.rejection(who, Call::RemoveMember).is_none(),
        !s.step(who, Call::RemoveMember).is_member(who),
        !s.step(who, Call::RemoveMember).groups.contains_key(who),
        forall|group: GroupIndex| !#[trigger] s.step(who, Call::RemoveMember).scores.contains_key(
            (group, who),
        ),
{
    let t = s.step(who, Call::RemoveMember);
    let at = s.members.index_of(who);
    assert forall|j: int| 0 <= j < t.members.len() implies t.members[j] != who by {
        if j < at {
            assert(t.members[j] == s.members[j]);
        } else {
            assert(t.members[j] == s.members[j + 1]);
        }
    }
    assert forall|group: GroupIndex| !#[trigger] t.scores.contains_key((group, who)) by {
        if t.scores.contains_key((group, who)) {
            assert(s.scores.contains_key((group, who)));
        }
    }
}

/// A member that took a place in `group` with `score` and then left: both
/// calls are accepted, and after them `who` has no group and no score stands
/// under the pair of `group` and `who`.
pub proof fn lemma_assign_then_remove(
    s: RegistryState,
    who: AccountId,
    group: GroupIndex,
    score: Score,
)
    requires
        s.wf(),
        s.is_member(who),
    ensures
        s.rejection(who, Call::JoinAGroup(group, score)).is_none(),
        s.step(who, Call::JoinAGroup(group, score)).groups[who] == group,
        s.step(who, Call::JoinAGroup(group, score)).scores[(group, who)] == score,
        s.step(who, Call::JoinAGroup(group, score)).rejection(who, Call::RemoveMember).is_none(),
        !s.step(who, Call::JoinAGroup(group, score)).step(
            who,
            Call::RemoveMember,
        ).groups.contains_key(who),
        !s.step(who, Call::JoinAGroup(group, score)).step(
            who,
            Call::RemoveMember,
        ).scores.contains_key((group, who)),
{
    let t = s.step(who, Call::JoinAGroup(group, score));
    lemma_step_preserves_wf(s, who, Call::JoinAGroup(group, score));
    lemma_removed_member_leaves_nothing(t, who);
}

/// A member holds one score at most: two scores of one member stand under
/// one group.
pub proof fn lemma_one_score_per_member(
    s: RegistryState,
    who: AccountId,
    first: GroupIndex,
    second: GroupIndex,
)
    requires
        s.wf(),
        s.scores.contains_key((first, who)),
        s.scores.contains_key((second, who)),
    ensures
        first == second,
{
}

/// Clearing a group is bulk and scoped: once a member of `group` has cleared
/// it, no score stands under that group, whoever held it, and under every
/// other group each score stands as before. Members and groups stay as they
/// were.
pub proof fn lemma_group_clear_scoped(s: RegistryState, who: AccountId, group: GroupIndex)
    requires
        s.wf(),
        s.in_group(who, group),
    ensures
        s.rejection(who, Call::RemoveGroupScore(group)).is_none(),
        forall|member: AccountId| !#[trigger] s.step(
            who,
            Call::RemoveGroupScore(group),
        ).scores.contains_key((group, member)),
        forall|other: GroupIndex, member: AccountId|
            other != group ==> (#[trigger] s.step(
                who,
                Call::RemoveGroupScore(group),
            ).scores.contains_key((other, member)) == s.scores.contains_key((other, member))),
        forall|other: GroupIndex, member: AccountId|
            other != group && s.scores.contains_key((other, member)) ==> #[trigger] s.step(
                who,
                Call::RemoveGroupScore(group),
            ).scores[(other, member)] == s.scores[(other, member)],
        s.step(who, Call::RemoveGroupScore(group)).members == s.members,
        s.step(who, Call::RemoveGroupScore(group)).groups == s.groups,
{
}

/// Only an insider clears a group: the request is rejected exactly where the
/// caller's present group is not `group`, and so whenever the caller is no
/// member. A rejected request leaves the state as it was.
pub proof fn lemma_group_clear_needs_insider(s: RegistryState, who: AccountId, group: GroupIndex)
    requires
        s.wf(),
    ensures
        s.rejection(who, Call::RemoveGroupScore(group)) == Some(Error::NotInGroup) <==> !s.in_group(
            who,
            group,
        ),
        s.rejection(who, Call::RemoveGroupScore(group)).is_none() <==> s.in_group(who, group),
        !s.is_member(who) ==> s.rejection(who, Call::RemoveGroupScore(group)) == Some(
            Error::NotInGroup,
        ),
        !s.in_group(who, group) ==> s.step(who, Call::RemoveGroupScore(group)) == s,
{
}

/// The log after a run of calls, each made by its caller in turn from the
/// state `s`: a call that is accepted adds its event, a rejected one nothing.
pub open spec fn log_of(s: RegistryState, calls: Seq<(AccountId, Call)>) -> Seq<Event>
    decreases calls.len(),
{
    if calls.len() == 0 {
        Seq::empty()
    } else {
        let (who, call) = calls.last();
        let before = calls.drop_last();
        if run(s, before).rejection(who, call).is_none() {
            log_of(s, before).push(event_of(who, call))
        } else {
            log_of(s, before)
        }
    }
}

/// The state after a run of calls, each made by its caller in turn from the
/// state `s`.
pub open spec fn run(s: RegistryState, calls: Seq<(AccountId, Call)>) -> RegistryState
    decreases calls.len(),
{
    if calls.len() == 0 {
        s
    } else {
        run(s, calls.drop_last()).step(calls.last().0, calls.last().1)
    }
}

/// The calls of a run that were accepted, in their order.
pub open spec fn accepted(s: RegistryState, calls: Seq<(AccountId, Call)>) -> Seq<
    (AccountId, Call),
>
    decreases calls.len(),
{
    if calls.len() == 0 {
        Seq::empty()
    } else {
        let before = calls.drop_last();
        if run(s, before).rejection(calls.last().0, calls.last().1).is_none() {
            accepted(s, before).push(calls.last())
        } else {
            accepted(s, before)
        }
    }
}

/// One event for each call that succeeds: the log of a run holds as many
/// events as the run has accepted calls, and the event at each place is the
/// one that carries the caller and the arguments of the accepted call at
/// that place.
pub proof fn lemma_one_event_per_success(s: RegistryState, calls: Seq<(AccountId, Call)>)
    ensures
        log_of(s, calls).len() == accepted(s, calls).len(),
        forall|i: int|
            0 <= i < accepted(s, calls).len() ==> #[trigger] log_of(s, calls)[i] == event_of(
                accepted(s, calls)[i].0,
                accepted(s, calls)[i].1,
            ),
    decreases calls.len(),
{
    if calls.len() > 0 {
        lemma_one_event_per_success(s, calls.drop_last());
    }
}

/// Every state that a run of calls reaches from a well-formed state is well
/// formed.
pub proof fn lemma_run_preserves_wf(s: RegistryState, calls: Seq<(AccountId, Call)>)
    requires
        s.wf(),
    ensures
        run(s, calls).wf(),
    decreases calls.len(),
{
    if calls.len() > 0 {
        lemma_run_preserves_wf(s, calls.drop_last());
        lemma_step_preserves_wf(run(s, calls.drop_last()), calls.last().0, calls.last().1);
    }
}

} // verus!
