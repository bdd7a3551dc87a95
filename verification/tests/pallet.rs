use double_map::registry::Registry;
use double_map::runtime::{ExternalityBuilder, TestRuntime};
use double_map::types::{Error, Event};

fn assert_ok(result: Result<(), Error>) {
    assert_eq!(result, Ok(()));
}

fn assert_noop(rt: &TestRuntime, before: &TestRuntime, result: Result<(), Error>, text: &str) {
    match result {
        Ok(()) => panic!("the call was accepted"),
        Err(error) => assert_eq!(error.message(), text),
    }
    assert_eq!(rt, before);
}

#[test]
fn join_all_members_works() {
    let mut rt = ExternalityBuilder::build();
    assert_ok(rt.join_all_members(1));
    // an existing member that tries to join is turned away
    let before = rt.clone();
    let result = rt.join_all_members(1);
    assert_noop(&rt, &before, result, "already a member, can't join");

    // correct event emission
    let expected_event = Event::NewMember(1);

    assert_eq!(rt.events()[0], expected_event);
    // correct storage changes
    assert_eq!(rt.registry().all_members(), vec![1]);
}

#[test]
fn group_join_works() {
    let mut rt = ExternalityBuilder::build();
    // expected rejection
    let before = rt.clone();
    let result = rt.join_a_group(1, 3, 5);
    assert_noop(&rt, &before, result, "not a member, can't remove");

    assert_ok(rt.join_all_members(1));
    assert_ok(rt.join_a_group(1, 3, 5));

    // correct event emission
    let expected_event = Event::MemberJoinsGroup(1, 3, 5);

    assert_eq!(rt.events()[1], expected_event);

    // correct storage changes
    assert_eq!(rt.registry().group_membership(1), 3);
    assert_eq!(rt.registry().member_score(3, 1), 5);
}

#[test]
fn remove_member_works() {
    let mut rt = ExternalityBuilder::build();
    // action: user 1 joins
    assert_ok(rt.join_all_members(1));
    // action: user 1 joins group 3 with score 5
    assert_ok(rt.join_a_group(1, 3, 5));
    // action: remove user 1
    assert_ok(rt.remove_member(1));

    // check: correct event emitted
    let expected_event = Event::RemoveMember(1);

    assert_eq!(rt.events()[2], expected_event);

    // check: user 1 should no longer belong to group 3
    assert!(!rt.registry().has_group(1));
    assert!(!rt.registry().has_score(3, 1));
}

#[test]
fn remove_group_score_works() {
    let mut rt = ExternalityBuilder::build();
    assert_ok(rt.join_all_members(1));
    assert_ok(rt.join_all_members(2));
    assert_ok(rt.join_all_members(3));
    assert_ok(rt.join_a_group(1, 3, 5));
    assert_ok(rt.join_a_group(2, 3, 5));
    assert_ok(rt.join_a_group(3, 3, 5));

    let before = rt.clone();
    let result = rt.remove_group_score(4, 3);
    assert_noop(&rt, &before, result, "member isn't in the group, can't remove it");

    let before = rt.clone();
    let result = rt.remove_group_score(1, 2);
    assert_noop(&rt, &before, result, "member isn't in the group, can't remove it");

    assert_ok(rt.remove_group_score(1, 3));

    // correct event emitted
    let expected_event = Event::RemoveGroup(3);

    assert_eq!(rt.events()[6], expected_event);

    // check: user 1, 2, 3 should no longer be in the group
    assert!(!rt.registry().has_score(3, 1));
    assert!(!rt.registry().has_score(3, 2));
    assert!(!rt.registry().has_score(3, 3));
}

#[test]
fn new_registry_is_empty() {
    let registry = Registry::new();
    assert_eq!(registry.all_members(), Vec::<u64>::new());
    assert!(!registry.is_member(1));
    assert!(!registry.has_group(1));
    assert!(!registry.has_score(0, 1));
    assert_eq!(registry.group_membership(1), 0);
    assert_eq!(registry.member_score(0, 1), 0);
}
