use dsx::collections::registry_list::{
    push_front_plan, unlink_plan, walk_decision, walk_needs_link, SuccessorStore, WalkAction, WalkState,
};

#[test]
fn no_loom_test() {}

#[test]
fn unlink_middle_node_relinks_neighbours() {
    let plan = unlink_plan(Some(1u64), Some(3u64));
    assert!(matches!(plan.successor, SuccessorStore::PrevNext(1, Some(3))));
    assert!(matches!(plan.next_prev, Some((3, Some(1)))));
}

#[test]
fn unlink_head_moves_list_head() {
    let plan = unlink_plan(None, Some(2u64));
    assert!(matches!(plan.successor, SuccessorStore::Head(Some(2))));
    assert!(matches!(plan.next_prev, Some((2, None))));
}

#[test]
fn unlink_tail_clears_predecessor_link() {
    let plan = unlink_plan(Some(4u64), None);
    assert!(matches!(plan.successor, SuccessorStore::PrevNext(4, None)));
    assert!(plan.next_prev.is_none());
}

#[test]
fn unlink_only_node_empties_list() {
    let plan = unlink_plan::<u64>(None, None);
    assert!(matches!(plan.successor, SuccessorStore::Head(None)));
    assert!(plan.next_prev.is_none());
}

#[test]
fn push_front_links_old_head() {
    let plan = push_front_plan(Some(7u64));
    assert_eq!(plan.node_next, Some(7));
    assert_eq!(plan.old_head, Some(7));
    let empty = push_front_plan::<u64>(None);
    assert_eq!(empty.node_next, None);
    assert_eq!(empty.old_head, None);
}

#[test]
fn walk_yields_nodes_in_order_then_stops() {
    // links of the list 10 -> 20
    let next_of = |n: u64| if n == 10 { Some(20u64) } else { None };
    let mut state = WalkState { start: true, node: None };
    assert!(walk_needs_link(&state));

    let (s1, a1) = walk_decision(&state, Some(10u64));
    assert_eq!(s1.node, Some(10));
    assert!(matches!(a1, WalkAction::Enter(10, None)));
    state = s1;

    let link = next_of(state.node.unwrap());
    let (s2, a2) = walk_decision(&state, link);
    assert_eq!(s2.node, Some(20));
    assert!(matches!(a2, WalkAction::Enter(20, Some(10))));
    state = s2;

    let link = next_of(state.node.unwrap());
    let (s3, a3) = walk_decision(&state, link);
    assert_eq!(s3.node, None);
    assert!(matches!(a3, WalkAction::Release(20)));
    state = s3;

    assert!(!walk_needs_link(&state));
    let (s4, a4) = walk_decision(&state, Some(99u64));
    assert_eq!(s4.node, None);
    assert!(!s4.start);
    assert!(matches!(a4, WalkAction::Stop));
}

#[test]
fn walk_over_empty_list_stops_at_once() {
    let state: WalkState<u64> = WalkState { start: true, node: None };
    let (s, a) = walk_decision(&state, None);
    assert_eq!(s.node, None);
    assert!(!s.start);
    assert!(matches!(a, WalkAction::Stop));
    assert!(!walk_needs_link(&s));
}
