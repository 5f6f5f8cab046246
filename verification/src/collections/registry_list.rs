use vstd::prelude::*;

verus! {

/// The links of an intrusive doubly linked list: the head, and each node's
/// next and previous node.
#[verifier::reject_recursive_types(N)]
pub struct LinkState<N> {
    pub head: Option<N>,
    pub next: Map<N, Option<N>>,
    pub prev: Map<N, Option<N>>,
}

/// Whether the links `st` chain the nodes `s` in order, each node once.
pub open spec fn represents<N>(st: LinkState<N>, s: Seq<N>) -> bool {
    &&& st.head == (if s.len() == 0 { None } else { Some(s[0]) })
    &&& s.no_duplicates()
    &&& forall|i: int|
        0 <= i < s.len() ==> #[trigger] st.next.dom().contains(s[i]) && st.next[s[i]] == (if i + 1 < s.len() {
            Some(s[i + 1])
        } else {
            None
        })
    &&& forall|i: int|
        0 <= i < s.len() ==> #[trigger] st.prev.dom().contains(s[i]) && st.prev[s[i]] == (if i > 0 {
            Some(s[i - 1])
        } else {
            None
        })
}

/// Where unlinking a node stores its successor: into the list head, or
/// into the next link of its predecessor.
#[derive(Debug)]
pub enum SuccessorStore<N> {
    Head(Option<N>),
    PrevNext(N, Option<N>),
}

/// The stores that unlink a node whose links are `prev` and `next`.
#[derive(Debug)]
pub struct UnlinkPlan<N> {
    /// Where the node's successor goes.
    pub successor: SuccessorStore<N>,
    /// The successor, if any, and the predecessor it gets as its previous node.
    pub next_prev: Option<(N, Option<N>)>,
}

/// The stores that put a node at the front of a list whose head is `head`.
#[derive(Debug)]
pub struct PushFrontPlan<N> {
    /// The node's next link.
    pub node_next: Option<N>,
    /// The old head, whose previous link becomes the node.
    pub old_head: Option<N>,
}

/// The plan of `unlink_plan`.
pub open spec fn unlink_step<N>(prev: Option<N>, next: Option<N>) -> UnlinkPlan<N> {
    UnlinkPlan {
        successor: match prev {
            Some(p) => SuccessorStore::PrevNext(p, next),
            None => SuccessorStore::Head(next),
        },
        next_prev: match next {
            Some(n) => Some((n, prev)),
            None => None,
        },
    }
}

/// The links after carrying out `plan` for `node` and clearing the node's own links.
pub open spec fn apply_unlink<N>(st: LinkState<N>, node: N, plan: UnlinkPlan<N>) -> LinkState<N> {
    let st1 = match plan.successor {
        SuccessorStore::Head(h) => LinkState { head: h, next: st.next, prev: st.prev },
        SuccessorStore::PrevNext(p, n) => LinkState { head: st.head, next: st.next.insert(p, n), prev: st.prev },
    };
    let st2 = match plan.next_prev {
        Some((n, p)) => LinkState { head: st1.head, next: st1.next, prev: st1.prev.insert(n, p) },
        None => st1,
    };
    LinkState { head: st2.head, next: st2.next.insert(node, None), prev: st2.prev.insert(node, None) }
}

/// The links after carrying out `plan` for `node`.
pub open spec fn apply_push_front<N>(st: LinkState<N>, node: N, plan: PushFrontPlan<N>) -> LinkState<N> {
    let prev = match plan.old_head {
        Some(h) => st.prev.insert(h, Some(node)),
        None => st.prev,
    };
    LinkState { head: Some(node), next: st.next.insert(node, plan.node_next), prev: prev.insert(node, None) }
}

/// The stores that unlink a node whose previous node is `prev` and whose next
/// node is `next`.
pub fn unlink_plan<N: Copy>(prev: Option<N>, next: Option<N>) -> (r: UnlinkPlan<N>)
    ensures
        r == unlink_step(prev, next),
{
    let successor = match prev {
        Some(p) => SuccessorStore::PrevNext(p, next),
        None => SuccessorStore::Head(next),
    };
    let next_prev = match next {
        Some(n) => Some((n, prev)),
        None => None,
    };
    UnlinkPlan { successor, next_prev }
}

/// The stores that put a node at the front of a list whose head is `head`.
pub fn push_front_plan<N: Copy>(head: Option<N>) -> (r: PushFrontPlan<N>)
    ensures
        r == (PushFrontPlan { node_next: head, old_head: head }),
{
    PushFrontPlan { node_next: head, old_head: head }
}

/// Unlinking the `k`-th node with the links it records leaves links that
/// chain the other nodes in their order.
pub proof fn law_unlink<N>(st: LinkState<N>, s: Seq<N>, k: int)
    requires
        represents(st, s),
        0 <= k < s.len(),
    ensures
        represents(
            apply_unlink(st, s[k], unlink_step(st.prev[s[k]], st.next[s[k]])),
            s.remove(k),
        ),
{
    let node = s[k];
    let t = s.remove(k);
    let r = apply_unlink(st, node, unlink_step(st.prev[node], st.next[node]));
    assert(st.next.dom().contains(s[k]));
    assert(st.prev.dom().contains(s[k]));
    assert forall|i: int| 0 <= i < t.len() implies t[i] != node by {
        if i < k {
            assert(t[i] == s[i]);
        } else {
            assert(t[i] == s[i + 1]);
        }
    }
    assert(t.no_duplicates()) by {
        assert forall|i: int, j: int| 0 <= i < t.len() && 0 <= j < t.len() && i != j implies t[i] != t[j] by {
            let si = if i < k { i } else { i + 1 };
            let sj = if j < k { j } else { j + 1 };
            assert(t[i] == s[si]);
            assert(t[j] == s[sj]);
        }
    }
    assert forall|i: int| 0 <= i < t.len() implies #[trigger] r.next.dom().contains(t[i]) && r.next[t[i]] == (
    if i + 1 < t.len() {
        Some(t[i + 1])
    } else {
        None
    }) by {
        let si = if i < k { i } else { i + 1 };
        assert(t[i] == s[si]);
        assert(st.next.dom().contains(s[si]));
        if i + 1 < t.len() {
            let sj = if i + 1 < k { i + 1 } else { i + 2 };
            assert(t[i + 1] == s[sj]);
        }
        if si == k - 1 {
            assert(s[si] == st.prev[node]->0);
        } else {
            assert(s[si] != s[k - 1] || k == 0);
        }
    }
    assert forall|i: int| 0 <= i < t.len() implies #[trigger] r.prev.dom().contains(t[i]) && r.prev[t[i]] == (
    if i > 0 {
        Some(t[i - 1])
    } else {
        None
    }) by {
        let si = if i < k { i } else { i + 1 };
        assert(t[i] == s[si]);
        assert(st.prev.dom().contains(s[si]));
        if i > 0 {
            let sj = if i - 1 < k { i - 1 } else { i };
            assert(t[i - 1] == s[sj]);
        }
        if si == k + 1 {
            assert(s[si] == st.next[node]->0);
        } else {
            assert(s[si] != s[k + 1] || k + 1 >= s.len());
        }
    }
    if k == 0 {
        assert(st.prev[node] is None);
        if s.len() > 1 {
            assert(t[0] == s[1]);
            assert(r.head == Some(t[0]));
        } else {
            assert(r.head is None);
        }
    } else {
        assert(st.prev[node] == Some(s[k - 1]));
        assert(t[0] == s[0]);
        assert(r.head == Some(t[0]));
    }
    assert(r.head == (if t.len() == 0 { None } else { Some(t[0]) }));
    assert(t.no_duplicates());
    assert(forall|i: int| 0 <= i < t.len() ==> #[trigger] r.next.dom().contains(t[i]) && r.next[t[i]] == (if i + 1 < t.len() { Some(t[i + 1]) } else { None }));
    assert(forall|i: int| 0 <= i < t.len() ==> #[trigger] r.prev.dom().contains(t[i]) && r.prev[t[i]] == (if i > 0 { Some(t[i - 1]) } else { None }));
    assert(represents(r, t));
}

/// Pushing a node that is not in the list to the front leaves links that
/// chain it followed by the old nodes in their order.
pub proof fn law_push_front<N>(st: LinkState<N>, s: Seq<N>, node: N)
    requires
        represents(st, s),
        !s.contains(node),
    ensures
        represents(apply_push_front(st, node, PushFrontPlan { node_next: st.head, old_head: st.head }), seq![node] + s),
{
    let t = seq![node] + s;
    let r = apply_push_front(st, node, PushFrontPlan { node_next: st.head, old_head: st.head });
    assert forall|i: int| 0 <= i < s.len() implies s[i] != node by {
        assert(s.contains(s[i]));
    }
    assert(t.no_duplicates()) by {
        assert forall|i: int, j: int| 0 <= i < t.len() && 0 <= j < t.len() && i != j implies t[i] != t[j] by {
            if i > 0 {
                assert(t[i] == s[i - 1]);
            }
            if j > 0 {
                assert(t[j] == s[j - 1]);
            }
        }
    }
    assert forall|i: int| 0 <= i < t.len() implies #[trigger] r.next.dom().contains(t[i]) && r.next[t[i]] == (
    if i + 1 < t.len() {
        Some(t[i + 1])
    } else {
        None
    }) by {
        if i > 0 {
            assert(t[i] == s[i - 1]);
            assert(st.next.dom().contains(s[i - 1]));
            if i + 1 < t.len() {
                assert(t[i + 1] == s[i]);
            }
        } else if t.len() > 1 {
            assert(t[1] == s[0]);
        }
    }
    assert forall|i: int| 0 <= i < t.len() implies #[trigger] r.prev.dom().contains(t[i]) && r.prev[t[i]] == (
    if i > 0 {
        Some(t[i - 1])
    } else {
        None
    }) by {
        if i > 0 {
            assert(t[i] == s[i - 1]);
            assert(st.prev.dom().contains(s[i - 1]));
            if i > 1 {
                assert(t[i - 1] == s[i - 2]);
            }
        }
    }
}

/// Where a list walk stands: before its first step, at a node, or done.
#[derive(Debug)]
pub struct WalkState<N> {
    /// The walk has not taken its first step.
    pub start: bool,
    /// The node the walk stands at (and holds a read lock on).
    pub node: Option<N>,
}

/// The lock work of one walk step.
#[derive(Debug)]
pub enum WalkAction<N> {
    /// Nothing to lock or release.
    Stop,
    /// Release the node the walk stood at.
    Release(N),
    /// Lock the new node, then release the old one, if any.
    Enter(N, Option<N>),
}

/// One step of a walk standing at `state`, where `link` is the list head on
/// the first step and the current node's next link afterwards: the new state
/// (whose node is what the step yields) and the lock work.
pub open spec fn walk_step<N>(start: bool, node: Option<N>, link: Option<N>) -> (WalkState<N>, WalkAction<N>) {
    if node is None && !start {
        (WalkState { start: false, node: None }, WalkAction::Stop)
    } else if start {
        match link {
            Some(h) => (WalkState { start: false, node: Some(h) }, WalkAction::Enter(h, None)),
            None => (WalkState { start: false, node: None }, WalkAction::Stop),
        }
    } else {
        match link {
            Some(n) => (WalkState { start: false, node: Some(n) }, WalkAction::Enter(n, node)),
            None => (WalkState { start: false, node: None }, WalkAction::Release(node->0)),
        }
    }
}

/// Whether a walk at `state` needs a link to take its next step.
pub fn walk_needs_link<N>(state: &WalkState<N>) -> (r: bool)
    ensures
        r == (state.start || state.node is Some),
{
    state.start || state.node.is_some()
}

/// One step of a walk at `state` given the link it read.
pub fn walk_decision<N: Copy>(state: &WalkState<N>, link: Option<N>) -> (r: (WalkState<N>, WalkAction<N>))
    ensures
        r == walk_step(state.start, state.node, link),
{
    if state.node.is_none() && !state.start {
        return (WalkState { start: false, node: None }, WalkAction::Stop);
    }
    if state.start {
        match link {
            Some(h) => (WalkState { start: false, node: Some(h) }, WalkAction::Enter(h, None)),
            None => (WalkState { start: false, node: None }, WalkAction::Stop),
        }
    } else {
        match link {
            Some(n) => (WalkState { start: false, node: Some(n) }, WalkAction::Enter(n, state.node)),
            None => {
                let current = match state.node {
                    Some(c) => c,
                    None => {
                        return (WalkState { start: false, node: None }, WalkAction::Stop);
                    },
                };
                (WalkState { start: false, node: None }, WalkAction::Release(current))
            },
        }
    }
}

/// A walk over links that chain `s` yields `s` in order and then stays done:
/// its first step yields the first node, a step from the `i`-th node yields
/// the next one (releasing the `i`-th) or finishes, and a finished walk does nothing.
pub proof fn law_walk_in_order<N>(st: LinkState<N>, s: Seq<N>, i: int)
    requires
        represents(st, s),
        0 <= i < s.len(),
    ensures
        walk_step(true, None, st.head).0.node == (if s.len() == 0 { None } else { Some(s[0]) }),
        i + 1 < s.len() ==> walk_step(false, Some(s[i]), st.next[s[i]]) == (
            WalkState { start: false, node: Some(s[i + 1]) },
            WalkAction::Enter(s[i + 1], Some(s[i])),
        ),
        i + 1 == s.len() ==> walk_step(false, Some(s[i]), st.next[s[i]]) == (
            WalkState { start: false, node: None::<N> },
            WalkAction::Release(s[i]),
        ),
        forall|link: Option<N>| #[trigger] walk_step(false, None::<N>, link) == (
            WalkState { start: false, node: None::<N> },
            WalkAction::<N>::Stop,
        ),
{
    assert(st.next.dom().contains(s[i]));
}

} // verus!
