//! The order in which the rules see the nodes.
//!
//! The walk follows prism's visitor: a node reached through a generic visit
//! is entered before its children and left after them (a node of a type
//! without child nodes is reported once, as a leaf). A node reached through a
//! typed field is not reported, except a `RescueNode`, which has hooks of its
//! own.

use vstd::prelude::*;
use super::{SyntaxTree, tree_wf};
use super::kinds;

verus! {

/// One step of the walk; each names a node index.
#[derive(Clone, Copy, PartialEq, Eq, Structural)]
pub enum Event {
    Enter(usize),
    Leave(usize),
    Leaf(usize),
    EnterRescue(usize),
    LeaveRescue(usize),
}

/// The nodes open after the first `k` events of `evs`, outermost first: an
/// `Enter` opens its node and a `Leave` closes the innermost open one.
pub open spec fn open_nodes(evs: Seq<Event>, k: int) -> Seq<usize>
    decreases k,
{
    if k <= 0 {
        Seq::empty()
    } else {
        let o = open_nodes(evs, k - 1);
        match evs[k - 1] {
            Event::Enter(i) => o.push(i),
            Event::Leave(_) => if o.len() > 0 { o.drop_last() } else { o },
            _ => o,
        }
    }
}

/// The node an event names.
pub open spec fn event_node(e: Event) -> usize {
    match e {
        Event::Enter(i) => i,
        Event::Leave(i) => i,
        Event::Leaf(i) => i,
        Event::EnterRescue(i) => i,
        Event::LeaveRescue(i) => i,
    }
}

/// Every event of `evs` names a node of a tree with `n` nodes.
pub open spec fn events_in(evs: Seq<Event>, n: nat) -> bool {
    forall|k: int| 0 <= k < evs.len() ==> #[trigger] event_node(evs[k]) < n
}

/// The event that leaves an open node (a rescue or a generic one).
pub open spec fn leave_event(o: (usize, bool)) -> Event {
    if o.1 { Event::LeaveRescue(o.0) } else { Event::Leave(o.0) }
}

/// Closes the open nodes, innermost first, whose subtrees end at or before
/// `i`.
pub open spec fn close_upto(t: SyntaxTree, i: int, evs: Seq<Event>, open: Seq<(usize, bool)>) -> (Seq<Event>, Seq<(
    usize,
    bool,
)>)
    decreases open.len(),
{
    if open.len() > 0 && t.nodes@[open.last().0 as int].subtree_end <= i {
        close_upto(t, i, evs.push(leave_event(open.last())), open.drop_last())
    } else {
        (evs, open)
    }
}

/// Closes every open node, innermost first.
pub open spec fn close_all(evs: Seq<Event>, open: Seq<(usize, bool)>) -> Seq<Event>
    decreases open.len(),
{
    if open.len() > 0 {
        close_all(evs.push(leave_event(open.last())), open.drop_last())
    } else {
        evs
    }
}

/// The walk at node `i`: after closing what ends before it, a generic node
/// is reported as a leaf (a kind without child nodes) or entered; a rescue
/// reached through a typed field is entered as a rescue; other nodes are not
/// reported.
pub open spec fn walk_step(t: SyntaxTree, i: int, evs: Seq<Event>, open: Seq<(usize, bool)>) -> (Seq<Event>, Seq<(
    usize,
    bool,
)>) {
    let (e, o) = close_upto(t, i, evs, open);
    let nd = t.nodes@[i];
    if nd.generic {
        if kinds::is_leaf_kind(nd.kind) {
            (e.push(Event::Leaf(i as usize)), o)
        } else {
            (e.push(Event::Enter(i as usize)), o.push((i as usize, false)))
        }
    } else if nd.kind == kinds::RESCUE_NODE {
        (e.push(Event::EnterRescue(i as usize)), o.push((i as usize, true)))
    } else {
        (e, o)
    }
}

/// The events and open nodes after the first `k` nodes.
pub open spec fn walk_upto(t: SyntaxTree, k: int) -> (Seq<Event>, Seq<(usize, bool)>)
    decreases k,
{
    if k <= 0 {
        (Seq::empty(), Seq::empty())
    } else {
        let (e, o) = walk_upto(t, k - 1);
        walk_step(t, k - 1, e, o)
    }
}

/// The walk of `t`: the nodes in pre-order, with every open node left when
/// the walk passes its subtree, and all still open left at the end.
pub open spec fn walk_events(t: SyntaxTree) -> Seq<Event> {
    let (e, o) = walk_upto(t, t.nodes@.len() as int);
    close_all(e, o)
}

/// The walk of a well-formed tree as a list of events.
pub fn walk(t: &SyntaxTree) -> (evs: Vec<Event>)
    requires
        tree_wf(*t),
    ensures
        events_in(evs@, t.nodes@.len() as nat),
        evs@ == walk_events(*t),
{
    let n = t.nodes.len();
    let mut evs: Vec<Event> = Vec::new();
    // Open nodes, innermost last, with whether they were entered as a rescue.
    let mut open: Vec<(usize, bool)> = Vec::new();
    let mut i: usize = 0;
    while i < n
        invariant
            n == t.nodes@.len(),
            i <= n,
            events_in(evs@, n as nat),
            forall|k: int| 0 <= k < open@.len() ==> #[trigger] open@[k].0 < n,
            (evs@, open@) == walk_upto(*t, i as int),
        decreases n - i,
    {
        let ghost e0 = evs@;
        let ghost o0 = open@;
        // Leave every open node whose subtree ends here.
        while open.len() > 0 && t.nodes[open[open.len() - 1].0].subtree_end <= i
            invariant
                n == t.nodes@.len(),
                events_in(evs@, n as nat),
                forall|k: int| 0 <= k < open@.len() ==> #[trigger] open@[k].0 < n,
                close_upto(*t, i as int, evs@, open@) == close_upto(*t, i as int, e0, o0),
            decreases open.len(),
        {
            let ghost ol = open@;
            let ghost el = evs@;
            let (o, rescue) = open.pop().unwrap();
            proof {
                assert(ol.last() == (o, rescue));
                assert(open@ == ol.drop_last());
            }
            if rescue {
                evs.push(Event::LeaveRescue(o));
            } else {
                evs.push(Event::Leave(o));
            }
        }
        assert(close_upto(*t, i as int, evs@, open@) == (evs@, open@));
        let nd = &t.nodes[i];
        if nd.generic {
            if kinds::is_leaf_kind(nd.kind) {
                evs.push(Event::Leaf(i));
            } else {
                evs.push(Event::Enter(i));
                open.push((i, false));
            }
        } else if nd.kind == kinds::RESCUE_NODE {
            evs.push(Event::EnterRescue(i));
            open.push((i, true));
        }
        i += 1;
    }
    let ghost ef = evs@;
    let ghost of = open@;
    while open.len() > 0
        invariant
            n == t.nodes@.len(),
            events_in(evs@, n as nat),
            forall|k: int| 0 <= k < open@.len() ==> #[trigger] open@[k].0 < n,
            close_all(evs@, open@) == close_all(ef, of),
            (ef, of) == walk_upto(*t, n as int),
        decreases open.len(),
    {
        let ghost ol = open@;
        let (o, rescue) = open.pop().unwrap();
        proof {
            assert(ol.last() == (o, rescue));
            assert(open@ == ol.drop_last());
        }
        if rescue {
            evs.push(Event::LeaveRescue(o));
        } else {
            evs.push(Event::Leave(o));
        }
    }
    evs
}

} // verus!
