//! A binary heap of simulator events: the earliest event is at the top.

use vstd::prelude::*;
use vstd::multiset::Multiset;
use vstd::seq_lib::{to_multiset_build, to_multiset_update, to_multiset_len, to_multiset_contains};
use crate::sim_event::SimEvent;

verus! {

/// Whether every event of `s` comes no earlier than its parent, the event
/// at half its place.
pub open spec fn heap_ordered(s: Seq<SimEvent>) -> bool {
    forall|i: int| 0 < i < s.len() ==> !(#[trigger] s[i]).earlier(s[(i - 1) / 2])
}

/// Heap order everywhere but between `p` and its parent; the children of
/// `p` come no earlier than the parent of `p`.
spec fn ordered_but_above(s: Seq<SimEvent>, p: int) -> bool {
    &&& forall|i: int| 0 < i < s.len() && i != p ==> !(#[trigger] s[i]).earlier(s[(i - 1) / 2])
    &&& forall|i: int|
        0 < i < s.len() && (i - 1) / 2 == p && p > 0 ==> !(#[trigger] s[i]).earlier(
            s[(p - 1) / 2],
        )
}

/// Heap order everywhere but between `p` and its children; the children of
/// `p` come no earlier than the parent of `p`.
spec fn ordered_but_below(s: Seq<SimEvent>, p: int) -> bool {
    &&& forall|i: int|
        0 < i < s.len() && (i - 1) / 2 != p ==> !(#[trigger] s[i]).earlier(s[(i - 1) / 2])
    &&& forall|i: int|
        0 < i < s.len() && (i - 1) / 2 == p && p > 0 ==> !(#[trigger] s[i]).earlier(
            s[(p - 1) / 2],
        )
}

/// In a heap no event comes earlier than the one at the top.
pub proof fn lemma_top_is_least(s: Seq<SimEvent>, i: int)
    requires
        heap_ordered(s),
        0 <= i < s.len(),
    ensures
        !s[i].earlier(s[0]),
    decreases i,
{
    if i > 0 {
        lemma_top_is_least(s, (i - 1) / 2);
    }
}

/// Exchanging two events of a sequence keeps what the sequence holds.
proof fn lemma_exchange_keeps_events(s: Seq<SimEvent>, i: int, j: int)
    requires
        0 <= i < s.len(),
        0 <= j < s.len(),
    ensures
        s.update(i, s[j]).update(j, s[i]).to_multiset() =~= s.to_multiset(),
{
    broadcast use vstd::multiset::group_multiset_axioms;

    let mid = s.update(i, s[j]);
    to_multiset_update(s, i, s[j]);
    to_multiset_update(mid, j, s[i]);
    to_multiset_contains(s, s[i]);
    to_multiset_contains(s, s[j]);
}

/// Exchanges the events at two places.
fn exchange(v: &mut Vec<SimEvent>, i: usize, j: usize)
    requires
        i < old(v).len(),
        j < old(v).len(),
    ensures
        final(v)@ == old(v)@.update(i as int, old(v)@[j as int]).update(j as int, old(v)@[i as int]),
        final(v)@.to_multiset() == old(v)@.to_multiset(),
        final(v).len() == old(v).len(),
{
    let a: SimEvent = v[i];
    let b: SimEvent = v[j];
    proof {
        lemma_exchange_keeps_events(v@, i as int, j as int);
    }
    v.set(i, b);
    v.set(j, a);
}

/// Moves the event at `pos` up until its parent comes no later.
fn sift_up(v: &mut Vec<SimEvent>, pos: usize)
    requires
        pos < old(v).len(),
        ordered_but_above(old(v)@, pos as int),
    ensures
        heap_ordered(final(v)@),
        final(v)@.to_multiset() == old(v)@.to_multiset(),
        final(v).len() == old(v).len(),
{
    let mut pos: usize = pos;
    while pos > 0
        invariant
            pos < v.len(),
            v.len() == old(v).len(),
            ordered_but_above(v@, pos as int),
            v@.to_multiset() == old(v)@.to_multiset(),
        ensures
            heap_ordered(v@),
            v@.to_multiset() == old(v)@.to_multiset(),
            v.len() == old(v).len(),
        decreases pos,
    {
        let parent: usize = (pos - 1) / 2;
        if v[pos].is_earlier(&v[parent]) {
            exchange(v, pos, parent);
            pos = parent;
        } else {
            break ;
        }
    }
}

/// Moves the event at `pos` down until its children come no earlier.
fn sift_down(v: &mut Vec<SimEvent>, pos: usize)
    requires
        pos < old(v).len(),
        ordered_but_below(old(v)@, pos as int),
    ensures
        heap_ordered(final(v)@),
        final(v)@.to_multiset() == old(v)@.to_multiset(),
        final(v).len() == old(v).len(),
{
    let mut pos: usize = pos;
    let len: usize = v.len();
    loop
        invariant
            pos < v.len(),
            len == v.len(),
            v.len() == old(v).len(),
            ordered_but_below(v@, pos as int),
            v@.to_multiset() == old(v)@.to_multiset(),
        ensures
            heap_ordered(v@),
            v@.to_multiset() == old(v)@.to_multiset(),
            v.len() == old(v).len(),
        decreases len - pos,
    {
        if pos >= len / 2 {
            break ;
        }
        let left: usize = 2 * pos + 1;
        let right: usize = left + 1;
        let mut child: usize = left;
        if right < len && v[right].is_earlier(&v[left]) {
            child = right;
        }
        if v[child].is_earlier(&v[pos]) {
            exchange(v, pos, child);
            assert forall|i: int| 0 < i < v@.len() && (i - 1) / 2 != child implies !(
            #[trigger] v@[i]).earlier(v@[(i - 1) / 2]) by {}
            pos = child;
        } else {
            break ;
        }
    }
}

/// A priority queue of simulator events. The event at the top comes no
/// later than any other; of events that come at the same time with the
/// same rank any one may be at the top.
#[derive(Clone, Debug)]
pub struct EventHeap {
    items: Vec<SimEvent>,
}

impl EventHeap {
    /// The events in the heap, each as often as it was pushed and not yet
    /// popped.
    pub closed spec fn view(&self) -> Multiset<SimEvent> {
        self.items@.to_multiset()
    }

    /// The events are in heap order.
    pub closed spec fn wf(&self) -> bool {
        heap_ordered(self.items@)
    }

    /// How many events the heap holds.
    pub open spec fn count(&self) -> nat {
        self@.len()
    }

    /// The event at the top. It says nothing of an empty heap.
    pub closed spec fn head(&self) -> SimEvent {
        self.items@[0]
    }

    /// The event at the top, if there is one.
    pub open spec fn top(&self) -> Option<SimEvent> {
        if self.count() == 0 {
            None
        } else {
            Some(self.head())
        }
    }

    /// The event at the top is in the heap, and no event of the heap comes
    /// earlier.
    pub proof fn lemma_head_is_least(&self)
        requires
            self.wf(),
            self.count() > 0,
        ensures
            self@.contains(self.head()),
            forall|e: SimEvent| self@.contains(e) ==> !e.earlier(self.head()),
    {
        let s = self.items@;
        to_multiset_len(s);
        to_multiset_contains(s, s[0]);
        assert forall|e: SimEvent| self@.contains(e) implies !e.earlier(self.head()) by {
            to_multiset_contains(s, e);
            let i = choose|i: int| 0 <= i < s.len() && s[i] == e;
            lemma_top_is_least(s, i);
        }
    }

    /// An empty heap.
    pub fn new() -> (r: EventHeap)
        ensures
            r.wf(),
            r@ == Multiset::<SimEvent>::empty(),
            r.count() == 0,
    {
        let r = EventHeap { items: Vec::new() };
        proof {
            to_multiset_len(r.items@);
            assert(r.items@.to_multiset() =~= Multiset::<SimEvent>::empty()) by {
                broadcast use vstd::multiset::group_multiset_axioms;
            }
        }
        r
    }

    /// How many events the heap holds.
    pub fn len(&self) -> (r: usize)
        ensures
            r == self.count(),
    {
        proof {
            to_multiset_len(self.items@);
        }
        self.items.len()
    }

    /// Adds an event.
    pub fn push(&mut self, item: SimEvent)
        requires
            old(self).wf(),
        ensures
            final(self).wf(),
            final(self)@ == old(self)@.insert(item),
            final(self).count() == old(self).count() + 1,
    {
        proof {
            to_multiset_build(self.items@, item);
            to_multiset_len(self.items@);
            to_multiset_len(self.items@.push(item));
        }
        self.items.push(item);
        let last: usize = self.items.len() - 1;
        sift_up(&mut self.items, last);
    }

    /// The event at the top, if there is one. It stays in the heap.
    pub fn peek(&self) -> (r: Option<&SimEvent>)
        requires
            self.wf(),
        ensures
            match r {
                Some(e) => Some(*e) == self.top(),
                None => self.top().is_none(),
            },
    {
        proof {
            to_multiset_len(self.items@);
        }
        if self.items.len() == 0 {
            None
        } else {
            Some(&self.items[0])
        }
    }

    /// Takes the event at the top out of the heap, if there is one.
    pub fn pop(&mut self) -> (r: Option<SimEvent>)
        requires
            old(self).wf(),
        ensures
            final(self).wf(),
            r == old(self).top(),
            r.is_none() ==> final(self)@ == old(self)@,
            r.is_some() ==> final(self)@ == old(self)@.remove(r.unwrap()) && final(self).count()
                == old(self).count() - 1,
    {
        proof {
            to_multiset_len(self.items@);
        }
        let ghost before = self.items@;
        let last = self.items.pop();
        match last {
            None => None,
            Some(last) => {
                let ghost rest = self.items@;
                proof {
                    assert(before =~= rest.push(last));
                    to_multiset_build(rest, last);
                    to_multiset_len(rest);
                }
                if self.items.len() == 0 {
                    proof {
                        broadcast use vstd::multiset::group_multiset_axioms;
                    }
                    Some(last)
                } else {
                    let first: SimEvent = self.items[0];
                    self.items.set(0, last);
                    proof {
                        broadcast use vstd::multiset::group_multiset_axioms;

                        to_multiset_update(rest, 0, last);
                        to_multiset_len(self.items@);
                    }
                    sift_down(&mut self.items, 0);
                    proof {
                        to_multiset_len(self.items@);
                    }
                    Some(first)
                }
            },
        }
    }
}

} // verus!
