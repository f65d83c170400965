//! A singly-linked stack of integers.
//!
//! A [`List`] owns a chain of nodes, each holding one value and the link to
//! the rest of the chain. Pushing prepends a node, popping removes the head
//! node, and dropping the stack drains the chain iteratively so that teardown
//! never recurses to a depth proportional to the stack's length.
//!
//! A stack is abstracted by its view, a `Seq<i32>` listing the stored values
//! from the bottom of the stack to the top: pushing appends to the sequence
//! and popping removes its last element.

use vstd::prelude::*;

verus! {

/// A stack of integers, stored as a singly-linked chain of nodes.
pub struct List {
    head: Link,
}

/// One slot of the chain: either empty, or the owner of the next node.
enum Link {
    Empty,
    More(Box<Node>),
}

/// One stored value together with the link to the remainder of the chain.
struct Node {
    elem: i32,
    next: Link,
}

impl Link {
    /// The values reachable through this link, bottom first, top last.
    spec fn values(self) -> Seq<i32>
        decreases self,
    {
        match self {
            Link::Empty => Seq::empty(),
            Link::More(node) => node.next.values().push(node.elem),
        }
    }

    /// Moves the link's contents out, leaving the slot empty, so that a chain
    /// can be taken from a borrowed stack without ever leaving two owners of
    /// one node.
    fn take(&mut self) -> (taken: Link)
        ensures
            taken == *old(self),
            *final(self) == Link::Empty,
        no_unwind
    {
        let mut taken = Link::Empty;
        core::mem::swap(&mut taken, self);
        taken
    }
}

impl View for List {
    type V = Seq<i32>;

    closed spec fn view(&self) -> Seq<i32> {
        self.head.values()
    }
}

impl List {
    /// Returns an empty stack.
    pub fn new() -> (stack: List)
        ensures
            stack@ == Seq::<i32>::empty(),
    {
        List { head: Link::Empty }
    }

    /// Pushes `elem` onto the top of the stack.
    ///
    /// The current head is taken out of the stack (its slot is left empty, so
    /// the stack is never in a partially valid state) and becomes the new
    /// node's tail; the new node then becomes the head.
    pub fn push(&mut self, elem: i32)
        ensures
            final(self)@ == old(self)@.push(elem),
    {
        let next = self.head.take();
        let node = Box::new(Node { elem: elem, next: next });
        self.head = Link::More(node);
    }

    /// Removes the top of the stack and returns its value, or `None` when the
    /// stack is empty. Popping an empty stack is a normal outcome, not a
    /// fault, and leaves the stack unchanged.
    pub fn pop(&mut self) -> (popped: Option<i32>)
        ensures
            old(self)@.len() == 0 ==> popped is None && final(self)@ == old(self)@,
            old(self)@.len() > 0 ==> popped == Some(old(self)@.last())
                && final(self)@ == old(self)@.drop_last(),
    {
        match self.head.take() {
            Link::Empty => None,
            Link::More(node) => {
                proof {
                    assert(old(self)@.drop_last() =~= node.next.values());
                }
                self.head = node.next;
                Some(node.elem)
            }
        }
    }
}

impl Drop for List {
    /// Tears the stack down iteratively, with constant stack depth.
    ///
    /// The chain is taken out of the stack, and the loop then empties each
    /// node's `next` slot before the node itself goes out of scope, so the
    /// node's own teardown finds an empty link and never recurses into the
    /// remainder of the chain, however long the stack is. The loop's
    /// `decreases` clause shows that the drain visits each node once.
    fn drop(&mut self)
        opens_invariants none
        no_unwind
    {
        let mut cur = Link::Empty;
        core::mem::swap(&mut cur, &mut self.head);
        loop
            decreases cur.values().len(),
        {
            match cur {
                Link::Empty => {
                    break;
                }
                Link::More(mut node) => {
                    let mut rest = Link::Empty;
                    core::mem::swap(&mut rest, &mut node.next);
                    cur = rest;
                }
            }
        }
    }
}

// The laws below describe whole sequences of operations through the three
// spec functions `pushed`, `popped` and `drained`, each of which restates,
// step by step, what the `ensures` of `push` and `pop` say one call does.

/// The stack contents after pushing each value of `incoming`, in order, onto
/// a stack holding `values`.
pub open spec fn pushed(values: Seq<i32>, incoming: Seq<i32>) -> Seq<i32>
    decreases incoming.len(),
{
    if incoming.len() == 0 {
        values
    } else {
        pushed(values.push(incoming.first()), incoming.drop_first())
    }
}

/// The stack contents after `count` pops from a stack holding `values`; a pop
/// of an empty stack leaves it empty.
pub open spec fn popped(values: Seq<i32>, count: nat) -> Seq<i32>
    decreases count,
{
    if count == 0 || values.len() == 0 {
        values
    } else {
        popped(values.drop_last(), (count - 1) as nat)
    }
}

/// The values returned, in order, by popping a stack holding `values` until
/// it is empty.
pub open spec fn drained(values: Seq<i32>) -> Seq<i32>
    decreases values.len(),
{
    if values.len() == 0 {
        Seq::empty()
    } else {
        seq![values.last()] + drained(values.drop_last())
    }
}

/// Pushing a sequence of values appends it to the stack's contents.
pub proof fn lemma_pushed_appends(values: Seq<i32>, incoming: Seq<i32>)
    ensures
        pushed(values, incoming) == values + incoming,
    decreases incoming.len(),
{
    if incoming.len() == 0 {
        assert(pushed(values, incoming) =~= values + incoming);
    } else {
        lemma_pushed_appends(values.push(incoming.first()), incoming.drop_first());
        assert(values.push(incoming.first()) + incoming.drop_first() =~= values + incoming);
    }
}

/// Popping any stack until it is empty returns its contents in reverse:
/// the last value pushed comes out first.
pub proof fn lemma_drained_reverses(values: Seq<i32>)
    ensures
        drained(values) == values.reverse(),
    decreases values.len(),
{
    if values.len() == 0 {
        assert(drained(values) =~= values.reverse());
    } else {
        lemma_drained_reverses(values.drop_last());
        assert(seq![values.last()] + values.drop_last().reverse() =~= values.reverse());
    }
}

/// The LIFO law: pushing any sequence of values onto an empty stack and then
/// popping until empty returns the values in exact reverse order of pushing.
pub proof fn lemma_lifo_order(incoming: Seq<i32>)
    ensures
        drained(pushed(Seq::empty(), incoming)) == incoming.reverse(),
{
    lemma_pushed_appends(Seq::empty(), incoming);
    assert(Seq::empty() + incoming =~= incoming);
    lemma_drained_reverses(incoming);
}

proof fn lemma_popped_of_concat(values: Seq<i32>, incoming: Seq<i32>)
    ensures
        popped(values + incoming, incoming.len()) == values,
    decreases incoming.len(),
{
    if incoming.len() == 0 {
        assert(values + incoming =~= values);
    } else {
        assert((values + incoming).drop_last() =~= values + incoming.drop_last());
        lemma_popped_of_concat(values, incoming.drop_last());
    }
}

/// Emptiness is idempotent: pushing any `n` values and then popping `n` times
/// returns the stack to exactly its starting contents, so a stack drained
/// back down is indistinguishable, by any further behavior, from one that
/// never held those values. Started from empty, it is indistinguishable from
/// a freshly constructed stack.
pub proof fn lemma_push_pop_identity(values: Seq<i32>, incoming: Seq<i32>)
    ensures
        popped(pushed(values, incoming), incoming.len()) == values,
{
    lemma_pushed_appends(values, incoming);
    lemma_popped_of_concat(values, incoming);
}

/// Push neither duplicates nor loses a value: it adds exactly one copy of
/// `elem` to the stack's multiset of values and leaves every other count
/// unchanged.
pub proof fn lemma_push_multiset(values: Seq<i32>, elem: i32)
    ensures
        values.push(elem).to_multiset() == values.to_multiset().insert(elem),
{
    broadcast use vstd::seq_lib::group_to_multiset_ensures;

    assert(values.push(elem).to_multiset() =~= values.to_multiset().insert(elem));
}

/// Pop neither duplicates nor loses a value: the contents before a pop are
/// exactly the contents after it plus one copy of the returned value, as
/// multisets.
pub proof fn lemma_pop_multiset(values: Seq<i32>)
    requires
        values.len() > 0,
    ensures
        values.to_multiset() == values.drop_last().to_multiset().insert(values.last()),
{
    broadcast use vstd::seq_lib::group_to_multiset_ensures;

    assert(values =~= values.drop_last().push(values.last()));
    assert(values.drop_last().push(values.last()).to_multiset() =~= values.drop_last()
        .to_multiset()
        .insert(values.last()));
}

} // verus!
