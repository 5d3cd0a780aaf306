//! Lists over chains of nodes, and iteration over them from the top down.

use vstd::prelude::*;

use crate::node_mut::NodeMut;
use crate::node_ref::{chain_values, NodeRef};

verus! {

/// What one call of `next` does to the values still to come: the value it
/// returns, and the values left after it.
pub open spec fn next_of<T>(rest: Seq<T>) -> (Option<T>, Seq<T>) {
    if rest.len() == 0 {
        (None, rest)
    } else {
        (Some(rest[0]), rest.drop_first())
    }
}

/// The values still to come after `calls` calls of `next`, starting from `values`.
pub open spec fn after_calls<T>(values: Seq<T>, calls: nat) -> Seq<T>
    decreases calls,
{
    if calls == 0 {
        values
    } else {
        next_of(after_calls(values, (calls - 1) as nat)).1
    }
}

/// The value behind a shared reference that `next` returns.
pub open spec fn returned_value<T>(r: Option<&T>) -> Option<T> {
    match r {
        Some(v) => Some(*v),
        None => None,
    }
}

/// The value behind an exclusive reference that `next` returns, as it is
/// when the reference is handed out.
pub open spec fn returned_value_mut<T>(r: Option<&mut T>) -> Option<T> {
    match r {
        Some(v) => Some(*v),
        None => None,
    }
}

/// Iterating hands out every value once, in order, then nothing: the call
/// numbered `calls` (counting from 0) on an iterator over `values` returns the
/// value at that place while there is one and `None` from then on, and leaves
/// the values after that place.
pub proof fn lemma_successive_calls<T>(values: Seq<T>, calls: nat)
    ensures
        after_calls(values, calls) == values.skip(
            if calls <= values.len() { calls as int } else { values.len() as int },
        ),
        next_of(after_calls(values, calls)).0 == if calls < values.len() {
            Some(values[calls as int])
        } else {
            None::<T>
        },
    decreases calls,
{
    if calls == 0 {
        assert(values.skip(0) =~= values);
    } else {
        lemma_successive_calls(values, (calls - 1) as nat);
        if calls <= values.len() {
            assert(values.skip((calls - 1) as int).drop_first() =~= values.skip(calls as int));
        }
    }
}

/// The node `calls` links below `top`: where an iterator over a shared chain
/// stands after that many calls of `next`, if the chain reaches that far.
pub open spec fn node_below<'a, T>(top: Option<&'a NodeRef<'a, T>>, calls: nat) -> Option<&'a NodeRef<'a, T>>
    decreases calls,
{
    if calls == 0 {
        top
    } else {
        match top {
            Some(node) => node_below(node.previous_spec(), (calls - 1) as nat),
            None => None,
        }
    }
}

/// The node just below `node` in an exclusive chain, as it is now.
pub open spec fn node_mut_below_one<'a, T>(node: NodeMut<'a, T>) -> Option<NodeMut<'a, T>> {
    match node.previous_spec() {
        Some(p) => Some(*p),
        None => None,
    }
}

/// The node `calls` links below `top` in an exclusive chain, as the chain is
/// now: where an iterator over it stands after that many calls of `next`.
pub open spec fn node_mut_below<'a, T>(top: Option<NodeMut<'a, T>>, calls: nat) -> Option<NodeMut<'a, T>>
    decreases calls,
{
    if calls == 0 {
        top
    } else {
        match top {
            Some(node) => node_mut_below(node_mut_below_one(node), (calls - 1) as nat),
            None => None,
        }
    }
}

/// Iterating a shared list hands out every value once, topmost first, then
/// nothing for ever.  After `calls` calls of `next`, an iterator that started
/// at `top` stands at `node_below(top, calls)`, which is the node one link
/// below where it stood before; it stands at a node exactly while `calls` is
/// less than the number of values, that node holds the value at place `calls`,
/// and the values still to come are those after that place.
pub proof fn lemma_iter_successive_calls<'a, T>(top: Option<&'a NodeRef<'a, T>>, calls: nat)
    ensures
        node_below(top, calls + 1) == match node_below(top, calls) {
            Some(node) => node.previous_spec(),
            None => None,
        },
        node_below(top, calls) is Some <==> calls < chain_values(top).len(),
        node_below(top, calls) matches Some(node) ==> node.value_spec() == chain_values(top)[calls as int],
        chain_values(node_below(top, calls)) == after_calls(chain_values(top), calls),
    decreases calls,
{
    lemma_successive_calls(chain_values(top), calls);
    match top {
        Some(node) => {
            node.lemma_values();
            if calls > 0 {
                lemma_iter_successive_calls(node.previous_spec(), (calls - 1) as nat);
                lemma_successive_calls(chain_values(node.previous_spec()), (calls - 1) as nat);
                assert(chain_values(top).skip(1) =~= chain_values(node.previous_spec()));
                if calls <= chain_values(top).len() {
                    assert(chain_values(node.previous_spec()).skip((calls - 1) as int) =~= chain_values(top).skip(calls as int));
                } else {
                    assert(chain_values(node.previous_spec()).skip(chain_values(node.previous_spec()).len() as int)
                        =~= chain_values(top).skip(chain_values(top).len() as int));
                }
            }
        },
        None => {
            if calls > 0 {
                lemma_iter_successive_calls(top, (calls - 1) as nat);
            }
            assert(after_calls(chain_values(top), calls) =~= Seq::<T>::empty());
        },
    }
}

/// Iterating an exclusive list hands out every value once, topmost first,
/// then nothing for ever.  After `calls` calls of `next`, an iterator that
/// started at `top` stands at `node_mut_below(top, calls)`, one link below
/// where it stood before, and once it stands nowhere it stays so.  For a
/// well-formed chain it stands at a node exactly while `calls` is less than
/// the number of values, that node holds the value at place `calls`, and the
/// values still to come are those after that place.
pub proof fn lemma_iter_mut_successive_calls<'a, T>(top: Option<NodeMut<'a, T>>, calls: nat)
    ensures
        node_mut_below(top, calls + 1) == match node_mut_below(top, calls) {
            Some(node) => node_mut_below_one(node),
            None => None,
        },
        node_mut_below(top, calls) is None ==> node_mut_below(top, calls + 1) is None,
        top matches Some(t) ==> t.wf() ==> {
            &&& (node_mut_below(top, calls) is Some <==> calls < t.values().len())
            &&& node_mut_below(top, calls) matches Some(node) ==> {
                &&& node.wf()
                &&& node.value == t.values()[calls as int]
                &&& node.values() == t.values().skip(calls as int)
            }
        },
    decreases calls,
{
    match top {
        Some(t) => {
            t.lemma_values();
            if calls > 0 {
                lemma_iter_mut_successive_calls(node_mut_below_one(t), (calls - 1) as nat);
                if t.wf() {
                    match node_mut_below_one(t) {
                        Some(p) => {
                            p.lemma_values();
                            assert(t.values().skip(1) =~= p.values());
                            if calls < t.values().len() {
                                assert(p.values().skip((calls - 1) as int) =~= t.values().skip(calls as int));
                            }
                        },
                        None => {},
                    }
                }
            } else {
                assert(t.values().skip(0) =~= t.values());
                assert(node_mut_below(node_mut_below_one(t), 0) == node_mut_below_one(t));
            }
        },
        None => {
            if calls > 0 {
                lemma_iter_mut_successive_calls(top, (calls - 1) as nat);
            }
        },
    }
}

/// A list whose values can be changed in place: the top node of a chain of
/// [`NodeMut`], if the list is not empty.
pub struct StackListMut<'a, 'b, T>(Option<&'b mut NodeMut<'a, T>>);

impl<'a, 'b, T> StackListMut<'a, 'b, T> {
    /// The top node.
    pub closed spec fn top(self) -> Option<&'b mut NodeMut<'a, T>> {
        self.0
    }

    /// The values of the list, topmost first.
    pub open spec fn values(self) -> Seq<T> {
        match self.top() {
            Some(node) => (*node).values(),
            None => Seq::empty(),
        }
    }

    /// The chain below the top ends.
    pub open spec fn wf(self) -> bool {
        match self.top() {
            Some(node) => (*node).wf(),
            None => true,
        }
    }

    /// The list whose top node is `top_node`.
    pub fn new(top_node: Option<&'b mut NodeMut<'a, T>>) -> (list: Self)
        ensures
            list.top() == top_node,
    {
        StackListMut(top_node)
    }

    /// The top node, giving up the list.
    pub fn take(self) -> (top_node: Option<&'b mut NodeMut<'a, T>>)
        ensures
            top_node == self.top(),
    {
        self.0
    }

    /// An iterator over the values, topmost first, each open to change.
    pub fn iter_mut<'c>(&'c mut self) -> (it: StackListMutIter<'a, 'c, T>)
        ensures
            it.remaining() == old(self).values(),
            it.wf() == old(self).wf(),
            it.position() == match old(self).top() {
                Some(node) => Some(*node),
                None => None,
            },
            old(self).top() is None ==> it.current() is None && final(self).top() is None,
            old(self).top() is Some ==> {
                &&& it.current() is Some
                &&& *it.current()->0 == *old(self).top()->0
                &&& final(self).top() is Some
                &&& *final(self).top()->0 == mut_ref_future(it.current()->0)
                &&& mut_ref_future(final(self).top()->0) == mut_ref_future(old(self).top()->0)
            },
    {
        match &mut self.0 {
            Some(node) => StackListMutIter(Some(&mut **node)),
            None => StackListMutIter(None),
        }
    }
}

/// The iterator of [`StackListMut::iter_mut`]: the node whose value comes next.
pub struct StackListMutIter<'a, 'c, T>(Option<&'c mut NodeMut<'a, T>>);

impl<'a, 'c, T> StackListMutIter<'a, 'c, T> {
    /// The node whose value comes next.
    pub closed spec fn current(self) -> Option<&'c mut NodeMut<'a, T>> {
        self.0
    }

    /// The values still to come, in order.
    pub open spec fn remaining(self) -> Seq<T> {
        match self.current() {
            Some(node) => (*node).values(),
            None => Seq::empty(),
        }
    }

    /// The node whose value comes next, as it is now.
    pub open spec fn position(self) -> Option<NodeMut<'a, T>> {
        match self.current() {
            Some(node) => Some(*node),
            None => None,
        }
    }

    /// The chain still to walk ends.
    pub open spec fn wf(self) -> bool {
        match self.current() {
            Some(node) => (*node).wf(),
            None => true,
        }
    }

    /// The next value, open to change, or `None` once the bottom is passed.
    ///
    /// The reference lives as long as the iterator's borrow of the list: the
    /// nodes' own lifetime is out of reach of an exclusive reborrow without
    /// raw pointers.
    pub fn next(&mut self) -> (r: Option<&'c mut T>)
        ensures
            old(self).current() is None ==> r is None && final(self).current() is None,
            old(self).current() is Some ==> r is Some,
            old(self).current() matches Some(n) ==> {
                &&& *r->0 == (*n).value_spec()
                &&& (*n).previous_spec() is None ==> final(self).current() is None
                &&& (*n).previous_spec() is Some ==> final(self).current() is Some
                    && *final(self).current()->0 == *(*n).previous_spec()->0
            },
            old(self).wf() ==> final(self).wf(),
            old(self).wf() && old(self).current() is Some ==> final(self).remaining()
                == old(self).remaining().drop_first(),
            old(self).remaining().len() > 0 ==> *r->0 == old(self).remaining()[0],
            final(self).position() == node_mut_below(old(self).position(), 1),
            returned_value_mut(r) == match old(self).position() {
                Some(node) => Some(node.value),
                None => None,
            },
            old(self).wf() ==> returned_value_mut(r) == next_of(old(self).remaining()).0,
            old(self).wf() ==> final(self).remaining() == next_of(old(self).remaining()).1,
            old(self).current() matches Some(n) ==> {
                &&& mut_ref_future(n).value_spec() == mut_ref_future(r->0)
                &&& mut_ref_future(n).height_spec() == (*n).height_spec()
                &&& (*n).previous_spec() is None ==> mut_ref_future(n).previous_spec() is None
                &&& (*n).previous_spec() is Some ==> {
                    &&& final(self).current() is Some
                    &&& mut_ref_future(n).previous_spec() is Some
                    &&& *mut_ref_future(n).previous_spec()->0 == mut_ref_future(final(self).current()->0)
                }
            },
    {
        match self.0.take() {
            Some(node) => {
                proof {
                    (*node).lemma_values();
                    assert(node_mut_below(node_mut_below_one(*node), 0) == node_mut_below_one(*node));
                }
                let (prev, value) = node.pair();
                self.0 = match prev {
                    Some(p) => Some(&mut **p),
                    None => None,
                };
                Some(value)
            },
            None => None,
        }
    }
}

/// A list that can be read and shared: the top node of a chain of
/// [`NodeRef`], if the list is not empty.
#[derive(Clone, Copy)]
pub struct StackList<'a, T>(Option<&'a NodeRef<'a, T>>);

impl<'a, T> StackList<'a, T> {
    /// The top node.
    pub closed spec fn top(self) -> Option<&'a NodeRef<'a, T>> {
        self.0
    }

    /// The values of the list, topmost first.
    pub open spec fn values(self) -> Seq<T> {
        chain_values(self.top())
    }

    /// The list whose top node is `top_node`.
    pub fn new(top_node: Option<&'a NodeRef<'a, T>>) -> (list: Self)
        ensures
            list.top() == top_node,
    {
        StackList(top_node)
    }

    /// The top node, giving up the list.
    pub fn take(self) -> (top_node: Option<&'a NodeRef<'a, T>>)
        ensures
            top_node == self.top(),
    {
        self.0
    }

    /// An iterator over the values, topmost first.
    pub fn iter(&self) -> (it: StackListIter<'a, T>)
        ensures
            it.current() == self.top(),
            it.remaining() == self.values(),
    {
        StackListIter(self.0)
    }
}

/// The iterator of [`StackList::iter`]: the node whose value comes next.
pub struct StackListIter<'a, T>(Option<&'a NodeRef<'a, T>>);

impl<'a, T> StackListIter<'a, T> {
    /// The node whose value comes next.
    pub closed spec fn current(self) -> Option<&'a NodeRef<'a, T>> {
        self.0
    }

    /// The values still to come, in order.
    pub open spec fn remaining(self) -> Seq<T> {
        chain_values(self.current())
    }

    /// The next value, or `None` once the bottom is passed.
    pub fn next(&mut self) -> (r: Option<&'a T>)
        ensures
            old(self).current() is None ==> r is None && final(self).current() is None,
            old(self).current() matches Some(n) ==> {
                &&& r is Some
                &&& *r->0 == n.value_spec()
                &&& final(self).current() == n.previous_spec()
            },
            final(self).current() == node_below(old(self).current(), 1),
            returned_value(r) == next_of(old(self).remaining()).0,
            final(self).remaining() == next_of(old(self).remaining()).1,
    {
        match self.0 {
            Some(inner) => {
                proof {
                    inner.lemma_values();
                    assert(node_below(inner.previous_spec(), 0) == inner.previous_spec());
                }
                self.0 = *inner.previous_node();
                Some(inner.pair().1)
            },
            None => None,
        }
    }
}

} // verus!
