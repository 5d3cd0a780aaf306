//! Nodes linked by exclusive references, so that every value in the chain can
//! be changed in place.

use vstd::prelude::*;

verus! {

/// A value together with an exclusive link to the node below it.
///
/// `height` counts the nodes below this one when the node was made; it is what
/// lets the view of a chain be defined by recursion.  The fields are public so
/// that verified callers read `value` as they would any field; a node built
/// other than by [`NodeMut::new`] may break the order of heights, and the
/// contracts that speak of the values of a whole chain then ask for `wf`.
///
/// A node links to the node below by an exclusive reference with the same
/// lifetime as its own type, so the node below stays borrowed for as long as
/// any node above it has that type: it cannot be used again after the node
/// above it is gone.  Shortening that borrow would take erasing lifetimes
/// with raw pointers; here the node below is reached through the one above,
/// with [`NodeMut::previous_node`].
pub struct NodeMut<'a, T> {
    pub previous: Option<&'a mut NodeMut<'a, T>>,
    pub value: T,
    pub height: Ghost<nat>,
}

/// The values of a chain that may be empty, topmost first.
pub open spec fn chain_values_mut<'a, T>(top: Option<&'a mut NodeMut<'a, T>>) -> Seq<T> {
    match top {
        Some(node) => (*node).values(),
        None => Seq::empty(),
    }
}

/// Whether a chain that may be empty is well formed.
pub open spec fn chain_wf<'a, T>(top: Option<&'a mut NodeMut<'a, T>>) -> bool {
    match top {
        Some(node) => (*node).wf(),
        None => true,
    }
}

/// The height that a node on top of `top` gets.
pub open spec fn height_above<'a, T>(top: Option<&'a mut NodeMut<'a, T>>) -> nat {
    match top {
        Some(node) => (*node).height_spec() + 1,
        None => 0,
    }
}

impl<'a, T> NodeMut<'a, T> {
    /// The link to the node below.
    pub open spec fn previous_spec(self) -> Option<&'a mut NodeMut<'a, T>> {
        self.previous
    }

    /// The value held by this node: its public field `value`.
    pub open spec fn value_spec(self) -> T {
        self.value
    }

    /// The number of nodes that were below this one when it was made.
    pub open spec fn height_spec(self) -> nat {
        self.height@
    }

    /// Every link of the chain leads to a node made lower down, so the chain ends.
    pub closed spec fn wf(self) -> bool
        decreases self.height_spec(),
    {
        match self.previous {
            Some(p) => (*p).height@ < self.height@ && (*p).wf(),
            None => true,
        }
    }

    /// The values of this node and of every node below it, this node's first.
    pub closed spec fn values(self) -> Seq<T>
        decreases self.height_spec(),
    {
        match self.previous {
            Some(p) => if (*p).height@ < self.height@ {
                seq![self.value].add((*p).values())
            } else {
                seq![self.value]
            },
            None => seq![self.value],
        }
    }

    /// A node holding `value`, on top of `previous`.
    pub fn new(previous: Option<&'a mut NodeMut<'a, T>>, value: T) -> (node: Self)
        ensures
            node.previous_spec() == previous,
            node.value_spec() == value,
            node.height_spec() == height_above(previous),
            node.wf() == chain_wf(previous),
            chain_wf(previous) ==> node.values() == seq![value].add(chain_values_mut(previous)),
    {
        let ghost height = height_above(previous);
        NodeMut { previous, value, height: Ghost(height) }
    }

    /// The link to the node below and the value, both open to change.
    pub fn pair(&mut self) -> (r: (&mut Option<&'a mut NodeMut<'a, T>>, &mut T))
        ensures
            *r.0 == old(self).previous_spec(),
            *r.1 == old(self).value_spec(),
            final(self).previous_spec() == *final(r.0),
            final(self).value_spec() == *final(r.1),
            final(self).height_spec() == old(self).height_spec(),
    {
        (&mut self.previous, &mut self.value)
    }

    /// The link to the node below, open to change.
    pub fn previous_node(&mut self) -> (r: &mut Option<&'a mut NodeMut<'a, T>>)
        ensures
            *r == old(self).previous_spec(),
            final(self).previous_spec() == *final(r),
            final(self).value_spec() == old(self).value_spec(),
            final(self).height_spec() == old(self).height_spec(),
    {
        self.pair().0
    }

    /// Facts that connect the view of a node with its fields.
    pub proof fn lemma_values(self)
        ensures
            self.values().len() >= 1,
            self.values()[0] == self.value_spec(),
            self.wf() ==> chain_wf(self.previous_spec()),
            self.wf() ==> self.values().drop_first() == chain_values_mut(self.previous_spec()),
    {
        match self.previous {
            Some(p) => {
                if (*p).height@ < self.height@ {
                    assert(self.values().drop_first() =~= (*p).values());
                }
            },
            None => {
                assert(self.values().drop_first() =~= Seq::<T>::empty());
            },
        }
    }
}

} // verus!
