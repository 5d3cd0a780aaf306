//! Nodes linked by shared references.

use vstd::prelude::*;

verus! {

/// A value together with a shared link to the node below it.
pub struct NodeRef<'a, T> {
    previous: Option<&'a NodeRef<'a, T>>,
    value: T,
}

/// The values of a chain that may be empty, topmost first.
pub open spec fn chain_values<'a, T>(top: Option<&'a NodeRef<'a, T>>) -> Seq<T> {
    match top {
        Some(node) => node.values(),
        None => Seq::empty(),
    }
}

impl<'a, T> NodeRef<'a, T> {
    /// The link to the node below.
    pub closed spec fn previous_spec(self) -> Option<&'a NodeRef<'a, T>> {
        self.previous
    }

    /// The value held by this node.
    pub closed spec fn value_spec(self) -> T {
        self.value
    }

    /// The values of this node and of every node below it, this node's first.
    pub closed spec fn values(self) -> Seq<T>
        decreases self,
    {
        match self.previous {
            Some(p) => seq![self.value].add(p.values()),
            None => seq![self.value],
        }
    }

    /// A node holding `value`, on top of `previous`.
    pub fn new(previous: Option<&'a NodeRef<'a, T>>, value: T) -> (node: Self)
        ensures
            node.previous_spec() == previous,
            node.value_spec() == value,
            node.values() == seq![value].add(chain_values(previous)),
    {
        NodeRef { previous, value }
    }

    /// The link to the node below, and the value.
    pub fn pair(&self) -> (r: (&Option<&'a NodeRef<'a, T>>, &T))
        ensures
            *r.0 == self.previous_spec(),
            *r.1 == self.value_spec(),
    {
        (&self.previous, &self.value)
    }

    /// The link to the node below.
    pub fn previous_node(&self) -> (r: &Option<&'a NodeRef<'a, T>>)
        ensures
            *r == self.previous_spec(),
    {
        self.pair().0
    }

    /// Facts that connect the view of a node with its fields.
    pub proof fn lemma_values(self)
        ensures
            self.values().len() >= 1,
            self.values()[0] == self.value_spec(),
            self.values().drop_first() == chain_values(self.previous_spec()),
    {
        match self.previous {
            Some(p) => {
                assert(self.values().drop_first() =~= p.values());
            },
            None => {
                assert(self.values().drop_first() =~= Seq::<T>::empty());
            },
        }
    }
}

} // verus!
