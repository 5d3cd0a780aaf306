//! Values stored in a chain of nodes that live in the frames of a recursion.
//!
//! A callback is asked, again and again, what to do with the list it is shown;
//! each answer is an [`Op`].  Storing a value adds a node on top of the list,
//! popping removes nodes from the top, clearing empties it, and returning ends
//! the whole computation with the callback's result.

use core::marker::PhantomData;
use core::ops::Deref;

use vstd::prelude::*;

use crate::list::StackList;

pub mod callback;
pub mod list;
pub mod node_mut;
pub mod node_ref;

verus! {

/// What the callback asks for after looking at the list.
#[derive(Clone, Copy, Debug)]
pub enum Op<T, U> {
    /// Put a value on top of the list.
    Store(T),
    /// End the computation with this result.
    Return(U),
    /// Remove the top value.
    Pop,
    /// Remove this many values from the top (all of them if there are fewer).
    PopMultiple(usize),
    /// Remove every value.
    Clear,
}

/// Where a generator stands after it was resumed.
#[derive(Clone, Copy, Debug)]
pub enum GeneratorState<Y, R> {
    /// It handed out this value and can be resumed again.
    Yielded(Y),
    /// It finished with this value.
    Complete(R),
}

/// The answer that a generator gives by where it stands: what it yields is
/// the answer, and a generator that has finished asks to return its result.
/// Either way the token comes back with it.
pub fn resumed_op<K, T, R>(state: GeneratorState<(K, Op<T, R>), (K, R)>) -> (answer: (K, Op<T, R>))
    ensures
        match state {
            GeneratorState::Yielded(yielded) => answer == yielded,
            GeneratorState::Complete((token, result)) => answer == (token, Op::<T, R>::Return(result)),
        },
{
    match state {
        GeneratorState::Yielded((token, op)) => (token, op),
        GeneratorState::Complete((token, result)) => (token, Op::Return(result)),
    }
}

/// A token that stands for a list while it is handed to code that gives it
/// back: it holds a reference to the list it was made from.
pub struct StackListToken<'b, 'c, T, U>(&'b StackList<'c, T>, PhantomData<U>);

/// The token for `stack_list`.
pub closed spec fn token_for<'b, 'c, T, U>(stack_list: &'b StackList<'c, T>) -> StackListToken<'b, 'c, T, U> {
    StackListToken(stack_list, PhantomData)
}

impl<'b, 'c, T, U> StackListToken<'b, 'c, T, U> {
    /// The list the token stands for.
    pub closed spec fn list(self) -> &'b StackList<'c, T> {
        self.0
    }

    /// The token for `stack_list`.
    pub fn new(stack_list: &'b StackList<'c, T>) -> (token: Self)
        ensures
            token == token_for::<T, U>(stack_list),
            *token.list() == *stack_list,
    {
        StackListToken(stack_list, PhantomData)
    }

    /// Hands the token for `stack_list` to `fun`, which gives a token back
    /// along with its result; the result is returned.
    pub fn lifetimeless_view<R, F>(stack_list: &'b StackList<'c, T>, fun: F) -> (result: R) where
        F: FnOnce(StackListToken<'b, 'c, T, U>) -> (StackListToken<'b, 'c, T, U>, R),
        requires
            fun.requires((token_for::<T, U>(stack_list),)),
        ensures
            exists|back: StackListToken<'b, 'c, T, U>|
                fun.ensures((token_for::<T, U>(stack_list),), (back, result)),
    {
        let token = StackListToken::new(stack_list);
        let (back, result) = fun(token);
        let _: StackListToken<'b, 'c, T, U> = back;
        result
    }

    /// A borrowed view of the list the token was made from.
    pub fn borrow(&self) -> (borrowed: StackListTokenBorrowed<'b, 'c, T>)
        ensures
            borrowed.list() == self.list(),
    {
        StackListTokenBorrowed(self.0)
    }
}

/// The list a [`StackListToken`] stands for, borrowed as the token borrows it.
#[derive(Clone, Copy)]
pub struct StackListTokenBorrowed<'b, 'c, T>(&'b StackList<'c, T>);

impl<'b, 'c, T> StackListTokenBorrowed<'b, 'c, T> {
    /// The list.
    pub closed spec fn list(self) -> &'b StackList<'c, T> {
        self.0
    }
}

impl<'b, 'c, T> Deref for StackListTokenBorrowed<'b, 'c, T> {
    type Target = StackList<'c, T>;

    fn deref(&self) -> (list: &Self::Target)
        ensures
            *list == *self.list(),
    {
        self.0
    }
}

} // verus!
