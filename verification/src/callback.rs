//! The decisions of the recursion that keeps a list in its frames.
//!
//! The recursion runs like this.  A frame shows the callback the list made of
//! the nodes of the frames below it (and its own, if it has one) and acts on
//! the answer, as [`step_of`] says.  Storing makes a new node in this frame and
//! a new frame above it; any other answer becomes an [`OpResult`] that the
//! frame hands down.  A frame that holds a node and gets such a result from the
//! frame above decides by [`after_child`] whether to show the callback its list
//! again or to hand a result further down.  The bottom of the recursion decides
//! by [`at_start`] whether the computation is over or starts again with an
//! empty list.
//!
//! The recursion itself is not here: how deep it goes and how often it asks
//! the callback is up to the callback, so no measure shows that it ends.  It
//! lives in the program around the library, which calls these three
//! functions at each step.  What the frames do together is described by the
//! spec function [`land`], a model of that recursion written from these
//! functions' contracts; the recursion is not checked against it.
//!
//! Over that model, [`lemma_protocol_matches_reference`] proves that the
//! decisions do to the list exactly what [`reference_step`] says, and
//! [`lemma_run_matches_vector`] with [`lemma_run_ends_at_first_return`] carries
//! this over a whole run of answers, against a vector used as a stack.

use vstd::prelude::*;

use crate::Op;

verus! {

/// What a frame hands down to the frame below it once it is finished.
#[derive(Clone, Copy, Debug)]
pub enum OpResult<U> {
    /// The computation ends with this result.
    Return(U),
    /// This many more nodes are to be removed, from the frame below on.
    PopMultiple(usize),
    /// Every node is to be removed.
    Clear,
}

/// What a frame does with the callback's answer.
#[derive(Clone, Copy, Debug)]
pub enum FrameStep<T, U> {
    /// Make a node holding this value and a new frame above.
    Push(T),
    /// Finish this frame, handing this result down.
    Leave(OpResult<U>),
}

/// What a frame that holds a node does with the result of the frame above it.
#[derive(Clone, Copy, Debug)]
pub enum Resume<U> {
    /// Show the callback this frame's list again.
    Again,
    /// Finish this frame too, handing this result down.
    Leave(OpResult<U>),
}

/// The meaning of [`step_of`].
pub open spec fn step_spec<T, U>(op: Op<T, U>) -> FrameStep<T, U> {
    match op {
        Op::Store(value) => FrameStep::Push(value),
        Op::Return(result) => FrameStep::Leave(OpResult::Return(result)),
        Op::Pop => FrameStep::Leave(OpResult::PopMultiple(1)),
        Op::PopMultiple(count) => FrameStep::Leave(OpResult::PopMultiple(count)),
        Op::Clear => FrameStep::Leave(OpResult::Clear),
    }
}

/// The meaning of [`after_child`].
pub open spec fn after_child_spec<U>(result: OpResult<U>) -> Resume<U> {
    match result {
        OpResult::PopMultiple(count) => if count == 0 {
            Resume::Again
        } else {
            Resume::Leave(OpResult::PopMultiple((count - 1) as usize))
        },
        other => Resume::Leave(other),
    }
}

/// The meaning of [`at_start`].
pub open spec fn at_start_spec<U>(result: OpResult<U>) -> Option<U> {
    match result {
        OpResult::Return(value) => Some(value),
        _ => None,
    }
}

/// What a frame does with the callback's answer: a stored value becomes a new
/// node, a single pop is a pop of one node, and the other answers are handed
/// down as they are.
pub fn step_of<T, U>(op: Op<T, U>) -> (step: FrameStep<T, U>)
    ensures
        step == step_spec(op),
{
    match op {
        Op::Store(store_val) => FrameStep::Push(store_val),
        Op::Return(return_val) => FrameStep::Leave(OpResult::Return(return_val)),
        Op::Clear => FrameStep::Leave(OpResult::Clear),
        Op::Pop => FrameStep::Leave(OpResult::PopMultiple(1)),
        Op::PopMultiple(count) => FrameStep::Leave(OpResult::PopMultiple(count)),
    }
}

/// What a frame that holds a node does with the result of the frame above:
/// a pop of no more nodes shows the callback this frame's list again, a pop of
/// `count` nodes removes this frame's node and hands down a pop of `count - 1`,
/// and the other results are handed down as they are.
pub fn after_child<U>(result: OpResult<U>) -> (resume: Resume<U>)
    ensures
        resume == after_child_spec(result),
{
    match result {
        OpResult::PopMultiple(count) => {
            if let Some(count) = count.checked_sub(1) {
                Resume::Leave(OpResult::PopMultiple(count))
            } else {
                Resume::Again
            }
        },
        OpResult::Return(result) => Resume::Leave(OpResult::Return(result)),
        OpResult::Clear => Resume::Leave(OpResult::Clear),
    }
}

/// What the bottom of the recursion does with the result handed down to it:
/// a returned value ends the computation, and anything else starts it again
/// with an empty list.
pub fn at_start<U>(result: OpResult<U>) -> (done: Option<U>)
    ensures
        done == at_start_spec(result),
{
    match result {
        OpResult::Return(result) => Some(result),
        OpResult::PopMultiple(_) => None,
        OpResult::Clear => None,
    }
}

/// Where the computation goes on after a result is handed down.
pub enum Landing<U> {
    /// The callback is shown the list of this many nodes, the bottom ones.
    Depth(nat),
    /// The computation ends with this result.
    Returned(U),
}

/// Where a result handed down by the frame above the `frames` frames that hold
/// a node lands, following [`after_child`] in each of them and [`at_start`]
/// below them.
pub open spec fn land<U>(frames: nat, result: OpResult<U>) -> Landing<U>
    decreases frames,
{
    if frames == 0 {
        match at_start_spec(result) {
            Some(value) => Landing::Returned(value),
            None => Landing::Depth(0),
        }
    } else {
        match after_child_spec(result) {
            Resume::Again => Landing::Depth(frames),
            Resume::Leave(next) => land((frames - 1) as nat, next),
        }
    }
}

/// What comes of an answer of the callback.
#[verifier::ext_equal]
pub enum Outcome<T, U> {
    /// The callback is shown this list next, topmost value first.
    Show(Seq<T>),
    /// The computation ends with this result.
    Finish(U),
}

/// What the callback's answer does to the list (topmost value first), as a
/// vector used as a stack would have it: a stored value goes on top, a pop
/// removes the top value if there is one, a pop of `n` removes the top `n`
/// values or all of them if there are fewer, and a clear removes all.
pub open spec fn reference_step<T, U>(list: Seq<T>, op: Op<T, U>) -> Outcome<T, U> {
    match op {
        Op::Store(value) => Outcome::Show(seq![value].add(list)),
        Op::Return(result) => Outcome::Finish(result),
        Op::Pop => Outcome::Show(if list.len() == 0 { list } else { list.skip(1) }),
        Op::PopMultiple(count) => Outcome::Show(
            if count <= list.len() { list.skip(count as int) } else { Seq::empty() },
        ),
        Op::Clear => Outcome::Show(Seq::empty()),
    }
}

/// What the frames do with the callback's answer when it was shown `list`:
/// a pushed value goes on top; after a result is handed down, the callback is
/// shown the nodes of the frames that the result lands in.
pub open spec fn protocol_step<T, U>(list: Seq<T>, op: Op<T, U>) -> Outcome<T, U> {
    match step_spec(op) {
        FrameStep::Push(value) => Outcome::Show(seq![value].add(list)),
        FrameStep::Leave(result) => match land(list.len(), result) {
            Landing::Depth(depth) => Outcome::Show(list.skip(list.len() - depth)),
            Landing::Returned(value) => Outcome::Finish(value),
        },
    }
}

/// A pop of `count` nodes handed down past `frames` frames that hold a node
/// lands in the frame that keeps `frames - count` of them, or starts over with
/// none if there are not that many.
pub proof fn lemma_land_pop<U>(frames: nat, count: usize)
    ensures
        land::<U>(frames, OpResult::PopMultiple(count)) == Landing::<U>::Depth(
            if count <= frames { (frames - count) as nat } else { 0 },
        ),
    decreases frames,
{
    if frames > 0 && count > 0 {
        lemma_land_pop::<U>((frames - 1) as nat, (count - 1) as usize);
    }
}

/// A clear handed down past any number of frames starts over with no node.
pub proof fn lemma_land_clear<U>(frames: nat)
    ensures
        land::<U>(frames, OpResult::Clear) == Landing::<U>::Depth(0),
    decreases frames,
{
    if frames > 0 {
        lemma_land_clear::<U>((frames - 1) as nat);
    }
}

/// A returned value is handed down past every frame and ends the computation.
pub proof fn lemma_land_return<U>(frames: nat, value: U)
    ensures
        land::<U>(frames, OpResult::Return(value)) == Landing::<U>::Returned(value),
    decreases frames,
{
    if frames > 0 {
        lemma_land_return::<U>((frames - 1) as nat, value);
    }
}

/// The frames keep the list exactly as a vector used as a stack would: for
/// every list the callback is shown and every answer it gives, the list it is
/// shown next, or the value the computation ends with, is that of
/// [`reference_step`].
pub proof fn lemma_protocol_matches_reference<T, U>(list: Seq<T>, op: Op<T, U>)
    ensures
        protocol_step(list, op) == reference_step(list, op),
{
    match op {
        Op::Store(_) => {},
        Op::Return(value) => {
            lemma_land_return::<U>(list.len(), value);
        },
        Op::Pop => {
            lemma_land_pop::<U>(list.len(), 1);
            if list.len() == 0 {
                assert(list.skip(0) =~= list);
            }
        },
        Op::PopMultiple(count) => {
            lemma_land_pop::<U>(list.len(), count);
            if count > list.len() {
                assert(list.skip(list.len() as int) =~= Seq::<T>::empty());
            }
        },
        Op::Clear => {
            lemma_land_clear::<U>(list.len());
            assert(list.skip(list.len() as int) =~= Seq::<T>::empty());
        },
    }
}

/// What the callback's answer does to a vector used as a stack, bottom value
/// first: a stored value is pushed, a pop pops if there is a value, a pop of
/// `n` pops `n` times or until the vector is empty, and a clear empties it.
pub open spec fn vector_step<T, U>(vector: Seq<T>, op: Op<T, U>) -> Outcome<T, U> {
    match op {
        Op::Store(value) => Outcome::Show(vector.push(value)),
        Op::Return(result) => Outcome::Finish(result),
        Op::Pop => Outcome::Show(if vector.len() == 0 { vector } else { vector.drop_last() }),
        Op::PopMultiple(count) => Outcome::Show(
            if count <= vector.len() { vector.take(vector.len() - count) } else { Seq::empty() },
        ),
        Op::Clear => Outcome::Show(Seq::empty()),
    }
}

/// A run of the frames over the callback's `answers`, starting from `list`
/// (topmost value first): the list the callback is shown before each answer
/// it gives, up to and including the first answer that returns, and the value
/// the run ends with if one does.
pub open spec fn run_frames<T, U>(list: Seq<T>, answers: Seq<Op<T, U>>) -> (Seq<Seq<T>>, Option<U>)
    decreases answers.len(),
{
    if answers.len() == 0 {
        (Seq::empty(), None)
    } else {
        match protocol_step(list, answers[0]) {
            Outcome::Show(next) => {
                let rest = run_frames(next, answers.drop_first());
                (seq![list].add(rest.0), rest.1)
            },
            Outcome::Finish(value) => (seq![list], Some(value)),
        }
    }
}

/// The same run for a vector used as a stack (bottom value first): the vector
/// before each answer, up to and including the first answer that returns, and
/// the value of that answer.
pub open spec fn run_vector<T, U>(vector: Seq<T>, answers: Seq<Op<T, U>>) -> (Seq<Seq<T>>, Option<U>)
    decreases answers.len(),
{
    if answers.len() == 0 {
        (Seq::empty(), None)
    } else {
        match vector_step(vector, answers[0]) {
            Outcome::Show(next) => {
                let rest = run_vector(next, answers.drop_first());
                (seq![vector].add(rest.0), rest.1)
            },
            Outcome::Finish(value) => (seq![vector], Some(value)),
        }
    }
}

proof fn lemma_reverse_push<T>(vector: Seq<T>, value: T)
    ensures
        vector.push(value).reverse() == seq![value].add(vector.reverse()),
{
    assert(vector.push(value).reverse() =~= seq![value].add(vector.reverse()));
}

proof fn lemma_reverse_take<T>(vector: Seq<T>, count: int)
    requires
        0 <= count <= vector.len(),
    ensures
        vector.take(vector.len() - count).reverse() == vector.reverse().skip(count),
{
    assert(vector.take(vector.len() - count).reverse() =~= vector.reverse().skip(count));
}

/// One answer does to the list the frames keep what it does to a vector used
/// as a stack, read from the top.
pub proof fn lemma_step_matches_vector<T, U>(vector: Seq<T>, op: Op<T, U>)
    ensures
        match (protocol_step(vector.reverse(), op), vector_step(vector, op)) {
            (Outcome::Show(list), Outcome::Show(next)) => list == next.reverse(),
            (Outcome::Finish(a), Outcome::Finish(b)) => a == b,
            _ => false,
        },
{
    lemma_protocol_matches_reference(vector.reverse(), op);
    match op {
        Op::Store(value) => {
            lemma_reverse_push(vector, value);
        },
        Op::Return(_) => {},
        Op::Pop => {
            if vector.len() > 0 {
                lemma_reverse_take(vector, 1);
                assert(vector.drop_last() =~= vector.take(vector.len() - 1));
            }
        },
        Op::PopMultiple(count) => {
            if count <= vector.len() {
                lemma_reverse_take(vector, count as int);
            }
        },
        Op::Clear => {
            assert(Seq::<T>::empty().reverse() =~= Seq::<T>::empty());
        },
    }
}

/// Over a whole run, the list the callback is shown before each answer is the
/// vector used as a stack at that point, read from the top; the callback is
/// asked as many times as the vector run has states, and the run ends with the
/// same value.
pub proof fn lemma_run_matches_vector<T, U>(vector: Seq<T>, answers: Seq<Op<T, U>>)
    ensures
        run_frames(vector.reverse(), answers).0.len() == run_vector(vector, answers).0.len(),
        forall|k: int|
            0 <= k < run_vector(vector, answers).0.len() ==> #[trigger] run_frames(
                vector.reverse(),
                answers,
            ).0[k] == run_vector(vector, answers).0[k].reverse(),
        run_frames(vector.reverse(), answers).1 == run_vector(vector, answers).1,
    decreases answers.len(),
{
    if answers.len() > 0 {
        lemma_step_matches_vector(vector, answers[0]);
        match vector_step(vector, answers[0]) {
            Outcome::Show(next) => {
                lemma_run_matches_vector(next, answers.drop_first());
                let f = run_frames(vector.reverse(), answers).0;
                let v = run_vector(vector, answers).0;
                assert forall|k: int| 0 <= k < v.len() implies #[trigger] f[k] == v[k].reverse() by {
                    if k > 0 {
                        assert(f[k] == run_frames(next.reverse(), answers.drop_first()).0[k - 1]);
                        assert(v[k] == run_vector(next, answers.drop_first()).0[k - 1]);
                    }
                }
            },
            Outcome::Finish(_) => {},
        }
    }
}

/// A run goes on until the first answer that returns: if the answer numbered
/// `k` returns `value` and none before it does, the callback is asked exactly
/// `k + 1` times and the run ends with `value`.
pub proof fn lemma_run_ends_at_first_return<T, U>(vector: Seq<T>, answers: Seq<Op<T, U>>, k: int, value: U)
    requires
        0 <= k < answers.len(),
        answers[k] == Op::<T, U>::Return(value),
        forall|j: int| 0 <= j < k ==> !(#[trigger] answers[j] is Return),
    ensures
        run_vector(vector, answers).0.len() == k + 1,
        run_vector(vector, answers).1 == Some(value),
    decreases k,
{
    if k > 0 {
        let next = vector_step(vector, answers[0])->Show_0;
        assert(!(answers[0] is Return));
        assert forall|j: int| 0 <= j < k - 1 implies !(#[trigger] answers.drop_first()[j] is Return) by {
            assert(answers.drop_first()[j] == answers[j + 1]);
        }
        lemma_run_ends_at_first_return(next, answers.drop_first(), k - 1, value);
    }
}

} // verus!
