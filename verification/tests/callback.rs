use stacklist::callback::{after_child, at_start, step_of, FrameStep, OpResult, Resume};
use stacklist::list::StackList;
use stacklist::node_ref::NodeRef;
use stacklist::Op;

// The recursion that the decisions are made for, as a program around the
// library runs it.
fn frame<'a, T, U>(
    fun: &mut impl for<'c> FnMut(&mut StackList<'c, T>) -> Op<T, U>,
    node: Option<&'a NodeRef<'a, T>>,
) -> OpResult<U> {
    let mut stack = StackList::new(node);
    match step_of(fun(&mut stack)) {
        FrameStep::Push(value) => {
            let node_inner = NodeRef::new(stack.take(), value);
            loop {
                match after_child(frame(fun, Some(&node_inner))) {
                    Resume::Again => continue,
                    Resume::Leave(result) => return result,
                }
            }
        }
        FrameStep::Leave(result) => result,
    }
}

fn run<T, U>(mut fun: impl for<'c> FnMut(&mut StackList<'c, T>) -> Op<T, U>) -> U {
    loop {
        if let Some(result) = at_start(frame(&mut fun, None)) {
            return result;
        }
    }
}

fn values<T: Copy>(list: &StackList<'_, T>) -> Vec<T> {
    let mut out = Vec::new();
    let mut iter = list.iter();
    while let Some(v) = iter.next() {
        out.push(*v);
    }
    out
}

#[test]
fn step_of_each_answer() {
    assert!(matches!(step_of::<u8, u8>(Op::Store(5)), FrameStep::Push(5)));
    assert!(matches!(step_of::<u8, u8>(Op::Return(6)), FrameStep::Leave(OpResult::Return(6))));
    assert!(matches!(step_of::<u8, u8>(Op::Pop), FrameStep::Leave(OpResult::PopMultiple(1))));
    assert!(matches!(
        step_of::<u8, u8>(Op::PopMultiple(4)),
        FrameStep::Leave(OpResult::PopMultiple(4))
    ));
    assert!(matches!(step_of::<u8, u8>(Op::Clear), FrameStep::Leave(OpResult::Clear)));
}

#[test]
fn after_child_of_each_result() {
    assert!(matches!(after_child::<u8>(OpResult::PopMultiple(0)), Resume::Again));
    assert!(matches!(after_child::<u8>(OpResult::PopMultiple(1)), Resume::Leave(OpResult::PopMultiple(0))));
    assert!(matches!(after_child::<u8>(OpResult::PopMultiple(9)), Resume::Leave(OpResult::PopMultiple(8))));
    assert!(matches!(
        after_child::<u8>(OpResult::PopMultiple(usize::MAX)),
        Resume::Leave(OpResult::PopMultiple(n)) if n == usize::MAX - 1
    ));
    assert!(matches!(after_child::<u8>(OpResult::Return(3)), Resume::Leave(OpResult::Return(3))));
    assert!(matches!(after_child::<u8>(OpResult::Clear), Resume::Leave(OpResult::Clear)));
}

#[test]
fn at_start_of_each_result() {
    assert_eq!(at_start::<u8>(OpResult::Return(42)), Some(42));
    assert_eq!(at_start::<u8>(OpResult::PopMultiple(0)), None);
    assert_eq!(at_start::<u8>(OpResult::PopMultiple(3)), None);
    assert_eq!(at_start::<u8>(OpResult::Clear), None);
}

#[test]
fn readme_example_sums_what_is_left() {
    let mut i = 0i32;
    let result = run(|lst| {
        i += 1;
        match i {
            0..=4 => Op::Store(Box::new(i)),
            5 => Op::PopMultiple(2),
            _ => {
                let mut total = 0;
                let mut iter = lst.iter();
                while let Some(x) = iter.next() {
                    total += **x;
                }
                Op::Return(total)
            }
        }
    });
    assert_eq!(result, 3);
}

#[test]
fn basic_example_shows_each_list() {
    let mut i = 0i32;
    let mut seen: Vec<Vec<i32>> = Vec::new();
    let result = run(|lst| {
        i += 1;
        seen.push(values(lst));
        match i {
            0..=4 => Op::Store(i),
            5 => Op::Pop,
            6 => Op::PopMultiple(2),
            7 => Op::Store(i),
            _ => Op::Return(values(lst).iter().sum::<i32>()),
        }
    });
    assert_eq!(result, 8);
    assert_eq!(
        seen,
        vec![
            vec![],
            vec![1],
            vec![2, 1],
            vec![3, 2, 1],
            vec![4, 3, 2, 1],
            vec![3, 2, 1],
            vec![1],
            vec![7, 1],
        ]
    );
}

// The list the callback sees always equals a vector used as a stack, read
// from the top, and the computation ends with the value of the first return.
fn compare_with_vector(ops: &[Op<(), ()>]) {
    let mut unique_id = 0i32;
    let data: Vec<Op<i32, i32>> = ops
        .iter()
        .map(|x| {
            let result = match x {
                Op::Store(_) => Op::Store(unique_id),
                Op::Return(_) => Op::Return(unique_id),
                Op::Pop => Op::Pop,
                Op::PopMultiple(e) => Op::PopMultiple(*e),
                Op::Clear => Op::Clear,
            };
            unique_id += 1;
            result
        })
        .collect();

    let mut iter = data.iter();
    let mut reference: Vec<i32> = vec![];
    let mut vec_return = None;
    let stack_return: i32 = run(|lst| {
        let expected: Vec<i32> = reference.iter().rev().copied().collect();
        assert_eq!(values(lst), expected);

        if let Some(elem) = iter.next() {
            match elem {
                Op::Store(elem) => reference.push(*elem),
                Op::Pop => {
                    reference.pop();
                }
                Op::PopMultiple(i) => {
                    for _ in 0..(*i).min(reference.len()) {
                        reference.pop();
                    }
                }
                Op::Clear => reference.clear(),
                Op::Return(vec_return_inner) => {
                    vec_return = Some(*vec_return_inner);
                }
            }
            *elem
        } else {
            vec_return = Some(0);
            Op::Return(0)
        }
    });
    assert_eq!(vec_return.unwrap(), stack_return);
}

#[test]
fn list_matches_vector_used_as_stack() {
    compare_with_vector(&[
        Op::Store(()),
        Op::Store(()),
        Op::Store(()),
        Op::PopMultiple(0),
        Op::Pop,
        Op::Store(()),
        Op::PopMultiple(2),
        Op::Store(()),
        Op::Store(()),
        Op::Clear,
        Op::Pop,
        Op::Store(()),
        Op::Store(()),
        Op::PopMultiple(5),
        Op::Store(()),
        Op::Store(()),
        Op::Store(()),
        Op::PopMultiple(3),
        Op::Store(()),
        Op::Return(()),
    ]);
}

#[test]
fn list_matches_vector_without_a_return() {
    compare_with_vector(&[Op::Store(()), Op::Pop, Op::Pop, Op::Store(()), Op::Store(())]);
    compare_with_vector(&[]);
    compare_with_vector(&[Op::Return(())]);
}
