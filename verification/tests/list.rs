use stacklist::list::{StackList, StackListMut};
use stacklist::node_mut::NodeMut;
use stacklist::node_ref::NodeRef;

#[test]
fn test_iter_mut() {
    let mut a = NodeMut::new(None, 1i32);
    let mut b = NodeMut::new(Some(&mut a), 2);
    let mut c = NodeMut::new(Some(&mut b), 3);
    let mut d = NodeMut::new(Some(&mut c), 4);

    let head = &mut d;
    let mut list = StackListMut::new(Some(head));

    {
        let mut iter = list.iter_mut();
        assert_eq!(iter.next(), Some(&mut 4));

        let value = iter.next();
        assert_eq!(value, Some(&mut 3));
        if let Some(x) = value {
            *x = 6;
        }

        assert_eq!(iter.next(), Some(&mut 2));
        assert_eq!(iter.next(), Some(&mut 1));
        assert_eq!(iter.next(), None);
        assert_eq!(iter.next(), None); // Just to make sure nothing weird is going on.
    }

    let mut iter = list.iter_mut();
    assert_eq!(iter.next(), Some(&mut 4));
    assert_eq!(iter.next(), Some(&mut 6));
    assert_eq!(iter.next(), Some(&mut 2));
    assert_eq!(iter.next(), Some(&mut 1));
    assert_eq!(iter.next(), None);
    assert_eq!(iter.next(), None); // Just to make sure nothing weird is going on.
}

#[test]
fn iter_mut_of_empty_list_yields_nothing() {
    let mut list: StackListMut<'_, '_, i32> = StackListMut::new(None);
    let mut iter = list.iter_mut();
    assert_eq!(iter.next(), None);
    assert_eq!(iter.next(), None);
    assert!(list.take().is_none());
}

#[test]
fn take_gives_back_the_top_node() {
    let mut a = NodeMut::new(None, 7u8);
    let mut b = NodeMut::new(Some(&mut a), 8);
    let list = StackListMut::new(Some(&mut b));
    let top = list.take().expect("the list has a top node");
    assert_eq!(top.value, 8);
    let below = top.previous_node().as_mut().expect("there is a node below");
    assert_eq!(below.value, 7);
}

#[test]
fn iter_yields_values_topmost_first() {
    let a = NodeRef::new(None, 'a');
    let b = NodeRef::new(Some(&a), 'b');
    let c = NodeRef::new(Some(&b), 'c');
    let list = StackList::new(Some(&c));
    let mut iter = list.iter();
    assert_eq!(iter.next(), Some(&'c'));
    assert_eq!(iter.next(), Some(&'b'));
    assert_eq!(iter.next(), Some(&'a'));
    assert_eq!(iter.next(), None);
    assert_eq!(iter.next(), None);
    // The list itself is untouched by iterating.
    let mut again = list.iter();
    assert_eq!(again.next(), Some(&'c'));
}

#[test]
fn iter_of_empty_list_yields_nothing() {
    let list: StackList<'_, u32> = StackList::new(None);
    assert_eq!(list.iter().next(), None);
    assert!(list.take().is_none());
}
