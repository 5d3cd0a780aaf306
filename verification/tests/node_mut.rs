use stacklist::node_mut::NodeMut;

#[test]
fn test_lifetime() {
    let mut a = NodeMut::new(None, 1i32);
    let mut b = NodeMut::new(Some(&mut a), 2);
    let mut c = NodeMut::new(Some(&mut b), 3);
    let mut d = NodeMut::new(Some(&mut c), 4);

    let c = d
        .previous_node()
        .as_mut()
        .expect("There should be a previous");
    assert_eq!(3, c.value);
    let b = c
        .previous_node()
        .as_mut()
        .expect("There should be a previous");
    assert_eq!(2, b.value);
    let a = b
        .previous_node()
        .as_mut()
        .expect("There should be a previous");
    assert_eq!(1, a.value);
    assert!(
        a.previous_node().as_mut().is_none(),
        "Last node should be empty"
    );
}

#[test]
fn pair_changes_value_and_link() {
    let mut a = NodeMut::new(None, 10u32);
    let mut b = NodeMut::new(Some(&mut a), 20);
    {
        let (previous, value) = b.pair();
        *value = 21;
        let below = previous.as_mut().expect("there is a node below");
        below.value = 11;
    }
    assert_eq!(b.value, 21);
    {
        let (previous, _) = b.pair();
        assert_eq!(previous.as_mut().map(|n| n.value), Some(11));
        *previous = None;
    }
    assert!(b.previous_node().is_none());
    assert_eq!(b.value, 21);
}
