use linked_lists::first;
use linked_lists::second;

#[test]
fn first_basics() {
    let mut list = first::List::new();
    assert_eq!(list.pop(), None);

    list.push(1);
    list.push(2);
    list.push(3);

    assert_eq!(list.pop(), Some(3));
    assert_eq!(list.pop(), Some(2));

    list.push(4);
    list.push(5);

    assert_eq!(list.pop(), Some(5));
    assert_eq!(list.pop(), Some(4));
    assert_eq!(list.pop(), Some(1));
    assert_eq!(list.pop(), None);
}

#[test]
fn first_long_chain_drops() {
    let mut list = first::List::new();
    let mut i: i32 = 0;
    while i < 200_000 {
        list.push(i);
        i += 1;
    }
    assert_eq!(list.pop(), Some(199_999));
    drop(list);
}

#[test]
fn second_basics() {
    let mut list = second::List::new();
    assert_eq!(list.pop(), None);

    list.push(1);
    list.push(2);
    list.push(3);

    assert_eq!(list.pop(), Some(3));
    assert_eq!(list.pop(), Some(2));

    list.push(4);
    list.push(5);

    assert_eq!(list.pop(), Some(5));
    assert_eq!(list.pop(), Some(4));
    assert_eq!(list.pop(), Some(1));
    assert_eq!(list.pop(), None);
}

#[test]
fn second_peek() {
    let mut list = second::List::new();
    assert_eq!(list.peek(), None);
    assert_eq!(list.peek_mut(), None);
    list.push(1);
    list.push(2);
    list.push(3);
    assert_eq!(list.peek(), Some(&3));
    assert_eq!(list.peek_mut(), Some(&mut 3));
    list.peek_mut().map(|value| *value = 42);
    assert_eq!(list.peek(), Some(&42));
    assert_eq!(list.pop(), Some(42));
}

#[test]
fn second_into_iter() {
    let mut list = second::List::new();
    list.push(1);
    list.push(2);
    list.push(3);

    let mut iter = list.into_iter();
    assert_eq!(iter.next(), Some(3));
    assert_eq!(iter.next(), Some(2));
    assert_eq!(iter.next(), Some(1));
    assert_eq!(iter.next(), None);
    assert_eq!(iter.next(), None);
}

#[test]
fn second_iter() {
    let mut list = second::List::new();
    list.push(1);
    list.push(2);
    list.push(3);

    let mut iter = list.iter();
    assert_eq!(iter.next(), Some(&3));
    assert_eq!(iter.next(), Some(&2));
    assert_eq!(iter.next(), Some(&1));
    assert_eq!(iter.next(), None);
    assert_eq!(iter.next(), None);
}

#[test]
fn iter_mut() {
    let mut list = second::List::new();
    list.push(1);
    list.push(2);
    list.push(3);

    let mut iter = list.iter_mut();
    assert_eq!(iter.next(), Some(&mut 3));
    iter.next().map(|value| *value = 42);
    assert_eq!(iter.next(), Some(&mut 1));
    assert_eq!(iter.next(), None);
    assert_eq!(iter.next(), None);

    let mut iter = list.iter_mut();
    assert_eq!(iter.next(), Some(&mut 3));
    assert_eq!(iter.next(), Some(&mut 42));
    assert_eq!(iter.next(), Some(&mut 1));
    assert_eq!(iter.next(), None);
    assert_eq!(iter.next(), None);
}

#[test]
fn second_stack_reverses_pushes() {
    let mut list = second::List::new();
    let values = vec![7, -3, 0, 12, 12, 5];
    for v in values.iter() {
        list.push(*v);
    }
    for v in values.iter().rev() {
        assert_eq!(list.pop(), Some(*v));
    }
    assert_eq!(list.pop(), None);
    assert_eq!(list.pop(), None);
    assert_eq!(list.peek(), None);
}

#[test]
fn second_iter_leaves_list_unchanged() {
    let mut list = second::List::new();
    list.push(String::from("a"));
    list.push(String::from("b"));
    {
        let mut iter = list.iter();
        assert_eq!(iter.next().map(|s| s.as_str()), Some("b"));
    }
    assert_eq!(list.pop(), Some(String::from("b")));
    assert_eq!(list.pop(), Some(String::from("a")));
    assert_eq!(list.pop(), None);
}

#[test]
fn second_long_chain_drops() {
    let mut list = second::List::new();
    let mut i: u64 = 0;
    while i < 200_000 {
        list.push(i);
        i += 1;
    }
    drop(list);
}
