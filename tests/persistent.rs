use linked_lists::third::List;

#[test]
fn third_basics() {
    let list = List::new();
    assert_eq!(list.head(), None);

    let list = list.prepend(1).prepend(2).prepend(3);
    assert_eq!(list.head(), Some(&3));

    let list = list.tail();
    assert_eq!(list.head(), Some(&2));

    let list = list.tail();
    assert_eq!(list.head(), Some(&1));

    let list = list.tail();
    assert_eq!(list.head(), None);

    let list = list.tail();
    assert_eq!(list.head(), None);
}

#[test]
fn third_iter() {
    let list = List::new().prepend(1).prepend(2).prepend(3);

    let mut iter = list.iter();
    assert_eq!(iter.next(), Some(&3));
    assert_eq!(iter.next(), Some(&2));
    assert_eq!(iter.next(), Some(&1));
    assert_eq!(iter.next(), None);
    assert_eq!(iter.next(), None);
}

#[test]
fn third_shared_tail_outlives_its_source() {
    let base = List::new().prepend(1).prepend(2);
    let left = base.prepend(10);
    let right = base.prepend(20);
    drop(base);
    let mut l = left.iter();
    assert_eq!(l.next(), Some(&10));
    assert_eq!(l.next(), Some(&2));
    assert_eq!(l.next(), Some(&1));
    assert_eq!(l.next(), None);
    assert_eq!(right.head(), Some(&20));
    assert_eq!(right.tail().head(), Some(&2));
    assert_eq!(left.tail().tail().head(), Some(&1));
}
