use linked_lists::arena::Deque;
use linked_lists::fifth;
use linked_lists::fourth::List;

#[test]
fn fourth_basics() {
    let mut list = List::new();

    assert_eq!(list.pop_front(), None);

    list.push_front(1);
    list.push_front(2);
    list.push_front(3);

    assert_eq!(list.pop_front(), Some(3));
    assert_eq!(list.pop_front(), Some(2));

    list.push_front(4);
    list.push_front(5);

    assert_eq!(list.pop_front(), Some(5));
    assert_eq!(list.pop_front(), Some(4));

    assert_eq!(list.pop_front(), Some(1));
    assert_eq!(list.pop_front(), None);
    assert_eq!(list.pop_front(), None);

    assert_eq!(list.pop_back(), None);

    list.push_back(1);
    list.push_back(2);
    list.push_back(3);

    assert_eq!(list.pop_back(), Some(3));
    assert_eq!(list.pop_back(), Some(2));

    list.push_back(4);
    list.push_back(5);

    assert_eq!(list.pop_back(), Some(5));
    assert_eq!(list.pop_back(), Some(4));

    assert_eq!(list.pop_back(), Some(1));
    assert_eq!(list.pop_back(), None);
    assert_eq!(list.pop_back(), None);

    list.push_front(33);
    list.push_front(66);
    assert_eq!(list.pop_back(), Some(33));
    assert_eq!(list.pop_back(), Some(66));
    assert_eq!(list.pop_back(), None);
    assert_eq!(list.pop_front(), None);

    list.push_back(33);
    list.push_back(66);
    assert_eq!(list.pop_front(), Some(33));
    assert_eq!(list.pop_front(), Some(66));
    assert_eq!(list.pop_front(), None);
    assert_eq!(list.pop_back(), None);
}

#[test]
fn fourth_peek() {
    let mut list = List::new();
    assert!(list.peek_front().is_none());
    assert!(list.peek_back().is_none());
    assert!(list.peek_front_mut().is_none());
    assert!(list.peek_back_mut().is_none());

    list.push_front(1);
    list.push_front(2);
    list.push_front(3);
    assert_eq!(&*list.peek_front().unwrap(), &3);
    assert_eq!(&mut *list.peek_front_mut().unwrap(), &mut 3);
    assert_eq!(&*list.peek_back().unwrap(), &1);
    assert_eq!(&mut *list.peek_back_mut().unwrap(), &mut 1);
}

#[test]
fn fourth_into_iter() {
    let mut list = List::new();
    list.push_front(1);
    list.push_front(2);
    list.push_front(3);

    let mut iter = list.into_iter();
    assert_eq!(iter.next(), Some(3));
    assert_eq!(iter.next_back(), Some(1));
    assert_eq!(iter.next(), Some(2));
    assert_eq!(iter.next_back(), None);
    assert_eq!(iter.next(), None);
}

#[test]
fn fifth_basics() {
    let mut list = fifth::List::new();

    assert_eq!(list.pop(), None);

    list.push(1);
    list.push(2);
    list.push(3);

    assert_eq!(list.pop(), Some(1));
    assert_eq!(list.pop(), Some(2));

    list.push(4);
    list.push(5);

    assert_eq!(list.pop(), Some(3));
    assert_eq!(list.pop(), Some(4));

    assert_eq!(list.pop(), Some(5));
    assert_eq!(list.pop(), None);
    assert_eq!(list.pop(), None);
}

#[test]
fn fourth_peek_then_pop_agree() {
    let mut list = List::new();
    list.push_back(String::from("x"));
    list.push_back(String::from("y"));
    assert_eq!(list.peek_front().cloned(), Some(String::from("x")));
    assert_eq!(list.peek_front().cloned(), Some(String::from("x")));
    assert_eq!(list.pop_front(), Some(String::from("x")));
    assert_eq!(list.peek_back().cloned(), Some(String::from("y")));
    assert_eq!(list.pop_back(), Some(String::from("y")));
    assert!(list.peek_front().is_none());
    assert!(list.peek_back().is_none());
}

#[test]
fn fourth_peek_mut_writes_through() {
    let mut list = List::new();
    list.push_back(1);
    list.push_back(2);
    list.push_back(3);
    if let Some(v) = list.peek_front_mut() {
        *v = 10;
    }
    if let Some(v) = list.peek_back_mut() {
        *v = 30;
    }
    assert_eq!(list.pop_front(), Some(10));
    assert_eq!(list.pop_front(), Some(2));
    assert_eq!(list.pop_front(), Some(30));
    assert_eq!(list.pop_front(), None);
}

#[test]
fn fourth_into_iter_stays_exhausted() {
    let mut list = List::new();
    list.push_back(5);
    let mut iter = list.into_iter();
    assert_eq!(iter.next_back(), Some(5));
    assert_eq!(iter.next(), None);
    assert_eq!(iter.next_back(), None);
    assert_eq!(iter.next(), None);
    assert_eq!(iter.next_back(), None);
}

#[test]
fn fourth_interleaving_counts() {
    let mut list = List::new();
    let mut pushed: usize = 0;
    let mut removed: usize = 0;
    let mut k: u32 = 0;
    while k < 300 {
        match k % 7 {
            0 | 3 => {
                list.push_front(k);
                pushed += 1;
            }
            1 | 5 => {
                list.push_back(k);
                pushed += 1;
            }
            2 | 6 => {
                if list.pop_front().is_some() {
                    removed += 1;
                }
            }
            _ => {
                if list.pop_back().is_some() {
                    removed += 1;
                }
            }
        }
        assert!(removed <= pushed);
        k += 1;
    }
    let mut left: usize = 0;
    while list.pop_back().is_some() {
        left += 1;
    }
    assert_eq!(left, pushed - removed);
    assert_eq!(list.pop_front(), None);
    assert_eq!(list.pop_back(), None);
}

#[test]
fn fifth_double_ended() {
    let mut list = fifth::List::new();
    list.push_front(2);
    list.push(3);
    list.push_front(1);
    assert_eq!(list.peek_front(), Some(&1));
    assert_eq!(list.peek_back(), Some(&3));
    if let Some(v) = list.peek_back_mut() {
        *v = 4;
    }
    let mut iter = list.into_iter();
    assert_eq!(iter.next_back(), Some(4));
    assert_eq!(iter.next(), Some(1));
    assert_eq!(iter.next(), Some(2));
    assert_eq!(iter.next(), None);
    assert_eq!(iter.next_back(), None);
}

#[test]
fn fifth_pop_back_and_front() {
    let mut list = fifth::List::new();
    assert_eq!(list.pop_back(), None);
    list.push_back(7);
    list.push_back(8);
    assert_eq!(list.pop_back(), Some(8));
    assert_eq!(list.pop_front(), Some(7));
    assert_eq!(list.pop(), None);
    assert!(list.peek_front_mut().is_none());
}

#[test]
fn arena_reuses_freed_slots_in_order() {
    let mut d = Deque::new();
    let mut i: u32 = 0;
    while i < 50 {
        d.push_back(i);
        i += 1;
    }
    while i < 100 {
        assert_eq!(d.pop_front(), Some(i - 50));
        d.push_back(i);
        i += 1;
    }
    let mut expect: u32 = 50;
    while let Some(v) = d.pop_front() {
        assert_eq!(v, expect);
        expect += 1;
    }
    assert_eq!(expect, 100);
    assert_eq!(d.pop_back(), None);
}

#[test]
fn arena_mixed_ends_scenario() {
    let mut d = Deque::new();
    d.push_front(33);
    d.push_front(66);
    assert_eq!(d.peek_back(), Some(&33));
    assert_eq!(d.pop_back(), Some(33));
    assert_eq!(d.pop_back(), Some(66));
    assert_eq!(d.pop_back(), None);
    assert_eq!(d.pop_front(), None);
}
