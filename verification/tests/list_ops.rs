use array_list::array::{Array, ArrayStack};
use array_list::traits::{Deque, List, Queue, Stack};

#[test]
fn set_then_get_returns_new_value_and_keeps_size() {
    let mut l = ArrayStack::<i32>::with_initial_alloc(0);
    l.add(0, 10);
    l.add(1, 20);
    l.add(2, 30);
    let before: usize = l.size();
    let prev = l.set(1, 99);
    assert_eq!(prev, Some(20));
    assert_eq!(l.get(1), Some(&99));
    assert_eq!(l.size(), before);
    assert_eq!(l.get(0), Some(&10));
    assert_eq!(l.get(2), Some(&30));
}

#[test]
fn set_out_of_range_reports_absent_and_changes_nothing() {
    let mut l = ArrayStack::<i32>::with_initial_alloc(4);
    l.add(0, 1);
    assert_eq!(l.set(1, 7), None);
    assert_eq!(l.set(100, 7), None);
    assert_eq!(l.size(), 1);
    assert_eq!(l.get(0), Some(&1));
}

#[test]
fn add_shifts_suffix_right() {
    let mut l = ArrayStack::<i32>::with_initial_alloc(0);
    for (k, x) in [1, 2, 3, 4].iter().enumerate() {
        l.add(k, *x);
    }
    l.add(1, 99);
    assert_eq!(l.size(), 5);
    assert_eq!(l.get(0), Some(&1));
    assert_eq!(l.get(1), Some(&99));
    assert_eq!(l.get(2), Some(&2));
    assert_eq!(l.get(3), Some(&3));
    assert_eq!(l.get(4), Some(&4));
}

#[test]
fn remove_returns_prior_element_and_shifts_suffix_left() {
    let mut l = ArrayStack::<i32>::with_initial_alloc(0);
    for (k, x) in [1, 2, 3, 4].iter().enumerate() {
        l.add(k, *x);
    }
    let r = l.remove(1);
    assert_eq!(r, Some(2));
    assert_eq!(l.size(), 3);
    assert_eq!(l.get(0), Some(&1));
    assert_eq!(l.get(1), Some(&3));
    assert_eq!(l.get(2), Some(&4));
}

#[test]
fn add_then_remove_at_same_index_is_a_round_trip() {
    let mut l = ArrayStack::<i32>::with_initial_alloc(0);
    for (k, x) in [5, 6, 7].iter().enumerate() {
        l.add(k, *x);
    }
    for i in 0usize..=3 {
        l.add(i, 42);
        let r = l.remove(i);
        assert_eq!(r, Some(42));
        assert_eq!(l.size(), 3);
        assert_eq!(l.get(0), Some(&5));
        assert_eq!(l.get(1), Some(&6));
        assert_eq!(l.get(2), Some(&7));
    }
}

#[test]
fn remove_on_empty_reports_absent_for_every_index() {
    let mut l = ArrayStack::<i32>::with_initial_alloc(0);
    assert_eq!(l.remove(0), None);
    assert_eq!(l.remove(3), None);
    let mut l2 = ArrayStack::<i32>::with_initial_alloc(8);
    assert_eq!(l2.remove(0), None);
}

#[test]
fn out_of_range_access_reports_absent_not_a_fault() {
    let mut l = ArrayStack::<i32>::with_initial_alloc(0);
    l.add(0, 1);
    assert_eq!(l.get(1), None);
    assert_eq!(l.get(usize::MAX), None);
    assert_eq!(l.set(1, 9), None);
    assert_eq!(l.remove(1), None);
    assert_eq!(l.size(), 1);
}

#[test]
fn append_at_size_never_shifts() {
    let mut l = ArrayStack::<i32>::with_initial_alloc(0);
    l.add(0, 1);
    l.add(1, 2);
    l.add(2, 3);
    assert_eq!(l.size(), 3);
    assert_eq!(l.get(0), Some(&1));
    assert_eq!(l.get(1), Some(&2));
    assert_eq!(l.get(2), Some(&3));
}

#[test]
fn scenario_three_adds_then_remove() {
    let mut l = ArrayStack::<String>::with_initial_alloc(0);
    l.add(0, String::from("a"));
    l.add(1, String::from("b"));
    l.add(0, String::from("c"));
    assert_eq!(l.size(), 3);
    assert_eq!(l.get(0), Some(&String::from("c")));
    assert_eq!(l.get(1), Some(&String::from("a")));
    assert_eq!(l.get(2), Some(&String::from("b")));
    let r = l.remove(1);
    assert_eq!(r, Some(String::from("a")));
    assert_eq!(l.size(), 2);
    assert_eq!(l.get(0), Some(&String::from("c")));
    assert_eq!(l.get(1), Some(&String::from("b")));
}

#[test]
fn deque_ends_behave_symmetrically() {
    let mut d = ArrayStack::<i32>::with_initial_alloc(0);
    d.add_last(2);
    d.add_first(1);
    d.add_last(3);
    assert_eq!(d.size(), 3);
    assert_eq!(d.get(0), Some(&1));
    assert_eq!(d.get(2), Some(&3));
    assert_eq!(d.remove_first(), Some(1));
    assert_eq!(d.remove_last(), Some(3));
    assert_eq!(d.remove_last(), Some(2));
    assert_eq!(d.remove_last(), None);
    assert_eq!(d.remove_first(), None);
}

#[test]
fn queue_is_first_in_first_out() {
    let mut q = ArrayStack::<i32>::with_initial_alloc(0);
    q.enqueue(1);
    q.enqueue(2);
    q.enqueue(3);
    assert_eq!(q.dequeue(), Some(1));
    assert_eq!(q.dequeue(), Some(2));
    q.enqueue(4);
    assert_eq!(q.dequeue(), Some(3));
    assert_eq!(q.dequeue(), Some(4));
    assert_eq!(q.dequeue(), None);
}

#[test]
fn stack_is_last_in_first_out() {
    let mut s = ArrayStack::<i32>::with_initial_alloc(0);
    s.push(1);
    s.push(2);
    s.push(3);
    assert_eq!(s.pop(), Some(3));
    assert_eq!(s.pop(), Some(2));
    s.push(4);
    assert_eq!(s.pop(), Some(4));
    assert_eq!(s.pop(), Some(1));
    assert_eq!(s.pop(), None);
}

#[test]
fn buffer_replace_swaps_and_returns_previous_content() {
    let mut a = Array::<i32>::new(3);
    assert_eq!(a.len(), 3);
    assert_eq!(a.replace(0, Some(7)), None);
    assert_eq!(a.replace(0, Some(8)), Some(7));
    assert_eq!(a.replace(0, None), Some(8));
    assert_eq!(a.replace(0, None), None);
}

#[test]
fn buffer_move_contents_discards_the_old_target() {
    let mut src = Array::<i32>::new(2);
    let _ = src.replace(0, Some(1));
    let _ = src.replace(1, Some(2));
    let mut dst = Array::<i32>::new(5);
    let _ = dst.replace(4, Some(9));
    src.move_contents_to(&mut dst);
    assert_eq!(dst.len(), 2);
    assert_eq!(dst.replace(0, None), Some(1));
    assert_eq!(dst.replace(1, None), Some(2));
}
