use dynvec::{IndexOutOfBounds, Vec};

fn can_take_one<T>(v: &Vec<T>) -> bool {
    v.len() < v.capacity() || v.capacity() <= usize::MAX / 2
}

fn push_all(v: &mut Vec<i32>, values: &[i32]) {
    for &value in values {
        assert!(can_take_one(v));
        v.push(value);
    }
}

fn from_slice(values: &[i32]) -> Vec<i32> {
    let mut v = Vec::new();
    push_all(&mut v, values);
    v
}

fn contents(v: &Vec<i32>) -> std::vec::Vec<i32> {
    let mut out = std::vec::Vec::new();
    for i in 0..v.len() {
        out.push(*v.get(i).unwrap());
    }
    out
}

#[test]
fn new_container_is_empty_and_unallocated() {
    let mut v: Vec<i32> = Vec::new();
    assert_eq!(v.len(), 0);
    assert_eq!(v.capacity(), 0);
    assert_eq!(v.get(0), None);
    assert_eq!(v.pop(), None);
    assert_eq!(v.len(), 0);
    assert_eq!(v.capacity(), 0);
}

#[test]
fn appends_keep_count_and_insertion_order() {
    let mut v: Vec<i32> = Vec::new();
    for n in 0..100 {
        assert_eq!(v.len(), n as usize);
        assert!(can_take_one(&v));
        v.push(n * 7);
    }
    assert_eq!(v.len(), 100);
    for n in 0..100 {
        assert_eq!(v.get(n as usize), Some(&(n * 7)));
    }
    assert_eq!(v.get(100), None);
}

#[test]
fn capacity_follows_the_doubling_sequence() {
    let expected: [usize; 18] = [0, 1, 2, 4, 4, 8, 8, 8, 8, 16, 16, 16, 16, 16, 16, 16, 16, 32];
    let mut v: Vec<i32> = Vec::new();
    assert_eq!(v.capacity(), expected[0]);
    for k in 1..18 {
        v.push(k as i32);
        assert_eq!(v.capacity(), expected[k]);
        assert!(v.capacity() >= v.len());
    }
}

#[test]
fn capacity_never_shrinks() {
    let mut v = from_slice(&[1, 2, 3, 4, 5]);
    assert_eq!(v.capacity(), 8);
    assert_eq!(v.pop(), Some(5));
    assert_eq!(v.capacity(), 8);
    assert_eq!(v.remove(0), Ok(1));
    assert_eq!(v.capacity(), 8);
    while v.pop().is_some() {
        assert_eq!(v.capacity(), 8);
    }
    assert_eq!(v.len(), 0);
    assert_eq!(v.capacity(), 8);
    assert_eq!(v.insert(0, 1), Ok(()));
    assert_eq!(v.capacity(), 8);
}

#[test]
fn grow_steps_from_zero_to_one_and_then_doubles() {
    let mut v: Vec<i32> = Vec::new();
    v.grow();
    assert_eq!(v.capacity(), 1);
    v.grow();
    assert_eq!(v.capacity(), 2);
    v.grow();
    assert_eq!(v.capacity(), 4);
    assert_eq!(v.len(), 0);
}

#[test]
fn grow_keeps_the_elements() {
    let mut v = from_slice(&[10, 20, 30]);
    assert_eq!(v.capacity(), 4);
    v.grow();
    assert_eq!(v.capacity(), 8);
    assert_eq!(contents(&v), [10, 20, 30]);
    v.push(40);
    assert_eq!(v.capacity(), 8);
    assert_eq!(contents(&v), [10, 20, 30, 40]);
}

#[test]
fn pop_after_push_returns_the_pushed_value() {
    let mut v = from_slice(&[1, 2, 3]);
    v.push(42);
    assert_eq!(v.len(), 4);
    assert_eq!(v.pop(), Some(42));
    assert_eq!(v.len(), 3);
    assert_eq!(contents(&v), [1, 2, 3]);
}

#[test]
fn pop_hands_out_the_last_element_each_time() {
    let mut v = from_slice(&[1, 2, 3]);
    assert_eq!(v.pop(), Some(3));
    assert_eq!(v.len(), 2);
    assert_eq!(contents(&v), [1, 2]);
    assert_eq!(v.pop(), Some(2));
    assert_eq!(v.len(), 1);
    assert_eq!(contents(&v), [1]);
    assert_eq!(v.pop(), Some(1));
    assert_eq!(v.len(), 0);
    assert_eq!(v.pop(), None);
    assert_eq!(v.len(), 0);
}

#[test]
fn insert_then_remove_restores_the_container() {
    for index in 0..=4 {
        let mut v = from_slice(&[10, 20, 30, 40]);
        assert_eq!(v.insert(index, 99), Ok(()));
        assert_eq!(v.len(), 5);
        assert_eq!(v.get(index), Some(&99));
        assert_eq!(v.remove(index), Ok(99));
        assert_eq!(v.len(), 4);
        assert_eq!(contents(&v), [10, 20, 30, 40]);
    }
}

#[test]
fn insert_shifts_the_tail_up_in_order() {
    let mut v = from_slice(&[1, 2, 3, 4]);
    assert_eq!(v.insert(0, 0), Ok(()));
    assert_eq!(contents(&v), [0, 1, 2, 3, 4]);
    assert_eq!(v.insert(3, 7), Ok(()));
    assert_eq!(contents(&v), [0, 1, 2, 7, 3, 4]);
    assert_eq!(v.insert(5, 8), Ok(()));
    assert_eq!(contents(&v), [0, 1, 2, 7, 3, 8, 4]);
}

#[test]
fn remove_shifts_the_tail_down_in_order() {
    let mut v = from_slice(&[1, 2, 3, 4, 5, 6]);
    assert_eq!(v.remove(0), Ok(1));
    assert_eq!(contents(&v), [2, 3, 4, 5, 6]);
    assert_eq!(v.remove(2), Ok(4));
    assert_eq!(contents(&v), [2, 3, 5, 6]);
    assert_eq!(v.remove(3), Ok(6));
    assert_eq!(contents(&v), [2, 3, 5]);
    assert_eq!(v.remove(1), Ok(3));
    assert_eq!(contents(&v), [2, 5]);
}

#[test]
fn insert_at_len_is_push() {
    let mut pushed = from_slice(&[1, 2, 3, 4]);
    let mut inserted = from_slice(&[1, 2, 3, 4]);
    pushed.push(5);
    assert_eq!(inserted.insert(4, 5), Ok(()));
    assert_eq!(contents(&pushed), [1, 2, 3, 4, 5]);
    assert_eq!(contents(&inserted), contents(&pushed));
    assert_eq!(inserted.len(), pushed.len());
    assert_eq!(inserted.capacity(), pushed.capacity());
    assert_eq!(inserted.capacity(), 8);
}

#[test]
fn insert_into_the_empty_container() {
    let mut v: Vec<i32> = Vec::new();
    assert_eq!(v.insert(0, 5), Ok(()));
    assert_eq!(v.len(), 1);
    assert_eq!(v.capacity(), 1);
    assert_eq!(contents(&v), [5]);
}

#[test]
fn insert_beyond_len_is_refused_without_change() {
    let mut v = from_slice(&[1, 2, 3]);
    assert_eq!(v.insert(4, 9), Err(IndexOutOfBounds { index: 4, len: 3 }));
    assert_eq!(v.len(), 3);
    assert_eq!(v.capacity(), 4);
    assert_eq!(contents(&v), [1, 2, 3]);
    assert_eq!(v.insert(usize::MAX, 9), Err(IndexOutOfBounds { index: usize::MAX, len: 3 }));
    assert_eq!(contents(&v), [1, 2, 3]);
}

#[test]
fn insert_beyond_len_does_not_grow_a_full_container() {
    let mut v = from_slice(&[1, 2, 3, 4]);
    assert_eq!(v.capacity(), 4);
    assert_eq!(v.insert(5, 9), Err(IndexOutOfBounds { index: 5, len: 4 }));
    assert_eq!(v.capacity(), 4);
    assert_eq!(contents(&v), [1, 2, 3, 4]);
}

#[test]
fn remove_at_or_beyond_len_is_refused_without_change() {
    let mut v = from_slice(&[1, 2, 3]);
    assert_eq!(v.remove(3), Err(IndexOutOfBounds { index: 3, len: 3 }));
    assert_eq!(v.remove(17), Err(IndexOutOfBounds { index: 17, len: 3 }));
    assert_eq!(v.len(), 3);
    assert_eq!(v.capacity(), 4);
    assert_eq!(contents(&v), [1, 2, 3]);
}

#[test]
fn remove_from_the_empty_container_is_refused() {
    let mut v: Vec<i32> = Vec::new();
    assert_eq!(v.remove(0), Err(IndexOutOfBounds { index: 0, len: 0 }));
    assert_eq!(v.len(), 0);
    assert_eq!(v.capacity(), 0);
}

#[test]
fn get_outside_the_live_range_is_none() {
    let mut v = from_slice(&[1, 2, 3]);
    assert_eq!(v.capacity(), 4);
    assert_eq!(v.get(2), Some(&3));
    assert_eq!(v.get(3), None);
    assert_eq!(v.get(4), None);
    assert_eq!(v.get_mut(3), None);
    assert_eq!(v.pop(), Some(3));
    assert_eq!(v.get(2), None);
    assert_eq!(contents(&v), [1, 2]);
}

#[test]
fn get_mut_writes_through() {
    let mut v = from_slice(&[1, 2, 3]);
    match v.get_mut(1) {
        Some(place) => {
            assert_eq!(*place, 2);
            *place = 20;
        }
        None => panic!("index 1 is live"),
    }
    assert_eq!(contents(&v), [1, 20, 3]);
    assert_eq!(v.len(), 3);
    assert_eq!(v.capacity(), 4);
}

#[test]
fn append_remove_insert_pop_end_to_end() {
    let mut v: Vec<i32> = Vec::new();
    let mut capacities = std::vec::Vec::new();
    capacities.push(v.capacity());
    for n in 1..=5 {
        v.push(n);
        capacities.push(v.capacity());
    }
    assert_eq!(capacities, [0, 1, 2, 4, 4, 8]);
    assert_eq!(contents(&v), [1, 2, 3, 4, 5]);
    assert_eq!(v.remove(1), Ok(2));
    assert_eq!(contents(&v), [1, 3, 4, 5]);
    assert_eq!(v.insert(0, 9), Ok(()));
    assert_eq!(contents(&v), [9, 1, 3, 4, 5]);
    assert_eq!(v.pop(), Some(5));
    assert_eq!(contents(&v), [9, 1, 3, 4]);
}

#[test]
fn elements_that_own_memory_move_in_and_out() {
    let mut v: Vec<String> = Vec::new();
    v.push(String::from("a"));
    v.push(String::from("c"));
    assert_eq!(v.insert(1, String::from("b")), Ok(()));
    assert_eq!(v.get(0).map(|s| s.as_str()), Some("a"));
    assert_eq!(v.get(1).map(|s| s.as_str()), Some("b"));
    assert_eq!(v.get(2).map(|s| s.as_str()), Some("c"));
    assert_eq!(v.remove(0), Ok(String::from("a")));
    assert_eq!(v.pop(), Some(String::from("c")));
    assert_eq!(v.pop(), Some(String::from("b")));
    assert_eq!(v.pop(), None);
}
