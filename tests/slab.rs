use fast_collections::Slab;
use std::cell::Cell;
use std::rc::Rc;

#[derive(Debug, PartialEq, Eq)]
struct A {
    inner: usize,
    index: usize,
}

struct Token(Rc<Cell<bool>>);

impl Drop for Token {
    fn drop(&mut self) {
        self.0.set(true);
    }
}

#[test]
fn slab_test() {
    let mut value = Slab::<A, 100>::new();
    value
        .add_with_index(|index| A {
            inner: 123,
            index: *index,
        })
        .unwrap();
    value
        .add_with_index(|index| A {
            inner: 456,
            index: *index,
        })
        .unwrap();
    assert_eq!(
        value.get_unchecked(0),
        &A {
            inner: 123,
            index: 0
        }
    );
    assert_eq!(
        value.get_unchecked(1),
        &A {
            inner: 456,
            index: 1
        }
    );
}

#[test]
fn drop_test() {
    let dropped = Rc::new(Cell::new(false));
    let mut slab: Slab<Token, 10> = Slab::new();
    let flag = dropped.clone();
    slab.add_with_index(move |_i| Token(flag)).unwrap();
    slab.remove_unchecked(0);
    assert_eq!(dropped.get(), true)
}

#[test]
fn slab_simple_test() {
    let mut slab: Slab<u8, 10> = Slab::new();
    let index = slab
        .add_with_index(|index| {
            assert_eq!(index, &0);
            123
        })
        .unwrap();
    assert_eq!(index, 0);
    let value = *slab.get_unchecked_mut(index);
    assert_eq!(value, 123);
    let id2 = slab
        .add_with_index(|index| {
            assert_eq!(index, &1);
            222
        })
        .unwrap();
    assert_eq!(id2, 1);
}

#[test]
fn removed_index_is_reused_first() {
    let mut slab: Slab<char, 8> = Slab::new();
    assert_eq!(slab.add_with_index(|_| 'a'), Ok(0));
    assert_eq!(slab.add_with_index(|_| 'b'), Ok(1));
    assert_eq!(slab.add_with_index(|_| 'c'), Ok(2));
    slab.remove_unchecked(0);
    assert_eq!(slab.len(), 2);
    assert_eq!(slab.add_with_index(|_| 'd'), Ok(0));
    assert_eq!(slab.get_unchecked(0), &'d');
    assert_eq!(slab.get_unchecked(1), &'b');
    assert_eq!(slab.get_unchecked(2), &'c');
    assert_eq!(slab.len(), 3);
    assert_eq!(slab.add_with_index(|_| 'e'), Ok(3));
}

#[test]
fn full_slab_refuses_and_stays() {
    let mut slab: Slab<u8, 3> = Slab::new();
    for i in 0..3u8 {
        assert_eq!(slab.add_with_index(|_| i), Ok(i as usize));
    }
    let mut called = false;
    assert_eq!(
        slab.add_with_index(|_| {
            called = true;
            9
        }),
        Err(())
    );
    assert!(!called);
    assert_eq!(slab.len(), 3);
    for i in 0..3u8 {
        assert_eq!(slab.get_unchecked(i as usize), &i);
    }
}

#[test]
fn slab_clear_twice_is_clear_once() {
    let dropped = Rc::new(Cell::new(false));
    let mut slab: Slab<Token, 4> = Slab::default();
    let flag = dropped.clone();
    slab.add_with_index(move |_| Token(flag)).unwrap();
    slab.clear();
    assert!(dropped.get());
    assert_eq!(slab.len(), 0);
    slab.clear();
    assert_eq!(slab.len(), 0);
    let fresh = Rc::new(Cell::new(false));
    assert_eq!(slab.add_with_index(|_| Token(fresh)), Ok(0));
}
