use fast_collections::IterableSlab;

#[test]
fn iterable_slab_simple_test() {
    let mut slab: IterableSlab<u8, 10> = IterableSlab::new();
    let id = slab
        .add_with_index(|index| {
            assert_eq!(index, &0);
            123
        })
        .unwrap();
    let value = slab.get_unchecked_mut(id);
    assert_eq!(&mut 123, value);
}

#[test]
fn test_iter() {
    let mut slab: IterableSlab<u8, 10> = IterableSlab::new();
    slab.add_with_index(|_i| 1).unwrap();
    slab.add_with_index(|_i| 2).unwrap();
    slab.add_with_index(|_i| 3).unwrap();
    let mut iter = slab.iter();
    assert_eq!(iter.next().unwrap(), &1);
    assert_eq!(iter.next().unwrap(), &2);
    assert_eq!(iter.next().unwrap(), &3);
    assert!(iter.next().is_none());
}

#[test]
fn test_iter_mut() {
    let mut slab: IterableSlab<u8, 10> = IterableSlab::new();
    slab.add_with_index(|_i| 1).unwrap();
    slab.add_with_index(|_i| 2).unwrap();
    slab.add_with_index(|_i| 3).unwrap();
    let mut iter = slab.iter_mut();
    assert_eq!(iter.next().unwrap(), &1);
    assert_eq!(iter.next().unwrap(), &2);
    assert_eq!(iter.next().unwrap(), &3);
    assert!(iter.next().is_none());
}

#[test]
fn walk_skips_removed_values() {
    let mut slab: IterableSlab<u8, 10> = IterableSlab::new();
    slab.add_with_index(|_i| 1).unwrap();
    slab.add_with_index(|_i| 2).unwrap();
    slab.add_with_index(|_i| 3).unwrap();
    slab.remove_unchecked(0);
    assert_eq!(slab.len(), 2);
    let mut seen = std::vec::Vec::new();
    let mut iter = slab.iter();
    while let Some(value) = iter.next() {
        seen.push(*value);
    }
    assert_eq!(seen, vec![2, 3]);
    let mut iter = slab.iter_mut();
    while let Some(value) = iter.next() {
        *value += 10;
    }
    assert_eq!(slab.get_unchecked(1), &12);
    assert_eq!(slab.get_unchecked(2), &13);
    assert_eq!(slab.add_with_index(|_i| 4), Ok(0));
    let mut seen = std::vec::Vec::new();
    let mut iter = slab.iter();
    while let Some(value) = iter.next() {
        seen.push(*value);
    }
    assert_eq!(seen, vec![4, 12, 13]);
    slab.clear();
    assert_eq!(slab.len(), 0);
    assert!(slab.iter().next().is_none());
    slab.clear();
    assert_eq!(slab.len(), 0);
    assert_eq!(slab.add_with_index(|_i| 7), Ok(0));
    assert_eq!(slab.add_with_index(|_i| 8), Ok(1));
}
