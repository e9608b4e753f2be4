use fast_collections::Vec;

#[test]
fn iter() {
    let mut vec = Vec::<u8, 10>::uninit();
    vec.push(1).unwrap();
    vec.push(2).unwrap();
    let mut count = 0usize;
    let mut walk = vec.iter();
    while walk.next().is_some() {
        count += 1;
    }
    assert_eq!(2usize, count);
    let mut last = None;
    let mut walk = vec.iter_mut();
    while let Some(value) = walk.next() {
        last = Some(*value);
    }
    assert_eq!(2u8, last.unwrap());
}

#[test]
fn swap_remove() {
    {
        let mut vec = Vec::<u8, 10>::uninit();
        vec.push(1).unwrap();
        vec.push(2).unwrap();
        vec.push(3).unwrap();
        vec.swap_remove(0).unwrap();
        assert_eq!(vec.get(0).unwrap(), &3);
        assert_eq!(vec.get(1).unwrap(), &2);
        assert_eq!(vec.len(), 2);
    }
    {
        let mut vec = Vec::<u8, 10>::uninit();
        vec.push(1).unwrap();
        vec.push(2).unwrap();
        vec.push(3).unwrap();
        vec.swap_remove(1).unwrap();
        assert_eq!(vec.get(0).unwrap(), &1);
        assert_eq!(vec.get(1).unwrap(), &3);
        assert_eq!(vec.len(), 2);
    }
    {
        let mut vec = Vec::<u8, 10>::uninit();
        vec.push(1).unwrap();
        vec.push(2).unwrap();
        vec.push(3).unwrap();
        vec.swap_remove(2).unwrap();
        assert_eq!(vec.get(0).unwrap(), &1);
        assert_eq!(vec.get(1).unwrap(), &2);
        assert_eq!(vec.len(), 2);
    }
    {
        let mut vec = Vec::<u8, 10>::uninit();
        vec.push(1).unwrap();
        vec.push(2).unwrap();
        vec.swap_remove(0).unwrap();
        assert_eq!(vec.get(0).unwrap(), &2);
        assert_eq!(vec.len(), 1);
    }
    {
        let mut vec = Vec::<u8, 10>::uninit();
        vec.push(1).unwrap();
        vec.push(2).unwrap();
        vec.swap_remove(1).unwrap();
        assert_eq!(vec.get(0).unwrap(), &1);
        assert_eq!(vec.len(), 1);
    }
    {
        let mut vec = Vec::<u8, 10>::uninit();
        vec.push(1).unwrap();
        vec.swap_remove(0).unwrap();
        assert_eq!(vec.len(), 0);
    }
    {
        let mut vec = Vec::<u8, 10>::uninit();
        vec.push(1).unwrap();
        vec.push(2).unwrap();
        let removed = vec.swap_remove(0).unwrap();
        assert_eq!(removed, ());
    }
}

#[test]
fn pushes_up_to_capacity_then_refuses() {
    let mut vec = Vec::<u32, 4>::uninit();
    for (count, value) in [10u32, 20, 30, 40].into_iter().enumerate() {
        assert_eq!(vec.push(value), Ok(()));
        assert_eq!(vec.len(), count + 1);
    }
    for (i, value) in [10u32, 20, 30, 40].iter().enumerate() {
        assert_eq!(vec.get(i), Some(value));
    }
    assert_eq!(vec.push(50), Err(50));
    assert_eq!(vec.len(), 4);
    assert_eq!(vec.get(4), None);
}

#[test]
fn pop_is_last_in_first_out() {
    let mut vec = Vec::<char, 4>::uninit();
    assert_eq!(vec.pop(), None);
    vec.push('a').unwrap();
    assert_eq!(vec.len(), 1);
    vec.push('b').unwrap();
    assert_eq!(vec.len(), 2);
    assert_eq!(vec.pop(), Some(&'b'));
    assert_eq!(vec.len(), 1);
    assert_eq!(vec.pop(), Some(&'a'));
    assert_eq!(vec.len(), 0);
    assert_eq!(vec.pop(), None);
    assert!(vec.is_empty());
}

#[test]
fn pop_mut_lends_the_old_cell() {
    let mut vec = Vec::<u8, 4>::uninit();
    vec.push(7).unwrap();
    *vec.pop_mut().unwrap() = 9;
    assert_eq!(vec.len(), 0);
    assert_eq!(vec.as_slice(), &[9]);
    assert_eq!(vec.pop_mut(), None);
}

#[test]
fn get_never_shows_cells_past_the_length() {
    let mut vec = Vec::<u8, 4>::uninit();
    vec.push(1).unwrap();
    vec.push(2).unwrap();
    vec.pop().unwrap();
    assert_eq!(vec.get(1), None);
    assert_eq!(vec.get(0), Some(&1));
    *vec.get_mut(0).unwrap() = 5;
    assert_eq!(vec.get_unchecked(0), &5);
    assert_eq!(vec.get_mut(1), None);
}

#[test]
fn swap_remove_out_of_range_fails() {
    let mut vec = Vec::<u8, 4>::uninit();
    vec.push(1).unwrap();
    assert_eq!(vec.swap_remove(1), Err(()));
    assert_eq!(vec.len(), 1);
}

#[test]
fn vec_clear_twice_is_clear_once() {
    let mut vec = Vec::<u8, 4>::uninit();
    vec.push(1).unwrap();
    vec.push(2).unwrap();
    vec.clear();
    assert_eq!(vec.len(), 0);
    vec.clear();
    assert_eq!(vec.len(), 0);
    assert!(vec.is_empty());
    assert_eq!(vec.get(0), None);
    assert_eq!(vec.push(3), Ok(()));
    assert_eq!(vec.get(0), Some(&3));
    assert_eq!(vec.capacity(), 4);
}

#[test]
fn from_array_takes_at_most_capacity() {
    let vec = Vec::<u8, 3>::from_array([1, 2, 3, 4, 5]);
    assert_eq!(vec.len(), 3);
    assert_eq!(vec.get(2), Some(&3));
    let vec = Vec::<u8, 8>::from_array([1, 2]);
    assert_eq!(vec.len(), 2);
    let vec = Vec::<u8, 8>::from_array_and_len([1, 2, 3], 1);
    assert_eq!(vec.len(), 1);
    assert_eq!(vec.as_slice(), &[1, 2, 3]);
}

#[test]
fn len_mut_shortens_within_written_cells() {
    let mut vec = Vec::<u8, 4>::uninit();
    vec.push(1).unwrap();
    vec.push(2).unwrap();
    vec.push(3).unwrap();
    *vec.len_mut() = 1;
    assert_eq!(vec.len(), 1);
    assert_eq!(vec.get(1), None);
    *vec.len_mut() = 3;
    assert_eq!(vec.get(2), Some(&3));
}
