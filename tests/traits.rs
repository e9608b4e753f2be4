use fast_collections::{
    AddWithIndex, Cap, Clear, Cursor, CursorRead, CursorReadTransmute, GenericRead, Get,
    GetTransmute, IterableSlab, Pop, Push, PushTransmute, Remove, RemoveUnchecked, SetTransmute,
    Slab, Vec,
};

fn fill<P: Push<u8>>(container: &mut P, count: u8) -> usize {
    let mut accepted = 0;
    for i in 0..count {
        if Push::push(container, i).is_ok() {
            accepted += 1;
        }
    }
    accepted
}

fn add_three<S: AddWithIndex<char>>(arena: &mut S) -> [Result<usize, ()>; 3] {
    [
        AddWithIndex::add_with_index(arena, |_| 'x'),
        AddWithIndex::add_with_index(arena, |_| 'y'),
        AddWithIndex::add_with_index(arena, |_| 'z'),
    ]
}

#[test]
fn push_through_the_trait() {
    let mut vec = Vec::<u8, 3>::uninit();
    assert_eq!(fill(&mut vec, 5), 3);
    let mut cursor = Cursor::<u8, 4>::new();
    assert_eq!(fill(&mut cursor, 5), 4);
    assert_eq!(Cap::capacity(&vec), 3);
    assert_eq!(Cap::capacity(&cursor), 4);
}

#[test]
fn pop_get_remove_through_the_traits() {
    let mut vec = Vec::<u8, 4>::uninit();
    fill(&mut vec, 3);
    assert_eq!(Pop::pop(&mut vec), Some(&2));
    assert_eq!(Get::get(&vec, 1), Some(&1));
    assert_eq!(Get::get(&vec, 2), None);
    assert!(Remove::remove(&mut vec, 0));
    assert!(!Remove::remove(&mut vec, 5));
    assert_eq!(vec.get(0), Some(&1));
    Clear::clear(&mut vec);
    assert_eq!(vec.len(), 0);
}

#[test]
fn arenas_through_the_traits() {
    let mut slab = Slab::<char, 2>::new();
    assert_eq!(add_three(&mut slab), [Ok(0), Ok(1), Err(())]);
    RemoveUnchecked::remove_unchecked(&mut slab, 1);
    assert_eq!(AddWithIndex::add_with_index(&mut slab, |_| 'w'), Ok(1));
    let mut walkable = IterableSlab::<char, 8>::new();
    assert_eq!(add_three(&mut walkable), [Ok(0), Ok(1), Ok(2)]);
    assert_eq!(walkable.len(), 3);
}

#[test]
fn byte_traits_on_the_cursor() {
    let mut cursor = Cursor::<u8, 16>::new();
    assert_eq!(PushTransmute::push_transmute(&mut cursor, 0x0102u16), Ok(()));
    assert_eq!(SetTransmute::set_transmute(&mut cursor, 8, 7u32), Ok(()));
    assert_eq!(GetTransmute::get_transmute::<u32>(&cursor, 8), Some(7));
    assert_eq!(CursorRead::read(&mut cursor), Some(&2));
    assert_eq!(CursorReadTransmute::read_transmute::<u8>(&mut cursor), Some(1));
    assert_eq!(GenericRead::read_type::<u8>(&mut cursor), None);
    Clear::clear(&mut cursor);
    assert_eq!(cursor.filled_len(), 0);
}
