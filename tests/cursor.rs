use fast_collections::{Cursor, StreamError};
use rand::Rng;

#[derive(Debug, PartialEq, Eq, PartialOrd, Ord)]
struct A {
    v0: u8,
    v1: u8,
}

fn read_a(buffer: &mut Cursor<u8, 100>) -> Option<A> {
    let raw: [u8; 2] = buffer.read_transmute()?;
    Some(A { v0: raw[0], v1: raw[1] })
}

#[test]
fn cursor_test() {
    let mut buffer: Cursor<u8, 100> = Cursor::new();
    for i in 1..5 {
        buffer.push(i).unwrap();
    }
    assert_eq!(buffer.filled_len(), 4);
    let value = read_a(&mut buffer).unwrap();
    assert_eq!(value, A { v0: 1, v1: 2 });
    let value = read_a(&mut buffer).unwrap();
    assert_eq!(value, A { v0: 3, v1: 4 });
}

#[test]
fn filled() {
    let mut buffer: Cursor<u8, 8> = Cursor::new();
    for i in 1..9 {
        buffer.push(i).unwrap();
    }
    *buffer.filled_len_mut() = 4;
    assert_eq!(buffer.filled(), &[1, 2, 3, 4]);
    assert_eq!(buffer.filled_mut(), &[1, 2, 3, 4]);
    assert_eq!(buffer.unfilled(), &[5, 6, 7, 8]);
    assert_eq!(buffer.unfilled_mut(), &[5, 6, 7, 8]);
    *buffer.pos_mut() = 2;
    assert_eq!(buffer.read().unwrap(), &3);
    *buffer.pos_mut() = 1;
    assert_eq!(buffer.read_transmute::<[u8; 2]>().unwrap(), [2, 3]);
    assert_eq!(buffer.read_transmute::<[u8; 2]>(), None);
}

#[test]
fn test_cursor_push() {
    let mut cursor: Cursor<u8, 100> = Cursor::new();
    cursor.push_transmute(260u16).unwrap();
    assert_eq!(cursor.filled_len(), 2);
    assert_eq!(cursor.read_transmute::<u16>().unwrap(), 260u16);
}

#[test]
fn test_cursor_copy_from_cursor() {
    let mut dst: Cursor<u8, 100> = Cursor::new();
    let mut src: Cursor<u8, 100> = Cursor::new();
    let value: usize = rand::thread_rng().gen();
    src.push_transmute(value).unwrap();
    dst.push_from_cursor(&mut src).unwrap();
    assert_eq!(dst.read_transmute::<usize>().unwrap(), value);
}

#[test]
fn integers_are_written_little_endian() {
    let mut cursor: Cursor<u8, 16> = Cursor::new();
    cursor.push_transmute(260u16).unwrap();
    cursor.push_transmute(0x0102_0304u32).unwrap();
    assert_eq!(cursor.filled(), &[4, 1, 4, 3, 2, 1]);
    assert_eq!(cursor.read_transmute::<u8>(), Some(4));
    assert_eq!(cursor.pos(), 1);
}

#[test]
fn round_trip_of_each_width() {
    let mut cursor: Cursor<u8, 64> = Cursor::new();
    cursor.push_transmute(0xABu8).unwrap();
    cursor.push_transmute(0xBEEFu16).unwrap();
    cursor.push_transmute(0xDEAD_BEEFu32).unwrap();
    cursor.push_transmute(0x0123_4567_89AB_CDEFu64).unwrap();
    cursor.push_transmute(usize::MAX).unwrap();
    cursor.push_transmute([9u8, 8, 7]).unwrap();
    assert_eq!(cursor.read_transmute::<u8>(), Some(0xAB));
    assert_eq!(cursor.read_transmute::<u16>(), Some(0xBEEF));
    assert_eq!(cursor.read_transmute::<u32>(), Some(0xDEAD_BEEF));
    assert_eq!(cursor.read_transmute::<u64>(), Some(0x0123_4567_89AB_CDEF));
    assert_eq!(cursor.read_transmute::<usize>(), Some(usize::MAX));
    assert_eq!(cursor.read_transmute::<[u8; 3]>(), Some([9, 8, 7]));
    assert_eq!(cursor.remaining(), 0);
}

#[test]
fn read_past_filled_part_fails_and_keeps_position() {
    let mut cursor: Cursor<u8, 16> = Cursor::new();
    cursor.push_transmute(7u16).unwrap();
    assert_eq!(cursor.read_transmute::<u32>(), None);
    assert_eq!(cursor.pos(), 0);
    assert_eq!(cursor.read_transmute::<u16>(), Some(7));
    assert_eq!(cursor.read_transmute::<u8>(), None);
    assert_eq!(cursor.read(), None);
    assert_eq!(cursor.pos(), 2);
}

#[test]
fn push_transmute_leaves_one_cell_free() {
    let mut cursor: Cursor<u8, 4> = Cursor::new();
    assert_eq!(cursor.push_transmute(1u32), Err(()));
    assert_eq!(cursor.filled_len(), 0);
    assert_eq!(cursor.push_transmute(1u16), Ok(()));
    assert_eq!(cursor.push_transmute(1u16), Err(()));
    assert_eq!(cursor.push(9), Ok(()));
    assert_eq!(cursor.push(9), Ok(()));
    assert_eq!(cursor.push(9), Err(9));
    assert_eq!(cursor.capacity(), 4);
}

#[test]
fn cursor_clear_twice_is_clear_once() {
    let mut cursor: Cursor<u8, 8> = Cursor::new();
    cursor.push_transmute(5u32).unwrap();
    cursor.read().unwrap();
    cursor.clear();
    assert_eq!((cursor.pos(), cursor.filled_len()), (0, 0));
    cursor.clear();
    assert_eq!((cursor.pos(), cursor.filled_len()), (0, 0));
    assert_eq!(cursor.read(), None);
    cursor.push_transmute(6u16).unwrap();
    assert_eq!(cursor.read_transmute::<u16>(), Some(6));
}

#[test]
fn transfer_drains_the_source() {
    let mut dst: Cursor<u8, 16> = Cursor::new();
    let mut src: Cursor<u8, 16> = Cursor::new();
    src.push_transmute(0x1111u16).unwrap();
    src.push_transmute(0xCAFE_F00Du32).unwrap();
    assert_eq!(src.read_transmute::<u16>(), Some(0x1111));
    dst.push_from_cursor(&mut src).unwrap();
    assert_eq!((src.pos(), src.filled_len()), (0, 0));
    assert_eq!(dst.filled_len(), 4);
    assert_eq!(dst.read_transmute::<u32>(), Some(0xCAFE_F00D));
}

#[test]
fn transfer_that_does_not_fit_changes_nothing() {
    let mut dst: Cursor<u8, 4> = Cursor::new();
    let mut src: Cursor<u8, 16> = Cursor::new();
    src.push_transmute(1u64).unwrap();
    assert_eq!(dst.push_from_cursor(&mut src), Err(()));
    assert_eq!(src.filled_len(), 8);
    assert_eq!(dst.filled_len(), 0);
}

#[test]
fn set_and_get_at_offsets() {
    let mut cursor: Cursor<u8, 8> = Cursor::new();
    assert_eq!(cursor.set_transmute(2, 0x0A0Bu16), Ok(()));
    assert_eq!(cursor.get_transmute::<u16>(2), Some(0x0A0B));
    assert_eq!(cursor.get_transmute::<u8>(2), Some(0x0B));
    assert_eq!(cursor.set_transmute(6, 1u16), Err(()));
    assert_eq!(cursor.get_transmute::<u16>(6), Some(0));
    assert_eq!(cursor.get_transmute::<u16>(7), None);
    assert_eq!(cursor.filled_len(), 0);
}

#[test]
fn read_of_no_bytes_is_an_aborted_connection() {
    let mut cursor: Cursor<u8, 8> = Cursor::new();
    cursor.unfilled_mut()[..3].copy_from_slice(&[1, 2, 3]);
    assert_eq!(cursor.push_read_length(0), Err(StreamError::ConnectionAborted));
    assert_eq!(cursor.filled_len(), 0);
    assert_eq!(cursor.push_read_length(3), Ok(3));
    assert_eq!(cursor.filled(), &[1, 2, 3]);
}
