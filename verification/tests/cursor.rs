use mgx::StreamCursor;

fn cursor(bytes: &[u8]) -> StreamCursor {
    StreamCursor::new(bytes.to_vec(), 0)
}

#[test]
fn new_starts_at_data() {
    let c = StreamCursor::new(vec![9, 9, 1, 2, 3], 2);
    assert_eq!(c.tell(), 0);
    assert_eq!(c.remain(), 3);
    assert_eq!(c.data(), &[1, 2, 3]);
    assert_eq!(c.current(), &[1, 2, 3]);
    assert_eq!(c.offset(), 2);
    assert_eq!(c.source(), &vec![9, 9, 1, 2, 3]);
}

#[test]
fn new_with_offset_beyond_the_end_has_no_data() {
    let c = StreamCursor::new(vec![1, 2, 3], 10);
    assert_eq!(c.offset(), 3);
    assert_eq!(c.remain(), 0);
    assert_eq!(c.data().len(), 0);
    assert_eq!(c.peek_u8(), None);
}

#[test]
fn unsigned_reads_are_little_endian() {
    let mut c = cursor(&[0x01, 0x34, 0x12, 0x78, 0x56, 0x34, 0x12, 0xff]);
    assert_eq!(c.get_u8(), Some(1));
    assert_eq!(c.peek_u16(), Some(0x1234));
    assert_eq!(c.get_u16(), Some(0x1234));
    assert_eq!(c.peek_u32(), Some(0x12345678));
    assert_eq!(c.get_u32(), Some(0x12345678));
    assert_eq!(c.tell(), 7);
    assert_eq!(c.get_u8(), Some(0xff));
    assert_eq!(c.get_u8(), None);
}

#[test]
fn signed_reads_are_twos_complement() {
    let mut c = cursor(&[0xff, 0x80, 0xfe, 0xff, 0x00, 0x80, 0xff, 0xff, 0xff, 0xff, 0x00, 0x00, 0x00, 0x80]);
    assert_eq!(c.get_i8(), Some(-1));
    assert_eq!(c.get_i8(), Some(-128));
    assert_eq!(c.get_i16(), Some(-2));
    assert_eq!(c.get_i16(), Some(-32768));
    assert_eq!(c.peek_i32(), Some(-1));
    assert_eq!(c.get_i32(), Some(-1));
    assert_eq!(c.get_i32(), Some(i32::MIN));
    assert_eq!(c.get_i32(), None);
}

#[test]
fn largest_values_are_read() {
    let mut c = cursor(&[0xff, 0xff, 0xff, 0xff, 0xff, 0x7f, 0xff, 0xff, 0xff, 0x7f]);
    assert_eq!(c.get_u32(), Some(u32::MAX));
    assert_eq!(c.get_i16(), Some(i16::MAX));
    assert_eq!(c.get_i32(), Some(i32::MAX));
}

#[test]
fn failed_read_does_not_advance() {
    let mut c = cursor(&[1, 2, 3]);
    assert_eq!(c.get_u32(), None);
    assert_eq!(c.tell(), 0);
    assert_eq!(c.get_i32(), None);
    assert_eq!(c.tell(), 0);
    assert_eq!(c.get_f32(), None);
    assert_eq!(c.tell(), 0);
    assert_eq!(c.get_u16(), Some(0x0201));
    assert_eq!(c.get_u16(), None);
    assert_eq!(c.get_i16(), None);
    assert_eq!(c.tell(), 2);
    assert_eq!(c.get_bool(4), None);
    assert_eq!(c.tell(), 2);
}

#[test]
fn peeks_do_not_advance() {
    let c = cursor(&[0x00, 0x00, 0x80, 0x3f]);
    assert_eq!(c.peek_u8(), Some(0));
    assert_eq!(c.peek_u16(), Some(0));
    assert_eq!(c.peek_u32(), Some(0x3f800000));
    assert_eq!(c.peek_i32(), Some(0x3f800000));
    assert_eq!(c.peek_f32().map(f32::from_bits), Some(1.0f32));
    assert_eq!(c.tell(), 0);
}

#[test]
fn float_bits_read_back_as_the_number() {
    let mut c = cursor(&11.76f32.to_le_bytes());
    assert_eq!(c.get_f32().map(f32::from_bits), Some(11.76f32));
    assert_eq!(c.tell(), 4);
}

#[test]
fn get_bool_is_true_when_any_byte_is_set() {
    let mut c = cursor(&[0, 0, 0, 0, 0, 0, 1, 0, 7]);
    assert_eq!(c.get_bool(4), Some(false));
    assert_eq!(c.get_bool(4), Some(true));
    assert_eq!(c.tell(), 8);
    assert_eq!(c.get_bool(0), Some(false));
    assert_eq!(c.get_bool(1), Some(true));
    assert_eq!(c.get_bool(1), None);
}

#[test]
fn mov_is_held_inside_the_data() {
    let mut c = cursor(&[0; 10]);
    c.mov(4);
    assert_eq!(c.tell(), 4);
    c.mov(-3);
    assert_eq!(c.tell(), 1);
    c.mov(-5);
    assert_eq!(c.tell(), 0);
    c.mov(100);
    assert_eq!(c.tell(), 10);
    c.mov(isize::MIN);
    assert_eq!(c.tell(), 0);
    c.mov(isize::MAX);
    assert_eq!(c.tell(), 10);
    c.mov_by(i128::MIN);
    assert_eq!(c.tell(), 0);
    c.mov_by(i128::MAX);
    assert_eq!(c.tell(), 10);
    c.mov_by(-3);
    assert_eq!(c.tell(), 7);
}

#[test]
fn mov_and_seek_chain() {
    let mut c = cursor(&[0, 1, 2, 3, 4, 5]);
    assert_eq!(c.seek(1).mov(2).get_u8(), Some(3));
    assert_eq!(c.tell(), 4);
}

#[test]
fn seek_is_held_inside_the_data() {
    let mut c = StreamCursor::new(vec![0, 0, 1, 2, 3], 2);
    c.seek(2);
    assert_eq!(c.tell(), 2);
    assert_eq!(c.peek_u8(), Some(3));
    assert_eq!(c.current(), &[3]);
    c.seek(3);
    assert_eq!(c.tell(), 3);
    c.seek(usize::MAX);
    assert_eq!(c.tell(), 3);
    assert_eq!(c.remain(), 0);
    assert_eq!(c.data_len(), 3);
}

#[test]
fn extract_str_l32_strips_one_trailing_nul() {
    let mut c = cursor(&[3, 0, 0, 0, b'a', b'b', 0, 2, 0, 0, 0, b'c', b'd', 9]);
    assert_eq!(c.extract_str_l32(), Some(b"ab".to_vec()));
    assert_eq!(c.tell(), 7);
    assert_eq!(c.extract_str_l32(), Some(b"cd".to_vec()));
    assert_eq!(c.tell(), 13);
}

#[test]
fn extract_str_l32_keeps_inner_nuls() {
    let mut c = cursor(&[3, 0, 0, 0, 0, 0, 0]);
    assert_eq!(c.extract_str_l32(), Some(vec![0, 0]));
    let mut only_nul = cursor(&[1, 0, 0, 0, 0]);
    assert_eq!(only_nul.extract_str_l32(), Some(vec![]));
    assert_eq!(only_nul.tell(), 5);
}

#[test]
fn extract_str_l32_without_text_keeps_the_prefix_consumed() {
    let mut zero = cursor(&[0, 0, 0, 0, b'a']);
    assert_eq!(zero.extract_str_l32(), None);
    assert_eq!(zero.tell(), 4);
    let mut long = cursor(&[5, 0, 0, 0, b'a', b'b']);
    assert_eq!(long.extract_str_l32(), None);
    assert_eq!(long.tell(), 4);
    let mut negative = cursor(&[0xff, 0xff, 0xff, 0xff, b'a', b'b']);
    assert_eq!(negative.extract_str_l32(), None);
    assert_eq!(negative.tell(), 4);
    let mut short = cursor(&[5, 0, 0]);
    assert_eq!(short.extract_str_l32(), None);
    assert_eq!(short.tell(), 0);
}

#[test]
fn extract_str_l16_reads_to_the_exact_end() {
    let mut c = cursor(&[2, 0, b'h', b'i']);
    assert_eq!(c.extract_str_l16(), Some(b"hi".to_vec()));
    assert_eq!(c.remain(), 0);
    let mut zero = cursor(&[0, 0, 1]);
    assert_eq!(zero.extract_str_l16(), None);
    assert_eq!(zero.tell(), 2);
    let mut long = cursor(&[3, 0, 1, 2]);
    assert_eq!(long.extract_str_l16(), None);
    assert_eq!(long.tell(), 2);
    let mut nul = cursor(&[3, 0, b'x', b'y', 0, 7]);
    assert_eq!(nul.extract_str_l16(), Some(b"xy".to_vec()));
    assert_eq!(nul.tell(), 5);
}

#[test]
fn peek_bytes_copies_without_moving() {
    let mut c = cursor(&[1, 2, 3, 4]);
    c.seek(1);
    assert_eq!(c.peek_bytes(2), Some(vec![2, 3]));
    assert_eq!(c.peek_bytes(3), Some(vec![2, 3, 4]));
    assert_eq!(c.peek_bytes(4), None);
    assert_eq!(c.peek_bytes(0), Some(vec![]));
    assert_eq!(c.tell(), 1);
}

#[test]
fn find_gives_the_first_match_in_range() {
    let c = cursor(b"coocoocoocoo");
    let needle = b"oocoo".to_vec();
    assert_eq!(c.find(needle.clone(), 0..12), Some(1));
    assert_eq!(c.find(needle.clone(), 2..12), Some(4));
    assert_eq!(c.find(needle.clone(), 5..12), Some(7));
    assert_eq!(c.find(needle.clone(), 8..12), None);
    assert_eq!(c.find(needle.clone(), 1..6), Some(1));
    assert_eq!(c.find(needle.clone(), 1..5), None);
}

#[test]
fn rfind_gives_the_last_match_in_range() {
    let c = cursor(b"coocoocoocoo");
    let needle = b"oocoo".to_vec();
    assert_eq!(c.rfind(&needle, 0..12), Some(7));
    assert_eq!(c.rfind(&needle, 0..11), Some(4));
    assert_eq!(c.rfind(&needle, 0..8), Some(1));
    assert_eq!(c.rfind(&needle, 0..5), None);
    assert_eq!(c.rfind(&needle, 2..12), Some(7));
}

#[test]
fn find_counts_from_the_start_of_the_data() {
    let c = StreamCursor::new(b"abcabcabc".to_vec(), 3);
    let needle = b"abc".to_vec();
    assert_eq!(c.find(needle.clone(), 0..6), Some(0));
    assert_eq!(c.find(needle.clone(), 1..6), Some(3));
    assert_eq!(c.rfind(&needle, 0..6), Some(3));
    assert_eq!(c.rfind(&needle, 0..5), Some(0));
}

#[test]
fn find_with_empty_needle_or_bad_range_finds_nothing() {
    let c = cursor(b"abcdef");
    assert_eq!(c.find(vec![], 0..6), None);
    assert_eq!(c.rfind(&vec![], 0..6), None);
    assert_eq!(c.find(b"a".to_vec(), 3..2), None);
    assert_eq!(c.find(b"a".to_vec(), 0..7), None);
    assert_eq!(c.rfind(&b"f".to_vec(), 4..3), None);
    assert_eq!(c.rfind(&b"f".to_vec(), 0..100), None);
    assert_eq!(c.find(b"abcdefg".to_vec(), 0..6), None);
    assert_eq!(c.find(b"abcdef".to_vec(), 0..6), Some(0));
    assert_eq!(c.rfind(&b"f".to_vec(), 0..6), Some(5));
    assert_eq!(c.find(b"a".to_vec(), 0..0), None);
}

#[test]
fn find_does_not_move_the_cursor() {
    let mut c = cursor(b"xxabxx");
    c.seek(5);
    assert_eq!(c.find(b"ab".to_vec(), 0..6), Some(2));
    assert_eq!(c.tell(), 5);
}
