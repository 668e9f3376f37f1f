use ruduo::buffer::{Buffer, Builder, K_CHEAP_PREPEND_SIZE, K_INITIAL_SIZE, K_READ_BUF_SIZE};
use ruduo::endian::{EndianRead, EndianWrite};
use std::iter::FromIterator;

#[test]
fn test_buffer_append_retrieve() {
    let mut buf = Buffer::new();
    assert_eq!(buf.readable_bytes(), 0);
    assert_eq!(buf.prependable_bytes(), K_CHEAP_PREPEND_SIZE);
    assert_eq!(buf.writable_bytes(), K_INITIAL_SIZE);

    // write 200
    let i = ['x'; 200].iter();
    let str = String::from_iter(i);
    buf.append(str.as_bytes());
    assert_eq!(buf.readable_bytes(), str.len());
    assert_eq!(buf.prependable_bytes(), K_CHEAP_PREPEND_SIZE);
    assert_eq!(buf.writable_bytes(), K_INITIAL_SIZE - str.len());

    // retrieve 50
    let str2 = buf.retrieve_as_string(50);
    assert_eq!(str2.len(), 50);
    assert_eq!(buf.readable_bytes(), str.len() - str2.len());
    assert_eq!(buf.prependable_bytes(), K_CHEAP_PREPEND_SIZE + str2.len());
    assert_eq!(buf.writable_bytes(), K_INITIAL_SIZE - str.len());
    assert_eq!(str2, String::from_iter(['x'; 50].iter()));

    // write 200 again
    buf.append(str.as_bytes());
    assert_eq!(buf.readable_bytes(), 2*str.len() - str2.len());
    assert_eq!(buf.prependable_bytes(), K_CHEAP_PREPEND_SIZE + str2.len());
    assert_eq!(buf.writable_bytes(), K_INITIAL_SIZE - 2*str.len());

    // retrieve all
    let str3 = buf.retrieve_all_as_string();
    assert_eq!(str3.len(), 350);
    assert_eq!(buf.readable_bytes(), 0);
    assert_eq!(buf.prependable_bytes(), K_CHEAP_PREPEND_SIZE);
    assert_eq!(buf.writable_bytes(), K_INITIAL_SIZE);
    assert_eq!(str3, String::from_iter(['x'; 350].iter()));
}

#[test]
fn test_buffer_grow() {
    let mut buf = Buffer::new();
    let s = ['y' as u8; 400];
    buf.append(&s);

    assert_eq!(buf.readable_bytes(), 400);
    assert_eq!(buf.writable_bytes(), K_INITIAL_SIZE - 400);

    // retrieve 50
    buf.retrieve(50);
    assert_eq!(buf.readable_bytes(), 350);
    assert_eq!(buf.prependable_bytes(), K_CHEAP_PREPEND_SIZE + 50);
    assert_eq!(buf.writable_bytes(), K_INITIAL_SIZE - 400);

    // append 1000 (cannot afford) 58 + 1350 + 0
    let s2 = ['z' as u8; 1000];
    buf.append(&s2);
    assert_eq!(buf.readable_bytes(), 1350);
    assert_eq!(buf.prependable_bytes(), K_CHEAP_PREPEND_SIZE + 50); // 58
    assert_eq!(buf.writable_bytes(), 0);

    // append 30 (can afford) 8 + 1380 + 20
    let s3 = ['0' as u8; 30];
    buf.append(&s3);
    assert_eq!(buf.readable_bytes(), 1380);
    assert_eq!(buf.prependable_bytes(), K_CHEAP_PREPEND_SIZE); // 8
    assert_eq!(buf.writable_bytes(), 20); // 50 - 30

    buf.retrieve_all();
    assert_eq!(buf.readable_bytes(), 0);
    assert_eq!(buf.prependable_bytes(), K_CHEAP_PREPEND_SIZE);
    assert_eq!(buf.writable_bytes(), 1400);
}

#[test]
fn test_buffer_prepend() {
    let mut buf = Buffer::new();
    let s = ['y' as u8; 200];
    buf.append(&s);
    assert_eq!(buf.readable_bytes(), 200);
    assert_eq!(buf.prependable_bytes(), K_CHEAP_PREPEND_SIZE);
    assert_eq!(buf.writable_bytes(), K_INITIAL_SIZE - 200);

    let x: i32 = 4;
    buf.prepend_as(x);
    assert_eq!(buf.readable_bytes(), 204);
    assert_eq!(buf.prependable_bytes(), K_CHEAP_PREPEND_SIZE - 4);
    assert_eq!(buf.writable_bytes(), K_INITIAL_SIZE - 200);
}

#[test]
fn test_buffer_read_write_int() {
    let mut buf = Buffer::new();
    let s = String::from("HTTP");
    buf.append_string(s);
    assert_eq!(buf.readable_bytes(), 4);

    assert_eq!(buf.peek_as::<i8>(), 'H' as i8);
    let top16: i16 = buf.peek_as();
    assert_eq!(top16, ('H' as i16 * 256) + 'T' as i16);
    assert_eq!(buf.peek_as::<i32>(), top16 as i32 * 65536 + ('T' as i32 * 256) + ('P' as i32));

    assert_eq!(buf.retrieve_as::<i8>(), 'H' as i8);
    assert_eq!(buf.retrieve_as::<i16>(), 'T' as i16 * 256 + 'T' as i16);
    assert_eq!(buf.retrieve_as::<i8>(), 'P' as i8);
    assert_eq!(buf.readable_bytes(), 0);
    assert_eq!(buf.writable_bytes(), K_INITIAL_SIZE);

    buf.append_as(-1 as i8);
    buf.append_as(-2 as i16);
    buf.append_as(-3 as i32);
    assert_eq!(buf.readable_bytes(), 7);
    assert_eq!(buf.retrieve_as::<i8>(), -1 as i8);
    assert_eq!(buf.retrieve_as::<i16>(), -2 as i16);
    assert_eq!(buf.retrieve_as::<i32>(), -3 as i32);
}

#[test]
fn bytes_come_out_in_the_order_of_going_in() {
    let mut buf = Buffer::new();
    buf.append(b"abc");
    buf.append(b"defg");
    assert_eq!(buf.peek(), b"abcdefg");
    buf.retrieve(3);
    assert_eq!(buf.peek(), b"defg");
    buf.retrieve(2);
    buf.append(b"h");
    assert_eq!(buf.peek(), b"fgh");
}

#[test]
fn a_builder_sets_the_size() {
    let buf = Builder::new().size(20).build();
    assert_eq!(buf.writable_bytes(), 20);
    assert_eq!(buf.prependable_bytes(), 8);
    assert_eq!(Builder::new().build().writable_bytes(), 1024);
    let empty = Builder::new().size(0).build();
    assert_eq!(empty.writable_bytes(), 0);
}

#[test]
fn reading_to_the_end_regains_all_room() {
    let mut buf = Builder::new().size(10).build();
    buf.append(b"0123456789");
    assert_eq!(buf.writable_bytes(), 0);
    buf.retrieve(10);
    assert_eq!(buf.readable_bytes(), 0);
    assert_eq!(buf.prependable_bytes(), K_CHEAP_PREPEND_SIZE);
    assert_eq!(buf.writable_bytes(), 10);
    buf.retrieve(0);
    assert_eq!(buf.writable_bytes(), 10);
}

#[test]
fn content_moves_to_the_front_only_where_that_makes_room() {
    let mut buf = Builder::new().size(10).build();
    buf.append(b"0123456789");
    buf.retrieve(6);
    // 14 before, 4 of content, none after: 6 more fit after a move.
    buf.append(b"abcdef");
    assert_eq!(buf.peek(), b"6789abcdef");
    assert_eq!(buf.prependable_bytes(), 8);
    assert_eq!(buf.writable_bytes(), 0);
    // 9 before, 9 of content: 2 more do not fit.
    buf.retrieve(1);
    buf.append(b"gh");
    assert_eq!(buf.peek(), b"789abcdefgh");
    assert_eq!(buf.prependable_bytes(), 9);
    assert_eq!(buf.writable_bytes(), 0);
}

#[test]
fn reading_undoes_prepending() {
    let mut buf = Buffer::new();
    buf.append(b"body");
    buf.prepend(b"head");
    assert_eq!(buf.peek(), b"headbody");
    assert_eq!(buf.prependable_bytes(), 4);
    buf.retrieve(4);
    assert_eq!(buf.peek(), b"body");
    assert_eq!(buf.prependable_bytes(), 8);
    assert_eq!(buf.writable_bytes(), K_INITIAL_SIZE - 4);
}

#[test]
fn a_prepended_value_is_peeked_at_once() {
    let mut buf = Buffer::new();
    buf.append(b"xyz");
    buf.prepend_as(0x0102_0304_0506_0708i64);
    assert_eq!(buf.prependable_bytes(), 0);
    assert_eq!(buf.peek_as::<i64>(), 0x0102_0304_0506_0708i64);
    assert_eq!(buf.peek_as::<i8>(), 1);
    assert_eq!(buf.peek_as::<i32>(), 0x0102_0304);
    assert_eq!(buf.readable_bytes(), 11);
}

#[test]
fn values_are_read_back_as_they_were_appended() {
    let mut buf = Buffer::new();
    buf.append_as(i64::MIN);
    buf.append_as(i64::MAX);
    buf.append_as(i16::MIN);
    buf.append_as(-128i8);
    assert_eq!(buf.retrieve_as::<i64>(), i64::MIN);
    assert_eq!(buf.retrieve_as::<i64>(), i64::MAX);
    assert_eq!(buf.retrieve_as::<i16>(), i16::MIN);
    assert_eq!(buf.retrieve_as::<i8>(), -128);
}

#[test]
fn text_is_read_back_and_bad_bytes_are_replaced() {
    let mut buf = Buffer::new();
    buf.append_string(String::from("h\u{e9}llo"));
    assert_eq!(buf.readable_bytes(), 6);
    assert_eq!(buf.peek_as_string(3), "h\u{e9}");
    assert_eq!(buf.peek_as_string(2), "h\u{fffd}");
    assert_eq!(buf.retrieve_as_string(3), "h\u{e9}");
    assert_eq!(buf.retrieve_all_as_string(), "llo");
    assert_eq!(buf.retrieve_all_as_string(), "");
    buf.append(&[b'a', 0xff, b'b']);
    assert_eq!(buf.retrieve_all_as_string(), "a\u{fffd}b");
}

#[test]
fn what_a_read_came_to_is_taken_in() {
    let mut buf = Buffer::new();
    let room = [7u8; K_READ_BUF_SIZE];
    let got: Result<usize, &str> = buf.read_from(&room, Ok(3));
    assert_eq!(got, Ok(3));
    assert_eq!(buf.peek(), &[7u8, 7, 7]);
    let failed: Result<usize, &str> = buf.read_from(&room, Err("no"));
    assert_eq!(failed, Err("no"));
    assert_eq!(buf.readable_bytes(), 3);
    let end: Result<usize, &str> = buf.read_from(&room, Ok(0));
    assert_eq!(end, Ok(0));
    assert_eq!(buf.readable_bytes(), 3);
}

#[test]
fn integers_are_spelled_most_significant_byte_first() {
    assert_eq!((-2i16).as_bytes(), [0xff, 0xfe]);
    assert_eq!(0x0102_0304i32.as_bytes(), [1, 2, 3, 4]);
    assert_eq!((-1i64).as_bytes(), [0xff; 8]);
    assert_eq!(5i8.as_bytes(), [5]);
    assert_eq!(i32::from_bytes([0x80, 0, 0, 0]), i32::MIN);
    assert_eq!(i64::from_bytes([0, 0, 0, 0, 0, 0, 1, 0]), 256);
    assert_eq!(i16::from_bytes([0x7f, 0xff]), i16::MAX);
    assert_eq!(i8::from_bytes([0xff]), -1);
}

#[test]
fn there_is_room_for_what_fits_into_memory() {
    let mut buf = Buffer::new();
    assert!(buf.has_room(0));
    assert!(buf.has_room(1024));
    assert!(buf.has_room(100_000));
    assert!(!buf.has_room(isize::MAX as usize));
    assert!(buf.has_room(isize::MAX as usize - 8));
    buf.append(b"x");
    assert!(!buf.has_room(isize::MAX as usize - 8));
    assert!(!buf.has_room(usize::MAX));
}

#[test]
fn an_emptied_buffer_is_back_at_its_start() {
    let mut buf = Buffer::new();
    buf.append(&[1; 700]);
    buf.retrieve(300);
    buf.append(&[2; 100]);
    buf.retrieve(500);
    assert_eq!((buf.prependable_bytes(), buf.readable_bytes(), buf.writable_bytes()), (8, 0, 1024));
    buf.append(&[3; 1100]);
    buf.retrieve_all();
    assert_eq!((buf.prependable_bytes(), buf.readable_bytes(), buf.writable_bytes()), (8, 0, 1100));
}

#[test]
fn reading_in_two_steps_leaves_the_room_of_reading_once() {
    let mut twice = Buffer::new();
    let mut once = Buffer::new();
    twice.append(&[1, 2, 3, 4, 5]);
    once.append(&[1, 2, 3, 4, 5]);
    twice.retrieve(1);
    twice.retrieve(2);
    once.retrieve(3);
    assert_eq!(twice.peek(), once.peek());
    assert_eq!(twice.prependable_bytes(), 11);
    assert_eq!(once.prependable_bytes(), 11);
    assert_eq!(twice.writable_bytes(), once.writable_bytes());
}
