//! Stdin data and each attempt's share of it.

use procpilot::stdin::{attempt_stdin_async, AsyncStdinForAttempt, ReaderSlot, ReaderSlots};
use procpilot::StdinData;

#[test]
fn from_vec_u8() {
    let data: StdinData = vec![1, 2, 3].into();
    match data {
        StdinData::Bytes(b) => assert_eq!(b, vec![1, 2, 3]),
        _ => panic!("expected Bytes"),
    }
}

#[test]
fn from_byte_slice() {
    let data: StdinData = (&b"hello"[..]).into();
    match data {
        StdinData::Bytes(b) => assert_eq!(b, b"hello"),
        _ => panic!("expected Bytes"),
    }
}

#[test]
fn from_string() {
    let data: StdinData = String::from("hello").into();
    match data {
        StdinData::Bytes(b) => assert_eq!(b, b"hello"),
        _ => panic!("expected Bytes"),
    }
}

#[test]
fn from_str() {
    let data: StdinData = "hello".into();
    match data {
        StdinData::Bytes(b) => assert_eq!(b, b"hello"),
        _ => panic!("expected Bytes"),
    }
}

#[test]
fn from_references_copies() {
    let bytes = vec![9u8, 8];
    let text = String::from("é");
    assert!(StdinData::from(&bytes) == StdinData::Bytes(vec![9, 8]));
    assert!(StdinData::from(&text) == StdinData::Bytes(vec![0xc3, 0xa9]));
}

#[test]
fn from_reader_produces_reader_variant() {
    let mut slots = ReaderSlots::new();
    let data = StdinData::from_reader(slots.register());
    assert!(matches!(data, StdinData::Reader(_)));
}

#[test]
fn debug_impl_redacts_reader_contents() {
    let bytes_dbg = StdinData::Bytes(vec![0; 100]).debug();
    assert!(bytes_dbg.contains("100"));
    assert_eq!(bytes_dbg, "Bytes { len: 100 }");

    let reader_dbg = StdinData::from_reader(ReaderSlot { index: 0 }).debug();
    assert!(reader_dbg.contains("Reader"));
    assert!(!reader_dbg.contains("100"));
    assert_eq!(StdinData::from_async_reader(ReaderSlot { index: 0 }).debug(), "AsyncReader { .. }");
}

#[test]
fn from_async_reader_produces_async_reader_variant() {
    let mut slots = ReaderSlots::new();
    let data = StdinData::from_async_reader(slots.register());
    assert!(matches!(data, StdinData::AsyncReader(_)));
}

#[test]
fn bytes_feed_every_attempt() {
    let mut slots = ReaderSlots::new();
    let stdin = Some(StdinData::from("again"));
    for _ in 0..3 {
        let share = attempt_stdin_async(&stdin, &mut slots);
        assert!(share == AsyncStdinForAttempt::Bytes(b"again".to_vec()));
    }
    assert!(attempt_stdin_async(&None, &mut slots).is_nothing());
}

#[test]
fn a_reader_feeds_one_attempt_only() {
    let mut slots = ReaderSlots::new();
    let first = slots.register();
    let second = slots.register();
    let stdin = Some(StdinData::from_reader(first));
    let clone = stdin.clone();
    let other = Some(StdinData::from_async_reader(second));
    assert!(attempt_stdin_async(&stdin, &mut slots) == AsyncStdinForAttempt::Reader(first));
    assert!(attempt_stdin_async(&clone, &mut slots).is_nothing());
    assert!(attempt_stdin_async(&stdin, &mut slots).is_nothing());
    assert!(attempt_stdin_async(&other, &mut slots) == AsyncStdinForAttempt::AsyncReader(second));
    assert!(attempt_stdin_async(&other, &mut slots).is_nothing());
    // A slot that was never filed has nothing to give.
    let stray = Some(StdinData::from_reader(ReaderSlot { index: 7 }));
    assert!(attempt_stdin_async(&stray, &mut slots).is_nothing());
}
