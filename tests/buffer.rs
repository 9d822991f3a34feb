use noir_macros_core::{format_into, Buffer, WriteError, DEFAULT_BUFFER_SIZE, MAX_BUFFER_SIZE};

#[test]
fn write_then_read_round_trip() {
    let mut buf = Buffer::new();
    assert!(buf.write_str("hello").is_ok());
    assert_eq!(buf.contents(), b"hello".to_vec());
    assert_eq!(buf.pos(), 5);
    assert_eq!(buf.as_text(), "hello");
}

#[test]
fn default_buffer_count_scenario() {
    let mut buf = Buffer::new();
    assert_eq!(buf.capacity(), DEFAULT_BUFFER_SIZE);
    assert_eq!(buf.capacity(), 8192);
    assert!(buf.write_str("Count: 42").is_ok());
    assert_eq!(buf.as_text(), "Count: 42");
    assert_eq!(buf.pos(), 9);
}

#[test]
fn small_buffer_grows_to_next_power_of_two() {
    let mut buf = Buffer::with_capacity(4);
    assert!(!buf.has_capacity(5));
    assert!(buf.write_str("abcde").is_ok());
    assert_eq!(buf.pos(), 5);
    assert_eq!(buf.as_text(), "abcde");
    assert_eq!(buf.capacity(), 8);
    assert_eq!(buf.storage_len(), 8);
}

#[test]
fn write_beyond_ceiling_fails_unchanged() {
    let mut buf = Buffer::with_capacity(MAX_BUFFER_SIZE);
    assert!(buf.write_str("ab").is_ok());
    let big = "x".repeat(MAX_BUFFER_SIZE - 1);
    assert_eq!(buf.write_str(&big), Err(WriteError::OutOfSpace));
    assert_eq!(buf.pos(), 2);
    assert_eq!(buf.as_text(), "ab");
}

#[test]
fn one_past_full_capacity_fails() {
    let mut buf = Buffer::with_capacity(MAX_BUFFER_SIZE);
    let big = "y".repeat(MAX_BUFFER_SIZE + 1);
    assert_eq!(buf.write_str(&big), Err(WriteError::OutOfSpace));
    assert_eq!(buf.pos(), 0);
    assert_eq!(buf.storage_len(), 0);
}

#[test]
fn filling_to_the_ceiling_exactly_succeeds() {
    let mut buf = Buffer::with_capacity(16);
    let big = "z".repeat(MAX_BUFFER_SIZE);
    assert!(buf.write_str(&big).is_ok());
    assert_eq!(buf.pos(), MAX_BUFFER_SIZE);
    assert_eq!(buf.capacity(), MAX_BUFFER_SIZE);
    assert!(!buf.has_capacity(1));
    assert!(!buf.try_grow(1));
}

#[test]
fn try_grow_reports_ceiling() {
    let mut buf = Buffer::with_capacity(4);
    assert!(buf.try_grow(100));
    assert_eq!(buf.capacity(), 128);
    assert_eq!(buf.storage_len(), 128);
    assert_eq!(buf.pos(), 0);
    assert!(!buf.try_grow(MAX_BUFFER_SIZE + 1));
    assert!(!buf.try_grow(usize::MAX));
    assert_eq!(buf.capacity(), 128);
}

#[test]
fn has_capacity_counts_bytes_in_use() {
    let mut buf = Buffer::with_capacity(10);
    assert!(buf.has_capacity(10));
    assert!(!buf.has_capacity(11));
    assert!(buf.write_str("1234").is_ok());
    assert!(buf.has_capacity(6));
    assert!(!buf.has_capacity(7));
    assert!(!buf.has_capacity(usize::MAX));
}

#[test]
fn reset_keeps_storage_for_reuse() {
    let mut buf = Buffer::with_capacity(64);
    buf.reset();
    assert_eq!(buf.pos(), 0);
    assert_eq!(buf.storage_len(), 0);
    assert!(buf.write_str("first line of text").is_ok());
    let peak = buf.storage_len();
    assert_eq!(peak, 18);
    buf.reset();
    assert_eq!(buf.pos(), 0);
    assert_eq!(buf.storage_len(), peak);
    assert_eq!(buf.as_text(), "");
    assert!(buf.write_str("short").is_ok());
    assert_eq!(buf.storage_len(), peak);
    assert_eq!(buf.as_text(), "short");
}

#[test]
fn multibyte_text_is_kept_whole() {
    let mut buf = Buffer::with_capacity(4);
    assert!(buf.write_str("é").is_ok());
    assert!(buf.write_str("日本").is_ok());
    assert_eq!(buf.pos(), 8);
    assert_eq!(buf.as_text(), "é日本");
}

#[test]
fn free_write_appends() {
    let mut buf = Buffer::with_capacity(8);
    assert!(noir_macros_core::buffer::write(&mut buf, "ab").is_ok());
    assert!(noir_macros_core::buffer::write(&mut buf, "cd").is_ok());
    assert_eq!(buf.as_text(), "abcd");
}

#[test]
fn format_into_starts_afresh() {
    let mut buf = Buffer::new();
    assert_eq!(format_into(&mut buf, "Count: 42"), "Count: 42");
    assert_eq!(format_into(&mut buf, "x"), "x");
    assert_eq!(buf.pos(), 1);
}

#[test]
fn format_into_degrades_to_empty() {
    let mut buf = Buffer::new();
    assert_eq!(format_into(&mut buf, "kept"), "kept");
    let big = "w".repeat(MAX_BUFFER_SIZE + 1);
    assert_eq!(format_into(&mut buf, &big), "");
    assert_eq!(buf.pos(), 0);
}
