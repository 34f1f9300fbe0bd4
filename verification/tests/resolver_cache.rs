use docfit::resolver::{FileEntry, ResolveError, Resolver};

#[test]
fn main_source_bypasses_cache() {
    let mut r = Resolver::new(7, String::from("hello page"));
    assert_eq!(r.main_id(), 7);
    assert!(!r.contains(7));
    assert_eq!(r.main_source(), "hello page");
    assert_eq!(r.source_of(7), Ok(String::from("hello page")));
}

#[test]
fn missing_file_errors() {
    let mut r = Resolver::new(1, String::from("main"));
    assert_eq!(r.source_of(42), Err(ResolveError::Missing));
}

#[test]
fn store_then_resolve() {
    let mut r = Resolver::new(1, String::from("main"));
    assert!(!r.contains(9));
    r.store(9, vec![b'a', b'b', b'c']);
    assert!(r.contains(9));
    assert_eq!(r.file_bytes(9).unwrap(), &vec![b'a', b'b', b'c']);
    assert_eq!(r.source_of(9), Ok(String::from("abc")));
    // The main source is untouched by cache traffic.
    assert_eq!(r.source_of(1), Ok(String::from("main")));
}

#[test]
fn bom_stripped_and_utf8_decoded() {
    // Byte-order mark plus the UTF-8 encoding of "héllo": the decoded
    // source drops the mark and decodes the two-byte sequence to one
    // character.
    let mut r = Resolver::new(1, String::from("main"));
    let bytes = vec![0xef, 0xbb, 0xbf, b'h', 0xc3, 0xa9, b'l', b'l', b'o'];
    r.store(3, bytes);
    let text = r.source_of(3).unwrap();
    assert_eq!(text, "h\u{e9}llo");
    assert_eq!(text.chars().count(), 5);
}

#[test]
fn repeated_bom_stripped() {
    let mut r = Resolver::new(1, String::from("main"));
    r.store(4, vec![0xef, 0xbb, 0xbf, 0xef, 0xbb, 0xbf, b'x']);
    assert_eq!(r.source_of(4), Ok(String::from("x")));
}

#[test]
fn invalid_utf8_rejected() {
    let mut r = Resolver::new(1, String::from("main"));
    r.store(5, vec![0xff, 0xfe, 0x01]);
    assert_eq!(r.source_of(5), Err(ResolveError::InvalidUtf8));
    // The entry itself is still there; only the text view fails.
    assert!(r.contains(5));
}

#[test]
fn resolve_is_repeatable() {
    // The second lookup is answered from the memoized decode and agrees
    // with the first.
    let mut r = Resolver::new(1, String::from("main"));
    r.store(6, vec![0xef, 0xbb, 0xbf, b'o', b'k']);
    let first = r.source_of(6).unwrap();
    let second = r.source_of(6).unwrap();
    assert_eq!(first, "ok");
    assert_eq!(first, second);
}

#[test]
fn file_entry_decodes_lazily() {
    let mut e = FileEntry::new(vec![0xef, 0xbb, 0xbf, b'h', b'i']);
    assert_eq!(e.bytes().len(), 5);
    assert_eq!(e.source(), Ok(String::from("hi")));
    // The raw bytes keep the mark; only the text view strips it.
    assert_eq!(e.bytes().len(), 5);
}

#[test]
fn today_is_unsupported() {
    let r = Resolver::new(1, String::from("main"));
    assert!(r.today().is_none());
}
