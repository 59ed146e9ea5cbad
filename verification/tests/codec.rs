use magika_ffi::BoundaryError;
use magika_ffi::ForeignString;
use magika_ffi::from_foreign;
use magika_ffi::magika_string_free;
use magika_ffi::to_foreign;

fn round_trip(text: &str) -> String {
    let foreign = to_foreign(text).unwrap();
    from_foreign(Some(foreign.as_bytes_with_nul())).unwrap()
}

#[test]
fn to_foreign_appends_one_terminator() {
    let s = to_foreign("hello").unwrap();
    assert_eq!(s.as_bytes_with_nul(), &b"hello\0"[..]);
    assert_eq!(s.into_bytes_with_nul(), vec![104u8, 101, 108, 108, 111, 0]);
}

#[test]
fn to_foreign_of_empty_text_is_a_lone_terminator() {
    let s = to_foreign("").unwrap();
    assert_eq!(s.as_bytes_with_nul(), &[0u8][..]);
}

#[test]
fn to_foreign_encodes_as_utf8() {
    let s = to_foreign("h\u{e9}").unwrap();
    assert_eq!(s.as_bytes_with_nul(), &[0x68u8, 0xc3, 0xa9, 0][..]);
}

#[test]
fn to_foreign_refuses_an_embedded_nul() {
    assert_eq!(to_foreign("ab\0cd"), Err(BoundaryError::Encoding));
    assert_eq!(to_foreign("\0"), Err(BoundaryError::Encoding));
    assert_eq!(to_foreign("abc\0"), Err(BoundaryError::Encoding));
}

#[test]
fn from_foreign_refuses_a_null_pointer() {
    assert_eq!(from_foreign(None), Err(BoundaryError::InvalidInput));
}

#[test]
fn from_foreign_refuses_a_buffer_without_terminator() {
    assert_eq!(from_foreign(Some(&b"abc"[..])), Err(BoundaryError::InvalidInput));
    assert_eq!(from_foreign(Some(&b""[..])), Err(BoundaryError::InvalidInput));
}

#[test]
fn from_foreign_refuses_bytes_that_are_not_utf8() {
    assert_eq!(from_foreign(Some(&[0xffu8, 0][..])), Err(BoundaryError::Encoding));
    assert_eq!(from_foreign(Some(&[0x61u8, 0xc3, 0][..])), Err(BoundaryError::Encoding));
    assert_eq!(from_foreign(Some(&[0xedu8, 0xa0, 0x80, 0][..])), Err(BoundaryError::Encoding));
}

#[test]
fn from_foreign_reads_up_to_the_first_nul() {
    assert_eq!(from_foreign(Some(&b"ab\0cd\0"[..])), Ok("ab".to_string()));
    assert_eq!(from_foreign(Some(&b"\0"[..])), Ok(String::new()));
    assert_eq!(from_foreign(Some(&b"/tmp/x.bin\0"[..])), Ok("/tmp/x.bin".to_string()));
}

#[test]
fn from_foreign_ignores_what_follows_the_terminator() {
    assert_eq!(from_foreign(Some(&[0x61u8, 0, 0xff][..])), Ok("a".to_string()));
}

#[test]
fn from_foreign_decodes_utf8() {
    assert_eq!(from_foreign(Some(&[0xe2u8, 0x82, 0xac, 0][..])), Ok("\u{20ac}".to_string()));
}

#[test]
fn text_round_trips() {
    for text in ["", "a", "hello world", "application/x-executable-elf", "na\u{ef}ve \u{1f600} \u{20ac}"] {
        assert_eq!(round_trip(text), text);
    }
}

#[test]
fn from_vec_with_nul_takes_a_well_formed_buffer() {
    let s = ForeignString::from_vec_with_nul(vec![0x6fu8, 0]).unwrap();
    assert_eq!(s.as_bytes_with_nul(), &b"o\0"[..]);
    assert_eq!(s, to_foreign("o").unwrap());
}

#[test]
fn from_vec_with_nul_refuses_other_shapes() {
    assert_eq!(ForeignString::from_vec_with_nul(vec![]), Err(BoundaryError::InvalidInput));
    assert_eq!(ForeignString::from_vec_with_nul(vec![0x61u8]), Err(BoundaryError::InvalidInput));
    assert_eq!(
        ForeignString::from_vec_with_nul(vec![0x61u8, 0, 0x62, 0]),
        Err(BoundaryError::InvalidInput)
    );
    assert_eq!(ForeignString::from_vec_with_nul(vec![0u8, 0]), Err(BoundaryError::InvalidInput));
}

#[test]
fn string_free_is_a_no_op_on_null() {
    assert!(!magika_string_free(None));
}

#[test]
fn string_free_releases_a_string() {
    assert!(magika_string_free(Some(to_foreign("elf").unwrap())));
}
