use magika::ContentType;
use magika::FileType;
use magika_ffi::convert_typeinfo;
use magika_ffi::magika_identify_bytes;
use magika_ffi::magika_identify_file;
use magika_ffi::magika_session_free;
use magika_ffi::magika_typeinfo_free;
use magika_ffi::open_session;
use magika_ffi::respond;
use magika_ffi::BoundaryError;
use magika_ffi::TypeInfo;

fn answer(found: FileType) -> Result<TypeInfo, magika::Error> {
    let info = found.info();
    Ok(TypeInfo {
        label: info.label.to_string(),
        mime_type: info.mime_type.to_string(),
        group: info.group.to_string(),
        description: info.description.to_string(),
        extensions: info.extensions.iter().map(|e| e.to_string()).collect(),
        is_text: info.is_text,
    })
}

fn not_found() -> magika::Error {
    magika::Error::IOError(std::io::Error::from(std::io::ErrorKind::NotFound))
}

#[test]
fn identify_bytes_without_a_session_gives_null() {
    assert_eq!(magika_identify_bytes(None, Some(&b"hello world"[..])), None);
    assert_eq!(magika_identify_bytes(None, None), None);
}

#[test]
fn identify_file_without_a_session_is_refused() {
    assert_eq!(
        magika_identify_file(false, Some(&b"/etc/hostname\0"[..])),
        Err(BoundaryError::InvalidInput)
    );
    assert_eq!(magika_identify_file(false, None), Err(BoundaryError::InvalidInput));
    assert_eq!(
        magika_identify_file(false, Some(&[0xffu8, 0][..])),
        Err(BoundaryError::InvalidInput)
    );
}

#[test]
fn identify_file_without_a_path_is_refused() {
    assert_eq!(magika_identify_file(true, None), Err(BoundaryError::InvalidInput));
}

#[test]
fn identify_file_refuses_a_path_that_is_not_text() {
    assert_eq!(magika_identify_file(true, Some(&[0x2fu8, 0xff, 0][..])), Err(BoundaryError::Encoding));
}

#[test]
fn identify_file_hands_the_path_on() {
    assert_eq!(
        magika_identify_file(true, Some(&b"/no/such/file\0"[..])),
        Ok("/no/such/file".to_string())
    );
}

#[test]
fn a_file_the_engine_cannot_read_gives_null() {
    let path = magika_identify_file(true, Some(&b"/no/such/file\0"[..]));
    assert!(path.is_ok());
    assert_eq!(respond(Err(not_found())), Err(BoundaryError::Engine));
    assert!(respond(Err(not_found())).ok().is_none());
}

#[test]
fn plain_text_gives_a_text_record_that_can_be_released() {
    let record = respond(answer(FileType::Ruled(ContentType::Txt))).unwrap();
    assert!(record.is_text);
    assert_eq!(record.label.as_bytes_with_nul(), &b"txt\0"[..]);
    assert_eq!(record.mime_type.as_bytes_with_nul(), &b"text/plain\0"[..]);
    assert_eq!(record.group.as_bytes_with_nul(), &b"text\0"[..]);
    assert_eq!(record.description.as_bytes_with_nul(), &b"Generic text document\0"[..]);
    assert_eq!(record.extensions_len(), 1);
    assert_eq!(record.extensions[0].as_bytes_with_nul(), &b"txt\0"[..]);
    assert_eq!(magika_typeinfo_free(Some(record)).len(), 7);
}

#[test]
fn a_directory_gives_a_record_without_extensions() {
    let record = respond(answer(FileType::Directory)).unwrap();
    assert!(!record.is_text);
    assert_eq!(record.label.as_bytes_with_nul(), &b"directory\0"[..]);
    assert_eq!(record.extensions_len(), 0);
}

#[test]
fn an_elf_answer_gives_the_elf_record() {
    let record = respond(answer(FileType::Ruled(ContentType::Elf))).unwrap();
    assert!(!record.is_text);
    assert_eq!(record.label.as_bytes_with_nul(), &b"elf\0"[..]);
    assert_eq!(record.mime_type.as_bytes_with_nul(), &b"application/x-executable-elf\0"[..]);
}

#[test]
fn an_answer_is_marshalled_as_it_is() {
    let info = answer(FileType::Ruled(ContentType::Elf)).unwrap();
    let expected = convert_typeinfo(&info).unwrap();
    assert_eq!(respond(Ok(info)), Ok(expected));
}

#[test]
fn an_answer_that_cannot_cross_is_an_encoding_failure() {
    let mut info = answer(FileType::Ruled(ContentType::Txt)).unwrap();
    info.description = "Generic\0text".to_string();
    assert_eq!(respond(Ok(info)), Err(BoundaryError::Encoding));
}

#[test]
fn a_failed_start_is_an_initialization_failure() {
    assert_eq!(open_session(Err(not_found())).err(), Some(BoundaryError::Initialization));
}

#[test]
fn session_free_is_a_no_op_on_null() {
    assert!(!magika_session_free(None));
}
