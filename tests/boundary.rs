use avro_ffi::boundary::{
    avro_byte_array_free, avro_err_clear, avro_err_get_backtrace, avro_err_get_last_code,
    avro_err_get_last_message, avro_str_free, AvroByteArray, AvroErrorCode, AvroStr, ErrorKind,
    ErrorSlot, LastError,
};
use avro_ffi::codec::AvroCodec;
use avro_ffi::convert::ConvertError;

#[test]
fn borrowed_byte_array_release_keeps_memory() {
    let memory = vec![1u8, 2, 3];
    let mut handle = AvroByteArray::new(&memory);
    assert!(!handle.is_owned());
    avro_byte_array_free(&mut handle);
    assert_eq!(handle.as_slice(), &[1, 2, 3]);
    assert_eq!(memory, vec![1, 2, 3]);
}

#[test]
fn owned_byte_array_release_clears_once() {
    let mut handle = AvroByteArray::from_vec_u8(vec![4, 5]);
    assert!(handle.is_owned());
    assert_eq!(handle.len(), 2);
    handle.free();
    assert_eq!(handle.len(), 0);
    assert!(!handle.is_owned());
    handle.free();
    assert_eq!(handle.len(), 0);
    assert!(!handle.is_owned());
}

#[test]
fn borrowed_str_release_keeps_memory() {
    let memory = String::from("kept");
    let mut handle = AvroStr::new(&memory);
    avro_str_free(&mut handle);
    assert_eq!(handle.as_str(), "kept");
    assert_eq!(memory, "kept");
}

#[test]
fn owned_str_release_clears_once() {
    let mut handle = AvroStr::from_string(String::from("gone"));
    assert_eq!(handle.as_str(), "gone");
    handle.free();
    assert_eq!(handle.as_str(), "");
    assert!(!handle.is_owned());
    handle.free();
    assert_eq!(handle.as_str(), "");
}

#[test]
fn default_handles_are_cleared() {
    let mut s = AvroStr::default();
    assert_eq!(s.as_str(), "");
    assert!(!s.is_owned());
    s.free();
    assert_eq!(s.as_str(), "");
    let b = AvroByteArray::default();
    assert_eq!(b.len(), 0);
    assert!(!b.is_owned());
}

#[test]
fn handles_give_their_contents_back() {
    assert_eq!(AvroByteArray::from_vec_u8(vec![8, 9]).into_vec_u8(), vec![8, 9]);
    assert_eq!(AvroByteArray::new(&[3, 4]).into_vec_u8(), vec![3, 4]);
    assert_eq!(AvroStr::new("ab").into_string(), "ab");
}

#[test]
fn error_slot_protocol() {
    let mut slot = ErrorSlot::new();
    assert_eq!(avro_err_get_last_code(&slot), AvroErrorCode::NoError);
    assert_eq!(avro_err_get_last_code(&slot).code(), 0);
    assert_eq!(avro_err_get_last_message(&slot).as_str(), "");
    assert!(!avro_err_get_last_message(&slot).is_owned());
    assert_eq!(slot.capture::<u32>(Ok(5)), Some(5));
    let failure = ConvertError::MissingField("name".to_string()).to_last_error();
    assert_eq!(failure.message, "missing field name in record");
    assert_eq!(slot.capture::<u32>(Err(failure)), None);
    assert_eq!(avro_err_get_last_code(&slot), AvroErrorCode::Unknown);
    assert_eq!(avro_err_get_last_code(&slot).code(), 3);
    assert_eq!(avro_err_get_last_message(&slot).as_str(), "missing field name in record");
    assert_eq!(slot.capture::<u32>(Ok(6)), Some(6));
    assert_eq!(avro_err_get_last_code(&slot), AvroErrorCode::Unknown);
    slot.record(LastError {
        kind: ErrorKind::InternalFault,
        message: "broken".to_string(),
        trace: "at step 2".to_string(),
    });
    assert_eq!(avro_err_get_last_code(&slot), AvroErrorCode::Panic);
    assert_eq!(avro_err_get_last_code(&slot).code(), 1);
    assert_eq!(avro_err_get_last_message(&slot).as_str(), "broken");
    assert_eq!(avro_err_get_backtrace(&slot).as_str(), "at step 2");
    avro_err_clear(&mut slot);
    assert_eq!(avro_err_get_last_code(&slot), AvroErrorCode::NoError);
    assert_eq!(avro_err_get_backtrace(&slot).as_str(), "");
}

#[test]
fn conversion_error_messages() {
    assert_eq!(ConvertError::SizeMismatch.to_last_error().message, "fixed size does not match");
    assert_eq!(ConvertError::InvalidKey.to_last_error().message, "map key should be string");
    assert_eq!(ConvertError::TypeMismatch.to_last_error().kind, ErrorKind::Conversion);
}

#[test]
fn codecs_map_to_the_container_library() {
    assert_eq!(AvroCodec::Null.to_codec(), avro_rs::Codec::Null);
    assert_eq!(AvroCodec::Deflate.to_codec(), avro_rs::Codec::Deflate);
}
