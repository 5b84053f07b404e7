use nghttp3::error::ERR_INVALID_ARGUMENT;
use nghttp3::header::{NV_FLAG_NO_COPY_NAME, NV_FLAG_NO_COPY_VALUE};
use nghttp3::{
    decode_uvarint, encode_uvarint, is_valid_header_name, is_valid_header_value, Connection,
    Header, HeaderFlags, Role, Settings, MAX_VARINT,
};

#[test]
fn header_flags_never_expose_no_copy_bits() {
    let header = Header::new(b":method".to_vec(), b"GET".to_vec())
        .with_flags(HeaderFlags::never_index().union(HeaderFlags::try_index()));
    let raw_flags = header.raw_flags();
    assert_eq!(raw_flags & NV_FLAG_NO_COPY_NAME, 0);
    assert_eq!(raw_flags & NV_FLAG_NO_COPY_VALUE, 0);
}

#[test]
fn validates_common_headers() {
    assert!(is_valid_header_name(b"content-type"));
    assert!(!is_valid_header_name(b"Content-Type"));
    assert!(is_valid_header_value(b"application/json"));
}

#[test]
fn creates_and_drops_client_connection() {
    let conn = Connection::new(Role::Client, &Settings::default(), |_, _| 0).unwrap();
    assert_eq!(conn.role(), Role::Client);
}

#[test]
fn rejects_assertion_only_stream_preconditions() {
    let mut conn = Connection::new(Role::Client, &Settings::default(), |_, _| 0).unwrap();
    let err = conn
        .bind_control_stream(0, |_| -> i32 { unreachable!("the library must not be asked") })
        .unwrap_err();
    assert_eq!(err.code(), ERR_INVALID_ARGUMENT);
    let err = conn
        .read_stream(-1, &[], false, 0, |_, _, _, _| -> isize {
            unreachable!("the library must not be asked")
        })
        .unwrap_err();
    assert_eq!(err.code(), ERR_INVALID_ARGUMENT);
}

#[test]
fn uvarint_round_trips_boundaries() {
    for value in [0, 63, 64, 16_383, 16_384, 1_073_741_823, MAX_VARINT] {
        let encoded = encode_uvarint(value).unwrap();
        let (decoded, consumed) = decode_uvarint(&encoded).unwrap();
        assert_eq!(decoded, value);
        assert_eq!(consumed, encoded.len());
    }
}
