use nghttp3::connection::{
    STREAM_CLOSE_FLAG_RX_APP_ERROR_CODE_SET, STREAM_CLOSE_FLAG_TX_APP_ERROR_CODE_SET,
};
use nghttp3::error::{
    ERR_CALLBACK_FAILURE, ERR_FATAL, ERR_INVALID_ARGUMENT, ERR_INVALID_STATE, ERR_STREAM_IN_USE,
};
use nghttp3::header::{NV_FLAG_NEVER_INDEX, NV_FLAG_TRY_INDEX};
use nghttp3::qpack::{QPACK_DECODE_FLAG_BLOCKED, QPACK_DECODE_FLAG_EMIT, QPACK_DECODE_FLAG_FINAL};
use nghttp3::settings::{QPACK_INDEXING_STRAT_EAGER, QPACK_INDEXING_STRAT_NONE};
use nghttp3::{
    callback_return_code, check_stream_id, cvt, cvt_ssize, decode_uvarint, encode_uvarint, fill_random,
    is_client_bidi_stream, is_local_uni_stream, is_peer_readable_stream, is_valid_header_name,
    is_valid_header_value, is_valid_stream_id, stream_close_arguments, CallbackState, Callbacks,
    Connection, Error, Header, HeaderFlags, IndexingStrategy, PeerSettings, QpackDecodeFlags,
    ReadDataStep, Role, Settings, StreamClose, WriteData, MAX_VARINT,
};

struct Noop;
impl Callbacks for Noop {}

struct Refusing;
impl Callbacks for Refusing {
    fn acked_stream_data(&mut self, _stream_id: i64, _datalen: u64) -> Result<(), Error> {
        Err(cvt(ERR_INVALID_STATE).unwrap_err())
    }
}

fn error(code: i32) -> Error {
    cvt(code).unwrap_err()
}

fn ok_conn(role: Role) -> Connection {
    Connection::new(role, &Settings::default(), |_, _| 0).unwrap()
}

fn never<T>() -> T {
    unreachable!("the library must not be asked")
}

// ---- error codes ----

#[test]
fn cvt_maps_zero_to_success_and_other_codes_to_errors() {
    assert!(cvt(0).is_ok());
    assert_eq!(cvt(-101).unwrap_err().code(), -101);
    assert_eq!(cvt(7).unwrap_err().code(), 7);
}

#[test]
fn cvt_ssize_maps_negative_sizes_to_errors() {
    assert_eq!(cvt_ssize(0).unwrap(), 0);
    assert_eq!(cvt_ssize(42).unwrap(), 42);
    assert_eq!(cvt_ssize(-102).unwrap_err().code(), -102);
}

#[test]
fn fatal_errors_lie_below_the_fatal_threshold() {
    assert!(!error(ERR_INVALID_ARGUMENT).is_fatal());
    assert!(!error(ERR_FATAL).is_fatal());
    assert!(error(-901).is_fatal());
    assert!(error(ERR_CALLBACK_FAILURE).is_fatal());
}

#[test]
fn callback_failures_always_reach_the_library_as_callback_failure() {
    assert_eq!(callback_return_code(Ok(())), 0);
    assert_eq!(callback_return_code(Err(error(ERR_INVALID_STATE))), ERR_CALLBACK_FAILURE);
    assert_eq!(callback_return_code(Err(error(ERR_CALLBACK_FAILURE))), ERR_CALLBACK_FAILURE);
    assert_eq!(callback_return_code(Err(error(5))), ERR_CALLBACK_FAILURE);
}

// ---- varints ----

#[test]
fn uvarint_encodes_the_rfc_examples() {
    assert_eq!(encode_uvarint(37).unwrap(), vec![0x25]);
    assert_eq!(encode_uvarint(15293).unwrap(), vec![0x7b, 0xbd]);
    assert_eq!(encode_uvarint(494878333).unwrap(), vec![0x9d, 0x7f, 0x3e, 0x7d]);
    assert_eq!(
        encode_uvarint(151288809941952652).unwrap(),
        vec![0xc2, 0x19, 0x7c, 0x5e, 0xff, 0x14, 0xe8, 0x8c]
    );
}

#[test]
fn uvarint_decodes_the_rfc_examples() {
    assert_eq!(decode_uvarint(&[0x25]), Some((37, 1)));
    assert_eq!(decode_uvarint(&[0x7b, 0xbd]), Some((15293, 2)));
    assert_eq!(decode_uvarint(&[0x9d, 0x7f, 0x3e, 0x7d]), Some((494878333, 4)));
    assert_eq!(
        decode_uvarint(&[0xc2, 0x19, 0x7c, 0x5e, 0xff, 0x14, 0xe8, 0x8c]),
        Some((151288809941952652, 8))
    );
    // A non-minimal encoding is accepted.
    assert_eq!(decode_uvarint(&[0x40, 0x25]), Some((37, 2)));
}

#[test]
fn uvarint_decoding_ignores_trailing_bytes() {
    assert_eq!(decode_uvarint(&[0x7b, 0xbd, 0xff, 0x00]), Some((15293, 2)));
}

#[test]
fn uvarint_needs_the_whole_integer() {
    assert_eq!(decode_uvarint(&[]), None);
    assert_eq!(decode_uvarint(&[0x7b]), None);
    assert_eq!(decode_uvarint(&[0xc2, 0x19, 0x7c]), None);
}

#[test]
fn uvarint_refuses_values_above_the_maximum() {
    assert_eq!(encode_uvarint(MAX_VARINT + 1).unwrap_err().code(), ERR_INVALID_ARGUMENT);
    assert_eq!(encode_uvarint(u64::MAX).unwrap_err().code(), ERR_INVALID_ARGUMENT);
    assert_eq!(encode_uvarint(MAX_VARINT).unwrap(), vec![0xff; 8]);
}

#[test]
fn uvarint_round_trips_every_length_boundary() {
    for value in [1, 62, 65, 16_382, 16_385, 1_073_741_822, 1_073_741_824, MAX_VARINT - 1] {
        let encoded = encode_uvarint(value).unwrap();
        assert_eq!(decode_uvarint(&encoded), Some((value, encoded.len())));
    }
}

// ---- stream IDs ----

#[test]
fn stream_ids_are_non_negative_varints() {
    assert!(is_valid_stream_id(0));
    assert!(is_valid_stream_id(MAX_VARINT as i64));
    assert!(!is_valid_stream_id(-1));
    assert!(!is_valid_stream_id(MAX_VARINT as i64 + 1));
    assert!(check_stream_id(4).is_ok());
    assert_eq!(check_stream_id(-4).unwrap_err().code(), ERR_INVALID_ARGUMENT);
}

#[test]
fn stream_kinds_follow_the_two_low_bits() {
    assert!(is_client_bidi_stream(0));
    assert!(is_client_bidi_stream(8));
    assert!(!is_client_bidi_stream(1));
    assert!(!is_client_bidi_stream(-4));
    assert!(is_local_uni_stream(Role::Client, 2));
    assert!(is_local_uni_stream(Role::Server, 3));
    assert!(!is_local_uni_stream(Role::Client, 3));
    assert!(!is_local_uni_stream(Role::Server, 2));
    assert!(is_peer_readable_stream(Role::Client, 0));
    assert!(is_peer_readable_stream(Role::Client, 3));
    assert!(!is_peer_readable_stream(Role::Client, 2));
    assert!(is_peer_readable_stream(Role::Server, 4));
    assert!(is_peer_readable_stream(Role::Server, 6));
    assert!(!is_peer_readable_stream(Role::Server, 7));
    assert!(!is_peer_readable_stream(Role::Server, 1));
}

#[test]
fn an_endpoint_never_reads_its_own_unidirectional_streams() {
    for id in 0..64 {
        for role in [Role::Client, Role::Server] {
            if is_local_uni_stream(role, id) {
                assert!(!is_peer_readable_stream(role, id));
            }
        }
        if is_local_uni_stream(Role::Client, id) {
            assert!(is_peer_readable_stream(Role::Server, id));
        }
        if is_local_uni_stream(Role::Server, id) {
            assert!(is_peer_readable_stream(Role::Client, id));
        }
    }
}

// ---- headers ----

#[test]
fn header_accessors_return_what_was_given() {
    let header = Header::new(b"accept".to_vec(), b"*/*".to_vec());
    assert_eq!(header.name(), b"accept");
    assert_eq!(header.value(), b"*/*");
    assert_eq!(header.raw_flags(), 0);
    let header = header.with_flags(HeaderFlags::never_index());
    assert_eq!(header.raw_flags(), NV_FLAG_NEVER_INDEX);
    assert_eq!(header.name(), b"accept");
}

#[test]
fn header_flags_union_sets_both_bits() {
    let both = HeaderFlags::never_index().union(HeaderFlags::try_index());
    assert_eq!(both.bits(), NV_FLAG_NEVER_INDEX | NV_FLAG_TRY_INDEX);
    assert_eq!(HeaderFlags::none().bits(), 0);
    assert_eq!(HeaderFlags::none().union(HeaderFlags::none()).bits(), 0);
}

#[test]
fn header_names_are_lower_case_tokens() {
    assert!(is_valid_header_name(b":path"));
    assert!(is_valid_header_name(b"x-custom_header.1"));
    assert!(is_valid_header_name(b"!#$%&'*+-.^_`|~"));
    assert!(!is_valid_header_name(b""));
    assert!(!is_valid_header_name(b":"));
    assert!(!is_valid_header_name(b"::path"));
    assert!(!is_valid_header_name(b"a b"));
    assert!(!is_valid_header_name(b"a:b"));
    assert!(!is_valid_header_name(b"X"));
}

#[test]
fn header_values_have_no_outer_whitespace_or_controls() {
    assert!(is_valid_header_value(b""));
    assert!(is_valid_header_value(b"a b\tc"));
    assert!(is_valid_header_value(&[0x80, 0xff]));
    assert!(!is_valid_header_value(b" a"));
    assert!(!is_valid_header_value(b"a\t"));
    assert!(!is_valid_header_value(b" "));
    assert!(!is_valid_header_value(b"a\r\nb"));
    assert!(!is_valid_header_value(&[0x7f]));
    assert!(!is_valid_header_value(&[0x00]));
}

// ---- settings ----

#[test]
fn settings_record_only_what_builders_set() {
    let settings = Settings::default();
    assert_eq!(settings.max_field_section_size_value(), None);
    assert_eq!(settings.qpack_indexing_strategy_value(), None);
    let settings = settings
        .max_field_section_size(16384)
        .qpack_max_table_capacity(4096)
        .qpack_encoder_max_table_capacity(2048)
        .qpack_blocked_streams(100)
        .enable_connect_protocol(true)
        .enable_h3_datagram(false)
        .glitch_rate_limit(10, 2)
        .qpack_indexing_strategy(IndexingStrategy::Eager);
    assert_eq!(settings.max_field_section_size_value(), Some(16384));
    assert_eq!(settings.qpack_max_table_capacity_value(), Some(4096));
    assert_eq!(settings.qpack_encoder_max_table_capacity_value(), Some(2048));
    assert_eq!(settings.qpack_blocked_streams_value(), Some(100));
    assert_eq!(settings.enable_connect_protocol_value(), Some(true));
    assert_eq!(settings.h3_datagram_value(), Some(false));
    assert_eq!(settings.glitch_rate_limit_value(), Some((10, 2)));
    assert_eq!(settings.qpack_indexing_strategy_value(), Some(IndexingStrategy::Eager));
}

#[test]
fn indexing_strategies_have_their_raw_values() {
    assert_eq!(IndexingStrategy::Disabled.as_raw(), QPACK_INDEXING_STRAT_NONE);
    assert_eq!(IndexingStrategy::Eager.as_raw(), QPACK_INDEXING_STRAT_EAGER);
}

#[test]
fn peer_settings_treat_nonzero_bytes_as_true() {
    let settings = PeerSettings::from_raw_fields(100, 200, 3, 2, 0);
    assert_eq!(
        settings,
        PeerSettings {
            max_field_section_size: 100,
            qpack_max_table_capacity: 200,
            qpack_blocked_streams: 3,
            enable_connect_protocol: true,
            h3_datagram: false,
        }
    );
}

// ---- QPACK decode flags ----

#[test]
fn qpack_decode_flags_report_their_bits() {
    let flags = QpackDecodeFlags::from_bits(QPACK_DECODE_FLAG_EMIT | QPACK_DECODE_FLAG_FINAL);
    assert!(flags.emitted());
    assert!(flags.final_section());
    assert!(!flags.blocked());
    assert_eq!(flags.bits(), 3);
    let blocked = QpackDecodeFlags::from_bits(QPACK_DECODE_FLAG_BLOCKED);
    assert!(blocked.blocked());
    assert!(!blocked.emitted());
}

#[test]
fn an_emitted_field_needs_a_name_and_a_value() {
    let emit = QpackDecodeFlags::from_bits(QPACK_DECODE_FLAG_EMIT);
    assert_eq!(emit.emitted_field(true, true), Ok(true));
    assert_eq!(emit.emitted_field(true, false).unwrap_err().code(), ERR_INVALID_STATE);
    assert_eq!(emit.emitted_field(false, true).unwrap_err().code(), ERR_INVALID_STATE);
    let none = QpackDecodeFlags::from_bits(0);
    assert_eq!(none.emitted_field(false, false), Ok(false));
}

// ---- stream close ----

#[test]
fn close_arguments_flag_each_given_code() {
    assert_eq!(stream_close_arguments(None, None), (0, 0, 0));
    assert_eq!(
        stream_close_arguments(Some(0x10c), None),
        (STREAM_CLOSE_FLAG_RX_APP_ERROR_CODE_SET, 0x10c, 0)
    );
    assert_eq!(
        stream_close_arguments(None, Some(7)),
        (STREAM_CLOSE_FLAG_TX_APP_ERROR_CODE_SET, 0, 7)
    );
    assert_eq!(stream_close_arguments(Some(1), Some(2)), (3, 1, 2));
}

#[test]
fn close_events_round_trip_through_the_flags() {
    for (rx, tx) in [(None, None), (Some(9), None), (None, Some(0)), (Some(1), Some(2))] {
        let (flags, rx_code, tx_code) = stream_close_arguments(rx, tx);
        let close = StreamClose::from_flags(flags, 4, rx_code, tx_code);
        assert_eq!(
            close,
            StreamClose { stream_id: 4, rx_app_error_code: rx, tx_app_error_code: tx }
        );
    }
}

// ---- write data ----

#[test]
fn write_data_length_sums_the_segments() {
    let data = WriteData { stream_id: 0, fin: false, segments: vec![vec![1, 2], vec![], vec![3]] };
    assert_eq!(data.len(), 3);
    assert!(!data.is_empty());
    let empty = WriteData { stream_id: 0, fin: true, segments: vec![vec![]] };
    assert!(empty.is_empty());
}

// ---- connection ----

#[test]
fn connection_creation_reports_the_library_error() {
    let err = Connection::new(Role::Server, &Settings::default(), |_, _| -901).unwrap_err();
    assert_eq!(err.code(), -901);
}

#[test]
fn binding_needs_local_unidirectional_streams() {
    let mut conn = ok_conn(Role::Client);
    assert!(conn.bind_control_stream(2, |id| if id == 2 { 0 } else { -1 }).is_ok());
    let err = conn.bind_qpack_streams(6, 6, |_, _| never()).unwrap_err();
    assert_eq!(err.code(), ERR_INVALID_ARGUMENT);
    let err = conn.bind_qpack_streams(6, 3, |_, _| never()).unwrap_err();
    assert_eq!(err.code(), ERR_INVALID_ARGUMENT);
    let err = conn.bind_qpack_streams(6, 10, |_, _| -102).unwrap_err();
    assert_eq!(err.code(), -102);
    assert!(conn.bind_qpack_streams(6, 10, |_, _| 0).is_ok());

    let mut server = ok_conn(Role::Server);
    let err = server.bind_control_stream(2, |_| never()).unwrap_err();
    assert_eq!(err.code(), ERR_INVALID_ARGUMENT);
    assert!(server.bind_control_stream(3, |_| 0).is_ok());
}

#[test]
fn shutdown_needs_a_bound_control_stream() {
    let mut conn = ok_conn(Role::Server);
    assert_eq!(conn.shutdown(|| never()).unwrap_err().code(), ERR_INVALID_STATE);
    assert_eq!(conn.submit_shutdown_notice(|| never()).unwrap_err().code(), ERR_INVALID_STATE);
    // A failed bind leaves the control stream unbound.
    assert_eq!(conn.bind_control_stream(3, |_| -1).unwrap_err().code(), -1);
    assert_eq!(conn.shutdown(|| never()).unwrap_err().code(), ERR_INVALID_STATE);
    conn.bind_control_stream(7, |_| 0).unwrap();
    assert!(conn.shutdown(|| 0).is_ok());
    assert_eq!(conn.submit_shutdown_notice(|| -110).unwrap_err().code(), -110);
}

#[test]
fn read_stream_keeps_timestamps_monotonic() {
    let mut conn = ok_conn(Role::Server);
    assert_eq!(conn.read_stream(0, b"abc", false, 10, |_, d, _, _| d.len() as isize).unwrap(), 3);
    // Equal timestamps are accepted, older ones refused.
    assert_eq!(conn.read_stream(0, b"", true, 10, |_, _, _, _| 0).unwrap(), 0);
    let err = conn.read_stream(0, b"", false, 9, |_, _, _, _| never()).unwrap_err();
    assert_eq!(err.code(), ERR_INVALID_ARGUMENT);
    let err = conn.read_stream(0, b"", false, u64::MAX, |_, _, _, _| never()).unwrap_err();
    assert_eq!(err.code(), ERR_INVALID_ARGUMENT);
    // A server does not read its own unidirectional streams.
    let err = conn.read_stream(3, b"", false, 11, |_, _, _, _| never()).unwrap_err();
    assert_eq!(err.code(), ERR_INVALID_ARGUMENT);
    // The timestamp is recorded even when the library fails.
    assert_eq!(conn.read_stream(2, b"x", false, 20, |_, _, _, _| -107).unwrap_err().code(), -107);
    let err = conn.read_stream(2, b"", false, 19, |_, _, _, _| never()).unwrap_err();
    assert_eq!(err.code(), ERR_INVALID_ARGUMENT);
}

#[test]
fn next_write_offers_one_batch_at_a_time() {
    let mut conn = ok_conn(Role::Client);
    assert_eq!(conn.next_write(0, |_| never()).unwrap(), None);
    assert_eq!(conn.next_write(4, |_| (0, -1, 0, vec![])).unwrap(), None);
    assert_eq!(conn.next_write(4, |_| (-103, 0, 0, vec![])).unwrap_err().code(), -103);
    let batch = conn
        .next_write(4, |max| {
            assert_eq!(max, 4);
            (2, 2, 1, vec![vec![1, 2, 3], vec![4]])
        })
        .unwrap()
        .unwrap();
    assert_eq!(batch, WriteData { stream_id: 2, fin: true, segments: vec![vec![1, 2, 3], vec![4]] });
    assert_eq!(batch.len(), 4);
    // The batch must be accepted before another is asked for.
    assert_eq!(conn.next_write(4, |_| never()).unwrap_err().code(), ERR_INVALID_STATE);
    // Neither another stream nor more bytes than offered may be accepted.
    assert_eq!(conn.add_write_offset(6, 1, |_, _| never()).unwrap_err().code(), ERR_INVALID_ARGUMENT);
    assert_eq!(conn.add_write_offset(2, 5, |_, _| never()).unwrap_err().code(), ERR_INVALID_ARGUMENT);
    // A library failure keeps the batch pending.
    assert_eq!(conn.add_write_offset(2, 3, |_, _| -101).unwrap_err().code(), -101);
    assert!(conn.add_write_offset(2, 3, |id, n| if id == 2 && n == 3 { 0 } else { -1 }).is_ok());
    assert_eq!(conn.add_write_offset(2, 1, |_, _| never()).unwrap_err().code(), ERR_INVALID_STATE);
    assert!(conn.next_write(1, |_| (1, 2, 0, vec![vec![9; 10]])).unwrap().is_some());
}

#[test]
fn acknowledgements_never_pass_accepted_bytes() {
    let mut conn = ok_conn(Role::Client);
    conn.next_write(1, |_| (1, 0, 0, vec![vec![0; 10]])).unwrap();
    conn.add_write_offset(0, 10, |_, _| 0).unwrap();
    // Nothing was accepted on stream 4.
    assert_eq!(conn.add_ack_offset(4, 1, |_, _| never()).unwrap_err().code(), ERR_INVALID_ARGUMENT);
    assert!(conn.add_ack_offset(4, 0, |_, _| 0).is_ok());
    assert!(conn.add_ack_offset(0, 4, |_, _| 0).is_ok());
    assert_eq!(conn.add_ack_offset(0, 7, |_, _| never()).unwrap_err().code(), ERR_INVALID_ARGUMENT);
    assert_eq!(conn.add_ack_offset(0, u64::MAX, |_, _| never()).unwrap_err().code(), ERR_INVALID_ARGUMENT);
    assert!(conn.add_ack_offset(0, 6, |_, _| 0).is_ok());
    // The absolute offset can be set again but never moves back or past.
    assert!(conn.update_ack_offset(0, 10, |_, _| 0).is_ok());
    assert_eq!(conn.update_ack_offset(0, 9, |_, _| never()).unwrap_err().code(), ERR_INVALID_ARGUMENT);
    assert_eq!(conn.update_ack_offset(0, 11, |_, _| never()).unwrap_err().code(), ERR_INVALID_ARGUMENT);
    assert_eq!(conn.update_ack_offset(0, 10, |_, _| -5).unwrap_err().code(), -5);
}

#[test]
fn closing_a_stream_forgets_its_offsets() {
    let mut conn = ok_conn(Role::Client);
    conn.next_write(1, |_| (1, 0, 0, vec![vec![0; 10]])).unwrap();
    // The stream of the pending write cannot be closed.
    assert_eq!(conn.close_stream(0, None, None, |_, _, _, _| never()).unwrap_err().code(), ERR_INVALID_STATE);
    conn.add_write_offset(0, 10, |_, _| 0).unwrap();
    conn.add_ack_offset(0, 5, |_, _| 0).unwrap();
    assert_eq!(conn.close_stream(0, None, None, |_, _, _, _| -110).unwrap_err().code(), -110);
    // Offsets survive a failed close.
    assert!(conn.update_ack_offset(0, 10, |_, _| 0).is_ok());
    let mut seen = None;
    conn.close_stream(0, Some(0x10c), None, |flags, id, rx, tx| {
        seen = Some((flags, id, rx, tx));
        0
    })
    .unwrap();
    assert_eq!(seen, Some((STREAM_CLOSE_FLAG_RX_APP_ERROR_CODE_SET, 0, 0x10c, 0)));
    // After the close nothing is accepted any more on the stream.
    assert_eq!(conn.add_ack_offset(0, 1, |_, _| never()).unwrap_err().code(), ERR_INVALID_ARGUMENT);
}

#[test]
fn requests_and_responses_need_the_right_role_and_stream() {
    let mut client = ok_conn(Role::Client);
    let mut state = CallbackState::new(Noop);
    let headers = vec![Header::new(b":method".to_vec(), b"GET".to_vec())];
    // QPACK streams are not bound yet.
    let err = client.submit_request(&mut state, 0, &headers, None, |_, _, _| never()).unwrap_err();
    assert_eq!(err.code(), ERR_INVALID_STATE);
    client.bind_qpack_streams(6, 10, |_, _| 0).unwrap();
    let err = client.submit_response(&mut state, 0, &headers, None, |_, _, _| never()).unwrap_err();
    assert_eq!(err.code(), ERR_INVALID_STATE);
    let err = client.submit_request(&mut state, 2, &headers, None, |_, _, _| never()).unwrap_err();
    assert_eq!(err.code(), ERR_INVALID_ARGUMENT);
    assert!(client
        .submit_request(&mut state, 0, &headers, None, |id, h, has_body| {
            assert_eq!((id, h.len(), has_body), (0, 1, false));
            0
        })
        .is_ok());
    assert!(state.bodies.is_empty());
    assert_eq!(client.submit_trailers(1, &headers, |_, _| never()).unwrap_err().code(), ERR_INVALID_ARGUMENT);
    assert!(client.submit_trailers(0, &headers, |_, _| 0).is_ok());
    assert_eq!(client.submit_info(0, &headers, |_, _| never()).unwrap_err().code(), ERR_INVALID_STATE);

    let mut server = ok_conn(Role::Server);
    server.bind_qpack_streams(7, 11, |_, _| 0).unwrap();
    assert!(server.submit_info(4, &headers, |_, _| 0).is_ok());
    assert!(server
        .submit_response(&mut state, 4, &headers, Some(b"hello".to_vec()), |_, _, has_body| {
            assert!(has_body);
            0
        })
        .is_ok());
    assert_eq!(state.bodies.get(4).map(|b| (b.data.clone(), b.offset)), Some((b"hello".to_vec(), 0)));
}

#[test]
fn a_stream_holds_one_body_at_a_time() {
    let mut state = CallbackState::new(Noop);
    assert!(state.submit_with_body(0, &[], Some(vec![1]), |_, _, _| 0).is_ok());
    let err = state.submit_with_body(0, &[], Some(vec![2]), |_, _, _| never()).unwrap_err();
    assert_eq!(err.code(), ERR_STREAM_IN_USE);
    assert_eq!(state.bodies.get(0).unwrap().data, vec![1]);
    // A failed submission drops the body it brought.
    assert_eq!(state.submit_with_body(4, &[], Some(vec![3]), |_, _, _| -104).unwrap_err().code(), -104);
    assert!(!state.bodies.contains(4));
}

#[test]
fn a_refused_submission_keeps_a_body_submitted_earlier() {
    let mut state = CallbackState::new(Noop);
    state.submit_with_body(0, &[], Some(b"abc".to_vec()), |_, _, _| 0).unwrap();
    assert_eq!(state.read_data(0, true), ReadDataStep::Serve { start: 0, len: 3 });
    // The library may still point into it: a later refused submission on the
    // stream, with no body of its own, leaves it held.
    assert_eq!(state.submit_with_body(0, &[], None, |_, _, _| -1).unwrap_err().code(), -1);
    assert_eq!(state.bodies.get(0).map(|b| (b.data.clone(), b.offset)), Some((b"abc".to_vec(), 3)));
    // So does an accepted one.
    assert!(state.submit_with_body(0, &[], None, |_, _, _| 0).is_ok());
    assert_eq!(state.bodies.len(), 1);
    assert_eq!(state.stream_close(0, 0, 0, 0), 0);
    assert!(state.bodies.is_empty());
}

#[test]
fn a_batch_keeps_at_most_the_segments_asked_for() {
    let mut conn = ok_conn(Role::Client);
    let w = conn
        .next_write(2, |_| (3, 2, 1, vec![vec![1; 4], vec![2; 5], vec![3; 6]]))
        .unwrap()
        .unwrap();
    assert_eq!(w.segments, vec![vec![1; 4], vec![2; 5]]);
    assert!(w.fin);
    assert_eq!(w.len(), 9);
    // Only the kept bytes are offered: ten would be too many.
    assert_eq!(conn.add_write_offset(2, 10, |_, _| never()).unwrap_err().code(), ERR_INVALID_ARGUMENT);
    assert!(conn.add_write_offset(2, 9, |_, _| 0).is_ok());
}

#[test]
fn random_bytes_fill_the_buffer() {
    let mut empty: [u8; 0] = [];
    assert!(fill_random(&mut empty));
    let mut buf = [0u8; 64];
    assert!(fill_random(&mut buf));
    assert!(buf.iter().any(|&b| b != 0));
}

#[test]
fn default_header_flags_are_empty() {
    assert_eq!(HeaderFlags::default().bits(), 0);
    assert_eq!(HeaderFlags::default(), HeaderFlags::none());
}

#[test]
fn bodies_are_served_once_and_kept_until_the_stream_closes() {
    let mut state = CallbackState::new(Noop);
    assert_eq!(state.read_data(0, true), ReadDataStep::Eof);
    state.submit_with_body(0, &[], Some(b"abcdef".to_vec()), |_, _, _| 0).unwrap();
    assert_eq!(state.read_data(0, false), ReadDataStep::Failure);
    assert_eq!(state.read_data(0, true), ReadDataStep::Serve { start: 0, len: 6 });
    assert_eq!(state.read_data(0, true), ReadDataStep::Eof);
    // Acknowledgements leave the body in place.
    assert_eq!(state.acked_stream_data(0, 6), 0);
    assert_eq!(state.bodies.get(0).unwrap().data, b"abcdef".to_vec());
    assert_eq!(state.bodies.get(0).unwrap().offset, 6);
    // Closing another stream does not touch it; closing its stream releases it.
    assert_eq!(state.stream_close(0, 4, 0, 0), 0);
    assert!(state.bodies.contains(0));
    assert_eq!(state.stream_close(STREAM_CLOSE_FLAG_RX_APP_ERROR_CODE_SET, 0, 0x10c, 0), 0);
    assert!(!state.bodies.contains(0));
}

struct Recording {
    closes: Vec<StreamClose>,
}

impl Callbacks for Recording {
    fn stream_close(&mut self, close: StreamClose) -> Result<(), Error> {
        self.closes.push(close);
        if close.stream_id == 8 {
            Err(cvt(ERR_INVALID_STATE).unwrap_err())
        } else {
            Ok(())
        }
    }
}

#[test]
fn stream_close_events_reach_the_handler() {
    let mut state = CallbackState::new(Recording { closes: Vec::new() });
    state.submit_with_body(8, &[], Some(vec![1]), |_, _, _| 0).unwrap();
    assert_eq!(state.stream_close(STREAM_CLOSE_FLAG_TX_APP_ERROR_CODE_SET, 4, 1, 2), 0);
    // A failing handler still releases the body.
    assert_eq!(state.stream_close(3, 8, 5, 6), ERR_CALLBACK_FAILURE);
    assert!(state.bodies.is_empty());
    assert_eq!(
        state.callbacks.closes,
        vec![
            StreamClose { stream_id: 4, rx_app_error_code: None, tx_app_error_code: Some(2) },
            StreamClose { stream_id: 8, rx_app_error_code: Some(5), tx_app_error_code: Some(6) },
        ]
    );
}

#[test]
fn a_failing_acknowledgement_handler_reaches_the_library_as_callback_failure() {
    let mut state = CallbackState::new(Refusing);
    state.submit_with_body(8, &[], Some(vec![1, 2]), |_, _, _| 0).unwrap();
    assert_eq!(state.read_data(8, true), ReadDataStep::Serve { start: 0, len: 2 });
    assert_eq!(state.acked_stream_data(8, 2), ERR_CALLBACK_FAILURE);
    assert_eq!(state.bodies.len(), 1);
}

#[test]
fn only_servers_ask_whether_they_are_drained() {
    let client = ok_conn(Role::Client);
    assert!(!client.is_drained(|| never()));
    let server = ok_conn(Role::Server);
    assert!(server.is_drained(|| 1));
    assert!(!server.is_drained(|| 0));
}

#[test]
fn callback_state_starts_without_bodies() {
    let state: CallbackState<Noop> = CallbackState::new(Noop);
    assert!(state.bodies.is_empty());
    assert_eq!(state.bodies.len(), 0);
    assert!(state.bodies.get(0).is_none());
}
