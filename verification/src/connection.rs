//! The bookkeeping of an HTTP/3 connection: which streams are bound, the
//! write that is offered to the transport, the offsets that the transport
//! accepted and acknowledged, and the request and response bodies that the
//! library reads through callbacks.
//!
//! Every operation that the library itself performs is handed in as a closure
//! (`native`, `bind`, ...), called at most once and only once the arguments
//! passed the checks below; the contracts say what is returned for each value
//! that the closure may return.
use vstd::prelude::*;

use std::collections::HashMap;

use crate::error::{
    callback_return_code, cvt, cvt_ssize, fails_with, Error, ERR_CALLBACK_FAILURE,
    ERR_INVALID_ARGUMENT, ERR_INVALID_STATE, ERR_STREAM_IN_USE,
};
use crate::header::Header;
use crate::settings::{PeerSettings, Settings};
use crate::stream::{
    client_bidi_stream, is_client_bidi_stream, is_local_uni_stream, is_peer_readable_stream,
    local_uni_stream, peer_readable_stream, Role,
};

verus! {

broadcast use vstd::std_specs::hash::group_hash_axioms;

/// Stream-close flag: a receive-side application error code is present.
pub const STREAM_CLOSE_FLAG_RX_APP_ERROR_CODE_SET: u32 = 0x01;

/// Stream-close flag: a send-side application error code is present.
pub const STREAM_CLOSE_FLAG_TX_APP_ERROR_CODE_SET: u32 = 0x02;

/// `r` is what converting the return code `rv` gives.
pub open spec fn converts(rv: i32, r: Result<(), Error>) -> bool {
    if rv == 0 {
        r is Ok
    } else {
        fails_with(r, rv)
    }
}

/// `r` is what converting the signed size `rv` gives.
pub open spec fn converts_size(rv: isize, r: Result<usize, Error>) -> bool {
    if rv < 0 {
        fails_with(r, rv as i32)
    } else {
        r == Ok::<usize, Error>(rv as usize)
    }
}

/// The offset recorded for `stream_id`, zero when none is.
pub open spec fn offset_of(m: Map<i64, u64>, stream_id: i64) -> u64 {
    if m.contains_key(stream_id) {
        m[stream_id]
    } else {
        0
    }
}

/// The segments of a batch that described in at most `max` segments: the
/// first `max` of them.
pub open spec fn kept_segments(segments: Seq<Vec<u8>>, max: usize) -> Seq<Vec<u8>> {
    if segments.len() <= max {
        segments
    } else {
        segments.subrange(0, max as int)
    }
}

/// The total number of bytes in a list of segments.
pub open spec fn total_len(segments: Seq<Vec<u8>>) -> int
    decreases segments.len(),
{
    if segments.len() == 0 {
        0
    } else {
        total_len(segments.drop_last()) + segments.last()@.len()
    }
}

proof fn lemma_total_len_prefix(segments: Seq<Vec<u8>>, i: int, j: int)
    requires
        0 <= i <= j <= segments.len(),
    ensures
        0 <= total_len(segments.take(i)) <= total_len(segments.take(j)),
    decreases j,
{
    if j > 0 {
        assert(segments.take(j).drop_last() =~= segments.take(j - 1));
        if i < j {
            lemma_total_len_prefix(segments, i, j - 1);
        } else {
            lemma_total_len_prefix(segments, j - 1, j - 1);
        }
    } else {
        assert(segments.take(0).len() == 0);
    }
}

/// Sums the lengths of `segments`, or `None` when the sum overflows `usize`.
fn checked_total_len(segments: &Vec<Vec<u8>>) -> (r: Option<usize>)
    ensures
        total_len(segments@) <= usize::MAX ==> r == Some(total_len(segments@) as usize),
        total_len(segments@) > usize::MAX ==> r is None,
{
    let mut total: usize = 0;
    let mut i: usize = 0;
    while i < segments.len()
        invariant
            i <= segments@.len(),
            total == total_len(segments@.take(i as int)),
        decreases segments@.len() - i,
    {
        proof {
            assert(segments@.take(i + 1).drop_last() =~= segments@.take(i as int));
        }
        match total.checked_add(segments[i].len()) {
            Some(t) => {
                total = t;
            },
            None => {
                proof {
                    lemma_total_len_prefix(segments@, i + 1, segments@.len() as int);
                    assert(segments@.take(segments@.len() as int) =~= segments@);
                }
                return None;
            },
        }
        i = i + 1;
    }
    assert(segments@.take(segments@.len() as int) =~= segments@);
    Some(total)
}

/// Details about why a stream was closed.
#[derive(Clone, Copy, Debug, PartialEq, Eq, Structural)]
pub struct StreamClose {
    pub stream_id: i64,
    pub rx_app_error_code: Option<u64>,
    pub tx_app_error_code: Option<u64>,
}

/// The flags that announce which application error codes are present.
pub open spec fn close_flags(rx: Option<u64>, tx: Option<u64>) -> u32 {
    (if rx is Some {
        STREAM_CLOSE_FLAG_RX_APP_ERROR_CODE_SET
    } else {
        0u32
    }) | (if tx is Some {
        STREAM_CLOSE_FLAG_TX_APP_ERROR_CODE_SET
    } else {
        0u32
    })
}

/// An application error code, or zero when there is none.
pub open spec fn code_or_zero(code: Option<u64>) -> u64 {
    match code {
        Some(c) => c,
        None => 0,
    }
}

/// The close event for the flags and codes that the library reports: an
/// error code is present exactly when its flag bit is set.
pub open spec fn close_event(
    flags: u32,
    stream_id: i64,
    rx_app_error_code: u64,
    tx_app_error_code: u64,
) -> StreamClose {
    StreamClose {
        stream_id,
        rx_app_error_code: if flags & STREAM_CLOSE_FLAG_RX_APP_ERROR_CODE_SET != 0 {
            Some(rx_app_error_code)
        } else {
            None
        },
        tx_app_error_code: if flags & STREAM_CLOSE_FLAG_TX_APP_ERROR_CODE_SET != 0 {
            Some(tx_app_error_code)
        } else {
            None
        },
    }
}

/// What the library is told of a handler's outcome: 0 when it accepted the
/// event, `ERR_CALLBACK_FAILURE` for any failure.
pub open spec fn outcome_code(res: Result<(), Error>) -> i32 {
    if res is Ok {
        0
    } else {
        ERR_CALLBACK_FAILURE
    }
}

impl StreamClose {
    /// The close event that the library reports: an error code is present
    /// exactly when its flag bit is set.
    pub fn from_flags(
        flags: u32,
        stream_id: i64,
        rx_app_error_code: u64,
        tx_app_error_code: u64,
    ) -> (r: Self)
        ensures
            r.stream_id == stream_id,
            r.rx_app_error_code == (if flags & STREAM_CLOSE_FLAG_RX_APP_ERROR_CODE_SET != 0 {
                Some(rx_app_error_code)
            } else {
                None
            }),
            r.tx_app_error_code == (if flags & STREAM_CLOSE_FLAG_TX_APP_ERROR_CODE_SET != 0 {
                Some(tx_app_error_code)
            } else {
                None
            }),
            r == close_event(flags, stream_id, rx_app_error_code, tx_app_error_code),
    {
        let rx = if flags & STREAM_CLOSE_FLAG_RX_APP_ERROR_CODE_SET != 0 {
            Some(rx_app_error_code)
        } else {
            None
        };
        let tx = if flags & STREAM_CLOSE_FLAG_TX_APP_ERROR_CODE_SET != 0 {
            Some(tx_app_error_code)
        } else {
            None
        };
        StreamClose { stream_id, rx_app_error_code: rx, tx_app_error_code: tx }
    }
}

/// The flags and codes with which a stream is closed: each code that is given
/// is passed with its flag bit set, each code that is not is passed as zero.
pub fn stream_close_arguments(rx_app_error_code: Option<u64>, tx_app_error_code: Option<u64>) -> (r: (
    u32,
    u64,
    u64,
))
    ensures
        r == (
            close_flags(rx_app_error_code, tx_app_error_code),
            code_or_zero(rx_app_error_code),
            code_or_zero(tx_app_error_code),
        ),
{
    let rx_bit: u32 = if rx_app_error_code.is_some() {
        STREAM_CLOSE_FLAG_RX_APP_ERROR_CODE_SET
    } else {
        0
    };
    let tx_bit: u32 = if tx_app_error_code.is_some() {
        STREAM_CLOSE_FLAG_TX_APP_ERROR_CODE_SET
    } else {
        0
    };
    let flags = rx_bit | tx_bit;
    let rx = match rx_app_error_code {
        Some(code) => code,
        None => 0,
    };
    let tx = match tx_app_error_code {
        Some(code) => code,
        None => 0,
    };
    (flags, rx, tx)
}

/// Closing a stream with given codes and reading the close event back gives
/// the same codes: the flags lose nothing.
pub proof fn lemma_close_flags_roundtrip(
    stream_id: i64,
    rx_app_error_code: Option<u64>,
    tx_app_error_code: Option<u64>,
)
    ensures
        ({
            let flags = close_flags(rx_app_error_code, tx_app_error_code);
            &&& (flags & STREAM_CLOSE_FLAG_RX_APP_ERROR_CODE_SET != 0) == rx_app_error_code is Some
            &&& (flags & STREAM_CLOSE_FLAG_TX_APP_ERROR_CODE_SET != 0) == tx_app_error_code is Some
        }),
{
    assert((0u32 | 0u32) & 1u32 == 0u32) by (bit_vector);
    assert((0u32 | 0u32) & 2u32 == 0u32) by (bit_vector);
    assert((1u32 | 0u32) & 1u32 != 0u32) by (bit_vector);
    assert((1u32 | 0u32) & 2u32 == 0u32) by (bit_vector);
    assert((0u32 | 2u32) & 1u32 == 0u32) by (bit_vector);
    assert((0u32 | 2u32) & 2u32 != 0u32) by (bit_vector);
    assert((1u32 | 2u32) & 1u32 != 0u32) by (bit_vector);
    assert((1u32 | 2u32) & 2u32 != 0u32) by (bit_vector);
}

/// Callback interface invoked synchronously by nghttp3.
///
/// Every method has a default that accepts the event and leaves the handler
/// as it is. A failure that a method returns reaches the library as
/// `ERR_CALLBACK_FAILURE`.
pub trait Callbacks: Sized {
    fn acked_stream_data(&mut self, _stream_id: i64, _datalen: u64) -> (r: Result<(), Error>)
        default_ensures
            r == Ok::<(), Error>(()),
            *final(self) == *old(self),
    {
        Ok(())
    }

    fn stream_close(&mut self, _close: StreamClose) -> (r: Result<(), Error>)
        default_ensures
            r == Ok::<(), Error>(()),
            *final(self) == *old(self),
    {
        Ok(())
    }

    fn recv_data(&mut self, _stream_id: i64, _data: &[u8]) -> (r: Result<(), Error>)
        default_ensures
            r == Ok::<(), Error>(()),
            *final(self) == *old(self),
    {
        Ok(())
    }

    fn deferred_consume(&mut self, _stream_id: i64, _consumed: usize) -> (r: Result<(), Error>)
        default_ensures
            r == Ok::<(), Error>(()),
            *final(self) == *old(self),
    {
        Ok(())
    }

    fn begin_headers(&mut self, _stream_id: i64) -> (r: Result<(), Error>)
        default_ensures
            r == Ok::<(), Error>(()),
            *final(self) == *old(self),
    {
        Ok(())
    }

    fn recv_header(
        &mut self,
        _stream_id: i64,
        _token: i32,
        _name: &[u8],
        _value: &[u8],
        _flags: u8,
    ) -> (r: Result<(), Error>)
        default_ensures
            r == Ok::<(), Error>(()),
            *final(self) == *old(self),
    {
        Ok(())
    }

    fn end_headers(&mut self, _stream_id: i64, _fin: bool) -> (r: Result<(), Error>)
        default_ensures
            r == Ok::<(), Error>(()),
            *final(self) == *old(self),
    {
        Ok(())
    }

    fn begin_trailers(&mut self, _stream_id: i64) -> (r: Result<(), Error>)
        default_ensures
            r == Ok::<(), Error>(()),
            *final(self) == *old(self),
    {
        Ok(())
    }

    fn recv_trailer(
        &mut self,
        _stream_id: i64,
        _token: i32,
        _name: &[u8],
        _value: &[u8],
        _flags: u8,
    ) -> (r: Result<(), Error>)
        default_ensures
            r == Ok::<(), Error>(()),
            *final(self) == *old(self),
    {
        Ok(())
    }

    fn end_trailers(&mut self, _stream_id: i64, _fin: bool) -> (r: Result<(), Error>)
        default_ensures
            r == Ok::<(), Error>(()),
            *final(self) == *old(self),
    {
        Ok(())
    }

    fn stop_sending(&mut self, _stream_id: i64, _app_error_code: u64) -> (r: Result<(), Error>)
        default_ensures
            r == Ok::<(), Error>(()),
            *final(self) == *old(self),
    {
        Ok(())
    }

    fn end_stream(&mut self, _stream_id: i64) -> (r: Result<(), Error>)
        default_ensures
            r == Ok::<(), Error>(()),
            *final(self) == *old(self),
    {
        Ok(())
    }

    fn reset_stream(&mut self, _stream_id: i64, _app_error_code: u64) -> (r: Result<(), Error>)
        default_ensures
            r == Ok::<(), Error>(()),
            *final(self) == *old(self),
    {
        Ok(())
    }

    fn shutdown(&mut self, _id: i64) -> (r: Result<(), Error>)
        default_ensures
            r == Ok::<(), Error>(()),
            *final(self) == *old(self),
    {
        Ok(())
    }

    fn recv_settings(&mut self, _settings: PeerSettings) -> (r: Result<(), Error>)
        default_ensures
            r == Ok::<(), Error>(()),
            *final(self) == *old(self),
    {
        Ok(())
    }

    fn recv_origin(&mut self, _origin: &[u8]) -> (r: Result<(), Error>)
        default_ensures
            r == Ok::<(), Error>(()),
            *final(self) == *old(self),
    {
        Ok(())
    }

    fn end_origin(&mut self) -> (r: Result<(), Error>)
        default_ensures
            r == Ok::<(), Error>(()),
            *final(self) == *old(self),
    {
        Ok(())
    }
}

/// A submitted body: its bytes, and how many of them were handed to the
/// library. It is kept until its stream closes.
pub struct BodyState {
    pub data: Vec<u8>,
    pub offset: usize,
}

/// What the library's request for body bytes is answered with.
#[derive(Clone, Copy, Debug, PartialEq, Eq, Structural)]
pub enum ReadDataStep {
    /// The body is complete: no more bytes, end of data.
    Eof,
    /// The library offered no slot to describe the bytes in.
    Failure,
    /// The bytes `start..start + len` of the body, which ends after them.
    Serve { start: usize, len: usize },
}

/// Every body's count of handed-out bytes lies within its bytes.
pub open spec fn offsets_within(bodies: Map<i64, BodyState>) -> bool {
    forall|id: i64| #[trigger]
        bodies.contains_key(id) ==> bodies[id].offset <= bodies[id].data@.len()
}

/// The submitted bodies, per stream. No body counts more bytes as handed
/// out than it has.
pub struct Bodies {
    map: HashMap<i64, BodyState>,
}

impl View for Bodies {
    type V = Map<i64, BodyState>;

    closed spec fn view(&self) -> Map<i64, BodyState> {
        self.map@
    }
}

impl Bodies {
    #[verifier::type_invariant]
    spec fn well_formed(self) -> bool {
        offsets_within(self.map@)
    }

    /// No body.
    pub fn new() -> (r: Self)
        ensures
            r@ == Map::<i64, BodyState>::empty(),
    {
        Bodies { map: HashMap::new() }
    }

    /// The body held for `stream_id`, if any.
    pub fn get(&self, stream_id: i64) -> (r: Option<&BodyState>)
        ensures
            self@.contains_key(stream_id) ==> r == Some(&self@[stream_id]),
            !self@.contains_key(stream_id) ==> r is None,
    {
        self.map.get(&stream_id)
    }

    /// Whether a body is held for `stream_id`.
    pub fn contains(&self, stream_id: i64) -> (r: bool)
        ensures
            r == self@.contains_key(stream_id),
    {
        self.map.contains_key(&stream_id)
    }

    /// The number of bodies held.
    pub fn len(&self) -> (r: usize)
        ensures
            r == self@.len(),
    {
        self.map.len()
    }

    /// Whether no body is held.
    pub fn is_empty(&self) -> (r: bool)
        ensures
            r == (self@.len() == 0),
    {
        self.map.len() == 0
    }

    /// Holds `data` for `stream_id`, none of it handed out yet.
    fn insert_fresh(&mut self, stream_id: i64, data: Vec<u8>)
        ensures
            final(self)@ == old(self)@.insert(stream_id, BodyState { data, offset: 0 }),
    {
        proof {
            use_type_invariant(&*self);
        }
        let mut map = HashMap::new();
        std::mem::swap(&mut map, &mut self.map);
        map.insert(stream_id, BodyState { data, offset: 0 });
        self.map = map;
    }

    /// Drops the body of `stream_id`, if any.
    fn remove(&mut self, stream_id: i64)
        ensures
            final(self)@ == old(self)@.remove(stream_id),
    {
        proof {
            use_type_invariant(&*self);
        }
        let mut map = HashMap::new();
        std::mem::swap(&mut map, &mut self.map);
        map.remove(&stream_id);
        self.map = map;
    }

    /// Hands out what is left of the body of `stream_id`; see
    /// `CallbackState::read_data`.
    fn hand_out(&mut self, stream_id: i64, slot_available: bool) -> (r: ReadDataStep)
        ensures
            !old(self)@.contains_key(stream_id) ==> r == ReadDataStep::Eof && final(self)@ == old(
                self,
            )@,
            old(self)@.contains_key(stream_id) ==> ({
                let body = old(self)@[stream_id];
                if body.offset == body.data@.len() {
                    r == ReadDataStep::Eof && final(self)@ == old(self)@
                } else if !slot_available {
                    r == ReadDataStep::Failure && final(self)@ == old(self)@
                } else {
                    &&& body.offset < body.data@.len()
                    &&& r == (ReadDataStep::Serve {
                        start: body.offset,
                        len: (body.data@.len() - body.offset) as usize,
                    })
                    &&& final(self)@ == old(self)@.insert(
                        stream_id,
                        BodyState { data: body.data, offset: body.data@.len() as usize },
                    )
                }
            }),
    {
        proof {
            use_type_invariant(&*self);
        }
        let mut map = HashMap::new();
        std::mem::swap(&mut map, &mut self.map);
        let step = match map.remove(&stream_id) {
            None => ReadDataStep::Eof,
            Some(body) => {
                let len = body.data.len();
                let offset = body.offset;
                if offset == len {
                    map.insert(stream_id, body);
                    ReadDataStep::Eof
                } else if !slot_available {
                    map.insert(stream_id, body);
                    ReadDataStep::Failure
                } else {
                    map.insert(stream_id, BodyState { data: body.data, offset: len });
                    ReadDataStep::Serve { start: offset, len: len - offset }
                }
            },
        };
        self.map = map;
        step
    }
}

/// The application's callbacks, and the bodies whose bytes the library reads
/// through them.
pub struct CallbackState<C> {
    pub callbacks: C,
    pub bodies: Bodies,
}

impl<C: Callbacks> CallbackState<C> {
    /// No body is held.
    pub fn new(callbacks: C) -> (r: Self)
        ensures
            r.callbacks == callbacks,
            r.bodies@ == Map::<i64, BodyState>::empty(),
    {
        CallbackState { callbacks, bodies: Bodies::new() }
    }

    /// Records the body of a request or response before it is submitted.
    ///
    /// A body for a stream that already holds one is refused with
    /// `ERR_STREAM_IN_USE`. Otherwise the body, if any, is kept from its first
    /// byte, and `submit` is called with the stream, the headers and whether
    /// there is a body. When it fails, only the body that this call added is
    /// dropped: a body submitted earlier on the stream stays held until the
    /// stream closes.
    pub fn submit_with_body<F: FnOnce(i64, &[Header], bool) -> i32>(
        &mut self,
        stream_id: i64,
        headers: &[Header],
        body: Option<Vec<u8>>,
        submit: F,
    ) -> (r: Result<(), Error>)
        requires
            submit.requires((stream_id, headers, body is Some)),
        ensures
            submitted_with_body(*old(self), *final(self), stream_id, headers, body, submit, r),
    {
        let has_body = body.is_some();
        if has_body && self.bodies.contains(stream_id) {
            return Err(Error::new(ERR_STREAM_IN_USE));
        }
        match body {
            Some(data) => {
                self.bodies.insert_fresh(stream_id, data);
            },
            None => {},
        }
        let rv = submit(stream_id, headers, has_body);
        if rv != 0 && has_body {
            self.bodies.remove(stream_id);
        }
        assert(self.bodies@ == (if rv == 0 && body is Some {
            old(self).bodies@.insert(stream_id, BodyState { data: body->Some_0, offset: 0 })
        } else {
            old(self).bodies@
        }));
        cvt(rv)
    }

    /// The library acknowledged `datalen` body bytes of `stream_id`.
    ///
    /// The application's handler sees the event; bodies stay as they are, as
    /// the library may still hold pointers into them until the stream closes.
    pub fn acked_stream_data(&mut self, stream_id: i64, datalen: u64) -> (r: i32)
        ensures
            r == 0 || r == ERR_CALLBACK_FAILURE,
            final(self).bodies@ == old(self).bodies@,
            // The handler is called on the callbacks as they were, with the
            // stream and byte count that the library reported; the callbacks
            // become what it left, and its outcome is what the library is told.
            exists|m: &mut C, res: Result<(), Error>|
                *m == old(self).callbacks && *final(m) == final(self).callbacks && call_ensures(
                    C::acked_stream_data,
                    (m, stream_id, datalen),
                    res,
                ) && r == outcome_code(res),
    {
        let result = self.callbacks.acked_stream_data(stream_id, datalen);
        callback_return_code(result)
    }

    /// The library closed `stream_id`; `flags` tell which of the two
    /// application error codes are present.
    ///
    /// The application's handler sees the close event, and the stream's body,
    /// if any, is released whatever the handler returns.
    pub fn stream_close(
        &mut self,
        flags: u32,
        stream_id: i64,
        rx_app_error_code: u64,
        tx_app_error_code: u64,
    ) -> (r: i32)
        ensures
            r == 0 || r == ERR_CALLBACK_FAILURE,
            final(self).bodies@ == old(self).bodies@.remove(stream_id),
            // The handler is called on the callbacks as they were, with the
            // close event that the flags and codes describe; the callbacks
            // become what it left, and its outcome is what the library is told.
            exists|m: &mut C, res: Result<(), Error>|
                *m == old(self).callbacks && *final(m) == final(self).callbacks && call_ensures(
                    C::stream_close,
                    (m, close_event(flags, stream_id, rx_app_error_code, tx_app_error_code)),
                    res,
                ) && r == outcome_code(res),
    {
        let close = StreamClose::from_flags(flags, stream_id, rx_app_error_code, tx_app_error_code);
        let result = self.callbacks.stream_close(close);
        self.bodies.remove(stream_id);
        callback_return_code(result)
    }

    /// The library asks for more body bytes of `stream_id`; `slot_available`
    /// tells whether it offered room to describe them.
    ///
    /// Without a body, or once all of it was handed out, the answer is the end
    /// of data. Otherwise all the bytes not yet handed out are, at once, and the
    /// body then counts them all as held by the library.
    pub fn read_data(&mut self, stream_id: i64, slot_available: bool) -> (r: ReadDataStep)
        ensures
            final(self).callbacks == old(self).callbacks,
            !old(self).bodies@.contains_key(stream_id) ==> r == ReadDataStep::Eof
                && final(self).bodies@ == old(self).bodies@,
            old(self).bodies@.contains_key(stream_id) ==> ({
                let body = old(self).bodies@[stream_id];
                if body.offset == body.data@.len() {
                    r == ReadDataStep::Eof && final(self).bodies@ == old(self).bodies@
                } else if !slot_available {
                    r == ReadDataStep::Failure && final(self).bodies@ == old(self).bodies@
                } else {
                    &&& body.offset < body.data@.len()
                    &&& r == (ReadDataStep::Serve {
                        start: body.offset,
                        len: (body.data@.len() - body.offset) as usize,
                    })
                    &&& final(self).bodies@ == old(self).bodies@.insert(
                        stream_id,
                        BodyState { data: body.data, offset: body.data@.len() as usize },
                    )
                }
            }),
    {
        self.bodies.hand_out(stream_id, slot_available)
    }
}

/// One batch of bytes that nghttp3 wants the QUIC transport to send.
#[derive(Clone, Debug, PartialEq, Eq)]
pub struct WriteData {
    pub stream_id: i64,
    pub fin: bool,
    pub segments: Vec<Vec<u8>>,
}

impl WriteData {
    /// The number of bytes in all segments.
    pub fn len(&self) -> (r: usize)
        requires
            total_len(self.segments@) <= usize::MAX,
        ensures
            r == total_len(self.segments@),
    {
        proof {
            lemma_total_len_prefix(self.segments@, 0, self.segments@.len() as int);
            assert(self.segments@.take(self.segments@.len() as int) =~= self.segments@);
        }
        match checked_total_len(&self.segments) {
            Some(total) => total,
            None => 0,
        }
    }

    /// Whether the segments hold no byte.
    pub fn is_empty(&self) -> (r: bool)
        requires
            total_len(self.segments@) <= usize::MAX,
        ensures
            r == (total_len(self.segments@) == 0),
    {
        self.len() == 0
    }
}

/// The abstract state of a connection.
pub ghost struct ConnectionView {
    pub role: Role,
    pub control_bound: bool,
    pub qpack_bound: bool,
    /// The last timestamp handed to the library with stream data.
    pub last_timestamp_ns: Option<u64>,
    /// The write offered to the transport and not yet accepted: its stream and
    /// its number of bytes.
    pub pending_write: Option<(i64, usize)>,
    /// Per stream, the bytes that the transport accepted.
    pub sent: Map<i64, u64>,
    /// Per stream, the bytes that the peer acknowledged.
    pub acked: Map<i64, u64>,
}

impl ConnectionView {
    /// No stream has more bytes acknowledged than accepted.
    pub open spec fn acks_within_sent(self) -> bool {
        forall|s: i64| #[trigger] offset_of(self.acked, s) <= offset_of(self.sent, s)
    }

    /// The state of a connection that was just created.
    pub open spec fn fresh(role: Role) -> ConnectionView {
        ConnectionView {
            role,
            control_bound: false,
            qpack_bound: false,
            last_timestamp_ns: None,
            pending_write: None,
            sent: Map::empty(),
            acked: Map::empty(),
        }
    }
}

/// An HTTP/3 connection's own state, beside the library's.
#[derive(Debug)]
pub struct Connection {
    role: Role,
    control_bound: bool,
    qpack_bound: bool,
    last_timestamp_ns: Option<u64>,
    pending_write: Option<(i64, usize)>,
    sent_offsets: HashMap<i64, u64>,
    ack_offsets: HashMap<i64, u64>,
}

impl View for Connection {
    type V = ConnectionView;

    closed spec fn view(&self) -> ConnectionView {
        ConnectionView {
            role: self.role,
            control_bound: self.control_bound,
            qpack_bound: self.qpack_bound,
            last_timestamp_ns: self.last_timestamp_ns,
            pending_write: self.pending_write,
            sent: self.sent_offsets@,
            acked: self.ack_offsets@,
        }
    }
}

fn offset_in(m: &HashMap<i64, u64>, stream_id: i64) -> (r: u64)
    ensures
        r == offset_of(m@, stream_id),
{
    match m.get(&stream_id) {
        Some(v) => *v,
        None => 0,
    }
}

impl Connection {
    /// Creates a connection for `role`; `create` makes the library's side of
    /// it from the role and the settings.
    pub fn new<F: FnOnce(Role, &Settings) -> i32>(role: Role, settings: &Settings, create: F) -> (r:
        Result<Connection, Error>)
        requires
            create.requires((role, settings)),
        ensures
            exists|rv: i32|
                #[trigger] create.ensures((role, settings), rv) && (if rv == 0 {
                    r is Ok && r->Ok_0@ == ConnectionView::fresh(role)
                } else {
                    fails_with(r, rv)
                }),
            r is Ok ==> r->Ok_0@.acks_within_sent(),
    {
        let rv = create(role, settings);
        if rv != 0 {
            return Err(Error::new(rv));
        }
        Ok(
            Connection {
                role,
                control_bound: false,
                qpack_bound: false,
                last_timestamp_ns: None,
                pending_write: None,
                sent_offsets: HashMap::new(),
                ack_offsets: HashMap::new(),
            },
        )
    }

    pub fn role(&self) -> (r: Role)
        ensures
            r == self@.role,
    {
        self.role
    }

    /// Binds the control stream, which must be a unidirectional stream of
    /// this endpoint (else `ERR_INVALID_ARGUMENT`).
    pub fn bind_control_stream<F: FnOnce(i64) -> i32>(&mut self, stream_id: i64, bind: F) -> (r:
        Result<(), Error>)
        requires
            bind.requires((stream_id,)),
        ensures
            !local_uni_stream(old(self)@.role, stream_id) ==> fails_with(r, ERR_INVALID_ARGUMENT),
            local_uni_stream(old(self)@.role, stream_id) ==> exists|rv: i32|
                #[trigger] bind.ensures((stream_id,), rv) && converts(rv, r),
            final(self)@ == (if r is Ok {
                ConnectionView { control_bound: true, ..old(self)@ }
            } else {
                old(self)@
            }),
    {
        if !is_local_uni_stream(self.role, stream_id) {
            return Err(Error::new(ERR_INVALID_ARGUMENT));
        }
        let rv = bind(stream_id);
        let r = cvt(rv);
        if r.is_ok() {
            self.control_bound = true;
        }
        r
    }

    /// Binds the QPACK encoder and decoder streams: two distinct
    /// unidirectional streams of this endpoint (else `ERR_INVALID_ARGUMENT`).
    pub fn bind_qpack_streams<F: FnOnce(i64, i64) -> i32>(
        &mut self,
        encoder_stream_id: i64,
        decoder_stream_id: i64,
        bind: F,
    ) -> (r: Result<(), Error>)
        requires
            bind.requires((encoder_stream_id, decoder_stream_id)),
        ensures
            ({
                let ok_ids = local_uni_stream(old(self)@.role, encoder_stream_id) && local_uni_stream(
                    old(self)@.role,
                    decoder_stream_id,
                ) && encoder_stream_id != decoder_stream_id;
                &&& !ok_ids ==> fails_with(r, ERR_INVALID_ARGUMENT)
                &&& ok_ids ==> exists|rv: i32|
                    #[trigger] bind.ensures((encoder_stream_id, decoder_stream_id), rv) && converts(
                        rv,
                        r,
                    )
            }),
            final(self)@ == (if r is Ok {
                ConnectionView { qpack_bound: true, ..old(self)@ }
            } else {
                old(self)@
            }),
    {
        if !is_local_uni_stream(self.role, encoder_stream_id) || !is_local_uni_stream(
            self.role,
            decoder_stream_id,
        ) || encoder_stream_id == decoder_stream_id {
            return Err(Error::new(ERR_INVALID_ARGUMENT));
        }
        let rv = bind(encoder_stream_id, decoder_stream_id);
        let r = cvt(rv);
        if r.is_ok() {
            self.qpack_bound = true;
        }
        r
    }

    /// Hands stream data received from the peer to the library.
    ///
    /// Refused with `ERR_INVALID_ARGUMENT`: a stream this endpoint does not
    /// read from, the timestamp `u64::MAX`, or a timestamp older than the last
    /// one handed over. Otherwise the timestamp becomes the last one, whatever
    /// `read` returns, and the result is the number of bytes it consumed.
    pub fn read_stream<F: FnOnce(i64, &[u8], bool, u64) -> isize>(
        &mut self,
        stream_id: i64,
        data: &[u8],
        fin: bool,
        timestamp_ns: u64,
        read: F,
    ) -> (r: Result<usize, Error>)
        requires
            read.requires((stream_id, data, fin, timestamp_ns)),
        ensures
            ({
                let refused = !peer_readable_stream(old(self)@.role, stream_id) || timestamp_ns
                    == u64::MAX || (old(self)@.last_timestamp_ns matches Some(previous)
                    && timestamp_ns < previous);
                &&& refused ==> fails_with(r, ERR_INVALID_ARGUMENT) && final(self)@ == old(self)@
                &&& !refused ==> final(self)@ == (ConnectionView {
                    last_timestamp_ns: Some(timestamp_ns),
                    ..old(self)@
                }) && exists|rv: isize|
                    #[trigger] read.ensures((stream_id, data, fin, timestamp_ns), rv)
                        && converts_size(rv, r)
            }),
    {
        let too_old = match self.last_timestamp_ns {
            Some(previous) => timestamp_ns < previous,
            None => false,
        };
        if !is_peer_readable_stream(self.role, stream_id) || timestamp_ns == u64::MAX || too_old {
            return Err(Error::new(ERR_INVALID_ARGUMENT));
        }
        self.last_timestamp_ns = Some(timestamp_ns);
        let rv = read(stream_id, data, fin, timestamp_ns);
        cvt_ssize(rv)
    }

    /// Asks the library for the next batch of bytes to send, described in at
    /// most `max_segments` segments.
    ///
    /// With no segment allowed there is nothing to ask. While an earlier batch
    /// is not yet accepted, the request is refused with `ERR_INVALID_STATE`.
    /// Otherwise `writev` returns the library's count (negative on error), the
    /// stream (`-1` when there is nothing to send), the fin flag and the copied
    /// segments, of which at most the first `max_segments` are kept; a batch
    /// whose size overflows `usize` is refused with `ERR_INVALID_STATE`, and any
    /// other batch becomes the pending write.
    pub fn next_write<F: FnOnce(usize) -> (isize, i64, i32, Vec<Vec<u8>>)>(
        &mut self,
        max_segments: usize,
        writev: F,
    ) -> (r: Result<Option<WriteData>, Error>)
        requires
            writev.requires((max_segments,)),
        ensures
            max_segments == 0 ==> r == Ok::<Option<WriteData>, Error>(None) && final(self)@ == old(self)@,
            max_segments > 0 && old(self)@.pending_write is Some ==> fails_with(
                r,
                ERR_INVALID_STATE,
            ) && final(self)@ == old(self)@,
            max_segments > 0 && old(self)@.pending_write is None ==> exists|
                out: (isize, i64, i32, Vec<Vec<u8>>),
            |
                #[trigger] writev.ensures((max_segments,), out) && (if out.0 < 0 {
                    fails_with(r, out.0 as i32) && final(self)@ == old(self)@
                } else if out.1 == -1 {
                    r == Ok::<Option<WriteData>, Error>(None) && final(self)@ == old(self)@
                } else if total_len(kept_segments(out.3@, max_segments)) > usize::MAX {
                    fails_with(r, ERR_INVALID_STATE) && final(self)@ == old(self)@
                } else {
                    &&& r matches Ok(Some(w)) && w.stream_id == out.1 && w.fin == (out.2 != 0)
                        && w.segments@ == kept_segments(out.3@, max_segments)
                    &&& final(self)@ == (ConnectionView {
                        pending_write: Some(
                            (out.1, total_len(kept_segments(out.3@, max_segments)) as usize),
                        ),
                        ..old(self)@
                    })
                }),
            r matches Ok(Some(w)) ==> w.segments@.len() <= max_segments,
    {
        if max_segments == 0 {
            return Ok(None);
        }
        if self.pending_write.is_some() {
            return Err(Error::new(ERR_INVALID_STATE));
        }
        let out = writev(max_segments);
        let ghost out_copy = out;
        let (count, stream_id, fin, mut segments) = out;
        match cvt_ssize(count) {
            Err(e) => {
                return Err(e);
            },
            Ok(_) => {},
        }
        if stream_id == -1 {
            return Ok(None);
        }
        segments.truncate(max_segments);
        assert(segments@ == kept_segments(out_copy.3@, max_segments));
        let offered = match checked_total_len(&segments) {
            Some(total) => total,
            None => {
                return Err(Error::new(ERR_INVALID_STATE));
            },
        };
        self.pending_write = Some((stream_id, offered));
        Ok(Some(WriteData { stream_id, fin: fin != 0, segments }))
    }

    /// Records that the transport accepted `accepted` bytes of the pending
    /// write.
    ///
    /// Without a pending write: `ERR_INVALID_STATE`. For another stream, more
    /// bytes than offered, or an offset that would overflow:
    /// `ERR_INVALID_ARGUMENT`. Otherwise, when `native` succeeds, the stream's
    /// accepted offset grows by `accepted` and no write is pending any more.
    pub fn add_write_offset<F: FnOnce(i64, usize) -> i32>(
        &mut self,
        stream_id: i64,
        accepted: usize,
        native: F,
    ) -> (r: Result<(), Error>)
        requires
            native.requires((stream_id, accepted)),
        ensures
            old(self)@.pending_write is None ==> fails_with(r, ERR_INVALID_STATE) && final(self)@
                == old(self)@,
            old(self)@.pending_write matches Some(p) && (stream_id != p.0 || accepted > p.1)
                ==> fails_with(r, ERR_INVALID_ARGUMENT) && final(self)@ == old(self)@,
            old(self)@.pending_write matches Some(p) && stream_id == p.0 && accepted <= p.1 && offset_of(
                old(self)@.sent,
                stream_id,
            ) + accepted > u64::MAX ==> fails_with(r, ERR_INVALID_ARGUMENT) && final(self)@ == old(self)@,
            old(self)@.pending_write matches Some(p) && stream_id == p.0 && accepted <= p.1 && offset_of(
                old(self)@.sent,
                stream_id,
            ) + accepted <= u64::MAX ==> exists|rv: i32|
                #[trigger] native.ensures((stream_id, accepted), rv) && converts(rv, r) && final(self)@ == (if rv == 0 {
                    ConnectionView {
                        sent: old(self)@.sent.insert(
                            stream_id,
                            (offset_of(old(self)@.sent, stream_id) + accepted) as u64,
                        ),
                        pending_write: None,
                        ..old(self)@
                    }
                } else {
                    old(self)@
                }),
            old(self)@.acks_within_sent() ==> final(self)@.acks_within_sent(),
    {
        let (offered_stream_id, offered) = match self.pending_write {
            Some(p) => p,
            None => {
                return Err(Error::new(ERR_INVALID_STATE));
            },
        };
        if stream_id != offered_stream_id || accepted > offered {
            return Err(Error::new(ERR_INVALID_ARGUMENT));
        }
        let current = offset_in(&self.sent_offsets, stream_id);
        let next = match current.checked_add(accepted as u64) {
            Some(n) => n,
            None => {
                return Err(Error::new(ERR_INVALID_ARGUMENT));
            },
        };
        let rv = native(stream_id, accepted);
        if rv != 0 {
            return Err(Error::new(rv));
        }
        self.sent_offsets.insert(stream_id, next);
        self.pending_write = None;
        proof {
            assert forall|t: i64| old(self)@.acks_within_sent() implies #[trigger] offset_of(
                self@.acked,
                t,
            ) <= offset_of(self@.sent, t) by {
                assert(offset_of(old(self)@.acked, t) <= offset_of(old(self)@.sent, t));
            }
        }
        Ok(())
    }

    /// Records that the peer acknowledged `acknowledged` more bytes of
    /// `stream_id`; the acknowledged offset may not pass the accepted one
    /// (else `ERR_INVALID_ARGUMENT`).
    pub fn add_ack_offset<F: FnOnce(i64, u64) -> i32>(
        &mut self,
        stream_id: i64,
        acknowledged: u64,
        native: F,
    ) -> (r: Result<(), Error>)
        requires
            native.requires((stream_id, acknowledged)),
        ensures
            ({
                let next = offset_of(old(self)@.acked, stream_id) + acknowledged;
                &&& next > offset_of(old(self)@.sent, stream_id) ==> fails_with(
                    r,
                    ERR_INVALID_ARGUMENT,
                ) && final(self)@ == old(self)@
                &&& next <= offset_of(old(self)@.sent, stream_id) ==> exists|rv: i32|
                    #[trigger] native.ensures((stream_id, acknowledged), rv) && converts(rv, r)
                        && final(self)@ == (if rv == 0 {
                        ConnectionView {
                            acked: old(self)@.acked.insert(stream_id, next as u64),
                            ..old(self)@
                        }
                    } else {
                        old(self)@
                    })
            }),
            old(self)@.acks_within_sent() ==> final(self)@.acks_within_sent(),
    {
        let sent = offset_in(&self.sent_offsets, stream_id);
        let current = offset_in(&self.ack_offsets, stream_id);
        let next = match current.checked_add(acknowledged) {
            Some(n) => n,
            None => {
                return Err(Error::new(ERR_INVALID_ARGUMENT));
            },
        };
        if next > sent {
            return Err(Error::new(ERR_INVALID_ARGUMENT));
        }
        let rv = native(stream_id, acknowledged);
        if rv != 0 {
            return Err(Error::new(rv));
        }
        self.ack_offsets.insert(stream_id, next);
        proof {
            assert forall|t: i64| old(self)@.acks_within_sent() implies #[trigger] offset_of(
                self@.acked,
                t,
            ) <= offset_of(self@.sent, t) by {
                assert(offset_of(old(self)@.acked, t) <= offset_of(old(self)@.sent, t));
            }
        }
        Ok(())
    }

    /// Sets the acknowledged offset of `stream_id` to `offset`, which may
    /// neither go back nor pass the accepted offset (else
    /// `ERR_INVALID_ARGUMENT`).
    pub fn update_ack_offset<F: FnOnce(i64, u64) -> i32>(
        &mut self,
        stream_id: i64,
        offset: u64,
        native: F,
    ) -> (r: Result<(), Error>)
        requires
            native.requires((stream_id, offset)),
        ensures
            offset < offset_of(old(self)@.acked, stream_id) || offset > offset_of(
                old(self)@.sent,
                stream_id,
            ) ==> fails_with(r, ERR_INVALID_ARGUMENT) && final(self)@ == old(self)@,
            offset_of(old(self)@.acked, stream_id) <= offset <= offset_of(old(self)@.sent, stream_id)
                ==> exists|rv: i32|
                #[trigger] native.ensures((stream_id, offset), rv) && converts(rv, r) && final(self)@ == (if rv == 0 {
                    ConnectionView { acked: old(self)@.acked.insert(stream_id, offset), ..old(self)@ }
                } else {
                    old(self)@
                }),
            old(self)@.acks_within_sent() ==> final(self)@.acks_within_sent(),
    {
        let sent = offset_in(&self.sent_offsets, stream_id);
        let current = offset_in(&self.ack_offsets, stream_id);
        if offset < current || offset > sent {
            return Err(Error::new(ERR_INVALID_ARGUMENT));
        }
        let rv = native(stream_id, offset);
        if rv != 0 {
            return Err(Error::new(rv));
        }
        self.ack_offsets.insert(stream_id, offset);
        proof {
            assert forall|t: i64| old(self)@.acks_within_sent() implies #[trigger] offset_of(
                self@.acked,
                t,
            ) <= offset_of(self@.sent, t) by {
                assert(offset_of(old(self)@.acked, t) <= offset_of(old(self)@.sent, t));
            }
        }
        Ok(())
    }

    /// Closes a stream, with the application error codes that are given.
    ///
    /// The stream of the pending write cannot be closed (`ERR_INVALID_STATE`).
    /// When `native` succeeds, the stream's offsets are forgotten.
    pub fn close_stream<F: FnOnce(u32, i64, u64, u64) -> i32>(
        &mut self,
        stream_id: i64,
        rx_app_error_code: Option<u64>,
        tx_app_error_code: Option<u64>,
        native: F,
    ) -> (r: Result<(), Error>)
        requires
            native.requires(
                (
                    close_flags(rx_app_error_code, tx_app_error_code),
                    stream_id,
                    code_or_zero(rx_app_error_code),
                    code_or_zero(tx_app_error_code),
                ),
            ),
        ensures
            old(self)@.pending_write matches Some(p) && p.0 == stream_id ==> fails_with(
                r,
                ERR_INVALID_STATE,
            ) && final(self)@ == old(self)@,
            !(old(self)@.pending_write matches Some(p) && p.0 == stream_id) ==> exists|rv: i32|
                #[trigger] native.ensures(
                    (
                        close_flags(rx_app_error_code, tx_app_error_code),
                        stream_id,
                        code_or_zero(rx_app_error_code),
                        code_or_zero(tx_app_error_code),
                    ),
                    rv,
                ) && converts(rv, r) && final(self)@ == (if rv == 0 {
                    ConnectionView {
                        sent: old(self)@.sent.remove(stream_id),
                        acked: old(self)@.acked.remove(stream_id),
                        ..old(self)@
                    }
                } else {
                    old(self)@
                }),
            old(self)@.acks_within_sent() ==> final(self)@.acks_within_sent(),
    {
        match self.pending_write {
            Some((pending_stream, _)) => {
                if pending_stream == stream_id {
                    return Err(Error::new(ERR_INVALID_STATE));
                }
            },
            None => {},
        }
        let (flags, rx, tx) = stream_close_arguments(rx_app_error_code, tx_app_error_code);
        let rv = native(flags, stream_id, rx, tx);
        if rv != 0 {
            return Err(Error::new(rv));
        }
        self.sent_offsets.remove(&stream_id);
        self.ack_offsets.remove(&stream_id);
        proof {
            assert forall|t: i64| old(self)@.acks_within_sent() implies #[trigger] offset_of(
                self@.acked,
                t,
            ) <= offset_of(self@.sent, t) by {
                assert(offset_of(old(self)@.acked, t) <= offset_of(old(self)@.sent, t));
            }
        }
        Ok(())
    }

    /// Submits a request on a client bidirectional stream; only a client whose
    /// QPACK streams are bound may (else `ERR_INVALID_STATE`), and only on such
    /// a stream (else `ERR_INVALID_ARGUMENT`). The body is recorded in `state`.
    pub fn submit_request<C: Callbacks, F: FnOnce(i64, &[Header], bool) -> i32>(
        &self,
        state: &mut CallbackState<C>,
        stream_id: i64,
        headers: &[Header],
        body: Option<Vec<u8>>,
        submit: F,
    ) -> (r: Result<(), Error>)
        requires
            submit.requires((stream_id, headers, body is Some)),
        ensures
            self@.role != Role::Client || !self@.qpack_bound ==> fails_with(r, ERR_INVALID_STATE)
                && *final(state) == *old(state),
            self@.role == Role::Client && self@.qpack_bound && !client_bidi_stream(stream_id)
                ==> fails_with(r, ERR_INVALID_ARGUMENT) && *final(state) == *old(state),
            self@.role == Role::Client && self@.qpack_bound && client_bidi_stream(stream_id)
                ==> submitted_with_body(*old(state), *final(state), stream_id, headers, body, submit, r),
    {
        if self.role != Role::Client || !self.qpack_bound {
            return Err(Error::new(ERR_INVALID_STATE));
        }
        if !is_client_bidi_stream(stream_id) {
            return Err(Error::new(ERR_INVALID_ARGUMENT));
        }
        state.submit_with_body(stream_id, headers, body, submit)
    }

    /// Submits a response on a client bidirectional stream; only a server whose
    /// QPACK streams are bound may (else `ERR_INVALID_STATE`), and only on such
    /// a stream (else `ERR_INVALID_ARGUMENT`). The body is recorded in `state`.
    pub fn submit_response<C: Callbacks, F: FnOnce(i64, &[Header], bool) -> i32>(
        &self,
        state: &mut CallbackState<C>,
        stream_id: i64,
        headers: &[Header],
        body: Option<Vec<u8>>,
        submit: F,
    ) -> (r: Result<(), Error>)
        requires
            submit.requires((stream_id, headers, body is Some)),
        ensures
            self@.role != Role::Server || !self@.qpack_bound ==> fails_with(r, ERR_INVALID_STATE)
                && *final(state) == *old(state),
            self@.role == Role::Server && self@.qpack_bound && !client_bidi_stream(stream_id)
                ==> fails_with(r, ERR_INVALID_ARGUMENT) && *final(state) == *old(state),
            self@.role == Role::Server && self@.qpack_bound && client_bidi_stream(stream_id)
                ==> submitted_with_body(*old(state), *final(state), stream_id, headers, body, submit, r),
    {
        if self.role != Role::Server || !self.qpack_bound {
            return Err(Error::new(ERR_INVALID_STATE));
        }
        if !is_client_bidi_stream(stream_id) {
            return Err(Error::new(ERR_INVALID_ARGUMENT));
        }
        state.submit_with_body(stream_id, headers, body, submit)
    }

    /// Submits informational headers; the same conditions as a response.
    pub fn submit_info<F: FnOnce(i64, &[Header]) -> i32>(
        &self,
        stream_id: i64,
        headers: &[Header],
        native: F,
    ) -> (r: Result<(), Error>)
        requires
            native.requires((stream_id, headers)),
        ensures
            self@.role != Role::Server || !self@.qpack_bound ==> fails_with(r, ERR_INVALID_STATE),
            self@.role == Role::Server && self@.qpack_bound && !client_bidi_stream(stream_id)
                ==> fails_with(r, ERR_INVALID_ARGUMENT),
            self@.role == Role::Server && self@.qpack_bound && client_bidi_stream(stream_id)
                ==> exists|rv: i32| #[trigger] native.ensures((stream_id, headers), rv) && converts(rv, r),
    {
        if self.role != Role::Server || !self.qpack_bound {
            return Err(Error::new(ERR_INVALID_STATE));
        }
        if !is_client_bidi_stream(stream_id) {
            return Err(Error::new(ERR_INVALID_ARGUMENT));
        }
        cvt(native(stream_id, headers))
    }

    /// Submits trailers on a client bidirectional stream, once the QPACK
    /// streams are bound.
    pub fn submit_trailers<F: FnOnce(i64, &[Header]) -> i32>(
        &self,
        stream_id: i64,
        headers: &[Header],
        native: F,
    ) -> (r: Result<(), Error>)
        requires
            native.requires((stream_id, headers)),
        ensures
            !self@.qpack_bound ==> fails_with(r, ERR_INVALID_STATE),
            self@.qpack_bound && !client_bidi_stream(stream_id) ==> fails_with(
                r,
                ERR_INVALID_ARGUMENT,
            ),
            self@.qpack_bound && client_bidi_stream(stream_id) ==> exists|rv: i32|
                #[trigger] native.ensures((stream_id, headers), rv) && converts(rv, r),
    {
        if !self.qpack_bound {
            return Err(Error::new(ERR_INVALID_STATE));
        }
        if !is_client_bidi_stream(stream_id) {
            return Err(Error::new(ERR_INVALID_ARGUMENT));
        }
        cvt(native(stream_id, headers))
    }

    /// Announces a graceful shutdown; needs the control stream.
    pub fn submit_shutdown_notice<F: FnOnce() -> i32>(&self, native: F) -> (r: Result<(), Error>)
        requires
            native.requires(()),
        ensures
            !self@.control_bound ==> fails_with(r, ERR_INVALID_STATE),
            self@.control_bound ==> exists|rv: i32| #[trigger] native.ensures((), rv) && converts(rv, r),
    {
        if !self.control_bound {
            return Err(Error::new(ERR_INVALID_STATE));
        }
        cvt(native())
    }

    /// Starts the shutdown; needs the control stream.
    pub fn shutdown<F: FnOnce() -> i32>(&self, native: F) -> (r: Result<(), Error>)
        requires
            native.requires(()),
        ensures
            !self@.control_bound ==> fails_with(r, ERR_INVALID_STATE),
            self@.control_bound ==> exists|rv: i32| #[trigger] native.ensures((), rv) && converts(rv, r),
    {
        if !self.control_bound {
            return Err(Error::new(ERR_INVALID_STATE));
        }
        cvt(native())
    }

    /// Whether a server connection is drained; a client connection never is,
    /// and the library is then not asked.
    pub fn is_drained<F: FnOnce() -> i32>(&self, native: F) -> (r: bool)
        requires
            native.requires(()),
        ensures
            self@.role == Role::Client ==> !r,
            self@.role == Role::Server ==> exists|rv: i32| #[trigger] native.ensures((), rv) && r == (rv != 0),
    {
        if self.role != Role::Server {
            return false;
        }
        native() != 0
    }
}

/// A body held for a stream stays held, unchanged, through any later
/// submission on that stream, whether the library accepts or refuses it: a
/// submitted body is owned until its stream closes.
pub proof fn lemma_submission_keeps_held_body<C, F: FnOnce(i64, &[Header], bool) -> i32>(
    before: CallbackState<C>,
    after: CallbackState<C>,
    stream_id: i64,
    headers: &[Header],
    body: Option<Vec<u8>>,
    submit: F,
    r: Result<(), Error>,
)
    requires
        submitted_with_body(before, after, stream_id, headers, body, submit, r),
        before.bodies@.contains_key(stream_id),
    ensures
        after.bodies@.contains_key(stream_id),
        after.bodies@[stream_id] == before.bodies@[stream_id],
{
}

/// What `submit_with_body` does to the callback state and returns.
pub open spec fn submitted_with_body<C, F: FnOnce(i64, &[Header], bool) -> i32>(
    before: CallbackState<C>,
    after: CallbackState<C>,
    stream_id: i64,
    headers: &[Header],
    body: Option<Vec<u8>>,
    submit: F,
    r: Result<(), Error>,
) -> bool {
    &&& after.callbacks == before.callbacks
    &&& body is Some && before.bodies@.contains_key(stream_id) ==> fails_with(r, ERR_STREAM_IN_USE)
        && after.bodies@ == before.bodies@
    &&& !(body is Some && before.bodies@.contains_key(stream_id)) ==> exists|rv: i32|
        #[trigger] submit.ensures((stream_id, headers, body is Some), rv) && converts(rv, r)
            && after.bodies@ == (if rv == 0 && body is Some {
            before.bodies@.insert(stream_id, BodyState { data: body->Some_0, offset: 0 })
        } else {
            before.bodies@
        })
}

} // verus!
