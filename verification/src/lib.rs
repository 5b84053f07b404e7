//! Verified core of the safe nghttp3 bindings: error codes, QUIC varints,
//! stream-ID rules, HTTP field validation, settings, QPACK decode flags, and
//! the bookkeeping that a connection keeps beside the C library.
use vstd::prelude::*;

pub mod connection;
pub mod error;
pub mod header;
pub mod priority;
pub mod random;
pub mod qpack;
pub mod settings;
pub mod stream;
pub mod varint;

pub use connection::{
    stream_close_arguments, BodyState, Bodies, CallbackState, Callbacks, Connection, ReadDataStep,
    StreamClose, WriteData,
};
pub use error::{callback_return_code, cvt, cvt_ssize, Error};
pub use header::{is_valid_header_name, is_valid_header_value, Header, HeaderFlags};
pub use priority::Priority;
pub use random::fill_random;
pub use qpack::{EncodedQpack, QpackDecodeFlags};
pub use settings::{IndexingStrategy, PeerSettings, Settings};
pub use stream::{
    check_stream_id, is_client_bidi_stream, is_local_uni_stream, is_peer_readable_stream,
    is_valid_stream_id, Role,
};
pub use varint::{decode_uvarint, encode_uvarint};

verus! {

/// Largest value representable as a QUIC variable-length integer.
pub const MAX_VARINT: u64 = 0x3fff_ffff_ffff_ffff;

} // verus!
