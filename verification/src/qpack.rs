//! Plain values exchanged with the standalone QPACK encoder and decoder.
use vstd::prelude::*;

use crate::error::{fails_with, Error, ERR_INVALID_STATE};

verus! {

/// Decoder flag: a header field was emitted.
pub const QPACK_DECODE_FLAG_EMIT: u8 = 0x01;

/// Decoder flag: the whole field section has been decoded.
pub const QPACK_DECODE_FLAG_FINAL: u8 = 0x02;

/// Decoder flag: decoding is blocked on encoder-stream input.
pub const QPACK_DECODE_FLAG_BLOCKED: u8 = 0x04;

/// A QPACK-encoded field section and the accompanying encoder-stream bytes.
#[derive(Clone, Debug, PartialEq, Eq)]
pub struct EncodedQpack {
    pub prefix: Vec<u8>,
    pub field_section: Vec<u8>,
    pub encoder_stream: Vec<u8>,
}

/// Decoder flags produced while consuming a QPACK field section.
#[derive(Clone, Copy, Debug, Default, PartialEq, Eq)]
pub struct QpackDecodeFlags(u8);

impl View for QpackDecodeFlags {
    type V = u8;

    closed spec fn view(&self) -> u8 {
        self.0
    }
}

impl QpackDecodeFlags {
    /// The flags that the decoder reported.
    pub fn from_bits(bits: u8) -> (r: Self)
        ensures
            r@ == bits,
    {
        QpackDecodeFlags(bits)
    }

    pub fn bits(self) -> (r: u8)
        ensures
            r == self@,
    {
        self.0
    }

    /// A header field was emitted.
    pub fn emitted(self) -> (r: bool)
        ensures
            r == (self@ & QPACK_DECODE_FLAG_EMIT != 0),
    {
        self.0 & QPACK_DECODE_FLAG_EMIT != 0
    }

    /// The end of the field section was reached.
    pub fn final_section(self) -> (r: bool)
        ensures
            r == (self@ & QPACK_DECODE_FLAG_FINAL != 0),
    {
        self.0 & QPACK_DECODE_FLAG_FINAL != 0
    }

    /// Decoding is blocked.
    pub fn blocked(self) -> (r: bool)
        ensures
            r == (self@ & QPACK_DECODE_FLAG_BLOCKED != 0),
    {
        self.0 & QPACK_DECODE_FLAG_BLOCKED != 0
    }

    /// Whether a decode step hands a header field to the caller: only when a
    /// field was emitted, and then the decoder must have produced both its name
    /// and its value, else the step fails with `ERR_INVALID_STATE`.
    pub fn emitted_field(self, name_present: bool, value_present: bool) -> (r: Result<bool, Error>)
        ensures
            !(self@ & QPACK_DECODE_FLAG_EMIT != 0) ==> r == Ok::<bool, Error>(false),
            (self@ & QPACK_DECODE_FLAG_EMIT != 0) && name_present && value_present ==> r == Ok::<
                bool,
                Error,
            >(true),
            (self@ & QPACK_DECODE_FLAG_EMIT != 0) && !(name_present && value_present) ==> fails_with(
                r,
                ERR_INVALID_STATE,
            ),
    {
        if !self.emitted() {
            Ok(false)
        } else if name_present && value_present {
            Ok(true)
        } else {
            Err(Error::new(ERR_INVALID_STATE))
        }
    }
}

} // verus!
