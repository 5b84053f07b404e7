//! Endpoint roles and the classification of QUIC stream IDs.
use vstd::prelude::*;

use crate::error::{Error, ERR_INVALID_ARGUMENT};
use crate::MAX_VARINT;

verus! {

/// Whether a connection is used by the HTTP/3 client or server endpoint.
#[derive(Clone, Copy, Debug, PartialEq, Eq, Structural)]
pub enum Role {
    Client,
    Server,
}

/// The endpoint at the other end of a connection.
pub open spec fn peer_of(role: Role) -> Role {
    match role {
        Role::Client => Role::Server,
        Role::Server => Role::Client,
    }
}

/// A stream ID is a QUIC varint: between 0 and `MAX_VARINT`.
pub open spec fn valid_stream_id(stream_id: i64) -> bool {
    0 <= stream_id <= MAX_VARINT
}

/// The two low bits of a stream ID: 0 client bidirectional, 1 server
/// bidirectional, 2 client unidirectional, 3 server unidirectional.
pub open spec fn stream_kind(stream_id: i64) -> int {
    (stream_id as int) % 4
}

pub open spec fn client_bidi_stream(stream_id: i64) -> bool {
    valid_stream_id(stream_id) && stream_kind(stream_id) == 0
}

/// A unidirectional stream that `role` itself opens.
pub open spec fn local_uni_stream(role: Role, stream_id: i64) -> bool {
    valid_stream_id(stream_id) && match role {
        Role::Client => stream_kind(stream_id) == 2,
        Role::Server => stream_kind(stream_id) == 3,
    }
}

/// A stream on which `role` receives data from its peer: the client
/// bidirectional streams and the peer's unidirectional streams.
pub open spec fn peer_readable_stream(role: Role, stream_id: i64) -> bool {
    valid_stream_id(stream_id) && match role {
        Role::Client => stream_kind(stream_id) == 0 || stream_kind(stream_id) == 3,
        Role::Server => stream_kind(stream_id) == 0 || stream_kind(stream_id) == 2,
    }
}

fn low_bits(stream_id: i64) -> (r: i64)
    requires
        0 <= stream_id,
    ensures
        r == stream_kind(stream_id),
{
    assert(stream_id & 3 == stream_id % 4) by (bit_vector)
        requires
            0 <= stream_id,
    ;
    stream_id & 0x03
}

/// Returns whether `stream_id` is a valid QUIC stream ID.
pub fn is_valid_stream_id(stream_id: i64) -> (r: bool)
    ensures
        r == valid_stream_id(stream_id),
{
    0 <= stream_id && stream_id <= MAX_VARINT as i64
}

/// Returns whether `stream_id` is a client-initiated bidirectional stream.
pub fn is_client_bidi_stream(stream_id: i64) -> (r: bool)
    ensures
        r == client_bidi_stream(stream_id),
{
    is_valid_stream_id(stream_id) && low_bits(stream_id) == 0
}

/// Returns whether `stream_id` is a unidirectional stream opened by `role`.
pub fn is_local_uni_stream(role: Role, stream_id: i64) -> (r: bool)
    ensures
        r == local_uni_stream(role, stream_id),
{
    if !is_valid_stream_id(stream_id) {
        return false;
    }
    let kind = low_bits(stream_id);
    match role {
        Role::Client => kind == 2,
        Role::Server => kind == 3,
    }
}

/// Returns whether `role` receives data from its peer on `stream_id`.
pub fn is_peer_readable_stream(role: Role, stream_id: i64) -> (r: bool)
    ensures
        r == peer_readable_stream(role, stream_id),
{
    if !is_valid_stream_id(stream_id) {
        return false;
    }
    let kind = low_bits(stream_id);
    match role {
        Role::Client => kind == 0 || kind == 3,
        Role::Server => kind == 0 || kind == 2,
    }
}

/// Refuses an ID that is not a valid stream ID with `ERR_INVALID_ARGUMENT`.
pub fn check_stream_id(stream_id: i64) -> (r: Result<(), Error>)
    ensures
        valid_stream_id(stream_id) ==> r is Ok,
        !valid_stream_id(stream_id) ==> crate::error::fails_with(r, ERR_INVALID_ARGUMENT),
{
    if is_valid_stream_id(stream_id) {
        Ok(())
    } else {
        Err(Error::new(ERR_INVALID_ARGUMENT))
    }
}

/// An endpoint reads exactly the client-initiated bidirectional streams and
/// the unidirectional streams that its peer opens.
pub proof fn lemma_readable_streams(role: Role, stream_id: i64)
    ensures
        peer_readable_stream(role, stream_id) <==> (client_bidi_stream(stream_id)
            || local_uni_stream(peer_of(role), stream_id)),
{
}

/// No endpoint reads a server-initiated bidirectional stream (an ID that
/// leaves remainder 1 when divided by 4): HTTP/3 does not use them.
pub proof fn lemma_server_bidi_not_readable(role: Role, stream_id: i64)
    requires
        stream_id % 4 == 1,
    ensures
        !peer_readable_stream(role, stream_id),
{
}

/// A client reads stream 0 and the server's unidirectional streams 3, 7, ...;
/// a server reads stream 0 and the client's unidirectional streams 2, 6, ....
pub proof fn lemma_readable_stream_examples(n: i64)
    requires
        0 <= n < 0x0fff_ffff_ffff_ffff,
    ensures
        peer_readable_stream(Role::Client, (4 * n) as i64),
        peer_readable_stream(Role::Client, (4 * n + 3) as i64),
        !peer_readable_stream(Role::Client, (4 * n + 1) as i64),
        !peer_readable_stream(Role::Client, (4 * n + 2) as i64),
        peer_readable_stream(Role::Server, (4 * n) as i64),
        peer_readable_stream(Role::Server, (4 * n + 2) as i64),
        !peer_readable_stream(Role::Server, (4 * n + 1) as i64),
        !peer_readable_stream(Role::Server, (4 * n + 3) as i64),
{
}

/// An endpoint never reads from a unidirectional stream that it opened itself.
pub proof fn lemma_local_uni_not_readable(role: Role, stream_id: i64)
    ensures
        local_uni_stream(role, stream_id) ==> !peer_readable_stream(role, stream_id),
{
}

/// A unidirectional stream that one endpoint opens is one that its peer reads,
/// and the peer never opens it itself.
pub proof fn lemma_local_uni_read_by_peer(role: Role, stream_id: i64)
    ensures
        local_uni_stream(role, stream_id) ==> peer_readable_stream(peer_of(role), stream_id),
        local_uni_stream(role, stream_id) ==> !local_uni_stream(peer_of(role), stream_id),
{
}

/// Client bidirectional streams are read by both endpoints and are never
/// unidirectional.
pub proof fn lemma_client_bidi_readable_by_both(stream_id: i64)
    ensures
        client_bidi_stream(stream_id) ==> peer_readable_stream(Role::Client, stream_id)
            && peer_readable_stream(Role::Server, stream_id),
        client_bidi_stream(stream_id) ==> !local_uni_stream(Role::Client, stream_id)
            && !local_uni_stream(Role::Server, stream_id),
{
}

} // verus!
