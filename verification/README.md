# nghttp3

Safe Rust bindings for the nghttp3 HTTP/3 library, in two parts.

- `src/` is the verified core, checked by Verus. It holds everything the
  bindings decide for themselves: error codes and their conversion, QUIC
  variable-length integers, stream-ID rules, HTTP field validation, header
  flags, settings, the RFC 9218 priority parser, QPACK decode flags, and the
  bookkeeping a connection keeps beside the C library (bound streams, the
  write offered to the transport, accepted and acknowledged offsets, and the
  request and response bodies read back through callbacks), and the random
  bytes the library seeds its hashes with, drawn through `getrandom`.
- `app/` is the thin layer around the C library: the owned C objects, the
  callback trampolines, and the calls themselves.

A connection method in `src/` takes the C call as a closure. It checks the
arguments first, makes the call at most once and only when they pass, and its
contract says what it returns and how the connection's state changes for every
value the call may return. `app/` supplies the closures.

Submitted bodies are held until their stream closes, so pointers handed to the
library stay valid through acknowledgement. Outgoing segments are copied into
owned buffers; report the bytes the transport accepted with `add_write_offset`.
