use vstd::prelude::*;

verus! {

/// Every way a single fetch can fail. Each failure is final for the request
/// in flight: nothing is retried.
#[derive(Clone, Copy, Debug, PartialEq, Eq, Structural)]
pub enum FetchError {
    /// The address has no `://` separator, or its host is empty.
    MalformedUrl,
    /// The scheme token is neither `http` nor `https`.
    UnsupportedScheme,
    /// The name could not be resolved or the connection was not accepted.
    ConnectError,
    /// The handshake or the certificate validation failed.
    TlsError,
    /// A read or a write failed in mid-stream.
    IoError,
    /// The response bytes are not valid UTF-8.
    InvalidEncoding,
    /// The status line lacks a field, or a header line lacks its colon.
    MalformedResponse,
}

} // verus!
