use std::io::{Read, Write};
use std::sync::Arc;
use vstd::prelude::*;

verus! {

/// A TLS session of `rustls`, client side. What it holds is not modelled.
#[verifier::external_type_specification]
#[verifier::external_body]
pub struct ExClientConnection(rustls::ClientConnection);

/// The settings of `rustls` that sessions are made from, trust anchors
/// included.
#[verifier::external_type_specification]
#[verifier::external_body]
pub struct ExClientConfig(rustls::ClientConfig);

/// The name that `rustls` checks a server's certificate against.
#[verifier::external_type_specification]
#[verifier::external_body]
pub struct ExServerName(rustls::ServerName);

/// What was found when the decrypted bytes of a session were taken out.
#[derive(Clone, Copy, Debug, PartialEq, Eq, Structural)]
pub enum Drained {
    /// The session is open and may deliver more.
    Open,
    /// The peer has closed the session in good order.
    Closed,
    /// The stream ended or failed without that.
    Broken,
}

/// Whether `host` can name a server: whether `rustls::ServerName::try_from`
/// accepts it, which it does for DNS names and for IP addresses.
pub uninterp spec fn is_server_name(host: Seq<char>) -> bool;

/// Calls `rustls::ServerName::try_from` on a host name. The contract only
/// gives a name to whether it accepts; nothing is claimed about which names
/// those are.
#[verifier::external_body]
pub(crate) fn server_name(host: &str) -> (r: Option<rustls::ServerName>)
    ensures
        r is Some <==> is_server_name(host@),
{
    rustls::ServerName::try_from(host).ok()
}

/// Calls `rustls::ClientConnection::new`. Nothing is claimed about when it
/// succeeds.
#[verifier::external_body]
pub(crate) fn new_session(
    config: &Arc<rustls::ClientConfig>,
    name: rustls::ServerName,
) -> Option<rustls::ClientConnection> {
    rustls::ClientConnection::new(Arc::clone(config), name).ok()
}

/// Calls `write` on the session's `writer()`, which takes plaintext to be
/// encrypted. It reports how many of the bytes it took, never more than it
/// was given.
#[verifier::external_body]
pub(crate) fn queue_plaintext(session: &mut rustls::ClientConnection, bytes: &[u8]) -> (r: Option<
    usize,
>)
    ensures
        r matches Some(n) ==> n <= bytes@.len(),
{
    session.writer().write(bytes).ok()
}

/// Calls `wants_write`: whether the session holds ciphertext to be sent.
#[verifier::external_body]
pub(crate) fn wants_write(session: &rustls::ClientConnection) -> bool {
    session.wants_write()
}

/// Calls `write_tls` with a fresh vector as the sink and returns what the
/// session wrote into it. Nothing is claimed about those bytes.
#[verifier::external_body]
pub(crate) fn take_ciphertext(session: &mut rustls::ClientConnection) -> Option<Vec<u8>> {
    let mut out: Vec<u8> = Vec::new();
    match session.write_tls(&mut out) {
        Ok(_) => Some(out),
        Err(_) => None,
    }
}

/// Calls `read_tls` with `bytes` as the source. It reports how many of the
/// bytes the session took, never more than it was given.
#[verifier::external_body]
pub(crate) fn feed_ciphertext(session: &mut rustls::ClientConnection, bytes: &[u8]) -> (r: Option<
    usize,
>)
    ensures
        r matches Some(n) ==> n <= bytes@.len(),
{
    let mut source: &[u8] = bytes;
    session.read_tls(&mut source).ok()
}

/// Calls `process_new_packets` and reports whether the session accepted
/// what it had been fed.
#[verifier::external_body]
pub(crate) fn process_packets(session: &mut rustls::ClientConnection) -> bool {
    session.process_new_packets().is_ok()
}

/// Calls `read_to_end` on the session's `reader()`, which appends the
/// decrypted bytes that are ready to `out` and changes nothing that `out`
/// held before. The result tells a session closed in good order from one
/// that is still open and from any other end.
#[verifier::external_body]
pub(crate) fn take_plaintext(session: &mut rustls::ClientConnection, out: &mut Vec<u8>) -> (r:
    Drained)
    ensures
        old(out)@.is_prefix_of(final(out)@),
{
    match session.reader().read_to_end(out) {
        Ok(_) => Drained::Closed,
        Err(e) => match e.kind() {
            std::io::ErrorKind::WouldBlock => Drained::Open,
            _ => Drained::Broken,
        },
    }
}

} // verus!
