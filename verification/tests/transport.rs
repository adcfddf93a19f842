use browser::error::FetchError;
use browser::tls::Drained;
use browser::transport::{
    absorb, ends_with_terminator, flush, handed_over, request_for, settle, taken_in, Action,
    Event, Fetch, Phase,
};
use browser::url::UrlRef;
use std::io::Write;
use std::sync::Arc;

fn url(address: &str) -> UrlRef {
    UrlRef::parse(address).unwrap()
}

fn receiving(address: &str) -> Fetch {
    let mut fetch = Fetch::plain(&url(address));
    assert!(matches!(fetch.step(Event::Connected), Action::Send(_)));
    assert!(matches!(fetch.step(Event::Sent), Action::Receive));
    assert_eq!(fetch.phase(), Phase::Receiving);
    fetch
}

fn client_config() -> Arc<rustls::ClientConfig> {
    Arc::new(
        rustls::ClientConfig::builder()
            .with_safe_defaults()
            .with_root_certificates(rustls::RootCertStore::empty())
            .with_no_client_auth(),
    )
}

struct NoCertificate;

impl rustls::server::ResolvesServerCert for NoCertificate {
    fn resolve(
        &self,
        _hello: rustls::server::ClientHello,
    ) -> Option<Arc<rustls::sign::CertifiedKey>> {
        None
    }
}

fn server_without_certificate() -> rustls::ServerConnection {
    let config = rustls::ServerConfig::builder()
        .with_safe_defaults()
        .with_no_client_auth()
        .with_cert_resolver(Arc::new(NoCertificate));
    rustls::ServerConnection::new(Arc::new(config)).unwrap()
}

#[test]
fn request_is_exactly_the_documented_bytes() {
    assert_eq!(
        request_for(&url("http://example.com/index.html")),
        b"GET /index.html HTTP/1.0\r\nHost: example.com\r\n\r\n".to_vec()
    );
    assert_eq!(request_for(&url("https://x")), b"GET / HTTP/1.0\r\nHost: x\r\n\r\n".to_vec());
}

#[test]
fn request_leaves_the_port_out_of_the_host_header() {
    assert_eq!(
        request_for(&url("http://example.com:8080/a?b=c")),
        b"GET /a?b=c HTTP/1.0\r\nHost: example.com\r\n\r\n".to_vec()
    );
}

#[test]
fn request_is_encoded_as_utf8() {
    assert_eq!(
        request_for(&url("http://h\u{e9}/\u{fc}")),
        "GET /\u{fc} HTTP/1.0\r\nHost: h\u{e9}\r\n\r\n".as_bytes().to_vec()
    );
}

#[test]
fn terminator_is_found_at_the_end_only() {
    assert!(ends_with_terminator(b"</html>\n"));
    assert!(ends_with_terminator(b"<html>x</html>\n"));
    assert!(!ends_with_terminator(b"</html>"));
    assert!(!ends_with_terminator(b"</html>\n "));
    assert!(!ends_with_terminator(b"</html>\r\n"));
    assert!(!ends_with_terminator(b"</HTML>\n"));
    assert!(!ends_with_terminator(b"/html>\n"));
    assert!(!ends_with_terminator(b""));
}

#[test]
fn absorb_appends_and_tests() {
    let mut acc: Vec<u8> = b"<html>x</ht".to_vec();
    assert!(!absorb(&mut acc, b"m"));
    assert_eq!(acc, b"<html>x</htm".to_vec());
    assert!(absorb(&mut acc, b"l>\n"));
    assert_eq!(acc, b"<html>x</html>\n".to_vec());
    assert!(!absorb(&mut acc, b"more"));
    assert!(!absorb(&mut acc, b""));
    assert_eq!(acc, b"<html>x</html>\nmore".to_vec());
}

#[test]
fn request_is_handed_over_only_as_a_whole() {
    assert!(handed_over(27, Some(27)));
    assert!(handed_over(0, Some(0)));
    assert!(!handed_over(27, Some(26)));
    assert!(!handed_over(27, Some(0)));
    assert!(!handed_over(27, Some(28)));
    assert!(!handed_over(27, None));
    assert!(!handed_over(0, None));
}

#[test]
fn flush_sends_exactly_what_the_session_gave() {
    match flush(Some(Some(vec![0x16, 0x03, 0x01, 0x00]))) {
        (Phase::Sending, Action::Send(bytes)) => assert_eq!(bytes, vec![0x16, 0x03, 0x01, 0x00]),
        _ => panic!("the ciphertext was not sent"),
    }
    match flush(Some(Some(Vec::new()))) {
        (Phase::Sending, Action::Send(bytes)) => assert!(bytes.is_empty()),
        _ => panic!("the ciphertext was not sent"),
    }
}

#[test]
fn flush_reads_when_there_is_nothing_to_send() {
    assert!(matches!(flush(None), (Phase::Receiving, Action::Receive)));
}

#[test]
fn flush_fails_when_the_ciphertext_cannot_be_had() {
    assert!(matches!(
        flush(Some(None)),
        (Phase::Failed(FetchError::IoError), Action::Fail(FetchError::IoError))
    ));
}

#[test]
fn piece_counts_when_taken_and_accepted() {
    assert_eq!(taken_in(Some(1), true), Ok(1));
    assert_eq!(taken_in(Some(4096), true), Ok(4096));
}

#[test]
fn piece_rejected_or_not_taken_is_a_tls_error() {
    assert_eq!(taken_in(Some(5), false), Err(FetchError::TlsError));
    assert_eq!(taken_in(Some(0), true), Err(FetchError::TlsError));
    assert_eq!(taken_in(Some(0), false), Err(FetchError::TlsError));
    assert_eq!(taken_in(None, true), Err(FetchError::TlsError));
    assert_eq!(taken_in(None, false), Err(FetchError::TlsError));
}

#[test]
fn settle_finishes_on_the_terminator_whatever_the_session() {
    assert!(matches!(settle(true, Drained::Open), Some((Phase::Done, Action::Finish))));
    assert!(matches!(settle(true, Drained::Closed), Some((Phase::Done, Action::Finish))));
    assert!(matches!(settle(true, Drained::Broken), Some((Phase::Done, Action::Finish))));
}

#[test]
fn settle_without_the_terminator_goes_by_the_session() {
    assert!(matches!(settle(false, Drained::Closed), Some((Phase::Done, Action::Finish))));
    assert!(matches!(
        settle(false, Drained::Broken),
        Some((Phase::Failed(FetchError::TlsError), Action::Fail(FetchError::TlsError)))
    ));
    assert!(settle(false, Drained::Open).is_none());
}

#[test]
fn plain_fetch_sends_the_request_first() {
    let address = url("http://example.com/p");
    let mut fetch = Fetch::plain(&address);
    assert_eq!(fetch.phase(), Phase::Connecting);
    assert!(!fetch.is_encrypted());
    assert_eq!(fetch.collected(), b"");
    match fetch.step(Event::Connected) {
        Action::Send(bytes) => assert_eq!(bytes, request_for(&address)),
        _ => panic!("the request was not sent"),
    }
    assert_eq!(fetch.phase(), Phase::Sending);
    assert!(matches!(fetch.step(Event::Sent), Action::Receive));
    assert_eq!(fetch.phase(), Phase::Receiving);
}

#[test]
fn plain_fetch_stops_on_the_terminator() {
    let mut fetch = receiving("http://x/");
    assert!(matches!(fetch.step(Event::Received(b"<html>".to_vec())), Action::Receive));
    assert!(matches!(fetch.step(Event::Received(b"hi</html>".to_vec())), Action::Receive));
    assert!(matches!(fetch.step(Event::Received(b"\n".to_vec())), Action::Finish));
    assert_eq!(fetch.phase(), Phase::Done);
    assert_eq!(fetch.into_response(), b"<html>hi</html>\n".to_vec());
}

#[test]
fn plain_fetch_returns_what_it_has_when_the_stream_ends() {
    let mut fetch = receiving("http://x/");
    assert!(matches!(fetch.step(Event::Received(b"partial".to_vec())), Action::Receive));
    assert!(matches!(fetch.step(Event::Closed), Action::Finish));
    assert_eq!(fetch.phase(), Phase::Done);
    assert_eq!(fetch.into_response(), b"partial".to_vec());
}

#[test]
fn plain_fetch_takes_an_empty_read_for_the_end() {
    let mut fetch = receiving("http://x/");
    assert!(matches!(fetch.step(Event::Received(b"abc".to_vec())), Action::Receive));
    assert!(matches!(fetch.step(Event::Received(Vec::new())), Action::Finish));
    assert_eq!(fetch.collected(), b"abc");
}

#[test]
fn plain_fetch_tests_the_terminator_after_each_chunk_only() {
    let mut fetch = receiving("http://x/");
    let action = fetch.step(Event::Received(b"<html>a</html>\n<html>b".to_vec()));
    assert!(matches!(action, Action::Receive));
    assert!(matches!(fetch.step(Event::Received(b"</html>\n".to_vec())), Action::Finish));
    assert_eq!(fetch.into_response(), b"<html>a</html>\n<html>b</html>\n".to_vec());
}

#[test]
fn failure_while_connecting_is_a_connect_error() {
    let mut fetch = Fetch::plain(&url("http://x/"));
    assert!(matches!(fetch.step(Event::Failed), Action::Fail(FetchError::ConnectError)));
    assert_eq!(fetch.phase(), Phase::Failed(FetchError::ConnectError));
}

#[test]
fn failure_in_mid_stream_is_an_io_error() {
    let mut fetch = Fetch::plain(&url("http://x/"));
    assert!(matches!(fetch.step(Event::Connected), Action::Send(_)));
    assert!(matches!(fetch.step(Event::Failed), Action::Fail(FetchError::IoError)));
    let mut fetch = receiving("http://x/");
    assert!(matches!(fetch.step(Event::Received(b"abc".to_vec())), Action::Receive));
    assert!(matches!(fetch.step(Event::Failed), Action::Fail(FetchError::IoError)));
    assert_eq!(fetch.phase(), Phase::Failed(FetchError::IoError));
    assert_eq!(fetch.collected(), b"abc");
}

#[test]
fn event_out_of_turn_fails_the_fetch() {
    let mut fetch = Fetch::plain(&url("http://x/"));
    assert!(matches!(fetch.step(Event::Sent), Action::Fail(FetchError::IoError)));
    let mut fetch = Fetch::plain(&url("http://x/"));
    assert!(matches!(fetch.step(Event::Closed), Action::Fail(FetchError::IoError)));
    let mut fetch = Fetch::plain(&url("http://x/"));
    let action = fetch.step(Event::Received(b"x".to_vec()));
    assert!(matches!(action, Action::Fail(FetchError::IoError)));
    let mut fetch = receiving("http://x/");
    assert!(matches!(fetch.step(Event::Connected), Action::Fail(FetchError::IoError)));
    let mut fetch = receiving("http://x/");
    assert!(matches!(fetch.step(Event::Sent), Action::Fail(FetchError::IoError)));
}

#[test]
fn finished_or_failed_fetch_stays_as_it_is() {
    let mut fetch = receiving("http://x/");
    assert!(matches!(fetch.step(Event::Received(b"</html>\n".to_vec())), Action::Finish));
    assert!(matches!(fetch.step(Event::Received(b"more".to_vec())), Action::Finish));
    assert!(matches!(fetch.step(Event::Failed), Action::Finish));
    assert_eq!(fetch.collected(), b"</html>\n");
    let mut fetch = Fetch::plain(&url("http://x/"));
    assert!(matches!(fetch.step(Event::Failed), Action::Fail(FetchError::ConnectError)));
    assert!(matches!(fetch.step(Event::Connected), Action::Fail(FetchError::ConnectError)));
    assert!(matches!(fetch.step(Event::Closed), Action::Fail(FetchError::ConnectError)));
}

#[test]
fn start_selects_the_transport_by_scheme() {
    let config = client_config();
    let fetch = Fetch::start(&url("http://example.com/"), &config).unwrap();
    assert!(!fetch.is_encrypted());
    assert_eq!(fetch.phase(), Phase::Connecting);
    let fetch = Fetch::start(&url("https://example.com/"), &config).unwrap();
    assert!(fetch.is_encrypted());
    assert_eq!(fetch.phase(), Phase::Connecting);
    assert_eq!(fetch.collected(), b"");
}

#[test]
fn encrypted_fetch_refuses_a_name_that_is_no_host_name() {
    let config = client_config();
    let address = url("https://not a host name/");
    assert_eq!(Fetch::encrypted(&address, &config).err(), Some(FetchError::TlsError));
    assert_eq!(Fetch::start(&address, &config).err(), Some(FetchError::TlsError));
}

#[test]
fn encrypted_fetch_accepts_an_ip_address() {
    let config = client_config();
    assert!(Fetch::encrypted(&url("https://127.0.0.1:8443/"), &config).is_ok());
}

#[test]
fn encrypted_fetch_opens_with_a_handshake_record() {
    let config = client_config();
    let mut fetch = Fetch::encrypted(&url("https://example.com/"), &config).unwrap();
    match fetch.step(Event::Connected) {
        Action::Send(bytes) => {
            assert!(bytes.len() > 5);
            assert_eq!(bytes[0], 0x16);
            let request = request_for(&url("https://example.com/"));
            assert!(!bytes.windows(request.len()).any(|window| window == request.as_slice()));
        }
        _ => panic!("no handshake was sent"),
    }
    assert_eq!(fetch.phase(), Phase::Sending);
    assert!(matches!(fetch.step(Event::Sent), Action::Receive));
    assert_eq!(fetch.phase(), Phase::Receiving);
    assert_eq!(fetch.collected(), b"");
}

#[test]
fn encrypted_fetch_fails_on_bytes_that_are_no_tls() {
    let config = client_config();
    let mut fetch = Fetch::encrypted(&url("https://example.com/"), &config).unwrap();
    assert!(matches!(fetch.step(Event::Connected), Action::Send(_)));
    assert!(matches!(fetch.step(Event::Sent), Action::Receive));
    let reply = b"HTTP/1.0 200 OK\r\n\r\n<html>plain</html>\n".to_vec();
    assert!(matches!(fetch.step(Event::Received(reply)), Action::Fail(FetchError::TlsError)));
    assert_eq!(fetch.phase(), Phase::Failed(FetchError::TlsError));
    assert_eq!(fetch.collected(), b"");
    assert!(matches!(fetch.step(Event::Closed), Action::Fail(FetchError::TlsError)));
}

#[test]
fn encrypted_fetch_fails_when_the_handshake_is_refused() {
    let config = client_config();
    let mut server = server_without_certificate();
    let mut fetch = Fetch::encrypted(&url("https://example.com/"), &config).unwrap();
    let hello = match fetch.step(Event::Connected) {
        Action::Send(bytes) => bytes,
        _ => panic!("no handshake was sent"),
    };
    assert!(matches!(fetch.step(Event::Sent), Action::Receive));
    let mut source: &[u8] = &hello;
    while !source.is_empty() {
        server.read_tls(&mut source).unwrap();
    }
    assert!(server.process_new_packets().is_err());
    let mut alert: Vec<u8> = Vec::new();
    while server.wants_write() {
        server.write_tls(&mut alert).unwrap();
    }
    assert!(!alert.is_empty());
    assert!(matches!(fetch.step(Event::Received(alert)), Action::Fail(FetchError::TlsError)));
    assert_eq!(fetch.collected(), b"");
}

#[test]
fn encrypted_fetch_ends_with_the_stream() {
    let config = client_config();
    let mut fetch = Fetch::encrypted(&url("https://example.com/"), &config).unwrap();
    assert!(matches!(fetch.step(Event::Connected), Action::Send(_)));
    assert!(matches!(fetch.step(Event::Sent), Action::Receive));
    assert!(matches!(fetch.step(Event::Closed), Action::Finish));
    assert_eq!(fetch.phase(), Phase::Done);
    assert_eq!(fetch.into_response(), Vec::<u8>::new());
}

#[test]
fn encrypted_fetch_keeps_waiting_on_half_a_record() {
    let config = client_config();
    let mut fetch = Fetch::encrypted(&url("https://example.com/"), &config).unwrap();
    assert!(matches!(fetch.step(Event::Connected), Action::Send(_)));
    assert!(matches!(fetch.step(Event::Sent), Action::Receive));
    let mut half: Vec<u8> = Vec::new();
    half.write_all(&[0x16, 0x03, 0x03]).unwrap();
    assert!(matches!(fetch.step(Event::Received(half)), Action::Receive));
    assert_eq!(fetch.phase(), Phase::Receiving);
    assert_eq!(fetch.collected(), b"");
}

#[test]
fn encrypted_fetch_failure_kinds() {
    let config = client_config();
    let mut fetch = Fetch::encrypted(&url("https://example.com/"), &config).unwrap();
    assert!(matches!(fetch.step(Event::Failed), Action::Fail(FetchError::ConnectError)));
    let mut fetch = Fetch::encrypted(&url("https://example.com/"), &config).unwrap();
    assert!(matches!(fetch.step(Event::Connected), Action::Send(_)));
    assert!(matches!(fetch.step(Event::Failed), Action::Fail(FetchError::IoError)));
    let mut fetch = Fetch::encrypted(&url("https://example.com/"), &config).unwrap();
    assert!(matches!(fetch.step(Event::Sent), Action::Fail(FetchError::IoError)));
}
