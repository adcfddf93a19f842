use browser::error::FetchError;
use browser::number::parse_u16;
use browser::text::chars_of;
use browser::url::{Scheme, UrlRef};

fn port_of(text: &str) -> Option<u16> {
    parse_u16(&chars_of(text))
}

#[test]
fn parse_recovers_every_part() {
    let url = UrlRef::parse("http://example.com:8080/a/b?x=1").unwrap();
    assert_eq!(url.scheme(), Scheme::Http);
    assert_eq!(url.host(), "example.com");
    assert_eq!(url.port(), Some(8080));
    assert_eq!(url.path(), "/a/b?x=1");
}

#[test]
fn parse_https_with_path() {
    let url = UrlRef::parse("https://example.org/index.html").unwrap();
    assert_eq!(url.scheme(), Scheme::Https);
    assert_eq!(url.host(), "example.org");
    assert_eq!(url.port(), None);
    assert_eq!(url.path(), "/index.html");
}

#[test]
fn parse_omitted_path_is_root() {
    let url = UrlRef::parse("http://example.com").unwrap();
    assert_eq!(url.host(), "example.com");
    assert_eq!(url.path(), "/");
    assert_eq!(url.port(), None);
}

#[test]
fn parse_port_without_path() {
    let url = UrlRef::parse("https://example.com:8443").unwrap();
    assert_eq!(url.host(), "example.com");
    assert_eq!(url.port(), Some(8443));
    assert_eq!(url.path(), "/");
}

#[test]
fn parse_keeps_everything_behind_the_first_slash() {
    let url = UrlRef::parse("http://h/a://b:c/d").unwrap();
    assert_eq!(url.host(), "h");
    assert_eq!(url.port(), None);
    assert_eq!(url.path(), "/a://b:c/d");
}

#[test]
fn parse_rejects_other_schemes() {
    assert_eq!(UrlRef::parse("ftp://x/y").err(), Some(FetchError::UnsupportedScheme));
    assert_eq!(UrlRef::parse("://x/y").err(), Some(FetchError::UnsupportedScheme));
    assert_eq!(UrlRef::parse("httpss://x/y").err(), Some(FetchError::UnsupportedScheme));
}

#[test]
fn parse_scheme_is_case_sensitive() {
    assert_eq!(UrlRef::parse("HTTP://x/y").err(), Some(FetchError::UnsupportedScheme));
    assert_eq!(UrlRef::parse("Https://x/y").err(), Some(FetchError::UnsupportedScheme));
}

#[test]
fn parse_rejects_missing_separator() {
    assert_eq!(UrlRef::parse("noscheme").err(), Some(FetchError::MalformedUrl));
    assert_eq!(UrlRef::parse("").err(), Some(FetchError::MalformedUrl));
    assert_eq!(UrlRef::parse("http:/x").err(), Some(FetchError::MalformedUrl));
}

#[test]
fn parse_rejects_empty_host() {
    assert_eq!(UrlRef::parse("http://").err(), Some(FetchError::MalformedUrl));
    assert_eq!(UrlRef::parse("http:///path").err(), Some(FetchError::MalformedUrl));
    assert_eq!(UrlRef::parse("https://:443/").err(), Some(FetchError::MalformedUrl));
}

#[test]
fn parse_checks_the_scheme_before_the_host() {
    assert_eq!(UrlRef::parse("ftp:///").err(), Some(FetchError::UnsupportedScheme));
}

#[test]
fn parse_cuts_the_authority_at_its_last_colon() {
    let url = UrlRef::parse("http://[::1]:8080/x").unwrap();
    assert_eq!(url.host(), "[::1]");
    assert_eq!(url.port(), Some(8080));
    let url = UrlRef::parse("http://a:1:2/").unwrap();
    assert_eq!(url.host(), "a:1");
    assert_eq!(url.port(), Some(2));
}

#[test]
fn parse_keeps_the_authority_when_the_suffix_is_no_port() {
    let url = UrlRef::parse("http://a:b/").unwrap();
    assert_eq!(url.host(), "a:b");
    assert_eq!(url.port(), None);
    let url = UrlRef::parse("http://a:65536/").unwrap();
    assert_eq!(url.host(), "a:65536");
    assert_eq!(url.port(), None);
    let url = UrlRef::parse("http://a:/").unwrap();
    assert_eq!(url.host(), "a:");
    assert_eq!(url.port(), None);
}

#[test]
fn parse_port_limits() {
    assert_eq!(UrlRef::parse("http://a:0/").unwrap().port(), Some(0));
    assert_eq!(UrlRef::parse("http://a:65535/").unwrap().port(), Some(65535));
    assert_eq!(UrlRef::parse("http://a:00080/").unwrap().port(), Some(80));
}

#[test]
fn parse_handles_text_beyond_ascii() {
    let url = UrlRef::parse("http://b\u{fc}cher.example/\u{fc}ber").unwrap();
    assert_eq!(url.host(), "b\u{fc}cher.example");
    assert_eq!(url.path(), "/\u{fc}ber");
}

#[test]
fn effective_port_defaults_by_scheme() {
    assert_eq!(UrlRef::parse("http://a/").unwrap().effective_port(), 80);
    assert_eq!(UrlRef::parse("https://a/").unwrap().effective_port(), 443);
    assert_eq!(UrlRef::parse("https://a:8443/").unwrap().effective_port(), 8443);
    assert_eq!(Scheme::Http.default_port(), 80);
    assert_eq!(Scheme::Https.default_port(), 443);
}

#[test]
fn scheme_from_token() {
    assert_eq!(Scheme::from_token(&chars_of("http")), Ok(Scheme::Http));
    assert_eq!(Scheme::from_token(&chars_of("https")), Ok(Scheme::Https));
    assert_eq!(Scheme::from_token(&chars_of("htt")), Err(FetchError::UnsupportedScheme));
    assert_eq!(Scheme::from_token(&chars_of("")), Err(FetchError::UnsupportedScheme));
    assert_eq!(Scheme::from_token(&chars_of("gopher")), Err(FetchError::UnsupportedScheme));
}

#[test]
fn scheme_try_from_text() {
    assert_eq!(Scheme::try_from("http"), Ok(Scheme::Http));
    assert_eq!(Scheme::try_from("https"), Ok(Scheme::Https));
    assert_eq!(Scheme::try_from("HTTPS"), Err(FetchError::UnsupportedScheme));
    assert_eq!(Scheme::try_from("ftp"), Err(FetchError::UnsupportedScheme));
    assert_eq!(Scheme::try_from(" http"), Err(FetchError::UnsupportedScheme));
}

#[test]
fn url_clone_is_equal() {
    let url = UrlRef::parse("https://example.com:8443/x").unwrap();
    let copy = url.clone();
    assert_eq!(url, copy);
    assert_eq!(copy.host(), "example.com");
    assert_ne!(url, UrlRef::parse("https://example.com:8443/y").unwrap());
}

#[test]
fn parse_u16_reads_decimal() {
    assert_eq!(port_of("0"), Some(0));
    assert_eq!(port_of("80"), Some(80));
    assert_eq!(port_of("65535"), Some(65535));
    assert_eq!(port_of("007"), Some(7));
    assert_eq!(port_of("+443"), Some(443));
    assert_eq!(port_of("0000000000000000000065535"), Some(65535));
}

#[test]
fn parse_u16_rejects_the_rest() {
    assert_eq!(port_of(""), None);
    assert_eq!(port_of("+"), None);
    assert_eq!(port_of("-1"), None);
    assert_eq!(port_of("++1"), None);
    assert_eq!(port_of("65536"), None);
    assert_eq!(port_of("99999999999999999999"), None);
    assert_eq!(port_of("8o"), None);
    assert_eq!(port_of(" 80"), None);
    assert_eq!(port_of("80 "), None);
    assert_eq!(port_of("\u{661}"), None);
}

#[test]
fn parse_u16_agrees_with_std() {
    let samples = [
        "0", "1", "9", "10", "255", "256", "9999", "65535", "65536", "70000", "+0", "+65535",
        "+65536", "", "+", "-0", "1_0", "0x10", "12a", "a12", "\u{663}",
    ];
    for sample in samples {
        assert_eq!(port_of(sample), sample.parse::<u16>().ok(), "{:?}", sample);
    }
}
