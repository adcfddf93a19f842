use crate::error::FetchError;
use crate::number::{
    decimal_text, decimal_u16, is_digit, lemma_decimal_text, lemma_decimal_u16_of_text, parse_u16,
};
use crate::text::{
    chars_of, find, find_from, last_index_of, lemma_find_from, lemma_find_from_is,
    lemma_last_index_is, lemma_last_index_of, lemma_occurs_char, matches_at, occurs_at,
    rfind_char, text_of,
};
use vstd::prelude::*;
use vstd::slice::slice_subrange;

verus! {

/// The transport that an address asks for.
#[derive(Clone, Copy, Debug, PartialEq, Eq, Structural)]
pub enum Scheme {
    /// Plaintext.
    Http,
    /// Wrapped in TLS.
    Https,
}

/// What an address holds, as mathematical values.
pub struct UrlView {
    pub scheme: Scheme,
    pub host: Seq<char>,
    pub port: Option<u16>,
    pub path: Seq<char>,
}

/// A parsed address. It cannot be changed once it has been made.
#[derive(Debug, PartialEq, Eq)]
pub struct UrlRef {
    scheme: Scheme,
    host: String,
    port: Option<u16>,
    path: String,
}

/// The text that parts scheme and authority: `://`.
pub open spec fn scheme_separator() -> Seq<char> {
    seq![':', '/', '/']
}

/// The token that names `scheme` in an address.
pub open spec fn scheme_token(scheme: Scheme) -> Seq<char> {
    match scheme {
        Scheme::Http => seq!['h', 't', 't', 'p'],
        Scheme::Https => seq!['h', 't', 't', 'p', 's'],
    }
}

/// The scheme that `token` names, letter case counting.
pub open spec fn scheme_of(token: Seq<char>) -> Option<Scheme> {
    if token == scheme_token(Scheme::Http) {
        Some(Scheme::Http)
    } else if token == scheme_token(Scheme::Https) {
        Some(Scheme::Https)
    } else {
        None
    }
}

/// The port that `scheme` implies when the address names none.
pub open spec fn default_port(scheme: Scheme) -> u16 {
    match scheme {
        Scheme::Http => 80,
        Scheme::Https => 443,
    }
}

/// Host and port of an authority. The authority is cut at its last colon;
/// what follows is the port if it writes a 16-bit number, and otherwise the
/// whole authority is the host.
pub open spec fn split_authority(authority: Seq<char>) -> (Seq<char>, Option<u16>) {
    match last_index_of(authority, ':') {
        Some(i) => match decimal_u16(authority.skip(i + 1)) {
            Some(port) => (authority.take(i), Some(port)),
            None => (authority, None),
        },
        None => (authority, None),
    }
}

/// Authority and path of what follows the separator: cut before the first
/// `/`, which belongs to the path; without one the path is `/`.
pub open spec fn split_path(rest: Seq<char>) -> (Seq<char>, Seq<char>) {
    match find_from(rest, seq!['/'], 0) {
        Some(j) => (rest.take(j), rest.skip(j)),
        None => (rest, seq!['/']),
    }
}

/// What parsing the address `raw` gives.
pub open spec fn parsed(raw: Seq<char>) -> Result<UrlView, FetchError> {
    match find_from(raw, scheme_separator(), 0) {
        None => Err(FetchError::MalformedUrl),
        Some(i) => match scheme_of(raw.take(i)) {
            None => Err(FetchError::UnsupportedScheme),
            Some(scheme) => {
                let (authority, path) = split_path(raw.skip(i + 3));
                let (host, port) = split_authority(authority);
                if host.len() == 0 {
                    Err(FetchError::MalformedUrl)
                } else {
                    Ok(UrlView { scheme, host, port, path })
                }
            },
        },
    }
}

/// What every parsed address satisfies: the host is not empty and holds no
/// `/`, and the path begins with `/`.
pub open spec fn well_formed(url: UrlView) -> bool {
    &&& url.host.len() > 0
    &&& forall|k: int| 0 <= k < url.host.len() ==> url.host[k] != '/'
    &&& url.path.len() > 0
    &&& url.path[0] == '/'
}

/// Every address that parsing accepts is well formed.
pub proof fn lemma_parsed_well_formed(raw: Seq<char>)
    ensures
        parsed(raw) matches Ok(url) ==> well_formed(url),
{
    if let Ok(url) = parsed(raw) {
        let i = find_from(raw, scheme_separator(), 0)->0;
        lemma_find_from(raw, scheme_separator(), 0);
        let rest = raw.skip(i + 3);
        let slash = seq!['/'];
        lemma_find_from(rest, slash, 0);
        let (authority, path) = split_path(rest);
        assert forall|k: int| 0 <= k < authority.len() implies authority[k] != '/' by {
            lemma_occurs_char(rest, '/', k);
        }
        match find_from(rest, slash, 0) {
            Some(j) => {
                lemma_occurs_char(rest, '/', j);
            },
            None => {},
        }
        lemma_last_index_of(authority, ':');
    }
}

/// Whether `host` ends in a colon and a 16-bit number, so that it reads as
/// a host with a port.
pub open spec fn ends_in_port(host: Seq<char>) -> bool {
    split_authority(host).1 is Some
}

/// The address written from its parts: the scheme's token, `://`, the host,
/// then `:` and the port in decimal if there is one, then the path if there
/// is one.
pub open spec fn address_text(
    scheme: Scheme,
    host: Seq<char>,
    port: Option<u16>,
    path: Option<Seq<char>>,
) -> Seq<char> {
    scheme_token(scheme) + scheme_separator() + host + port_text(port) + match path {
        Some(p) => p,
        None => Seq::<char>::empty(),
    }
}

/// The text that writes a port behind a host, or nothing for no port.
pub open spec fn port_text(port: Option<u16>) -> Seq<char> {
    match port {
        Some(p) => seq![':'] + decimal_text(p as nat),
        None => Seq::<char>::empty(),
    }
}

/// In an address that begins with a scheme's token and the separator, the
/// separator is first found right behind the token.
pub proof fn lemma_separator_found(scheme: Scheme, rest: Seq<char>)
    ensures
        find_from(scheme_token(scheme) + scheme_separator() + rest, scheme_separator(), 0) == Some(
            scheme_token(scheme).len() as int,
        ),
{
    let token = scheme_token(scheme);
    let sep = scheme_separator();
    let raw = token + sep + rest;
    let i = token.len() as int;
    assert(raw.subrange(i, i + 3) =~= sep);
    assert forall|j: int| 0 <= j < i implies !occurs_at(raw, sep, j) by {
        if j + 3 <= raw.len() {
            assert(raw.subrange(j, j + 3)[0] == token[j]);
            assert(sep[0] == ':');
        }
    }
    lemma_find_from_is(raw, sep, 0, i);
}

/// An authority without a slash, followed by a path that begins with one
/// or by nothing, is cut into that authority and that path, or `/`.
pub proof fn lemma_split_path_joined(authority: Seq<char>, path: Option<Seq<char>>)
    requires
        forall|k: int| 0 <= k < authority.len() ==> authority[k] != '/',
        path matches Some(p) ==> p.len() > 0 && p[0] == '/',
    ensures
        split_path(
            authority + match path {
                Some(p) => p,
                None => Seq::<char>::empty(),
            },
        ) == (authority, match path {
            Some(p) => p,
            None => seq!['/'],
        }),
{
    let slash = seq!['/'];
    let rest = authority + match path {
        Some(p) => p,
        None => Seq::<char>::empty(),
    };
    let n = authority.len() as int;
    assert forall|k: int| 0 <= k < n implies !occurs_at(rest, slash, k) by {
        lemma_occurs_char(rest, '/', k);
    }
    match path {
        Some(p) => {
            lemma_occurs_char(rest, '/', n);
            lemma_find_from_is(rest, slash, 0, n);
            assert(rest.take(n) =~= authority);
            assert(rest.skip(n) =~= p);
        },
        None => {
            assert(rest =~= authority);
            lemma_find_from(rest, slash, 0);
            if let Some(j) = find_from(rest, slash, 0) {
                lemma_occurs_char(rest, '/', j);
            }
        },
    }
}

/// A host followed by a colon and a port in decimal is cut into that host
/// and that port.
pub proof fn lemma_split_authority_joined(host: Seq<char>, port: u16)
    ensures
        split_authority(host + port_text(Some(port))) == (host, Some(port)),
{
    let digits = decimal_text(port as nat);
    let authority = host + port_text(Some(port));
    let c = host.len() as int;
    lemma_decimal_text(port as nat);
    lemma_decimal_u16_of_text(port);
    assert(authority =~= host + seq![':'] + digits);
    assert(authority[c] == ':');
    assert forall|k: int| c < k < authority.len() implies authority[k] != ':' by {
        assert(authority[k] == digits[k - c - 1]);
        assert(is_digit(digits[k - c - 1]));
    }
    lemma_last_index_is(authority, ':', c);
    assert(authority.skip(c + 1) =~= digits);
    assert(authority.take(c) =~= host);
}

/// The text that writes a port holds no slash.
pub proof fn lemma_port_text_has_no_slash(port: Option<u16>)
    ensures
        forall|k: int| 0 <= k < port_text(port).len() ==> port_text(port)[k] != '/',
{
    match port {
        Some(p) => {
            let digits = decimal_text(p as nat);
            lemma_decimal_text(p as nat);
            assert forall|k: int| 0 <= k < port_text(port).len() implies port_text(port)[k]
                != '/' by {
                if k > 0 {
                    assert(port_text(port)[k] == digits[k - 1]);
                    assert(is_digit(digits[k - 1]));
                }
            }
        },
        None => {},
    }
}

/// Parsing recovers the parts that an address was written from. The host
/// must not be empty nor hold a `/`, a path that is given begins with `/`,
/// and a host written without a port must not itself end in a colon and a
/// port number. A path that was left out comes back as `/`, a port that
/// was left out as none.
pub proof fn lemma_parse_recovers(
    scheme: Scheme,
    host: Seq<char>,
    port: Option<u16>,
    path: Option<Seq<char>>,
)
    requires
        host.len() > 0,
        forall|k: int| 0 <= k < host.len() ==> host[k] != '/',
        port is None ==> !ends_in_port(host),
        path matches Some(p) ==> p.len() > 0 && p[0] == '/',
    ensures
        parsed(address_text(scheme, host, port, path)) == Ok::<UrlView, FetchError>(
            UrlView {
                scheme,
                host,
                port,
                path: match path {
                    Some(p) => p,
                    None => seq!['/'],
                },
            },
        ),
{
    let token = scheme_token(scheme);
    let sep = scheme_separator();
    let authority = host + port_text(port);
    let path_part = match path {
        Some(p) => p,
        None => Seq::<char>::empty(),
    };
    let rest = authority + path_part;
    let raw = address_text(scheme, host, port, path);
    let i = token.len() as int;
    assert(raw =~= token + sep + rest);
    lemma_separator_found(scheme, rest);
    assert(raw.take(i) =~= token);
    assert(scheme_token(Scheme::Http).len() != scheme_token(Scheme::Https).len());
    assert(scheme_of(raw.take(i)) == Some(scheme));
    assert(raw.skip(i + 3) =~= rest);
    lemma_port_text_has_no_slash(port);
    lemma_split_path_joined(authority, path);
    match port {
        Some(p) => {
            lemma_split_authority_joined(host, p);
        },
        None => {
            assert(authority =~= host);
        },
    }
    assert(split_authority(authority) == (host, port));
}

impl Scheme {
    /// The scheme that the token names. Only `http` and `https` are known,
    /// in exactly that spelling.
    pub fn from_token(token: &[char]) -> (r: Result<Scheme, FetchError>)
        ensures
            r == match scheme_of(token@) {
                Some(scheme) => Ok::<Scheme, FetchError>(scheme),
                None => Err(FetchError::UnsupportedScheme),
            },
    {
        let http: Vec<char> = vec!['h', 't', 't', 'p'];
        let https: Vec<char> = vec!['h', 't', 't', 'p', 's'];
        assert(http@ =~= scheme_token(Scheme::Http));
        assert(https@ =~= scheme_token(Scheme::Https));
        assert(token@.subrange(0, token@.len() as int) == token@);
        if token.len() == 4 && matches_at(token, http.as_slice(), 0) {
            Ok(Scheme::Http)
        } else if token.len() == 5 && matches_at(token, https.as_slice(), 0) {
            Ok(Scheme::Https)
        } else {
            Err(FetchError::UnsupportedScheme)
        }
    }

    /// The port to use when the address names none.
    pub fn default_port(self) -> (port: u16)
        ensures
            port == default_port(self),
    {
        match self {
            Scheme::Http => 80,
            Scheme::Https => 443,
        }
    }
}

impl TryFrom<&str> for Scheme {
    type Error = FetchError;

    /// The scheme that `value` names.
    fn try_from(value: &str) -> (r: Result<Scheme, FetchError>) {
        let chars = chars_of(value);
        Scheme::from_token(chars.as_slice())
    }
}

impl vstd::std_specs::convert::TryFromSpecImpl<&str> for Scheme {
    open spec fn obeys_try_from_spec() -> bool {
        true
    }

    open spec fn try_from_spec(value: &str) -> Result<Scheme, FetchError> {
        match scheme_of(value@) {
            Some(scheme) => Ok(scheme),
            None => Err(FetchError::UnsupportedScheme),
        }
    }
}

impl View for UrlRef {
    type V = UrlView;

    closed spec fn view(&self) -> UrlView {
        UrlView { scheme: self.scheme, host: self.host@, port: self.port, path: self.path@ }
    }
}

impl Clone for UrlRef {
    fn clone(&self) -> (r: Self)
        ensures
            r@ == self@,
    {
        proof {
            use_type_invariant(self);
        }
        UrlRef {
            scheme: self.scheme,
            host: self.host.clone(),
            port: self.port,
            path: self.path.clone(),
        }
    }
}

impl UrlRef {
    #[verifier::type_invariant]
    spec fn inv(self) -> bool {
        well_formed(self@)
    }

    /// Parses an address of the form `scheme://host[:port][/path]`.
    pub fn parse(raw: &str) -> (r: Result<UrlRef, FetchError>)
        ensures
            match r {
                Ok(url) => parsed(raw@) == Ok::<UrlView, FetchError>(url@) && well_formed(url@),
                Err(e) => parsed(raw@) == Err::<UrlView, FetchError>(e),
            },
    {
        let chars = chars_of(raw);
        let n: usize = chars.len();
        let sep: Vec<char> = vec![':', '/', '/'];
        let slash: Vec<char> = vec!['/'];
        assert(sep@ =~= scheme_separator());
        assert(slash@ =~= seq!['/']);
        proof {
            lemma_parsed_well_formed(raw@);
            lemma_find_from(chars@, sep@, 0);
        }
        let i: usize = match find(chars.as_slice(), sep.as_slice(), 0) {
            Some(i) => i,
            None => {
                return Err(FetchError::MalformedUrl);
            },
        };
        let token = slice_subrange(chars.as_slice(), 0, i);
        let scheme = match Scheme::from_token(token) {
            Ok(scheme) => scheme,
            Err(e) => {
                return Err(e);
            },
        };
        let rest = slice_subrange(chars.as_slice(), i + 3, n);
        proof {
            lemma_find_from(rest@, slash@, 0);
        }
        let (authority, path): (&[char], String) = match find(rest, slash.as_slice(), 0) {
            Some(j) => (slice_subrange(rest, 0, j), text_of(slice_subrange(rest, j, rest.len()))),
            None => (rest, text_of(slash.as_slice())),
        };
        assert(authority@ == split_path(raw@.skip(i + 3)).0);
        assert(path@ == split_path(raw@.skip(i + 3)).1);
        proof {
            lemma_last_index_of(authority@, ':');
        }
        let (host, port): (&[char], Option<u16>) = match rfind_char(authority, ':') {
            Some(k) => {
                match parse_u16(slice_subrange(authority, k + 1, authority.len())) {
                    Some(port) => (slice_subrange(authority, 0, k), Some(port)),
                    None => (authority, None),
                }
            },
            None => (authority, None),
        };
        assert(host@ == split_authority(authority@).0);
        assert(port == split_authority(authority@).1);
        if host.len() == 0 {
            return Err(FetchError::MalformedUrl);
        }
        Ok(UrlRef { scheme, host: text_of(host), port, path })
    }

    /// The transport that the address asks for.
    pub fn scheme(&self) -> (r: Scheme)
        ensures
            r == self@.scheme,
    {
        self.scheme
    }

    /// The host, without scheme, port or slash.
    pub fn host(&self) -> (r: &str)
        ensures
            r@ == self@.host,
            r@.len() > 0,
    {
        proof {
            use_type_invariant(self);
        }
        self.host.as_str()
    }

    /// The port that the address names, if it names one.
    pub fn port(&self) -> (r: Option<u16>)
        ensures
            r == self@.port,
    {
        self.port
    }

    /// The path, which begins with `/`.
    pub fn path(&self) -> (r: &str)
        ensures
            r@ == self@.path,
            r@.len() > 0,
            r@[0] == '/',
    {
        proof {
            use_type_invariant(self);
        }
        self.path.as_str()
    }

    /// The port to connect to: the one that the address names, or else the
    /// one that its scheme implies.
    pub fn effective_port(&self) -> (r: u16)
        ensures
            r == match self@.port {
                Some(port) => port,
                None => default_port(self@.scheme),
            },
    {
        match self.port {
            Some(port) => port,
            None => self.scheme.default_port(),
        }
    }
}

} // verus!
