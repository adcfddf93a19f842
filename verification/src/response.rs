use crate::error::FetchError;
use crate::number::{decimal_u16, parse_u16};
use crate::text::{
    append_chars, chars_of, find, find_from, is_blank, lemma_find_from, lemma_pieces_nonempty,
    pieces, split, text_of, trim, trimmed, views,
};
use vstd::hash_map::StringHashMap;
use vstd::prelude::*;
use vstd::slice::slice_subrange;
use vstd::string::StringSliceAdditionalSpecFns;
use vstd::utf8::{decode_utf8, encode_utf8_decode_utf8, valid_utf8};

verus! {

/// The lower-case form of `s`: the value of `str::to_lowercase`, which std
/// defines by the Unicode property `Lowercase`.
pub uninterp spec fn lowercased(s: Seq<char>) -> Seq<char>;

/// Calls `str::to_lowercase`. The contract only gives the result its name;
/// nothing is claimed about which characters change.
#[verifier::external_body]
fn to_lowercase(s: &str) -> (r: String)
    ensures
        r@ == lowercased(s@),
{
    s.to_lowercase()
}

/// Calls `core::str::from_utf8`. It accepts exactly the byte strings that
/// are valid UTF-8, and the text it returns is encoded by the bytes given.
#[verifier::external_body]
fn decode(bytes: &[u8]) -> (r: Option<&str>)
    ensures
        r is Some <==> valid_utf8(bytes@),
        r matches Some(s) ==> s.spec_bytes() == bytes@,
{
    core::str::from_utf8(bytes).ok()
}

/// What a response holds, as mathematical values.
pub struct ResponseView {
    pub version: Seq<char>,
    pub status_code: u16,
    pub reason: Seq<char>,
    pub headers: Map<Seq<char>, Seq<char>>,
    pub body: Seq<char>,
}

/// A response taken apart. It is only read once it has been made.
pub struct ParsedResponse {
    version: String,
    status_code: u16,
    reason: String,
    headers: StringHashMap<String>,
    body: String,
}

/// The text that ends a line: carriage return, line feed.
pub open spec fn line_break() -> Seq<char> {
    seq!['\r', '\n']
}

/// A line that holds nothing but whitespace.
pub open spec fn is_blank_line(line: Seq<char>) -> bool {
    trimmed(line).len() == 0
}

/// The index of the first blank line at or after `from`, or the number of
/// lines if there is none.
pub open spec fn first_blank(lines: Seq<Seq<char>>, from: int) -> int
    decreases lines.len() - from,
{
    if from < 0 || from >= lines.len() {
        lines.len() as int
    } else if is_blank_line(lines[from]) {
        from
    } else {
        first_blank(lines, from + 1)
    }
}

/// Where the first colon of `line` stands, if it has one.
pub open spec fn colon_of(line: Seq<char>) -> Option<int> {
    find_from(line, seq![':'], 0)
}

/// The two parts of a header line, cut at its first colon, which belongs to
/// neither: what stands before it and what stands behind it, as they are. A
/// line without a colon has none.
pub open spec fn header_parts(line: Seq<char>) -> Option<(Seq<char>, Seq<char>)> {
    match colon_of(line) {
        Some(c) => Some((line.take(c), line.skip(c + 1))),
        None => None,
    }
}

/// The name of the header on `line`: what stands before its first colon,
/// trimmed and put in lower case.
pub open spec fn header_name(line: Seq<char>) -> Seq<char>
    recommends
        colon_of(line) is Some,
{
    lowercased(trimmed(line.take(colon_of(line)->0)))
}

/// The value of the header on `line`: what stands behind its first colon,
/// trimmed.
pub open spec fn header_value(line: Seq<char>) -> Seq<char>
    recommends
        colon_of(line) is Some,
{
    trimmed(line.skip(colon_of(line)->0 + 1))
}

/// Every one of `lines` has a colon.
pub open spec fn all_headers(lines: Seq<Seq<char>>) -> bool {
    forall|i: int| 0 <= i < lines.len() ==> colon_of(#[trigger] lines[i]) is Some
}

/// The headers that `lines` give, taken in order, so that of two lines with
/// the same name the later one decides.
pub open spec fn header_map(lines: Seq<Seq<char>>) -> Map<Seq<char>, Seq<char>>
    decreases lines.len(),
{
    if lines.len() == 0 {
        Map::empty()
    } else {
        let line = lines.last();
        if colon_of(line) is Some {
            header_map(lines.drop_last()).insert(header_name(line), header_value(line))
        } else {
            header_map(lines.drop_last())
        }
    }
}

/// What a status line holds: the line is cut at each single space, and its
/// first three fields are version, status code and reason. A line with fewer
/// fields, or whose second field writes no 16-bit number, holds none. What
/// stands behind the third field is left out.
pub open spec fn status_of(line: Seq<char>) -> Option<(Seq<char>, u16, Seq<char>)> {
    let fields = pieces(line, seq![' ']);
    if fields.len() < 3 {
        None
    } else {
        match decimal_u16(fields[1]) {
            Some(status_code) => Some((fields[0], status_code, fields[2])),
            None => None,
        }
    }
}

/// What parsing the response text `text` gives. The text is cut into lines
/// at each line break. The first line is the status line. The lines after
/// it, up to the first blank one, are headers. The lines after the blank
/// one, put together with nothing between them, are the body.
pub open spec fn response_of(text: Seq<char>) -> Result<ResponseView, FetchError> {
    let lines = pieces(text, line_break());
    let end = first_blank(lines, 1);
    let header_lines = lines.subrange(1, end);
    match status_of(lines[0]) {
        None => Err(FetchError::MalformedResponse),
        Some((version, status_code, reason)) => if !all_headers(header_lines) {
            Err(FetchError::MalformedResponse)
        } else {
            Ok(
                ResponseView {
                    version,
                    status_code,
                    reason,
                    headers: header_map(header_lines),
                    body: if end < lines.len() {
                        lines.skip(end + 1).flatten()
                    } else {
                        Seq::empty()
                    },
                },
            )
        },
    }
}

/// What parsing the response bytes `raw` gives: they must be valid UTF-8,
/// and the text that they encode is parsed.
pub open spec fn response_of_bytes(raw: Seq<u8>) -> Result<ResponseView, FetchError> {
    if valid_utf8(raw) {
        response_of(decode_utf8(raw))
    } else {
        Err(FetchError::InvalidEncoding)
    }
}

/// Where `first_blank` points there is a blank line, unless it points
/// behind the last line, and no line from `from` up to there is blank.
pub proof fn lemma_first_blank(lines: Seq<Seq<char>>, from: int)
    requires
        0 <= from <= lines.len(),
    ensures
        from <= first_blank(lines, from) <= lines.len(),
        first_blank(lines, from) < lines.len() ==> is_blank_line(
            lines[first_blank(lines, from)],
        ),
        forall|j: int| from <= j < first_blank(lines, from) ==> !is_blank_line(lines[j]),
    decreases lines.len() - from,
{
    if from < lines.len() && !is_blank_line(lines[from]) {
        lemma_first_blank(lines, from + 1);
    }
}

/// A header line without a colon makes the whole response malformed: it is
/// never passed over.
pub proof fn lemma_header_without_colon(text: Seq<char>, i: int)
    requires
        1 <= i < first_blank(pieces(text, line_break()), 1),
        colon_of(pieces(text, line_break())[i]) is None,
    ensures
        response_of(text) == Err::<ResponseView, FetchError>(FetchError::MalformedResponse),
{
    let lines = pieces(text, line_break());
    lemma_first_blank(lines, 1);
    let header_lines = lines.subrange(1, first_blank(lines, 1));
    assert(header_lines[i - 1] == lines[i]);
}

/// Of two header lines with the same name, the later one decides the value:
/// a line that is added last overrides whatever the lines before it gave.
pub proof fn lemma_last_header_wins(lines: Seq<Seq<char>>, line: Seq<char>)
    requires
        colon_of(line) is Some,
    ensures
        header_map(lines.push(line)).contains_key(header_name(line)),
        header_map(lines.push(line))[header_name(line)] == header_value(line),
{
    assert(lines.push(line).drop_last() =~= lines);
    assert(lines.push(line).last() == line);
}

/// Every header name is the lower-case form of a trimmed name: it comes
/// from one of the lines, as `header_name` says.
pub proof fn lemma_header_names(lines: Seq<Seq<char>>, name: Seq<char>)
    requires
        header_map(lines).contains_key(name),
    ensures
        exists|i: int|
            0 <= i < lines.len() && colon_of(#[trigger] lines[i]) is Some && name == header_name(
                lines[i],
            ),
    decreases lines.len(),
{
    if lines.len() > 0 {
        let line = lines.last();
        let front = lines.drop_last();
        if colon_of(line) is Some && name == header_name(line) {
            assert(lines[lines.len() - 1] == line);
        } else {
            lemma_header_names(front, name);
            let i = choose|i: int|
                0 <= i < front.len() && colon_of(#[trigger] front[i]) is Some && name
                    == header_name(front[i]);
            assert(lines[i] == front[i]);
        }
    }
}

impl View for ParsedResponse {
    type V = ResponseView;

    closed spec fn view(&self) -> ResponseView {
        ResponseView {
            version: self.version@,
            status_code: self.status_code,
            reason: self.reason@,
            headers: self.headers@.map_values(|v: String| v@),
            body: self.body@,
        }
    }
}

/// Cuts a header line at its first colon.
pub fn cut_header(line: &[char]) -> (r: Option<(&[char], &[char])>)
    ensures
        match r {
            Some(parts) => header_parts(line@) == Some((parts.0@, parts.1@)),
            None => header_parts(line@) is None,
        },
{
    let colon: Vec<char> = vec![':'];
    assert(colon@ =~= seq![':']);
    proof {
        lemma_find_from(line@, colon@, 0);
    }
    match find(line, colon.as_slice(), 0) {
        Some(c) => {
            let len: usize = line.len();
            assert(line@.subrange(0, c as int) == line@.take(c as int));
            assert(line@.subrange(c + 1, len as int) == line@.skip(c + 1));
            Some((slice_subrange(line, 0, c), slice_subrange(line, c + 1, len)))
        },
        None => None,
    }
}

/// Reads a status line: version, status code and reason.
pub fn parse_status_line(line: &[char]) -> (r: Option<(String, u16, String)>)
    ensures
        match r {
            Some((version, status_code, reason)) => status_of(line@) == Some(
                (version@, status_code, reason@),
            ),
            None => status_of(line@) is None,
        },
{
    let space: Vec<char> = vec![' '];
    assert(space@ =~= seq![' ']);
    let fields = split(line, space.as_slice());
    if fields.len() < 3 {
        return None;
    }
    assert(views(fields@)[0] == fields@[0]@);
    assert(views(fields@)[1] == fields@[1]@);
    assert(views(fields@)[2] == fields@[2]@);
    match parse_u16(fields[1].as_slice()) {
        Some(status_code) => Some(
            (text_of(fields[0].as_slice()), status_code, text_of(fields[2].as_slice())),
        ),
        None => None,
    }
}

impl ParsedResponse {
    /// Parses the bytes of a response. They are decoded as UTF-8 first;
    /// bytes that are not valid UTF-8 are refused.
    pub fn parse(raw: &[u8]) -> (r: Result<ParsedResponse, FetchError>)
        ensures
            match r {
                Ok(response) => response_of_bytes(raw@) == Ok::<ResponseView, FetchError>(
                    response@,
                ),
                Err(e) => response_of_bytes(raw@) == Err::<ResponseView, FetchError>(e),
            },
    {
        match decode(raw) {
            Some(text) => {
                proof {
                    encode_utf8_decode_utf8(text@);
                }
                ParsedResponse::parse_text(text)
            },
            None => Err(FetchError::InvalidEncoding),
        }
    }

    /// Parses the text of a response.
    pub fn parse_text(text: &str) -> (r: Result<ParsedResponse, FetchError>)
        ensures
            match r {
                Ok(response) => response_of(text@) == Ok::<ResponseView, FetchError>(response@),
                Err(e) => response_of(text@) == Err::<ResponseView, FetchError>(e),
            },
    {
        let chars = chars_of(text);
        let brk: Vec<char> = vec!['\r', '\n'];
        assert(brk@ =~= line_break());
        let lines = split(chars.as_slice(), brk.as_slice());
        let ghost all = pieces(text@, line_break());
        proof {
            lemma_pieces_nonempty(text@, line_break());
            lemma_first_blank(all, 1);
        }
        let n: usize = lines.len();
        assert(all[0] == lines@[0]@);
        let (version, status_code, reason): (String, u16, String) = match parse_status_line(
            lines[0].as_slice(),
        ) {
            Some(status) => status,
            None => {
                return Err(FetchError::MalformedResponse);
            },
        };
        let mut headers: StringHashMap<String> = StringHashMap::new();
        let mut i: usize = 1;
        assert(all.subrange(1, 1) =~= Seq::<Seq<char>>::empty());
        assert(headers@.map_values(|v: String| v@) =~= header_map(all.subrange(1, 1)));
        while i < n && !is_blank(lines[i].as_slice())
            invariant
                1 <= i <= n,
                n == lines@.len(),
                all == views(lines@),
                all == pieces(text@, line_break()),
                i <= first_blank(all, 1),
                all_headers(all.subrange(1, i as int)),
                headers@.map_values(|v: String| v@) == header_map(all.subrange(1, i as int)),
            decreases n - i,
        {
            let line = lines[i].as_slice();
            assert(line@ == all[i as int]);
            proof {
                lemma_first_blank(all, 1);
            }
            let (raw_name, raw_value): (&[char], &[char]) = match cut_header(line) {
                Some(parts) => parts,
                None => {
                    assert(all.subrange(1, first_blank(all, 1))[i - 1] == all[i as int]);
                    return Err(FetchError::MalformedResponse);
                },
            };
            let name = to_lowercase(text_of(trim(raw_name)).as_str());
            let value = text_of(trim(raw_value));
            let ghost before = headers@;
            headers.insert(name, value);
            proof {
                let done = all.subrange(1, i as int);
                let next = all.subrange(1, i + 1);
                assert(next.drop_last() =~= done);
                assert(next.last() == line@);
                assert(before.insert(name@, value).map_values(|v: String| v@) =~= before.map_values(
                    |v: String| v@,
                ).insert(name@, value@));
                assert forall|k: int| 0 <= k < next.len() implies colon_of(
                    #[trigger] next[k],
                ) is Some by {
                    if k < done.len() {
                        assert(next[k] == done[k]);
                    }
                }
            }
            i += 1;
        }
        proof {
            lemma_first_blank(all, 1);
        }
        assert(i < n ==> all[i as int] == lines@[i as int]@);
        assert(i == first_blank(all, 1));
        let mut body = String::new();
        if i < n {
            let mut j: usize = i + 1;
            assert(all.subrange(i + 1, j as int) =~= Seq::<Seq<char>>::empty());
            while j < n
                invariant
                    i < j <= n,
                    n == lines@.len(),
                    all == views(lines@),
                    body@ == all.subrange(i + 1, j as int).flatten(),
                decreases n - j,
            {
                append_chars(&mut body, lines[j].as_slice());
                proof {
                    let done = all.subrange(i + 1, j as int);
                    assert(all.subrange(i + 1, j + 1) =~= done.push(all[j as int]));
                    done.lemma_flatten_push(all[j as int]);
                }
                j += 1;
            }
            assert(all.subrange(i + 1, n as int) =~= all.skip(i + 1));
        }
        Ok(
            ParsedResponse { version, status_code, reason, headers, body },
        )
    }

    /// The protocol version that the status line names.
    pub fn version(&self) -> (r: &str)
        ensures
            r@ == self@.version,
    {
        self.version.as_str()
    }

    /// The status code.
    pub fn status_code(&self) -> (r: u16)
        ensures
            r == self@.status_code,
    {
        self.status_code
    }

    /// The reason phrase: the third field of the status line and no more.
    pub fn reason(&self) -> (r: &str)
        ensures
            r@ == self@.reason,
    {
        self.reason.as_str()
    }

    /// The value of the header `name`, which is looked up as it is given:
    /// names are kept in lower case.
    pub fn header(&self, name: &str) -> (r: Option<&str>)
        ensures
            match r {
                Some(value) => self@.headers.contains_key(name@) && value@
                    == self@.headers[name@],
                None => !self@.headers.contains_key(name@),
            },
    {
        match self.headers.get(name) {
            Some(value) => Some(value.as_str()),
            None => None,
        }
    }

    /// The number of headers with different names.
    pub fn header_count(&self) -> (r: usize)
        ensures
            r == self@.headers.len(),
    {
        assert(self@.headers.dom() =~= self.headers@.dom());
        self.headers.len()
    }

    /// The body.
    pub fn body(&self) -> (r: &str)
        ensures
            r@ == self@.body,
    {
        self.body.as_str()
    }
}

} // verus!
