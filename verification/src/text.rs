use vstd::prelude::*;
use vstd::slice::{slice_subrange, slice_to_vec};

verus! {

/// `String::push` appends exactly the given character and leaves the
/// characters before it as they were. Stated after the documentation of std;
/// not proved here.
pub assume_specification[ String::push ](s: &mut String, ch: char)
    ensures
        final(s)@ == old(s)@.push(ch),
;

/// Whether `c` counts as whitespace: the value of `char::is_whitespace`,
/// which std defines by the Unicode property `White_Space`.
pub uninterp spec fn is_whitespace(c: char) -> bool;

/// Calls `char::is_whitespace`. The contract only gives the answer its name;
/// nothing is claimed about which characters are whitespace.
#[verifier::external_body]
fn is_space(c: char) -> (r: bool)
    ensures
        r == is_whitespace(c),
{
    c.is_whitespace()
}

/// `pat` stands in `s` at index `i`.
pub open spec fn occurs_at(s: Seq<char>, pat: Seq<char>, i: int) -> bool {
    0 <= i && i + pat.len() <= s.len() && s.subrange(i, i + pat.len()) == pat
}

/// The least index at or after `from` where `pat` stands in `s`, if there is
/// one.
pub open spec fn find_from(s: Seq<char>, pat: Seq<char>, from: int) -> Option<int>
    decreases s.len() + 1 - from,
{
    if from < 0 || from + pat.len() > s.len() {
        None
    } else if occurs_at(s, pat, from) {
        Some(from)
    } else {
        find_from(s, pat, from + 1)
    }
}

/// The pieces of `s` from index `from` on, cut at each occurrence of `pat`
/// from left to right; occurrences do not overlap and are not part of any
/// piece. An empty `pat` cuts nowhere.
pub open spec fn split_from(s: Seq<char>, pat: Seq<char>, from: int) -> Seq<Seq<char>>
    decreases s.len() - from,
    when 0 <= from <= s.len()
{
    if pat.len() == 0 {
        seq![s.subrange(from, s.len() as int)]
    } else {
        match find_from(s, pat, from) {
            Some(i) => {
                proof {
                    lemma_find_from(s, pat, from);
                }
                seq![s.subrange(from, i)] + split_from(s, pat, i + pat.len())
            },
            None => seq![s.subrange(from, s.len() as int)],
        }
    }
}

/// The pieces of the whole of `s`, cut at each occurrence of `pat`.
pub open spec fn pieces(s: Seq<char>, pat: Seq<char>) -> Seq<Seq<char>> {
    split_from(s, pat, 0)
}

/// The greatest index at which `c` stands in `s`, if there is one.
pub open spec fn last_index_of(s: Seq<char>, c: char) -> Option<int>
    decreases s.len(),
{
    if s.len() == 0 {
        None
    } else if s.last() == c {
        Some(s.len() - 1)
    } else {
        last_index_of(s.drop_last(), c)
    }
}

/// `s` without its leading whitespace.
pub open spec fn trimmed_start(s: Seq<char>) -> Seq<char>
    decreases s.len(),
{
    if s.len() > 0 && is_whitespace(s[0]) {
        trimmed_start(s.drop_first())
    } else {
        s
    }
}

/// `s` without its trailing whitespace.
pub open spec fn trimmed_end(s: Seq<char>) -> Seq<char>
    decreases s.len(),
{
    if s.len() > 0 && is_whitespace(s.last()) {
        trimmed_end(s.drop_last())
    } else {
        s
    }
}

/// `s` without its leading and trailing whitespace.
pub open spec fn trimmed(s: Seq<char>) -> Seq<char> {
    trimmed_end(trimmed_start(s))
}

/// The views of a vector of character vectors, piece by piece.
pub open spec fn views(parts: Seq<Vec<char>>) -> Seq<Seq<char>> {
    Seq::new(parts.len(), |i: int| parts[i]@)
}

/// What `find_from` returns is an occurrence, and the first one from `from`
/// on; when it returns nothing there is none.
pub proof fn lemma_find_from(s: Seq<char>, pat: Seq<char>, from: int)
    requires
        0 <= from,
    ensures
        match find_from(s, pat, from) {
            Some(i) => from <= i && occurs_at(s, pat, i) && forall|j: int|
                from <= j < i ==> !occurs_at(s, pat, j),
            None => forall|j: int| from <= j ==> !occurs_at(s, pat, j),
        },
    decreases s.len() + 1 - from,
{
    if from + pat.len() > s.len() {
    } else if occurs_at(s, pat, from) {
    } else {
        lemma_find_from(s, pat, from + 1);
    }
}

/// An occurrence with none before it, counted from `from`, is what
/// `find_from` returns.
pub proof fn lemma_find_from_is(s: Seq<char>, pat: Seq<char>, from: int, i: int)
    requires
        0 <= from <= i,
        occurs_at(s, pat, i),
        forall|j: int| from <= j < i ==> !occurs_at(s, pat, j),
    ensures
        find_from(s, pat, from) == Some(i),
{
    lemma_find_from(s, pat, from);
}

/// A pattern of one character stands exactly where that character stands.
pub proof fn lemma_occurs_char(s: Seq<char>, c: char, i: int)
    ensures
        occurs_at(s, seq![c], i) <==> (0 <= i < s.len() && s[i] == c),
{
    if 0 <= i < s.len() {
        let sub = s.subrange(i, i + 1);
        assert(sub[0] == s[i]);
        if s[i] == c {
            assert(sub =~= seq![c]);
        } else {
            assert(seq![c][0] == c);
        }
    }
}

/// What `last_index_of` returns is an index of `c` with none after it; when
/// it returns nothing `c` does not stand in `s`.
pub proof fn lemma_last_index_of(s: Seq<char>, c: char)
    ensures
        match last_index_of(s, c) {
            Some(i) => 0 <= i < s.len() && s[i] == c && forall|j: int|
                i < j < s.len() ==> s[j] != c,
            None => forall|j: int| 0 <= j < s.len() ==> s[j] != c,
        },
    decreases s.len(),
{
    if s.len() > 0 && s.last() != c {
        let front = s.drop_last();
        lemma_last_index_of(front, c);
        assert(forall|j: int| 0 <= j < front.len() ==> front[j] == s[j]);
    }
}

/// Cutting always leaves at least one piece.
pub proof fn lemma_pieces_nonempty(s: Seq<char>, pat: Seq<char>)
    ensures
        pieces(s, pat).len() >= 1,
{
    if pat.len() > 0 {
        lemma_find_from(s, pat, 0);
    }
}

/// An index of `c` with none after it is what `last_index_of` returns.
pub proof fn lemma_last_index_is(s: Seq<char>, c: char, i: int)
    requires
        0 <= i < s.len(),
        s[i] == c,
        forall|j: int| i < j < s.len() ==> s[j] != c,
    ensures
        last_index_of(s, c) == Some(i),
{
    lemma_last_index_of(s, c);
}

/// The characters of `s`, in order, as a vector that can be indexed in
/// constant time.
pub fn chars_of(s: &str) -> (out: Vec<char>)
    ensures
        out@ == s@,
{
    let mut out: Vec<char> = Vec::new();
    for c in it: s.chars()
        invariant
            it.seq() == s@,
            out@ == s@.take(it.index() as int),
    {
        out.push(c);
    }
    out
}

/// The text made of `chars[from..to]`.
pub fn string_of(chars: &[char], from: usize, to: usize) -> (out: String)
    requires
        from <= to <= chars@.len(),
    ensures
        out@ == chars@.subrange(from as int, to as int),
{
    let mut out = String::new();
    let mut i: usize = from;
    while i < to
        invariant
            from <= i <= to <= chars@.len(),
            out@ == chars@.subrange(from as int, i as int),
        decreases to - i,
    {
        out.push(chars[i]);
        i += 1;
        assert(chars@.subrange(from as int, i as int) == chars@.subrange(from as int, i - 1).push(
            chars@[i - 1],
        ));
    }
    out
}

/// The whole of `chars` as text.
pub fn text_of(chars: &[char]) -> (out: String)
    ensures
        out@ == chars@,
{
    let out = string_of(chars, 0, chars.len());
    assert(chars@.subrange(0, chars@.len() as int) == chars@);
    out
}

/// Appends `chars` to `out`.
pub fn append_chars(out: &mut String, chars: &[char])
    ensures
        final(out)@ == old(out)@ + chars@,
{
    let mut i: usize = 0;
    assert(chars@.take(0) =~= Seq::<char>::empty());
    while i < chars.len()
        invariant
            i <= chars@.len(),
            out@ == old(out)@ + chars@.take(i as int),
        decreases chars@.len() - i,
    {
        out.push(chars[i]);
        i += 1;
        assert(chars@.take(i as int) =~= chars@.take(i - 1).push(chars@[i - 1]));
    }
    assert(chars@.take(i as int) =~= chars@);
}

/// Whether `pat` stands in `hay` at index `i`.
pub fn matches_at(hay: &[char], pat: &[char], i: usize) -> (r: bool)
    ensures
        r == occurs_at(hay@, pat@, i as int),
{
    let n: usize = hay.len();
    let m: usize = pat.len();
    if m > n || i > n - m {
        return false;
    }
    let mut k: usize = 0;
    while k < m
        invariant
            n == hay@.len(),
            m == pat@.len(),
            i + m <= n,
            k <= m,
            forall|j: int| 0 <= j < k ==> hay@[i + j] == pat@[j],
        decreases m - k,
    {
        if hay[i + k] != pat[k] {
            assert(hay@.subrange(i as int, i + m)[k as int] != pat@[k as int]);
            return false;
        }
        k += 1;
    }
    assert(hay@.subrange(i as int, i + m) =~= pat@);
    true
}

/// The first index at or after `from` where `pat` stands in `hay`.
pub fn find(hay: &[char], pat: &[char], from: usize) -> (r: Option<usize>)
    ensures
        match r {
            Some(i) => find_from(hay@, pat@, from as int) == Some(i as int),
            None => find_from(hay@, pat@, from as int) is None,
        },
{
    let n: usize = hay.len();
    let m: usize = pat.len();
    if m > n || from > n - m {
        return None;
    }
    let mut i: usize = from;
    loop
        invariant
            n == hay@.len(),
            m == pat@.len(),
            from <= i,
            i + m <= n,
            find_from(hay@, pat@, from as int) == find_from(hay@, pat@, i as int),
        decreases n - i,
    {
        if matches_at(hay, pat, i) {
            return Some(i);
        }
        if i == n - m {
            assert(find_from(hay@, pat@, i + 1) is None);
            return None;
        }
        i += 1;
    }
}

/// The last index at which `c` stands in `chars`.
pub fn rfind_char(chars: &[char], c: char) -> (r: Option<usize>)
    ensures
        match r {
            Some(i) => last_index_of(chars@, c) == Some(i as int),
            None => last_index_of(chars@, c) is None,
        },
{
    let mut i: usize = chars.len();
    assert(chars@.take(i as int) == chars@);
    while i > 0
        invariant
            i <= chars@.len(),
            last_index_of(chars@, c) == last_index_of(chars@.take(i as int), c),
        decreases i,
    {
        if chars[i - 1] == c {
            return Some(i - 1);
        }
        assert(chars@.take(i as int).drop_last() == chars@.take(i - 1));
        i -= 1;
    }
    None
}

/// Cuts `hay` at each occurrence of `pat`, from left to right.
pub fn split(hay: &[char], pat: &[char]) -> (parts: Vec<Vec<char>>)
    ensures
        views(parts@) == pieces(hay@, pat@),
{
    let n: usize = hay.len();
    let m: usize = pat.len();
    let mut parts: Vec<Vec<char>> = Vec::new();
    if m == 0 {
        parts.push(slice_to_vec(hay));
        assert(hay@.subrange(0, n as int) == hay@);
        assert(views(parts@) =~= seq![hay@]);
        return parts;
    }
    let mut start: usize = 0;
    assert(views(parts@) + split_from(hay@, pat@, 0) =~= pieces(hay@, pat@));
    loop
        invariant_except_break
            views(parts@) + split_from(hay@, pat@, start as int) == pieces(hay@, pat@),
        invariant
            n == hay@.len(),
            m == pat@.len(),
            m > 0,
            start <= n,
        ensures
            views(parts@) == pieces(hay@, pat@),
        decreases n - start,
    {
        let ghost before = views(parts@);
        proof {
            lemma_find_from(hay@, pat@, start as int);
        }
        match find(hay, pat, start) {
            Some(i) => {
                parts.push(slice_to_vec(slice_subrange(hay, start, i)));
                assert(views(parts@) =~= before + seq![hay@.subrange(start as int, i as int)]);
                assert(before + (seq![hay@.subrange(start as int, i as int)] + split_from(
                    hay@,
                    pat@,
                    i + m,
                )) =~= views(parts@) + split_from(hay@, pat@, i + m));
                start = i + m;
            },
            None => {
                parts.push(slice_to_vec(slice_subrange(hay, start, n)));
                assert(views(parts@) =~= before + seq![hay@.subrange(start as int, n as int)]);
                break ;
            },
        }
    }
    parts
}

/// The part of `chars` between its leading and its trailing whitespace.
pub fn trim(chars: &[char]) -> (r: &[char])
    ensures
        r@ == trimmed(chars@),
{
    let n: usize = chars.len();
    let mut a: usize = 0;
    assert(chars@.subrange(0, n as int) == chars@);
    while a < n && is_space(chars[a])
        invariant
            a <= n,
            n == chars@.len(),
            trimmed_start(chars@) == trimmed_start(chars@.subrange(a as int, n as int)),
        decreases n - a,
    {
        assert(chars@.subrange(a as int, n as int).drop_first() == chars@.subrange(
            a + 1,
            n as int,
        ));
        a += 1;
    }
    let mut b: usize = n;
    while b > a && is_space(chars[b - 1])
        invariant
            a <= b <= n,
            n == chars@.len(),
            trimmed_start(chars@) == chars@.subrange(a as int, n as int),
            trimmed(chars@) == trimmed_end(chars@.subrange(a as int, b as int)),
        decreases b - a,
    {
        assert(chars@.subrange(a as int, b as int).drop_last() == chars@.subrange(
            a as int,
            b - 1,
        ));
        b -= 1;
    }
    slice_subrange(chars, a, b)
}

/// Whether `chars` holds nothing but whitespace.
pub fn is_blank(chars: &[char]) -> (r: bool)
    ensures
        r == (trimmed(chars@).len() == 0),
{
    trim(chars).len() == 0
}

} // verus!
