use vstd::prelude::*;

verus! {

/// Position `i` of `s` lies inside a tag: a `<` stands before it with no `>`
/// in between. Tags do not nest, so only the nearest bracket counts.
pub open spec fn in_tag(s: Seq<char>, i: int) -> bool {
    exists|j: int| 0 <= j < i && s[j] == '<' && forall|k: int| j < k < i ==> s[k] != '>'
}

/// The character at position `i` of `s` is shown: it is no angle bracket and
/// lies outside every tag.
pub open spec fn shown(s: Seq<char>, i: int) -> bool {
    s[i] != '<' && s[i] != '>' && !in_tag(s, i)
}

/// The shown characters among the first `n` of `s`, in order.
pub open spec fn visible_prefix(s: Seq<char>, n: int) -> Seq<char>
    decreases n,
{
    if n <= 0 {
        Seq::empty()
    } else if shown(s, n - 1) {
        visible_prefix(s, n - 1).push(s[n - 1])
    } else {
        visible_prefix(s, n - 1)
    }
}

/// The visible text of `s`: its shown characters, in order.
pub open spec fn stripped(s: Seq<char>) -> Seq<char> {
    visible_prefix(s, s.len() as int)
}

/// `s` holds no angle bracket.
pub open spec fn is_plain(s: Seq<char>) -> bool {
    forall|i: int| 0 <= i < s.len() ==> s[i] != '<' && s[i] != '>'
}

/// How being inside a tag passes from one position to the next: a `<` opens
/// a tag, a `>` closes it, any other character leaves it as it was.
pub proof fn lemma_in_tag_step(s: Seq<char>, i: int)
    requires
        0 <= i < s.len(),
    ensures
        in_tag(s, i + 1) == (s[i] == '<' || (s[i] != '>' && in_tag(s, i))),
{
    if s[i] == '<' {
        assert(0 <= i < i + 1 && s[i] == '<' && forall|k: int| i < k < i + 1 ==> s[k] != '>');
    } else if s[i] != '>' && in_tag(s, i) {
        let j = choose|j: int| 0 <= j < i && s[j] == '<' && forall|k: int| j < k < i ==> s[k] != '>';
        assert(0 <= j < i + 1 && s[j] == '<' && forall|k: int| j < k < i + 1 ==> s[k] != '>');
    }
    if in_tag(s, i + 1) {
        let j = choose|j: int|
            0 <= j < i + 1 && s[j] == '<' && forall|k: int| j < k < i + 1 ==> s[k] != '>';
        if j < i {
            assert(s[i] != '>');
            assert(0 <= j < i && s[j] == '<' && forall|k: int| j < k < i ==> s[k] != '>');
        }
    }
}

/// Nothing lies inside a tag where no `<` has gone before.
pub proof fn lemma_plain_prefix(s: Seq<char>, n: int)
    requires
        is_plain(s),
        0 <= n <= s.len(),
    ensures
        visible_prefix(s, n) == s.take(n),
    decreases n,
{
    if n > 0 {
        lemma_plain_prefix(s, n - 1);
        assert(!in_tag(s, n - 1));
        assert(s.take(n - 1).push(s[n - 1]) =~= s.take(n));
    } else {
        assert(s.take(0) =~= Seq::<char>::empty());
    }
}

/// Text without angle brackets is its own visible text.
pub proof fn lemma_stripped_plain(s: Seq<char>)
    requires
        is_plain(s),
    ensures
        stripped(s) == s,
{
    lemma_plain_prefix(s, s.len() as int);
    assert(s.take(s.len() as int) =~= s);
}

/// No angle bracket is ever shown.
pub proof fn lemma_visible_is_plain(s: Seq<char>, n: int)
    requires
        0 <= n <= s.len(),
    ensures
        is_plain(visible_prefix(s, n)),
    decreases n,
{
    if n > 0 {
        lemma_visible_is_plain(s, n - 1);
    }
}

/// Stripping what was stripped changes nothing.
pub proof fn lemma_strip_idempotent(s: Seq<char>)
    ensures
        is_plain(stripped(s)),
        stripped(stripped(s)) == stripped(s),
{
    lemma_visible_is_plain(s, s.len() as int);
    lemma_stripped_plain(stripped(s));
}

/// Whether a position lies inside a tag depends on the characters before
/// it alone.
pub proof fn lemma_in_tag_of_take(s: Seq<char>, i: int, m: int)
    requires
        0 <= i <= m <= s.len(),
    ensures
        in_tag(s.take(m), i) == in_tag(s, i),
{
    let t = s.take(m);
    if in_tag(s, i) {
        let j = choose|j: int| 0 <= j < i && s[j] == '<' && forall|k: int| j < k < i ==> s[k] != '>';
        assert(0 <= j < i && t[j] == '<' && forall|k: int| j < k < i ==> t[k] != '>');
    }
    if in_tag(t, i) {
        let j = choose|j: int| 0 <= j < i && t[j] == '<' && forall|k: int| j < k < i ==> t[k] != '>';
        assert forall|k: int| j < k < i implies s[k] != '>' by {
            assert(t[k] == s[k]);
        }
        assert(0 <= j < i && s[j] == '<' && forall|k: int| j < k < i ==> s[k] != '>');
    }
}

/// What is shown among the first `n` characters depends on those
/// characters alone.
pub proof fn lemma_visible_prefix_of_take(s: Seq<char>, n: int, m: int)
    requires
        0 <= n <= m <= s.len(),
    ensures
        visible_prefix(s.take(m), n) == visible_prefix(s, n),
    decreases n,
{
    if n > 0 {
        lemma_visible_prefix_of_take(s, n - 1, m);
        lemma_in_tag_of_take(s, n - 1, m);
    }
}

/// Behind a `<` that no `>` follows, nothing more is shown.
proof fn lemma_hidden_behind(s: Seq<char>, at: int, n: int)
    requires
        0 <= at < n <= s.len(),
        s[at] == '<',
        forall|k: int| at < k < s.len() ==> s[k] != '>',
    ensures
        visible_prefix(s, n) == visible_prefix(s, at),
    decreases n,
{
    if n - 1 > at {
        lemma_hidden_behind(s, at, n - 1);
        assert(0 <= at < n - 1 && s[at] == '<' && forall|k: int| at < k < n - 1 ==> s[k] != '>');
        assert(in_tag(s, n - 1));
    }
}

/// A tag that is never closed swallows the rest of the text: where a `<`
/// stands with no `>` after it, the visible text is that of the text before
/// the `<`.
pub proof fn lemma_unclosed_tag(s: Seq<char>, at: int)
    requires
        0 <= at < s.len(),
        s[at] == '<',
        forall|k: int| at < k < s.len() ==> s[k] != '>',
    ensures
        stripped(s) == stripped(s.take(at)),
{
    lemma_hidden_behind(s, at, s.len() as int);
    lemma_visible_prefix_of_take(s, at, at);
}

/// Removes the markup from `body`: the text between a `<` and the next `>`
/// is dropped with both brackets, and so is a `>` that closes nothing. A
/// tag left open swallows the rest of the text.
pub fn strip_tags(body: &str) -> (out: String)
    ensures
        out@ == stripped(body@),
{
    let mut out = String::new();
    let mut inside = false;
    for c in it: body.chars()
        invariant
            it.seq() == body@,
            inside == in_tag(body@, it.index() as int),
            out@ == visible_prefix(body@, it.index() as int),
    {
        proof {
            lemma_in_tag_step(body@, it.index() as int);
        }
        if c == '<' {
            inside = true;
        } else if c == '>' {
            inside = false;
        } else if !inside {
            out.push(c);
        }
    }
    out
}

} // verus!
