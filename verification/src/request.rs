//! The request of the lookup protocol.
//!
//! A client sends at most one token. What arrives is a buffer of bytes whose
//! unused tail is filled with zero bytes; the text before the fill is split
//! at whitespace. No token asks for the status report, one token names a
//! user, and anything more is malformed.

use crate::text::{chars_of, push_range};
use vstd::prelude::*;
use vstd::slice::slice_subrange;
use vstd::utf8::{decode_utf8, valid_utf8};

verus! {

/// The size of the buffer into which a message is read.
pub const BUFFER_SIZE: usize = 1024;

/// A parsed request.
#[derive(Debug, PartialEq, Eq)]
pub enum Request {
    /// No token: the client asks for the status report.
    Empty,
    /// One token: the client asks for the plan of the user of that name.
    Named(String),
    /// More than one token.
    Malformed,
}

/// The mathematical content of a [`Request`].
pub enum RequestView {
    Empty,
    Named(Seq<char>),
    Malformed,
}

impl View for Request {
    type V = RequestView;

    open spec fn view(&self) -> RequestView {
        match self {
            Request::Empty => RequestView::Empty,
            Request::Named(name) => RequestView::Named(name@),
            Request::Malformed => RequestView::Malformed,
        }
    }
}

/// Whether `c` is whitespace: a character that Unicode marks as
/// `White_Space`.
pub open spec fn is_space(c: char) -> bool {
    let u = c as u32;
    ||| 0x09 <= u <= 0x0d
    ||| u == 0x20
    ||| u == 0x85
    ||| u == 0xa0
    ||| u == 0x1680
    ||| 0x2000 <= u <= 0x200a
    ||| u == 0x2028
    ||| u == 0x2029
    ||| u == 0x202f
    ||| u == 0x205f
    ||| u == 0x3000
}

/// Whether a token begins at position `i` of `text`: a character that is not
/// whitespace, at the start of the text or behind whitespace.
pub open spec fn starts_token(text: Seq<char>, i: int) -> bool {
    &&& 0 <= i < text.len()
    &&& !is_space(text[i])
    &&& (i == 0 || is_space(text[i - 1]))
}

/// The number of tokens in `text`.
pub open spec fn token_count(text: Seq<char>) -> nat
    decreases text.len(),
{
    if text.len() == 0 {
        0
    } else {
        token_count(text.drop_last()) + if starts_token(text, text.len() - 1) {
            1nat
        } else {
            0nat
        }
    }
}

/// The number of whitespace characters at the start of `text`.
pub open spec fn leading_blank(text: Seq<char>) -> nat
    decreases text.len(),
{
    if text.len() > 0 && is_space(text[0]) {
        1 + leading_blank(text.skip(1))
    } else {
        0
    }
}

/// The number of whitespace characters at the end of `text`.
pub open spec fn trailing_blank(text: Seq<char>) -> nat
    decreases text.len(),
{
    if text.len() > 0 && is_space(text.last()) {
        1 + trailing_blank(text.drop_last())
    } else {
        0
    }
}

/// `text` without the whitespace at its start and at its end.
pub open spec fn trimmed(text: Seq<char>) -> Seq<char> {
    if leading_blank(text) == text.len() {
        Seq::empty()
    } else {
        text.subrange(leading_blank(text) as int, text.len() - trailing_blank(text))
    }
}

/// The request that `text` makes.
pub open spec fn request_of(text: Seq<char>) -> RequestView {
    if token_count(text) == 0 {
        RequestView::Empty
    } else if token_count(text) == 1 {
        RequestView::Named(trimmed(text))
    } else {
        RequestView::Malformed
    }
}

/// The length of `buf` without the zero bytes that fill its end.
pub open spec fn content_len(buf: Seq<u8>) -> nat
    decreases buf.len(),
{
    if buf.len() > 0 && buf.last() == 0 {
        content_len(buf.drop_last())
    } else {
        buf.len()
    }
}

/// The request that the buffer `buf` holds, if the bytes before the fill are
/// UTF-8.
pub open spec fn decoded_request(buf: Seq<u8>) -> Option<RequestView> {
    let bytes = buf.take(content_len(buf) as int);
    if valid_utf8(bytes) {
        Some(request_of(decode_utf8(bytes)))
    } else {
        None
    }
}

/// Whether `c` is whitespace.
pub fn is_whitespace(c: char) -> (b: bool)
    ensures
        b == is_space(c),
{
    let u: u32 = c as u32;
    (0x09 <= u && u <= 0x0d) || u == 0x20 || u == 0x85 || u == 0xa0 || u == 0x1680 || (0x2000 <= u
        && u <= 0x200a) || u == 0x2028 || u == 0x2029 || u == 0x202f || u == 0x205f || u == 0x3000
}

/// Extending a text by one character adds a token exactly if a token begins
/// at that character.
pub proof fn lemma_token_count_step(text: Seq<char>, n: int)
    requires
        0 <= n < text.len(),
    ensures
        token_count(text.take(n + 1)) == token_count(text.take(n)) + if starts_token(text, n) {
            1nat
        } else {
            0nat
        },
{
    let next = text.take(n + 1);
    assert(next.drop_last() =~= text.take(n));
    assert(starts_token(next, n) == starts_token(text, n));
}

/// A text whose first `n` characters are whitespace, and whose next one is
/// not, begins with exactly `n` whitespace characters.
pub proof fn lemma_leading_blank(text: Seq<char>, n: int)
    requires
        0 <= n <= text.len(),
        forall|k: int| 0 <= k < n ==> is_space(#[trigger] text[k]),
        n < text.len() ==> !is_space(text[n]),
    ensures
        leading_blank(text) == n,
    decreases n,
{
    if n > 0 {
        let rest = text.skip(1);
        assert forall|k: int| 0 <= k < n - 1 implies is_space(#[trigger] rest[k]) by {
            assert(rest[k] == text[k + 1]);
        }
        lemma_leading_blank(rest, n - 1);
    }
}

/// A text whose last `n` characters are whitespace, and whose one before
/// them is not, ends with exactly `n` whitespace characters.
pub proof fn lemma_trailing_blank(text: Seq<char>, n: int)
    requires
        0 <= n <= text.len(),
        forall|k: int| text.len() - n <= k < text.len() ==> is_space(#[trigger] text[k]),
        n < text.len() ==> !is_space(text[text.len() - n - 1]),
    ensures
        trailing_blank(text) == n,
    decreases n,
{
    if n > 0 {
        let rest = text.drop_last();
        assert forall|k: int| rest.len() - (n - 1) <= k < rest.len() implies is_space(
            #[trigger] rest[k],
        ) by {
            assert(rest[k] == text[k]);
        }
        lemma_trailing_blank(rest, n - 1);
    }
}

/// The whitespace at the start of a text is whitespace, and what follows
/// it is not.
pub proof fn lemma_leading_blank_ends(text: Seq<char>)
    ensures
        leading_blank(text) <= text.len(),
        forall|k: int| 0 <= k < leading_blank(text) ==> is_space(#[trigger] text[k]),
        leading_blank(text) < text.len() ==> !is_space(text[leading_blank(text) as int]),
    decreases text.len(),
{
    if text.len() > 0 && is_space(text[0]) {
        let rest = text.skip(1);
        lemma_leading_blank_ends(rest);
        assert forall|k: int| 0 <= k < leading_blank(text) implies is_space(
            #[trigger] text[k],
        ) by {
            if k > 0 {
                assert(text[k] == rest[k - 1]);
            }
        }
        if leading_blank(text) < text.len() {
            assert(text[leading_blank(text) as int] == rest[leading_blank(rest) as int]);
        }
    }
}

/// The whitespace at the end of a text is whitespace, and what stands
/// before it is not.
pub proof fn lemma_trailing_blank_ends(text: Seq<char>)
    ensures
        trailing_blank(text) <= text.len(),
        forall|k: int|
            text.len() - trailing_blank(text) <= k < text.len() ==> is_space(#[trigger] text[k]),
        trailing_blank(text) < text.len() ==> !is_space(
            text[text.len() - trailing_blank(text) - 1],
        ),
    decreases text.len(),
{
    if text.len() > 0 && is_space(text.last()) {
        let rest = text.drop_last();
        lemma_trailing_blank_ends(rest);
        assert forall|k: int|
            text.len() - trailing_blank(text) <= k < text.len() implies is_space(
            #[trigger] text[k],
        ) by {
            if k < rest.len() {
                assert(text[k] == rest[k]);
            }
        }
        if trailing_blank(text) < text.len() {
            assert(text[text.len() - trailing_blank(text) - 1] == rest[rest.len()
                - trailing_blank(rest) - 1]);
        }
    }
}

/// A longer start of a text holds no fewer tokens than a shorter one.
pub proof fn lemma_token_count_grows(text: Seq<char>, n: int, m: int)
    requires
        0 <= n <= m <= text.len(),
    ensures
        token_count(text.take(n)) <= token_count(text.take(m)),
    decreases m - n,
{
    if n < m {
        lemma_token_count_grows(text, n, m - 1);
        lemma_token_count_step(text, m - 1);
    }
}

/// Between a whitespace character and a later character that is none, a
/// token begins.
pub proof fn lemma_token_starts_after_space(text: Seq<char>, p: int, e: int) -> (q: int)
    requires
        0 <= p < e < text.len(),
        is_space(text[p]),
        !is_space(text[e]),
    ensures
        p < q <= e,
        starts_token(text, q),
    decreases e - p,
{
    if is_space(text[e - 1]) {
        e
    } else {
        lemma_token_starts_after_space(text, p, e - 1)
    }
}

/// Whether `text` holds a whitespace character.
pub open spec fn has_space(text: Seq<char>) -> bool {
    exists|k: int| 0 <= k < text.len() && is_space(#[trigger] text[k])
}

/// The request that `text` makes, found by trimming: nothing is left of an
/// empty request, whitespace is left within a malformed one, and what is
/// left of any other is the name.
pub open spec fn request_by_trimming(text: Seq<char>) -> RequestView {
    if trimmed(text).len() == 0 {
        RequestView::Empty
    } else if has_space(trimmed(text)) {
        RequestView::Malformed
    } else {
        RequestView::Named(trimmed(text))
    }
}

/// Counting tokens and trimming come to the same request: a text holds no
/// token exactly if trimming leaves nothing of it, and more than one exactly
/// if trimming leaves whitespace within it.
pub proof fn lemma_request_by_trimming(text: Seq<char>)
    ensures
        request_of(text) == request_by_trimming(text),
{
    lemma_leading_blank_ends(text);
    lemma_trailing_blank_ends(text);
    let n = text.len() as int;
    let a = leading_blank(text) as int;
    let b = n - trailing_blank(text);
    assert(text.take(n) =~= text);
    if a == n {
        lemma_blank_has_no_token(text);
    } else {
        // The first token begins behind the leading whitespace.
        assert(a < b);
        assert(starts_token(text, a));
        lemma_token_count_step(text, a);
        lemma_token_count_grows(text, a + 1, n);
        let t = trimmed(text);
        assert(t.len() == b - a);
        assert forall|k: int| 0 <= k < t.len() implies t[k] == text[a + k] by {}
        if has_space(t) {
            let k = choose|k: int| 0 <= k < t.len() && is_space(#[trigger] t[k]);
            let p = a + k;
            assert(is_space(text[p]));
            let q = lemma_token_starts_after_space(text, p, b - 1);
            lemma_token_count_step(text, q);
            lemma_token_count_grows(text, a + 1, q);
            lemma_token_count_grows(text, q + 1, n);
        } else {
            assert forall|k: int| a <= k < b implies !is_space(text[k]) by {
                assert(t[k - a] == text[k]);
            }
            assert forall|k: int| a + 1 <= k < n implies !starts_token(text, k) by {
                if k < b {
                    assert(!is_space(text[k - 1]));
                }
            }
            lemma_blank_has_no_token(text.take(a));
            lemma_no_token_starts(text, a + 1, n);
        }
    }
}

/// Where no token begins between two positions, the count of tokens stays.
pub proof fn lemma_no_token_starts(text: Seq<char>, n: int, m: int)
    requires
        0 <= n <= m <= text.len(),
        forall|k: int| n <= k < m ==> !starts_token(text, k),
    ensures
        token_count(text.take(m)) == token_count(text.take(n)),
    decreases m - n,
{
    if n < m {
        lemma_no_token_starts(text, n, m - 1);
        lemma_token_count_step(text, m - 1);
    }
}

/// The name of a named request is one token: it is not empty and holds no
/// whitespace.
pub proof fn lemma_named_is_one_token(text: Seq<char>)
    requires
        request_of(text) is Named,
    ensures
        request_of(text) == RequestView::Named(trimmed(text)),
        trimmed(text).len() > 0,
        !has_space(trimmed(text)),
{
    lemma_request_by_trimming(text);
}

/// The request that `text` makes.
pub fn parse_request(text: &str) -> (request: Request)
    ensures
        request@ == request_of(text@),
{
    let chars = chars_of(text);
    let n = chars.len();
    // Count the places where a token begins; two are as bad as many.
    let mut count: usize = 0;
    let mut i: usize = 0;
    assert(chars@.take(0) =~= Seq::<char>::empty());
    while i < n
        invariant
            n == chars.len(),
            i <= n,
            count <= 2,
            count < 2 ==> count == token_count(chars@.take(i as int)),
            count == 2 ==> token_count(chars@.take(i as int)) >= 2,
        decreases n - i,
    {
        proof {
            lemma_token_count_step(chars@, i as int);
        }
        if !is_whitespace(chars[i]) && (i == 0 || is_whitespace(chars[i - 1])) {
            if count < 2 {
                count += 1;
            }
        }
        i += 1;
    }
    assert(chars@.take(n as int) =~= chars@);
    if count == 0 {
        return Request::Empty;
    }
    if count >= 2 {
        return Request::Malformed;
    }
    // One token: it has a first character and a last one.
    let mut from: usize = 0;
    while from < n && is_whitespace(chars[from])
        invariant
            n == chars.len(),
            from <= n,
            forall|k: int| 0 <= k < from ==> is_space(#[trigger] chars@[k]),
        decreases n - from,
    {
        from += 1;
    }
    proof {
        lemma_leading_blank(chars@, from as int);
        if from == n {
            lemma_blank_has_no_token(chars@);
        }
    }
    let mut to: usize = n;
    while to > from && is_whitespace(chars[to - 1])
        invariant
            n == chars.len(),
            from <= to <= n,
            from < n,
            !is_space(chars@[from as int]),
            forall|k: int| to <= k < n ==> is_space(#[trigger] chars@[k]),
        decreases to,
    {
        to -= 1;
    }
    proof {
        lemma_trailing_blank(chars@, n - to);
    }
    let mut name = String::new();
    push_range(&mut name, &chars, from, to);
    Request::Named(name)
}

/// A text of whitespace alone holds no token.
pub proof fn lemma_blank_has_no_token(text: Seq<char>)
    requires
        forall|k: int| 0 <= k < text.len() ==> is_space(#[trigger] text[k]),
    ensures
        token_count(text) == 0,
    decreases text.len(),
{
    if text.len() > 0 {
        let rest = text.drop_last();
        assert forall|k: int| 0 <= k < rest.len() implies is_space(#[trigger] rest[k]) by {
            assert(rest[k] == text[k]);
        }
        lemma_blank_has_no_token(rest);
    }
}

/// The length of `buf` without the zero bytes that fill its end.
pub fn content_length(buf: &[u8]) -> (n: usize)
    ensures
        n == content_len(buf@),
        n <= buf@.len(),
{
    let mut n: usize = buf.len();
    assert(buf@.take(n as int) =~= buf@);
    while n > 0 && buf[n - 1] == 0
        invariant
            n <= buf.len(),
            content_len(buf@) == content_len(buf@.take(n as int)),
        decreases n,
    {
        assert(buf@.take(n as int).drop_last() =~= buf@.take(n - 1));
        n -= 1;
    }
    n
}

/// `core::str::from_utf8`: the text that `bytes` encode, if they are UTF-8.
#[verifier::external_body]
fn utf8_text(bytes: &[u8]) -> (text: Option<&str>)
    ensures
        text is Some <==> valid_utf8(bytes@),
        text matches Some(t) ==> t@ == decode_utf8(bytes@),
{
    core::str::from_utf8(bytes).ok()
}

/// The request that the buffer `buf` holds: `None` where the bytes before
/// the fill are not UTF-8.
pub fn decode_request(buf: &[u8]) -> (request: Option<Request>)
    ensures
        match request {
            Some(r) => decoded_request(buf@) == Some(r@),
            None => decoded_request(buf@) is None,
        },
{
    let n = content_length(buf);
    let bytes = slice_subrange(buf, 0, n);
    assert(bytes@ =~= buf@.take(n as int));
    match utf8_text(bytes) {
        Some(text) => Some(parse_request(text)),
        None => None,
    }
}

} // verus!
