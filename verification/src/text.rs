//! Text building blocks shared by the request parser and the report writer.
//!
//! Text is modelled as `Seq<char>`, the view of `str` and `String`.

use vstd::prelude::*;

verus! {

/// The character that writes the digit `d`.
pub open spec fn digit(d: nat) -> char
    recommends
        d < 10,
{
    (48 + d) as char
}

/// `n` in decimal, without sign, padding or leading zeros.
pub open spec fn decimal(n: nat) -> Seq<char>
    decreases n,
{
    if n < 10 {
        seq![digit(n)]
    } else {
        decimal(n / 10).push(digit(n % 10))
    }
}

/// `n` in decimal, with a leading zero where it would otherwise be a single
/// digit.
pub open spec fn two_digits(n: nat) -> Seq<char> {
    if n < 10 {
        seq!['0'] + decimal(n)
    } else {
        decimal(n)
    }
}

/// `n` copies of `c`.
pub open spec fn repeated(c: char, n: nat) -> Seq<char> {
    Seq::new(n, |i: int| c)
}

/// `text` with every occurrence of `pattern` replaced by `with`. Occurrences
/// are found from left to right and do not overlap; an empty pattern occurs
/// nowhere.
pub open spec fn replaced(text: Seq<char>, pattern: Seq<char>, with: Seq<char>) -> Seq<char>
    decreases text.len(),
{
    if pattern.len() == 0 || text.len() < pattern.len() {
        text
    } else if pattern.is_prefix_of(text) {
        with + replaced(text.skip(pattern.len() as int), pattern, with)
    } else {
        seq![text[0]] + replaced(text.skip(1), pattern, with)
    }
}

/// Whether `pattern` stands somewhere in `text`.
pub open spec fn occurs_in(pattern: Seq<char>, text: Seq<char>) -> bool {
    exists|i: int| 0 <= i <= text.len() && pattern.is_prefix_of(#[trigger] text.skip(i))
}

/// The pieces that `piece` gives for each of `items`, one after the other.
pub open spec fn gathered<T>(items: Seq<T>, piece: spec_fn(T) -> Seq<char>) -> Seq<char>
    decreases items.len(),
{
    if items.len() == 0 {
        Seq::empty()
    } else {
        gathered(items.drop_last(), piece) + piece(items.last())
    }
}

/// Gathering one item more adds that item's piece.
pub proof fn lemma_gathered_step<T>(items: Seq<T>, piece: spec_fn(T) -> Seq<char>, n: int)
    requires
        0 <= n < items.len(),
    ensures
        gathered(items.take(n + 1), piece) == gathered(items.take(n), piece) + piece(items[n]),
{
    assert(items.take(n + 1).drop_last() =~= items.take(n));
}

/// Gathering from two lists, one after the other, is gathering from the
/// first and then from the second.
pub proof fn lemma_gathered_split<T>(
    first: Seq<T>,
    second: Seq<T>,
    piece: spec_fn(T) -> Seq<char>,
)
    ensures
        gathered(first + second, piece) == gathered(first, piece) + gathered(second, piece),
    decreases second.len(),
{
    if second.len() == 0 {
        assert(first + second =~= first);
        assert(gathered(first, piece) + gathered(second, piece) =~= gathered(first, piece));
    } else {
        lemma_gathered_split(first, second.drop_last(), piece);
        assert((first + second).drop_last() =~= first + second.drop_last());
        assert((first + second).last() == second.last());
        assert(gathered(first, piece) + (gathered(second.drop_last(), piece) + piece(
            second.last(),
        )) =~= (gathered(first, piece) + gathered(second.drop_last(), piece)) + piece(
            second.last(),
        ));
    }
}

/// Items that give no piece add nothing.
pub proof fn lemma_gathered_nothing<T>(items: Seq<T>, piece: spec_fn(T) -> Seq<char>)
    requires
        forall|i: int| 0 <= i < items.len() ==> piece(#[trigger] items[i]).len() == 0,
    ensures
        gathered(items, piece).len() == 0,
    decreases items.len(),
{
    if items.len() > 0 {
        let rest = items.drop_last();
        assert forall|i: int| 0 <= i < rest.len() implies piece(#[trigger] rest[i]).len()
            == 0 by {
            assert(rest[i] == items[i]);
        }
        lemma_gathered_nothing(rest, piece);
        assert(piece(items[items.len() - 1]).len() == 0);
    }
}

/// `String::push`: the text grows by the one character.
#[verifier::external_body]
pub(crate) fn push_char(s: &mut String, c: char)
    ensures
        final(s)@ == old(s)@.push(c),
{
    s.push(c)
}

/// The characters of `s`, in order.
pub fn chars_of(s: &str) -> (v: Vec<char>)
    ensures
        v@ == s@,
{
    let mut v: Vec<char> = Vec::new();
    for c in it: s.chars()
        invariant
            v@ == it.seq().take(it.index()),
            it.seq() == s@,
    {
        v.push(c);
    }
    v
}

/// Appends the characters `chars[from..to]` to `out`.
pub(crate) fn push_range(out: &mut String, chars: &Vec<char>, from: usize, to: usize)
    requires
        from <= to <= chars.len(),
    ensures
        final(out)@ == old(out)@ + chars@.subrange(from as int, to as int),
{
    let mut i: usize = from;
    while i < to
        invariant
            from <= i <= to <= chars.len(),
            out@ == old(out)@ + chars@.subrange(from as int, i as int),
        decreases to - i,
    {
        push_char(out, chars[i]);
        i += 1;
    }
}

/// Appends `n` in decimal to `out`.
pub fn push_decimal(out: &mut String, n: u64)
    ensures
        final(out)@ == old(out)@ + decimal(n as nat),
    decreases n,
{
    if n >= 10 {
        push_decimal(out, n / 10);
    }
    let d: u8 = (n % 10) as u8;
    push_char(out, (48u8 + d) as char);
}

/// Appends `n` in decimal to `out`, at least two digits wide.
pub fn push_two_digits(out: &mut String, n: u64)
    ensures
        final(out)@ == old(out)@ + two_digits(n as nat),
{
    if n < 10 {
        push_char(out, '0');
    }
    push_decimal(out, n);
}

/// Appends `n` copies of `c` to `out`.
pub fn push_repeated(out: &mut String, c: char, n: usize)
    ensures
        final(out)@ == old(out)@ + repeated(c, n as nat),
{
    let mut i: usize = 0;
    while i < n
        invariant
            i <= n,
            out@ == old(out)@ + repeated(c, i as nat),
        decreases n - i,
    {
        push_char(out, c);
        i += 1;
    }
}

/// `n` in decimal.
pub fn decimal_string(n: u64) -> (s: String)
    ensures
        s@ == decimal(n as nat),
{
    let mut s = String::new();
    push_decimal(&mut s, n);
    s
}

/// Whether `text` begins with `prefix`.
pub fn starts_with(text: &str, prefix: &str) -> (b: bool)
    ensures
        b == prefix@.is_prefix_of(text@),
{
    let t = chars_of(text);
    let p = chars_of(prefix);
    matches_at(&t, 0, &p)
}

/// Whether `pattern` stands somewhere in `text`.
pub fn contains(text: &str, pattern: &str) -> (b: bool)
    ensures
        b == occurs_in(pattern@, text@),
{
    let t = chars_of(text);
    let p = chars_of(pattern);
    let mut i: usize = 0;
    loop
        invariant
            i <= t.len(),
            t@ == text@,
            p@ == pattern@,
            forall|k: int| 0 <= k < i ==> !p@.is_prefix_of(#[trigger] t@.skip(k)),
        decreases t.len() - i,
    {
        if matches_at(&t, i, &p) {
            return true;
        }
        if i == t.len() {
            return false;
        }
        i += 1;
    }
}

/// Whether `pattern` stands in `text` at position `at`.
pub(crate) fn matches_at(text: &Vec<char>, at: usize, pattern: &Vec<char>) -> (b: bool)
    requires
        at <= text.len(),
    ensures
        b == pattern@.is_prefix_of(text@.skip(at as int)),
{
    if pattern.len() > text.len() - at {
        return false;
    }
    let mut i: usize = 0;
    while i < pattern.len()
        invariant
            at <= text.len(),
            pattern.len() <= text.len() - at,
            i <= pattern.len(),
            forall|k: int| 0 <= k < i ==> text@[at + k] == pattern@[k],
        decreases pattern.len() - i,
    {
        if text[at + i] != pattern[i] {
            assert(text@.skip(at as int).subrange(0, pattern@.len() as int)[i as int]
                != pattern@[i as int]);
            return false;
        }
        i += 1;
    }
    assert(text@.skip(at as int).subrange(0, pattern@.len() as int) =~= pattern@);
    true
}

/// `text` with every occurrence of `pattern` replaced by `with`.
pub fn replace_all(text: &str, pattern: &str, with: &str) -> (s: String)
    ensures
        s@ == replaced(text@, pattern@, with@),
{
    let t = chars_of(text);
    let p = chars_of(pattern);
    let mut s = String::new();
    if p.len() == 0 {
        push_range(&mut s, &t, 0, t.len());
        assert(t@.subrange(0, t@.len() as int) =~= t@);
        return s;
    }
    let mut i: usize = 0;
    assert(t@.skip(0) =~= t@);
    while i < t.len()
        invariant
            i <= t.len(),
            p.len() > 0,
            p@ == pattern@,
            t@ == text@,
            s@ + replaced(t@.skip(i as int), p@, with@) == replaced(t@, p@, with@),
        decreases t.len() - i,
    {
        let ghost before = s@;
        let ghost rest = t@.skip(i as int);
        if matches_at(&t, i, &p) {
            s.append(with);
            proof {
                let tail = replaced(rest.skip(p@.len() as int), p@, with@);
                assert(rest.skip(p@.len() as int) =~= t@.skip(i + p@.len()));
                assert((before + with@) + tail =~= before + (with@ + tail));
            }
            i += p.len();
        } else if t.len() - i < p.len() {
            push_range(&mut s, &t, i, t.len());
            assert(rest =~= t@.subrange(i as int, t@.len() as int));
            i = t.len();
        } else {
            push_char(&mut s, t[i]);
            proof {
                let tail = replaced(rest.skip(1), p@, with@);
                assert(rest.skip(1) =~= t@.skip(i + 1));
                assert(before.push(t@[i as int]) + tail =~= before + (seq![rest[0]] + tail));
            }
            i += 1;
        }
    }
    assert(replaced(t@.skip(i as int), p@, with@) =~= Seq::<char>::empty());
    s
}

} // verus!
