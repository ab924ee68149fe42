//! Byte strings: the character classes, trimming, case folding, splitting and
//! decimal numbers that the wire format of a request and a response is made of.
//!
//! Every text is a sequence of bytes. Only the ASCII range is given a meaning:
//! a byte above it is neither whitespace nor a letter and passes unchanged.

use vstd::prelude::*;
use vstd::slice::{slice_subrange, slice_to_vec};
use vstd::string::is_ascii;

verus! {

/// The line feed byte.
pub const LF: u8 = 10;

/// The carriage return byte.
pub const CR: u8 = 13;

/// The space byte.
pub const SPACE: u8 = 32;

/// The colon byte.
pub const COLON: u8 = 58;

/// The bytes of an ASCII text, one per character.
pub open spec fn ascii(text: Seq<char>) -> Seq<u8> {
    Seq::new(text.len(), |i: int| text[i] as u8)
}

/// Whether `b` is ASCII whitespace: tab, line feed, vertical tab, form feed,
/// carriage return or space.
pub open spec fn is_space(b: u8) -> bool {
    (9 <= b && b <= 13) || b == 32
}

/// The predicate "is not the byte `b`".
pub open spec fn other_than(b: u8) -> spec_fn(u8) -> bool {
    |x: u8| x != b
}

/// The predicate "is whitespace".
pub open spec fn blank() -> spec_fn(u8) -> bool {
    |x: u8| is_space(x)
}

/// The predicate "is not whitespace".
pub open spec fn visible() -> spec_fn(u8) -> bool {
    |x: u8| !is_space(x)
}

/// Length of the longest prefix of `s` whose bytes all satisfy `p`.
pub open spec fn span(s: Seq<u8>, p: spec_fn(u8) -> bool) -> nat
    decreases s.len(),
{
    if s.len() > 0 && p(s[0]) {
        1 + span(s.skip(1), p)
    } else {
        0
    }
}

/// Number of bytes of `s` that stand before its first `b`: the index of that
/// `b`, or the length of `s` where it holds none.
pub open spec fn until(s: Seq<u8>, b: u8) -> nat {
    span(s, other_than(b))
}

/// `s` without its leading whitespace.
pub open spec fn trim_start(s: Seq<u8>) -> Seq<u8> {
    s.skip(span(s, blank()) as int)
}

/// `s` without its trailing whitespace.
pub open spec fn trim_end(s: Seq<u8>) -> Seq<u8>
    decreases s.len(),
{
    if s.len() > 0 && is_space(s.last()) {
        trim_end(s.drop_last())
    } else {
        s
    }
}

/// `s` without its leading and trailing whitespace.
pub open spec fn trim(s: Seq<u8>) -> Seq<u8> {
    trim_end(trim_start(s))
}

/// A word: at least one byte, none of them whitespace.
pub open spec fn is_word(s: Seq<u8>) -> bool {
    s.len() > 0 && forall|i: int| 0 <= i < s.len() ==> !is_space(#[trigger] s[i])
}

/// Whether `s` neither begins nor ends with whitespace.
pub open spec fn is_trimmed(s: Seq<u8>) -> bool {
    s.len() == 0 || (!is_space(s[0]) && !is_space(s.last()))
}

/// The lower-case form of a byte: an ASCII capital becomes its small letter,
/// every other byte stays.
pub open spec fn lower_byte(b: u8) -> u8 {
    if 65 <= b && b <= 90 {
        (b + 32) as u8
    } else {
        b
    }
}

/// `s` with each byte in lower case.
pub open spec fn lower(s: Seq<u8>) -> Seq<u8> {
    Seq::new(s.len(), |i: int| lower_byte(s[i]))
}

/// The whitespace-separated words of `s`, in order: its maximal runs of bytes
/// that are not whitespace.
pub open spec fn tokens(s: Seq<u8>) -> Seq<Seq<u8>>
    decreases s.len(),
{
    if s.len() == 0 {
        Seq::empty()
    } else if is_space(s[0]) {
        tokens(s.skip(1))
    } else {
        let n = span(s, visible()) as int;
        proof {
            lemma_span(s, visible());
        }
        seq![s.take(n)] + tokens(s.skip(n))
    }
}

/// The byte strings that a vector of vectors holds.
pub open spec fn views(v: Seq<Vec<u8>>) -> Seq<Seq<u8>> {
    Seq::new(v.len(), |i: int| v[i]@)
}

/// The decimal digits of `n`, most significant first, without leading zeros.
pub open spec fn decimal(n: nat) -> Seq<u8>
    decreases n,
{
    if n < 10 {
        seq![(48 + n) as u8]
    } else {
        decimal(n / 10).push((48 + n % 10) as u8)
    }
}

/// `span` stops inside `s`, at the first byte that fails `p`.
pub proof fn lemma_span(s: Seq<u8>, p: spec_fn(u8) -> bool)
    ensures
        span(s, p) <= s.len(),
        forall|i: int| 0 <= i < span(s, p) ==> p(#[trigger] s[i]),
        span(s, p) < s.len() ==> !p(s[span(s, p) as int]),
    decreases s.len(),
{
    if s.len() > 0 && p(s[0]) {
        let t = s.skip(1);
        lemma_span(t, p);
        assert forall|i: int| 0 <= i < span(s, p) implies p(#[trigger] s[i]) by {
            if i > 0 {
                assert(s[i] == t[i - 1]);
            }
        }
    }
}

/// A position that every earlier byte passes and that the byte at it fails
/// is where `span` stops.
pub proof fn lemma_span_is(s: Seq<u8>, p: spec_fn(u8) -> bool, n: int)
    requires
        0 <= n <= s.len(),
        forall|i: int| 0 <= i < n ==> p(#[trigger] s[i]),
        n < s.len() ==> !p(s[n]),
    ensures
        span(s, p) == n,
    decreases n,
{
    if n > 0 {
        lemma_span_is(s.skip(1), p, n - 1);
    }
}

/// Each of the words that `tokens` finds is a word.
pub proof fn lemma_tokens_are_words(s: Seq<u8>)
    ensures
        forall|k: int| 0 <= k < tokens(s).len() ==> is_word(#[trigger] tokens(s)[k]),
    decreases s.len(),
{
    if s.len() == 0 {
        // No word at all.
    } else if is_space(s[0]) {
        lemma_tokens_are_words(s.skip(1));
        assert(tokens(s) == tokens(s.skip(1)));
    } else {
        let n = span(s, visible()) as int;
        lemma_span(s, visible());
        lemma_tokens_are_words(s.skip(n));
        assert forall|k: int| 0 <= k < tokens(s).len() implies is_word(#[trigger] tokens(s)[k]) by {
            if k > 0 {
                assert(tokens(s)[k] == tokens(s.skip(n))[k - 1]);
            }
        }
    }
}

/// The words of a word followed by whitespace and more are that word and
/// the words of what follows.
pub proof fn lemma_tokens_after_word(word: Seq<u8>, rest: Seq<u8>)
    requires
        is_word(word),
        rest.len() == 0 || is_space(rest[0]),
    ensures
        tokens(word + rest) == seq![word] + tokens(rest),
{
    let s = word + rest;
    lemma_span_is(s, visible(), word.len() as int);
    assert(s.take(word.len() as int) =~= word);
    assert(s.skip(word.len() as int) =~= rest);
}

/// Trimming leaves a string alone that neither begins nor ends with
/// whitespace.
pub proof fn lemma_trim_of_trimmed(s: Seq<u8>)
    requires
        is_trimmed(s),
    ensures
        trim(s) == s,
{
}

/// What `trim_end` leaves is the front of the string, and does not end with
/// whitespace.
pub proof fn lemma_trim_end(s: Seq<u8>)
    ensures
        trim_end(s).is_prefix_of(s),
        trim_end(s).len() == 0 || !is_space(trim_end(s).last()),
    decreases s.len(),
{
    if s.len() > 0 && is_space(s.last()) {
        lemma_trim_end(s.drop_last());
    }
}

/// What `trim` leaves neither begins nor ends with whitespace.
pub proof fn lemma_trim_is_trimmed(s: Seq<u8>)
    ensures
        is_trimmed(trim(s)),
{
    lemma_span(s, blank());
    lemma_trim_end(trim_start(s));
}

/// Folding to lower case keeps a string trimmed, and a string in lower case
/// is left as it is.
pub proof fn lemma_lower(s: Seq<u8>)
    ensures
        lower(lower(s)) == lower(s),
        is_trimmed(s) ==> is_trimmed(lower(s)),
{
}

/// A number in decimal is one digit or more, and nothing but digits.
pub proof fn lemma_decimal_is_digits(n: nat)
    ensures
        decimal(n).len() > 0,
        forall|i: int| 0 <= i < decimal(n).len() ==> 48 <= #[trigger] decimal(n)[i] <= 57,
    decreases n,
{
    if n >= 10 {
        lemma_decimal_is_digits(n / 10);
    }
}

/// Tells whether a byte is ASCII whitespace.
pub fn is_whitespace(b: u8) -> (r: bool)
    ensures
        r == is_space(b),
{
    (9 <= b && b <= 13) || b == 32
}

/// Copies an ASCII text into a byte vector.
pub(crate) fn ascii_bytes(text: &str) -> (r: Vec<u8>)
    requires
        is_ascii(text),
    ensures
        r@ == ascii(text@),
{
    broadcast use vstd::string::is_ascii_spec_bytes;

    slice_to_vec(text.as_bytes())
}

/// Tells whether two byte strings hold the same bytes.
pub fn bytes_eq(a: &[u8], b: &[u8]) -> (r: bool)
    ensures
        r == (a@ == b@),
{
    if a.len() != b.len() {
        return false;
    }
    let mut i: usize = 0;
    while i < a.len()
        invariant
            i <= a.len(),
            a.len() == b.len(),
            forall|j: int| 0 <= j < i ==> a@[j] == b@[j],
        decreases a.len() - i,
    {
        if a[i] != b[i] {
            return false;
        }
        i += 1;
    }
    assert(a@ =~= b@);
    true
}

/// Tells whether `s` begins with `prefix`.
pub fn has_prefix(s: &[u8], prefix: &[u8]) -> (r: bool)
    ensures
        r == prefix@.is_prefix_of(s@),
{
    if prefix.len() > s.len() {
        return false;
    }
    bytes_eq(slice_subrange(s, 0, prefix.len()), prefix)
}

/// Counts the bytes of `s` that stand before its first `b`.
pub fn find_byte(s: &[u8], b: u8) -> (n: usize)
    ensures
        n == until(s@, b),
        n <= s.len(),
        n < s.len() ==> s@[n as int] == b,
{
    let mut i: usize = 0;
    while i < s.len() && s[i] != b
        invariant
            i <= s.len(),
            forall|j: int| 0 <= j < i ==> s@[j] != b,
        decreases s.len() - i,
    {
        i += 1;
    }
    proof {
        lemma_span_is(s@, other_than(b), i as int);
    }
    i
}

/// Strips the whitespace from the front of `s`.
pub fn trim_front(s: &[u8]) -> (r: &[u8])
    ensures
        r@ == trim_start(s@),
{
    let mut i: usize = 0;
    while i < s.len() && is_whitespace(s[i])
        invariant
            i <= s.len(),
            forall|j: int| 0 <= j < i ==> is_space(s@[j]),
        decreases s.len() - i,
    {
        i += 1;
    }
    proof {
        lemma_span_is(s@, blank(), i as int);
    }
    slice_subrange(s, i, s.len())
}

/// Strips the whitespace from the back of `s`.
pub fn trim_back(s: &[u8]) -> (r: &[u8])
    ensures
        r@ == trim_end(s@),
{
    let mut n: usize = s.len();
    assert(s@.take(n as int) =~= s@);
    while n > 0 && is_whitespace(s[n - 1])
        invariant
            n <= s.len(),
            trim_end(s@) == trim_end(s@.take(n as int)),
        decreases n,
    {
        proof {
            assert(s@.take(n as int).drop_last() =~= s@.take(n - 1));
        }
        n -= 1;
    }
    slice_subrange(s, 0, n)
}

/// Strips the whitespace from both ends of `s`.
pub fn trim_bytes(s: &[u8]) -> (r: &[u8])
    ensures
        r@ == trim(s@),
{
    trim_back(trim_front(s))
}

/// Folds the ASCII capitals of `s` to small letters.
pub fn to_lower(s: &[u8]) -> (r: Vec<u8>)
    ensures
        r@ == lower(s@),
{
    let mut out: Vec<u8> = Vec::new();
    let mut i: usize = 0;
    while i < s.len()
        invariant
            i <= s.len(),
            out@ == lower(s@.take(i as int)),
        decreases s.len() - i,
    {
        let b: u8 = s[i];
        let folded: u8 = if 65 <= b && b <= 90 {
            b + 32
        } else {
            b
        };
        out.push(folded);
        i += 1;
    }
    out
}

/// Splits `s` at whitespace into its words.
pub fn split_whitespace(s: &[u8]) -> (r: Vec<Vec<u8>>)
    ensures
        views(r@) == tokens(s@),
{
    let mut out: Vec<Vec<u8>> = Vec::new();
    let mut i: usize = 0;
    assert(s@.skip(0) =~= s@);
    while i < s.len()
        invariant
            i <= s.len(),
            tokens(s@) == views(out@) + tokens(s@.skip(i as int)),
        decreases s.len() - i,
    {
        let ghost rest = s@.skip(i as int);
        if is_whitespace(s[i]) {
            proof {
                assert(rest.skip(1) =~= s@.skip(i + 1));
            }
            i += 1;
        } else {
            let start: usize = i;
            while i < s.len() && !is_whitespace(s[i])
                invariant
                    start <= i <= s.len(),
                    forall|j: int| start <= j < i ==> !is_space(s@[j]),
                decreases s.len() - i,
            {
                i += 1;
            }
            let word: Vec<u8> = slice_to_vec(slice_subrange(s, start, i));
            proof {
                lemma_span_is(rest, visible(), i - start);
                assert(rest.take(i - start) =~= word@);
                assert(rest.skip(i - start) =~= s@.skip(i as int));
            }
            out.push(word);
        }
    }
    out
}

/// Writes `n` in decimal digits.
pub fn decimal_bytes(n: usize) -> (r: Vec<u8>)
    ensures
        r@ == decimal(n as nat),
    decreases n,
{
    if n < 10 {
        let mut out: Vec<u8> = Vec::new();
        out.push(48 + (n as u8));
        out
    } else {
        let mut out = decimal_bytes(n / 10);
        out.push(48 + ((n % 10) as u8));
        out
    }
}

} // verus!
