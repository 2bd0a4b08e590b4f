//! Text handled as sequences of characters.
//!
//! The specifications below describe the usual string operations (finding a
//! character, trimming, splitting, comparing) on `Seq<char>`; the functions
//! carry them out on `&str` and `Vec<char>`.

use vstd::prelude::*;
use vstd::utf8::*;

verus! {

// ---------------------------------------------------------------------------
// Operations of the standard library
// ---------------------------------------------------------------------------

/// `String::push` appends the given character to the end of the string.
pub assume_specification[ String::push ](s: &mut String, c: char)
    ensures
        final(s)@ == old(s)@.push(c),
;

/// Wraps `String::from_utf8`: the bytes become a string exactly when they are
/// well-formed UTF-8, and the string then holds the decoded characters.
#[verifier::external_body]
pub(crate) fn string_from_utf8(bytes: Vec<u8>) -> (text: Option<String>)
    ensures
        text is Some <==> valid_utf8(bytes@),
        text matches Some(t) ==> t@ == decode_utf8(bytes@),
{
    String::from_utf8(bytes).ok()
}

/// The text that `String::from_utf8_lossy` makes of bytes that are not
/// well-formed UTF-8.
pub uninterp spec fn utf8_repaired(bytes: Seq<u8>) -> Seq<char>;

/// The text that bytes stand for: decoded where they are well-formed UTF-8,
/// with replacement characters otherwise.
pub open spec fn lossy_text(bytes: Seq<u8>) -> Seq<char> {
    if valid_utf8(bytes) {
        decode_utf8(bytes)
    } else {
        utf8_repaired(bytes)
    }
}

/// Wraps `String::from_utf8_lossy`. Well-formed UTF-8 is decoded; which
/// replacement characters stand for ill-formed parts is left to the name
/// `utf8_repaired`.
#[verifier::external_body]
pub(crate) fn string_from_utf8_lossy(bytes: &Vec<u8>) -> (text: String)
    ensures
        valid_utf8(bytes@) ==> text@ == decode_utf8(bytes@),
        !valid_utf8(bytes@) ==> text@ == utf8_repaired(bytes@),
{
    String::from_utf8_lossy(bytes).into_owned()
}

// ---------------------------------------------------------------------------
// Runs of characters
// ---------------------------------------------------------------------------

/// Length of the longest prefix of `s` whose characters all satisfy `p`.
pub open spec fn prefix_len(s: Seq<char>, p: spec_fn(char) -> bool) -> int
    decreases s.len(),
{
    if s.len() == 0 || !p(s[0]) {
        0
    } else {
        1 + prefix_len(s.skip(1), p)
    }
}

/// Length of the longest suffix of `s` whose characters all satisfy `p`.
pub open spec fn suffix_len(s: Seq<char>, p: spec_fn(char) -> bool) -> int
    decreases s.len(),
{
    if s.len() == 0 || !p(s.last()) {
        0
    } else {
        1 + suffix_len(s.drop_last(), p)
    }
}

/// The longest prefix satisfying `p` is characterised by its characters and by
/// the character that ends it.
pub proof fn lemma_prefix_len(s: Seq<char>, p: spec_fn(char) -> bool)
    ensures
        0 <= prefix_len(s, p) <= s.len(),
        forall|i: int| 0 <= i < prefix_len(s, p) ==> p(#[trigger] s[i]),
        prefix_len(s, p) < s.len() ==> !p(s[prefix_len(s, p)]),
    decreases s.len(),
{
    if s.len() != 0 && p(s[0]) {
        let rest = s.skip(1);
        lemma_prefix_len(rest, p);
        assert forall|i: int| 0 <= i < prefix_len(s, p) implies p(#[trigger] s[i]) by {
            if i > 0 {
                assert(s[i] == rest[i - 1]);
            }
        }
    }
}

/// Any prefix that satisfies `p` and is ended by a character that does not (or
/// by the end of the text) is the longest one.
pub proof fn lemma_prefix_len_unique(s: Seq<char>, p: spec_fn(char) -> bool, n: int)
    requires
        0 <= n <= s.len(),
        forall|i: int| 0 <= i < n ==> p(#[trigger] s[i]),
        n < s.len() ==> !p(s[n]),
    ensures
        prefix_len(s, p) == n,
{
    lemma_prefix_len(s, p);
    let m = prefix_len(s, p);
    if m < n {
        assert(p(s[m]));
    } else if n < m {
        assert(p(s[n]));
    }
}

/// The longest suffix satisfying `p` is characterised by its characters and by
/// the character before it.
pub proof fn lemma_suffix_len(s: Seq<char>, p: spec_fn(char) -> bool)
    ensures
        0 <= suffix_len(s, p) <= s.len(),
        forall|i: int| s.len() - suffix_len(s, p) <= i < s.len() ==> p(#[trigger] s[i]),
        suffix_len(s, p) < s.len() ==> !p(s[s.len() - suffix_len(s, p) - 1]),
    decreases s.len(),
{
    if s.len() != 0 && p(s.last()) {
        let rest = s.drop_last();
        lemma_suffix_len(rest, p);
        assert forall|i: int| s.len() - suffix_len(s, p) <= i < s.len() implies p(
            #[trigger] s[i],
        ) by {
            if i < rest.len() {
                assert(s[i] == rest[i]);
            }
        }
    }
}

/// Any suffix that satisfies `p` and is preceded by a character that does not
/// (or by the start of the text) is the longest one.
pub proof fn lemma_suffix_len_unique(s: Seq<char>, p: spec_fn(char) -> bool, n: int)
    requires
        0 <= n <= s.len(),
        forall|i: int| s.len() - n <= i < s.len() ==> p(#[trigger] s[i]),
        n < s.len() ==> !p(s[s.len() - n - 1]),
    ensures
        suffix_len(s, p) == n,
{
    lemma_suffix_len(s, p);
    let m = suffix_len(s, p);
    if m < n {
        assert(p(s[s.len() - m - 1]));
    } else if n < m {
        assert(p(s[s.len() - n - 1]));
    }
}

// ---------------------------------------------------------------------------
// Finding, splitting and trimming
// ---------------------------------------------------------------------------

/// The characters other than `c`.
pub open spec fn other_than(c: char) -> spec_fn(char) -> bool {
    |x: char| x != c
}

/// The character `c` alone.
pub open spec fn equal_to(c: char) -> spec_fn(char) -> bool {
    |x: char| x == c
}

/// Index of the first `c` in `s`, or the length of `s` where there is none.
pub open spec fn first_index(s: Seq<char>, c: char) -> int {
    prefix_len(s, other_than(c))
}

/// Number of characters that follow the last `c` in `s`, or the length of `s`
/// where there is none.
pub open spec fn after_last(s: Seq<char>, c: char) -> int {
    suffix_len(s, other_than(c))
}

/// The parts of `s` before and after its first `c`.
pub open spec fn split_once(s: Seq<char>, c: char) -> Option<(Seq<char>, Seq<char>)> {
    let i = first_index(s, c);
    if i < s.len() {
        Some((s.take(i), s.skip(i + 1)))
    } else {
        None
    }
}

/// The part of `s` before its last `c`.
pub open spec fn before_last(s: Seq<char>, c: char) -> Option<Seq<char>> {
    let n = after_last(s, c);
    if n < s.len() {
        Some(s.take(s.len() - n - 1))
    } else {
        None
    }
}

/// `s` without its leading `c`s.
pub open spec fn trim_start(s: Seq<char>, c: char) -> Seq<char> {
    s.skip(prefix_len(s, equal_to(c)))
}

/// `s` without its trailing `c`s.
pub open spec fn trim_end(s: Seq<char>, c: char) -> Seq<char> {
    s.take(s.len() - suffix_len(s, equal_to(c)))
}

/// `s` starts with `prefix`.
pub open spec fn has_prefix(s: Seq<char>, prefix: Seq<char>) -> bool {
    prefix.len() <= s.len() && s.take(prefix.len() as int) == prefix
}

/// Collects the characters of a string.
pub fn chars_of(s: &str) -> (chars: Vec<char>)
    ensures
        chars@ == s@,
{
    let mut chars: Vec<char> = Vec::new();
    for c in it: s.chars()
        invariant
            it.seq() == s@,
            chars@ == s@.take(it.index()),
    {
        chars.push(c);
    }
    chars
}

/// The string made of the characters from index `from` up to index `to`.
pub fn text_between(chars: &Vec<char>, from: usize, to: usize) -> (text: String)
    requires
        from <= to <= chars@.len(),
    ensures
        text@ == chars@.subrange(from as int, to as int),
{
    let mut text: String = String::new();
    let mut i: usize = from;
    while i < to
        invariant
            from <= i <= to <= chars@.len(),
            text@ == chars@.subrange(from as int, i as int),
        decreases to - i,
    {
        text.push(chars[i]);
        i = i + 1;
    }
    text
}

/// Index of the first `c`, or the length where there is none.
pub fn find_char(chars: &Vec<char>, c: char) -> (index: usize)
    ensures
        index == first_index(chars@, c),
        index <= chars@.len(),
{
    let mut i: usize = 0;
    while i < chars.len() && chars[i] != c
        invariant
            i <= chars@.len(),
            forall|k: int| 0 <= k < i ==> #[trigger] chars@[k] != c,
        decreases chars@.len() - i,
    {
        i = i + 1;
    }
    proof {
        lemma_prefix_len_unique(chars@, other_than(c), i as int);
    }
    i
}

/// Number of characters after the last `c`, or the length where there is none.
pub fn count_after_last(chars: &Vec<char>, c: char) -> (count: usize)
    ensures
        count == after_last(chars@, c),
        count <= chars@.len(),
{
    let mut n: usize = 0;
    while n < chars.len() && chars[chars.len() - n - 1] != c
        invariant
            n <= chars@.len(),
            forall|k: int| chars@.len() - n <= k < chars@.len() ==> #[trigger] chars@[k] != c,
        decreases chars@.len() - n,
    {
        n = n + 1;
    }
    proof {
        lemma_suffix_len_unique(chars@, other_than(c), n as int);
    }
    n
}

/// Splits a string at its first `c`.
pub fn split_at_first(s: &str, c: char) -> (parts: Option<(String, String)>)
    ensures
        parts is Some <==> split_once(s@, c) is Some,
        parts matches Some(p) ==> split_once(s@, c) == Some((p.0@, p.1@)),
{
    let chars: Vec<char> = chars_of(s);
    let i: usize = find_char(&chars, c);
    if i < chars.len() {
        let before: String = text_between(&chars, 0, i);
        let after: String = text_between(&chars, i + 1, chars.len());
        assert(before@ == s@.take(i as int));
        assert(after@ == s@.skip(i + 1));
        Some((before, after))
    } else {
        None
    }
}

/// Removes the leading `c`s of a string.
pub fn trim_start_char(s: &str, c: char) -> (text: String)
    ensures
        text@ == trim_start(s@, c),
{
    let chars: Vec<char> = chars_of(s);
    let mut i: usize = 0;
    while i < chars.len() && chars[i] == c
        invariant
            i <= chars@.len(),
            forall|k: int| 0 <= k < i ==> #[trigger] chars@[k] == c,
        decreases chars@.len() - i,
    {
        i = i + 1;
    }
    proof {
        lemma_prefix_len_unique(chars@, equal_to(c), i as int);
    }
    let text: String = text_between(&chars, i, chars.len());
    assert(text@ == s@.skip(i as int));
    text
}

/// Removes the trailing `c`s of a string.
pub fn trim_end_char(s: &str, c: char) -> (text: String)
    ensures
        text@ == trim_end(s@, c),
{
    let chars: Vec<char> = chars_of(s);
    let mut n: usize = 0;
    while n < chars.len() && chars[chars.len() - n - 1] == c
        invariant
            n <= chars@.len(),
            forall|k: int| chars@.len() - n <= k < chars@.len() ==> #[trigger] chars@[k] == c,
        decreases chars@.len() - n,
    {
        n = n + 1;
    }
    proof {
        lemma_suffix_len_unique(chars@, equal_to(c), n as int);
    }
    let text: String = text_between(&chars, 0, chars.len() - n);
    assert(text@ == s@.take(s@.len() - n));
    text
}

/// Whether `wanted` follows at index `at`.
fn follows_at(chars: &Vec<char>, at: usize, wanted: &Vec<char>) -> (yes: bool)
    requires
        at <= chars@.len(),
    ensures
        yes == has_prefix(chars@.skip(at as int), wanted@),
{
    let ghost rest = chars@.skip(at as int);
    let count: usize = chars.len();
    if wanted.len() > count - at {
        return false;
    }
    let mut i: usize = 0;
    while i < wanted.len()
        invariant
            rest == chars@.skip(at as int),
            at <= count == chars@.len(),
            i <= wanted@.len() <= chars@.len() - at,
            forall|k: int| 0 <= k < i ==> #[trigger] rest[k] == wanted@[k],
        decreases wanted@.len() - i,
    {
        assert(rest[i as int] == chars@[at + i]);
        if chars[at + i] != wanted[i] {
            assert(rest.take(wanted@.len() as int)[i as int] != wanted@[i as int]);
            return false;
        }
        i = i + 1;
    }
    assert(rest.take(wanted@.len() as int) == wanted@);
    true
}

/// Whether a string starts with `prefix`.
pub fn starts_with(s: &str, prefix: &str) -> (yes: bool)
    ensures
        yes == has_prefix(s@, prefix@),
{
    let chars: Vec<char> = chars_of(s);
    let wanted: Vec<char> = chars_of(prefix);
    assert(s@.skip(0) == s@);
    follows_at(&chars, 0, &wanted)
}

/// Whether `part` occurs in `s` at some index.
pub open spec fn occurs_in(part: Seq<char>, s: Seq<char>) -> bool {
    exists|i: int| 0 <= i <= s.len() && has_prefix(#[trigger] s.skip(i), part)
}

/// Whether a string holds `part` somewhere.
pub fn contains_text(s: &str, part: &str) -> (yes: bool)
    ensures
        yes == occurs_in(part@, s@),
{
    let chars: Vec<char> = chars_of(s);
    let wanted: Vec<char> = chars_of(part);
    let mut i: usize = 0;
    while i <= chars.len()
        invariant
            chars@ == s@,
            wanted@ == part@,
            i <= chars@.len() + 1,
            forall|k: int| 0 <= k < i ==> !has_prefix(#[trigger] s@.skip(k), part@),
        decreases chars@.len() + 1 - i,
    {
        if follows_at(&chars, i, &wanted) {
            return true;
        }
        if i == chars.len() {
            return false;
        }
        i = i + 1;
    }
    false
}

// ---------------------------------------------------------------------------
// Comparing
// ---------------------------------------------------------------------------

/// Two texts with the same UTF-8 bytes are the same.
pub proof fn lemma_utf8_injective(a: Seq<char>, b: Seq<char>)
    ensures
        encode_utf8(a) == encode_utf8(b) <==> a == b,
{
    encode_utf8_decode_utf8(a);
    encode_utf8_decode_utf8(b);
}

/// Whether two strings hold the same text.
pub fn text_eq(a: &str, b: &str) -> (equal: bool)
    ensures
        equal == (a@ == b@),
{
    let x = a.as_bytes();
    let y = b.as_bytes();
    proof {
        lemma_utf8_injective(a@, b@);
    }
    if x.len() != y.len() {
        return false;
    }
    let mut i: usize = 0;
    while i < x.len()
        invariant
            x@ == encode_utf8(a@),
            y@ == encode_utf8(b@),
            encode_utf8(a@) == encode_utf8(b@) <==> a@ == b@,
            x@.len() == y@.len(),
            i <= x@.len(),
            forall|k: int| 0 <= k < i ==> #[trigger] x@[k] == y@[k],
        decreases x@.len() - i,
    {
        if x[i] != y[i] {
            return false;
        }
        i = i + 1;
    }
    assert(x@ == y@);
    true
}

/// Whether two optional strings hold the same text.
pub fn optional_text_eq(a: &Option<String>, b: &Option<String>) -> (equal: bool)
    ensures
        equal == (optional_text(*a) == optional_text(*b)),
{
    match (a, b) {
        (Some(x), Some(y)) => text_eq(x, y),
        (None, None) => true,
        _ => false,
    }
}

/// The text that an optional string holds.
pub open spec fn optional_text(text: Option<String>) -> Option<Seq<char>> {
    match text {
        Some(t) => Some(t@),
        None => None,
    }
}

/// Copies an optional string.
pub fn copy_optional(text: &Option<String>) -> (copy: Option<String>)
    ensures
        optional_text(copy) == optional_text(*text),
        copy is Some <==> text is Some,
        copy matches Some(c) ==> c@ == text->0@,
{
    match text {
        Some(t) => Some(t.clone()),
        None => None,
    }
}

/// Lexicographic order on byte sequences: `a` comes strictly before `b`.
pub open spec fn bytes_before(a: Seq<u8>, b: Seq<u8>) -> bool
    decreases a.len(),
{
    if b.len() == 0 {
        false
    } else if a.len() == 0 {
        true
    } else if a[0] != b[0] {
        a[0] < b[0]
    } else {
        bytes_before(a.skip(1), b.skip(1))
    }
}

/// The order of strings: by their UTF-8 bytes, lexicographically.
pub open spec fn text_before(a: Seq<char>, b: Seq<char>) -> bool {
    bytes_before(encode_utf8(a), encode_utf8(b))
}

proof fn lemma_bytes_order(a: Seq<u8>, b: Seq<u8>)
    ensures
        !(bytes_before(a, b) && bytes_before(b, a)),
        bytes_before(a, b) || bytes_before(b, a) || a == b,
        !bytes_before(a, a),
    decreases a.len(),
{
    if a.len() != 0 {
        lemma_bytes_order(a.skip(1), a.skip(1));
        if b.len() != 0 {
            lemma_bytes_order(a.skip(1), b.skip(1));
            if a[0] == b[0] && a.skip(1) == b.skip(1) {
                assert(a == seq![a[0]] + a.skip(1));
                assert(b == seq![b[0]] + b.skip(1));
            }
        }
    }
    if a.len() == 0 && b.len() == 0 {
        assert(a == b);
    }
}

proof fn lemma_bytes_order_transitive(a: Seq<u8>, b: Seq<u8>, c: Seq<u8>)
    requires
        bytes_before(a, b),
        bytes_before(b, c),
    ensures
        bytes_before(a, c),
    decreases a.len(),
{
    if a.len() != 0 && b.len() != 0 && c.len() != 0 && a[0] == b[0] && b[0] == c[0] {
        lemma_bytes_order_transitive(a.skip(1), b.skip(1), c.skip(1));
    }
}

/// The order of texts is a strict total order: no text comes before itself,
/// and of two different texts exactly one comes before the other.
pub proof fn lemma_text_order(a: Seq<char>, b: Seq<char>)
    ensures
        !text_before(a, a),
        !(text_before(a, b) && text_before(b, a)),
        text_before(a, b) || text_before(b, a) || a == b,
{
    lemma_bytes_order(encode_utf8(a), encode_utf8(b));
    lemma_utf8_injective(a, b);
}

/// The order of texts is transitive.
pub proof fn lemma_text_order_transitive(a: Seq<char>, b: Seq<char>, c: Seq<char>)
    requires
        text_before(a, b),
        text_before(b, c),
    ensures
        text_before(a, c),
{
    lemma_bytes_order_transitive(encode_utf8(a), encode_utf8(b), encode_utf8(c));
}

/// Texts of which none comes before the one ahead of it are in order, and what
/// comes before a text comes before all that does not come before that text.
pub proof fn lemma_not_before(a: Seq<char>, b: Seq<char>, c: Seq<char>)
    ensures
        !text_before(b, a) && !text_before(c, b)
            ==> !text_before(c, a),
        text_before(a, b) && !text_before(c, b)
            ==> text_before(a, c),
        text_before(a, b) ==> a != b && !text_before(b, a),
{
    lemma_text_order(a, b);
    lemma_text_order(b, c);
    lemma_text_order(a, c);
    if text_before(c, a) && text_before(a, b) {
        lemma_text_order_transitive(c, a, b);
    }
    if text_before(c, a) && text_before(b, c) {
        lemma_text_order_transitive(b, c, a);
    }
    if text_before(a, b) && text_before(b, c) {
        lemma_text_order_transitive(a, b, c);
    }
}

proof fn lemma_bytes_before_skip(a: Seq<u8>, b: Seq<u8>, n: int)
    requires
        0 <= n <= a.len(),
        n <= b.len(),
        forall|k: int| 0 <= k < n ==> #[trigger] a[k] == b[k],
    ensures
        bytes_before(a, b) == bytes_before(a.skip(n), b.skip(n)),
    decreases n,
{
    if n == 0 {
        assert(a.skip(0) == a);
        assert(b.skip(0) == b);
    } else {
        assert(a[0] == b[0]);
        let x = a.skip(1);
        let y = b.skip(1);
        assert forall|k: int| 0 <= k < n - 1 implies #[trigger] x[k] == y[k] by {
            assert(a[k + 1] == b[k + 1]);
        }
        lemma_bytes_before_skip(x, y, n - 1);
        assert(x.skip(n - 1) == a.skip(n));
        assert(y.skip(n - 1) == b.skip(n));
    }
}

/// Whether the first string comes strictly before the second.
pub fn text_less(a: &str, b: &str) -> (less: bool)
    ensures
        less == text_before(a@, b@),
{
    let x = a.as_bytes();
    let y = b.as_bytes();
    let mut i: usize = 0;
    while i < x.len() && i < y.len() && x[i] == y[i]
        invariant
            i <= x@.len(),
            i <= y@.len(),
            forall|k: int| 0 <= k < i ==> #[trigger] x@[k] == y@[k],
        decreases x@.len() - i,
    {
        i = i + 1;
    }
    proof {
        lemma_bytes_before_skip(x@, y@, i as int);
        if i < x@.len() {
            assert(x@.skip(i as int)[0] == x@[i as int]);
        }
        if i < y@.len() {
            assert(y@.skip(i as int)[0] == y@[i as int]);
        }
    }
    if i >= y.len() {
        false
    } else if i >= x.len() {
        true
    } else {
        x[i] < y[i]
    }
}

// ---------------------------------------------------------------------------
// Words
// ---------------------------------------------------------------------------

/// The characters with the Unicode property `White_Space`.
pub open spec fn white_space(c: char) -> bool {
    ||| '\u{9}' <= c <= '\u{d}'
    ||| c == '\u{20}'
    ||| c == '\u{85}'
    ||| c == '\u{a0}'
    ||| c == '\u{1680}'
    ||| '\u{2000}' <= c <= '\u{200a}'
    ||| c == '\u{2028}'
    ||| c == '\u{2029}'
    ||| c == '\u{202f}'
    ||| c == '\u{205f}'
    ||| c == '\u{3000}'
}

/// Whether a character has the Unicode property `White_Space`.
pub fn is_white_space(c: char) -> (yes: bool)
    ensures
        yes == white_space(c),
{
    ('\u{9}' <= c && c <= '\u{d}') || c == '\u{20}' || c == '\u{85}' || c == '\u{a0}'
        || c == '\u{1680}' || ('\u{2000}' <= c && c <= '\u{200a}') || c == '\u{2028}'
        || c == '\u{2029}' || c == '\u{202f}' || c == '\u{205f}' || c == '\u{3000}'
}

/// The maximal runs of characters other than white space, in order.
pub open spec fn words(s: Seq<char>) -> Seq<Seq<char>>
    decreases s.len(),
{
    if s.len() == 0 {
        Seq::empty()
    } else if white_space(s[0]) {
        words(s.skip(1))
    } else {
        let n = word_len(s);
        if n <= 0 || n > s.len() {
            Seq::empty()
        } else {
            seq![s.take(n)] + words(s.skip(n))
        }
    }
}

/// The characters that words are made of.
pub open spec fn not_white_space() -> spec_fn(char) -> bool {
    |x: char| !white_space(x)
}

/// Length of the word at the start of `s`.
pub open spec fn word_len(s: Seq<char>) -> int {
    prefix_len(s, not_white_space())
}

/// The texts that a vector of strings holds.
pub open spec fn texts(strings: Seq<String>) -> Seq<Seq<char>> {
    strings.map_values(|s: String| s@)
}

/// Splits a string into its words.
pub fn split_words(s: &str) -> (found: Vec<String>)
    ensures
        texts(found@) == words(s@),
{
    let chars: Vec<char> = chars_of(s);
    let mut found: Vec<String> = Vec::new();
    let mut i: usize = 0;
    assert(s@.skip(0) == s@);
    assert(texts(found@) + words(s@) == words(s@));
    while i < chars.len()
        invariant
            chars@ == s@,
            i <= chars@.len(),
            texts(found@) + words(s@.skip(i as int)) == words(s@),
        decreases chars@.len() - i,
    {
        let ghost rest = s@.skip(i as int);
        let start: usize = i;
        if is_white_space(chars[i]) {
            i = i + 1;
            assert(rest.skip(1) == s@.skip(i as int));
        } else {
            while i < chars.len() && !is_white_space(chars[i])
                invariant
                    chars@ == s@,
                    start <= i <= chars@.len(),
                    forall|k: int| start <= k < i ==> !white_space(#[trigger] chars@[k]),
                decreases chars@.len() - i,
            {
                i = i + 1;
            }
            let ghost before = found@;
            let word: String = text_between(&chars, start, i);
            proof {
                let n = i - start;
                assert forall|k: int| 0 <= k < n implies !white_space(#[trigger] rest[k]) by {
                    assert(rest[k] == chars@[start + k]);
                }
                lemma_prefix_len_unique(rest, not_white_space(), n);
                assert(rest[0] == chars@[start as int]);
                assert(rest.take(n) == word@);
                assert(rest.skip(n) == s@.skip(i as int));
            }
            found.push(word);
            proof {
                assert(texts(found@) == texts(before).push(word@));
                assert(texts(before) + (seq![word@] + words(s@.skip(i as int))) == texts(found@)
                    + words(s@.skip(i as int)));
            }
        }
    }
    assert(s@.skip(i as int).len() == 0);
    assert(texts(found@) + words(s@.skip(i as int)) == texts(found@));
    found
}

/// An ASCII capital letter as its small letter, any other character as itself.
pub open spec fn ascii_lower(c: char) -> char {
    if 'A' <= c <= 'Z' {
        ((c as u32) + 32) as char
    } else {
        c
    }
}

/// The text with its ASCII capital letters made small.
pub open spec fn ascii_lowercase(s: Seq<char>) -> Seq<char> {
    s.map_values(|c: char| ascii_lower(c))
}

/// Whether two strings are equal when the case of ASCII letters is ignored.
pub fn eq_ignore_ascii_case(a: &str, b: &str) -> (equal: bool)
    ensures
        equal == (ascii_lowercase(a@) == ascii_lowercase(b@)),
{
    let x: Vec<char> = chars_of(a);
    let y: Vec<char> = chars_of(b);
    if x.len() != y.len() {
        assert(ascii_lowercase(a@).len() != ascii_lowercase(b@).len());
        return false;
    }
    let mut i: usize = 0;
    while i < x.len()
        invariant
            x@ == a@,
            y@ == b@,
            x@.len() == y@.len(),
            i <= x@.len(),
            forall|k: int| 0 <= k < i ==> ascii_lower(#[trigger] x@[k]) == ascii_lower(y@[k]),
        decreases x@.len() - i,
    {
        if lower(x[i]) != lower(y[i]) {
            assert(ascii_lowercase(a@)[i as int] != ascii_lowercase(b@)[i as int]);
            return false;
        }
        i = i + 1;
    }
    assert(ascii_lowercase(a@) == ascii_lowercase(b@));
    true
}

/// The small letter of an ASCII capital letter.
fn lower(c: char) -> (small: u32)
    ensures
        small == ascii_lower(c) as u32,
{
    if 'A' <= c && c <= 'Z' {
        (c as u32) + 32
    } else {
        c as u32
    }
}

// ---------------------------------------------------------------------------
// Laws
// ---------------------------------------------------------------------------

/// An optional text is there exactly if the string is, and is its text.
pub proof fn law_optional_text_is_that_of_the_string(text: Option<String>)
    ensures
        text is Some <==> optional_text(text) is Some,
        text matches Some(t) ==> optional_text(text) == Some(t@),
{
}

/// Cut at the first of some character, a text is put together again from its
/// two parts and that character, which the first part does not hold. Only a
/// text without the character cannot be cut.
pub proof fn law_split_parts_make_the_text(s: Seq<char>, c: char)
    ensures
        split_once(s, c) matches Some((left, right)) ==> s == left.push(c) + right
            && !left.contains(c),
        split_once(s, c) is None <==> !s.contains(c),
{
    lemma_prefix_len(s, other_than(c));
    let i = first_index(s, c);
    if i < s.len() {
        assert(s[i] == c);
        assert(s == s.take(i).push(c) + s.skip(i + 1));
        assert forall|k: int| 0 <= k < i implies #[trigger] s.take(i)[k] != c by {
            assert((other_than(c))(s[k]));
        }
    } else {
        assert forall|k: int| 0 <= k < s.len() implies #[trigger] s[k] != c by {
            assert((other_than(c))(s[k]));
        }
    }
}

/// The part before the last of some character is followed by it, and what
/// then follows does not hold it. Only a text without the character has no
/// such part.
pub proof fn law_part_before_the_last(s: Seq<char>, c: char)
    ensures
        before_last(s, c) matches Some(left) ==> {
            &&& left.len() < s.len()
            &&& s == left.push(c) + s.skip(left.len() as int + 1)
            &&& !s.skip(left.len() as int + 1).contains(c)
        },
        before_last(s, c) is None <==> !s.contains(c),
{
    lemma_suffix_len(s, other_than(c));
    let n = after_last(s, c);
    if n < s.len() {
        let left = s.take(s.len() - n - 1);
        let right = s.skip(s.len() - n);
        assert(s[s.len() - n - 1] == c);
        assert(s == left.push(c) + right);
        assert forall|k: int| 0 <= k < right.len() implies #[trigger] right[k] != c by {
            assert((other_than(c))(s[s.len() - n + k]));
        }
    } else {
        assert forall|k: int| 0 <= k < s.len() implies #[trigger] s[k] != c by {
            assert((other_than(c))(s[k]));
        }
    }
}

/// Trimming takes away all of a character at one end and nothing else.
pub proof fn law_trimming_takes_all_and_nothing_else(s: Seq<char>, c: char)
    ensures
        ({
            let rest = trim_start(s, c);
            let cut = s.len() - rest.len();
            &&& cut >= 0
            &&& rest == s.skip(cut)
            &&& forall|i: int| 0 <= i < cut ==> #[trigger] s[i] == c
            &&& rest.len() > 0 ==> rest[0] != c
        }),
        ({
            let rest = trim_end(s, c);
            &&& rest.len() <= s.len()
            &&& rest == s.take(rest.len() as int)
            &&& forall|i: int| rest.len() <= i < s.len() ==> #[trigger] s[i] == c
            &&& rest.len() > 0 ==> rest.last() != c
        }),
{
    lemma_prefix_len(s, equal_to(c));
    lemma_suffix_len(s, equal_to(c));
    let cut = prefix_len(s, equal_to(c));
    assert forall|i: int| 0 <= i < cut implies #[trigger] s[i] == c by {
        assert((equal_to(c))(s[i]));
    }
    let kept = s.len() - suffix_len(s, equal_to(c));
    assert forall|i: int| kept <= i < s.len() implies #[trigger] s[i] == c by {
        assert((equal_to(c))(s[i]));
    }
}

/// A text starts with exactly those texts that something can be put behind to
/// make it.
pub proof fn law_prefix_and_rest_make_the_text(s: Seq<char>, prefix: Seq<char>)
    ensures
        has_prefix(s, prefix) <==> exists|rest: Seq<char>| s == prefix + rest,
{
    if has_prefix(s, prefix) {
        assert(s == prefix + s.skip(prefix.len() as int));
    }
    if exists|rest: Seq<char>| s == prefix + rest {
        let rest = choose|rest: Seq<char>| s == prefix + rest;
        assert(s.take(prefix.len() as int) == prefix);
    }
}

/// A text holds exactly those texts that something can be put before and
/// behind to make it.
pub proof fn law_occurrence_splits_the_text(part: Seq<char>, s: Seq<char>)
    ensures
        occurs_in(part, s) <==> exists|left: Seq<char>, right: Seq<char>| s == left + part + right,
{
    if occurs_in(part, s) {
        let i = choose|i: int| 0 <= i <= s.len() && has_prefix(#[trigger] s.skip(i), part);
        let rest = s.skip(i);
        assert(rest == part + rest.skip(part.len() as int));
        assert(s == s.take(i) + part + rest.skip(part.len() as int));
    }
    if exists|left: Seq<char>, right: Seq<char>| s == left + part + right {
        let (left, right) = choose|left: Seq<char>, right: Seq<char>| s == left + part + right;
        let rest = s.skip(left.len() as int);
        assert(rest.take(part.len() as int) == part);
        assert(has_prefix(s.skip(left.len() as int), part));
    }
}

/// The sequences agree up to an index, at which the first ends or holds the
/// smaller byte.
pub open spec fn differ_at(a: Seq<u8>, b: Seq<u8>, k: int) -> bool {
    &&& 0 <= k < b.len()
    &&& k <= a.len()
    &&& forall|i: int| 0 <= i < k ==> #[trigger] a[i] == b[i]
    &&& k == a.len() || a[k] < b[k]
}

proof fn lemma_bytes_differ(a: Seq<u8>, b: Seq<u8>)
    ensures
        bytes_before(a, b) <==> exists|k: int| differ_at(a, b, k),
    decreases a.len(),
{
    if a.len() > 0 && b.len() > 0 && a[0] == b[0] {
        let x = a.skip(1);
        let y = b.skip(1);
        lemma_bytes_differ(x, y);
        if bytes_before(a, b) {
            let k = choose|k: int| differ_at(x, y, k);
            assert forall|i: int| 0 <= i < k + 1 implies #[trigger] a[i] == b[i] by {
                if i > 0 {
                    assert(x[i - 1] == y[i - 1]);
                }
            }
            assert(differ_at(a, b, k + 1));
        }
        if exists|k: int| differ_at(a, b, k) {
            let k = choose|k: int| differ_at(a, b, k);
            assert forall|i: int| 0 <= i < k - 1 implies #[trigger] x[i] == y[i] by {
                assert(a[i + 1] == b[i + 1]);
            }
            assert(k > 0);
            assert(differ_at(x, y, k - 1));
        }
    } else if bytes_before(a, b) {
        assert(differ_at(a, b, 0));
    } else if exists|k: int| differ_at(a, b, k) {
        let k = choose|k: int| differ_at(a, b, k);
        if k > 0 {
            assert(a[0] == b[0]);
        }
    }
}

/// Texts are in the order of a dictionary: the first byte in which two differ
/// decides, and a text comes before those that it is the beginning of.
pub proof fn law_first_difference_decides(a: Seq<char>, b: Seq<char>)
    ensures
        text_before(a, b) <==> exists|k: int| differ_at(encode_utf8(a), encode_utf8(b), k),
{
    lemma_bytes_differ(encode_utf8(a), encode_utf8(b));
}

/// White space parts words: those of a text are the ones before and the ones
/// behind it. A text without white space is one word, unless it is empty.
pub proof fn law_white_space_parts_words(left: Seq<char>, space: char, right: Seq<char>)
    requires
        white_space(space),
    ensures
        words(left.push(space) + right) == words(left) + words(right),
        !(exists|i: int| 0 <= i < left.len() && white_space(#[trigger] left[i])) ==> words(left)
            == if left.len() == 0 {
            Seq::empty()
        } else {
            seq![left]
        },
    decreases left.len(),
{
    let s = left.push(space) + right;
    if left.len() == 0 {
        assert(s[0] == space);
        assert(s.skip(1) == right);
        assert(words(left) + words(right) == words(right));
    } else if white_space(left[0]) {
        assert(s[0] == left[0]);
        let rest = left.skip(1);
        assert(s.skip(1) == rest.push(space) + right);
        law_white_space_parts_words(rest, space, right);
    } else {
        lemma_prefix_len(left, not_white_space());
        let n = word_len(left);
        assert(n > 0);
        assert forall|k: int| 0 <= k < n implies (not_white_space())(#[trigger] s[k]) by {
            assert(s[k] == left[k]);
        }
        if n < left.len() {
            assert(s[n] == left[n]);
        } else {
            assert(s[n] == space);
        }
        lemma_prefix_len_unique(s, not_white_space(), n);
        assert(s[0] == left[0]);
        assert(s.take(n) == left.take(n));
        let rest = left.skip(n);
        assert(s.skip(n) == rest.push(space) + right);
        law_white_space_parts_words(rest, space, right);
        assert(seq![left.take(n)] + (words(rest) + words(right)) == (seq![left.take(n)] + words(
            rest,
        )) + words(right));
        if n < left.len() {
            assert(white_space(left[n]));
        } else {
            assert(left.take(n) == left);
            assert(words(rest) == Seq::<Seq<char>>::empty());
            assert(seq![left] + Seq::<Seq<char>>::empty() == seq![left]);
        }
    }
}

/// Of the ASCII characters, the space and the controls from tab to carriage
/// return are white space; letters, digits and punctuation are not.
pub proof fn law_ascii_white_space(c: char)
    requires
        (c as u32) < 128,
    ensures
        white_space(c) <==> c == ' ' || c == '\t' || c == '\n' || c == '\u{b}' || c == '\u{c}'
            || c == '\r',
{
}

/// Letters are made small one by one: a capital becomes the small letter with
/// the same place in the alphabet, all else stays.
pub proof fn law_capitals_become_small(s: Seq<char>, i: int)
    requires
        0 <= i < s.len(),
    ensures
        ascii_lowercase(s).len() == s.len(),
        'A' <= s[i] <= 'Z' ==> ascii_lowercase(s)[i] as int - 'a' as int == s[i] as int
            - 'A' as int,
        !('A' <= s[i] <= 'Z') ==> ascii_lowercase(s)[i] == s[i],
{
}

/// The texts of a list of strings are those of the strings, in their order.
pub proof fn law_texts_are_those_of_the_strings(strings: Seq<String>, i: int)
    ensures
        texts(strings).len() == strings.len(),
        0 <= i < strings.len() ==> texts(strings)[i] == strings[i]@,
{
}

} // verus!
