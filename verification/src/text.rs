//! Text as sequences of characters: decimal numbers, substrings, words.

use vstd::prelude::*;
use vstd::utf8::*;

verus! {

/// `String::push` of std: appends one character.
pub assume_specification[ String::push ](s: &mut String, ch: char)
    ensures
        final(s)@ == old(s)@.push(ch),
;

/// The text that `String::from_utf8_lossy` of std makes of bytes: their UTF-8 decoding, with
/// U+FFFD in place of what is not UTF-8.
pub uninterp spec fn lossy_text(bytes: Seq<u8>) -> Seq<char>;

/// `String::from_utf8_lossy` of std. Bytes that are UTF-8 come out as the text they encode;
/// how many replacement characters stand for bytes that are not is left to the name.
#[verifier::external_body]
pub(crate) fn text_from_utf8_lossy(bytes: &[u8]) -> (text: String)
    ensures
        text@ == lossy_text(bytes@),
        valid_utf8(bytes@) ==> text@ == decode_utf8(bytes@),
{
    String::from_utf8_lossy(bytes).into_owned()
}

/// The text that bytes are read as: what they encode, as far as they are UTF-8.
pub open spec fn readable(bytes: Seq<u8>) -> Seq<char> {
    if valid_utf8(bytes) {
        decode_utf8(bytes)
    } else {
        lossy_text(bytes)
    }
}

/// `String::from_utf8` of std: the text that the bytes encode, or nothing where they are not
/// UTF-8.
#[verifier::external_body]
pub(crate) fn text_from_utf8(bytes: Vec<u8>) -> (text: Option<String>)
    ensures
        text is Some <==> valid_utf8(bytes@),
        text matches Some(t) ==> t@ == decode_utf8(bytes@),
{
    String::from_utf8(bytes).ok()
}

/// The texts of a list of strings.
pub open spec fn texts(list: Seq<String>) -> Seq<Seq<char>> {
    list.map_values(|s: String| s@)
}

// ---------------------------------------------------------------------------
// Decimal numbers
// ---------------------------------------------------------------------------

/// The character of a decimal digit.
pub open spec fn digit(d: int) -> char {
    (48 + d) as char
}

/// The decimal digits of `n`, most significant first, without leading zeros.
pub open spec fn decimal(n: nat) -> Seq<char>
    decreases n,
{
    if n < 10 {
        seq![digit(n as int)]
    } else {
        decimal(n / 10).push(digit((n % 10) as int))
    }
}

/// The decimal digits of `n`, with a minus sign in front when it is negative.
pub open spec fn signed_decimal(n: int) -> Seq<char> {
    if n < 0 {
        seq!['-'] + decimal((-n) as nat)
    } else {
        decimal(n as nat)
    }
}

/// Appends one decimal digit.
pub fn push_digit(out: &mut String, d: u8)
    requires
        d < 10,
    ensures
        final(out)@ == old(out)@.push(digit(d as int)),
{
    out.push((48 + d) as char);
}

/// Appends the decimal digits of `n`.
pub fn push_decimal(out: &mut String, n: u64)
    ensures
        final(out)@ == old(out)@ + decimal(n as nat),
    decreases n,
{
    if n >= 10 {
        push_decimal(out, n / 10);
    }
    push_digit(out, (n % 10) as u8);
}

/// Appends the decimal digits of `n`, with a minus sign in front when it is negative.
pub fn push_signed_decimal(out: &mut String, n: i64)
    ensures
        final(out)@ == old(out)@ + signed_decimal(n as int),
{
    if n < 0 {
        out.push('-');
        push_decimal(out, (-(n as i128)) as u64);
    } else {
        push_decimal(out, n as u64);
    }
}

/// Distinct numbers have distinct decimal digits.
pub proof fn decimal_is_injective(m: nat, n: nat)
    requires
        decimal(m) == decimal(n),
    ensures
        m == n,
    decreases m,
{
    decimal_is_not_empty(m);
    decimal_is_not_empty(n);
    assert(digit((m % 10) as int) == decimal(m).last());
    assert(digit((n % 10) as int) == decimal(n).last());
    if m >= 10 && n >= 10 {
        assert(decimal(m / 10) =~= decimal(m).drop_last());
        assert(decimal(n / 10) =~= decimal(n).drop_last());
        decimal_is_injective(m / 10, n / 10);
    } else if m >= 10 {
        decimal_is_not_empty(m / 10);
    } else if n >= 10 {
        decimal_is_not_empty(n / 10);
    }
}

/// A number has at least one digit, and every character of it is a digit.
pub proof fn decimal_is_not_empty(n: nat)
    ensures
        decimal(n).len() > 0,
        forall|i: int| 0 <= i < decimal(n).len() ==> '0' <= #[trigger] decimal(n)[i] <= '9',
    decreases n,
{
    if n >= 10 {
        decimal_is_not_empty(n / 10);
    }
}

/// Distinct integers, negative ones included, are written differently.
pub proof fn signed_decimal_is_injective(m: int, n: int)
    requires
        signed_decimal(m) == signed_decimal(n),
    ensures
        m == n,
{
    let (a, b) = (signed_decimal(m), signed_decimal(n));
    decimal_is_not_empty(if m < 0 { (-m) as nat } else { m as nat });
    decimal_is_not_empty(if n < 0 { (-n) as nat } else { n as nat });
    assert(m < 0 <==> a[0] == '-');
    assert(n < 0 <==> b[0] == '-');
    if m < 0 {
        assert(decimal((-m) as nat) =~= a.skip(1));
        assert(decimal((-n) as nat) =~= b.skip(1));
        decimal_is_injective((-m) as nat, (-n) as nat);
    } else {
        decimal_is_injective(m as nat, n as nat);
    }
}

/// The characters of a text, one by one.
pub fn chars_of(text: &str) -> (chars: Vec<char>)
    ensures
        chars@ == text@,
{
    let mut chars: Vec<char> = Vec::new();
    for c in it: text.chars()
        invariant
            it.seq() == text@,
            chars@ == it.seq().take(it.index() as int),
    {
        chars.push(c);
    }
    chars
}

/// The text that the characters `from..to` spell.
pub fn text_of(chars: &Vec<char>, from: usize, to: usize) -> (text: String)
    requires
        from <= to <= chars@.len(),
    ensures
        text@ == chars@.subrange(from as int, to as int),
{
    let mut text = String::new();
    for i in from..to
        invariant
            from <= i <= to <= chars@.len(),
            text@ == chars@.subrange(from as int, i as int),
    {
        text.push(chars[i]);
    }
    text
}

// ---------------------------------------------------------------------------
// Substrings
// ---------------------------------------------------------------------------

/// `pattern` stands in `text` at position `at`.
pub open spec fn occurs_at(text: Seq<char>, pattern: Seq<char>, at: int) -> bool {
    &&& 0 <= at <= text.len() - pattern.len()
    &&& text.subrange(at, at + pattern.len()) == pattern
}

/// `pattern` stands somewhere in `text`.
pub open spec fn contains(text: Seq<char>, pattern: Seq<char>) -> bool {
    exists|at: int| occurs_at(text, pattern, at)
}

/// `at` is the first position at which `pattern` stands in `text`.
pub open spec fn first_at(text: Seq<char>, pattern: Seq<char>, at: int) -> bool {
    &&& occurs_at(text, pattern, at)
    &&& forall|before: int| occurs_at(text, pattern, before) ==> at <= before
}

/// What stands in front of the first `pattern`, or the whole text where there is none.
pub open spec fn up_to(text: Seq<char>, pattern: Seq<char>) -> Seq<char> {
    if contains(text, pattern) {
        text.take(choose|at: int| first_at(text, pattern, at))
    } else {
        text
    }
}

/// Where there is a `pattern` there is a first one.
pub proof fn first_exists(text: Seq<char>, pattern: Seq<char>)
    requires
        contains(text, pattern),
    ensures
        exists|at: int| first_at(text, pattern, at),
{
    let at = choose|at: int| occurs_at(text, pattern, at);
    first_up_to(text, pattern, at);
}

/// The first `pattern` is at `at` or before it.
proof fn first_up_to(text: Seq<char>, pattern: Seq<char>, at: int)
    requires
        occurs_at(text, pattern, at),
    ensures
        exists|first: int| first_at(text, pattern, first),
    decreases at,
{
    if exists|before: int| before < at && occurs_at(text, pattern, before) {
        let before = choose|before: int| before < at && occurs_at(text, pattern, before);
        first_up_to(text, pattern, before);
    } else {
        assert(first_at(text, pattern, at));
    }
}

/// What is left of a text without the ending, where it has it.
pub open spec fn without_ending(text: Seq<char>, ending: Seq<char>) -> Seq<char> {
    if occurs_at(text, ending, text.len() - ending.len()) {
        text.take(text.len() - ending.len())
    } else {
        text
    }
}

/// Whether `pattern` stands in `text` at `at`.
fn matches_at(text: &Vec<char>, pattern: &Vec<char>, at: usize) -> (found: bool)
    requires
        at + pattern@.len() <= text@.len(),
    ensures
        found == occurs_at(text@, pattern@, at as int),
{
    let ghost window = text@.subrange(at as int, at + pattern@.len());
    for i in 0..pattern.len()
        invariant
            at + pattern@.len() <= text.len(),
            window == text@.subrange(at as int, at + pattern@.len()),
            forall|k: int| 0 <= k < i ==> window[k] == pattern@[k],
    {
        if text[at + i] != pattern[i] {
            assert(window[i as int] != pattern@[i as int]);
            return false;
        }
        assert(window[i as int] == pattern@[i as int]);
    }
    assert(window =~= pattern@);
    true
}

/// The first position at which `pattern` stands in `text`.
pub fn find(text: &Vec<char>, pattern: &Vec<char>) -> (found: Option<usize>)
    ensures
        found is Some <==> contains(text@, pattern@),
        found matches Some(at) ==> first_at(text@, pattern@, at as int),
{
    if pattern.len() > text.len() {
        return None;
    }
    let last: usize = text.len() - pattern.len();
    let mut at: usize = 0;
    loop
        invariant
            at <= last,
            last == text@.len() - pattern@.len(),
            forall|before: int| occurs_at(text@, pattern@, before) ==> at <= before,
        decreases last - at,
    {
        if matches_at(text, pattern, at) {
            return Some(at);
        }
        if at == last {
            return None;
        }
        at = at + 1;
    }
}

/// What is left of a text without the ending, where it has it.
pub fn strip_ending(text: &str, ending: &str) -> (res: String)
    ensures
        res@ == without_ending(text@, ending@),
{
    let chars: Vec<char> = chars_of(text);
    let last: Vec<char> = chars_of(ending);
    if last.len() <= chars.len() {
        let to: usize = chars.len() - last.len();
        if matches_at(&chars, &last, to) {
            return text_of(&chars, 0, to);
        }
    }
    text.to_owned()
}

/// Whether `pattern` stands somewhere in `text`.
pub fn text_contains(text: &str, pattern: &str) -> (found: bool)
    ensures
        found == contains(text@, pattern@),
{
    let chars: Vec<char> = chars_of(text);
    let wanted: Vec<char> = chars_of(pattern);
    find(&chars, &wanted).is_some()
}

// ---------------------------------------------------------------------------
// White space and words
// ---------------------------------------------------------------------------

/// The characters that Unicode gives the property `White_Space`.
pub open spec fn white_space(c: char) -> bool {
    ||| '\u{9}' <= c <= '\u{d}'
    ||| c == '\u{20}'
    ||| c == '\u{85}'
    ||| c == '\u{a0}'
    ||| c == '\u{1680}'
    ||| '\u{2000}' <= c <= '\u{200a}'
    ||| c == '\u{2028}'
    ||| c == '\u{2029}'
    ||| c == '\u{202f}'
    ||| c == '\u{205f}'
    ||| c == '\u{3000}'
}

/// Whether a character is white space.
pub fn is_white_space(c: char) -> (space: bool)
    ensures
        space == white_space(c),
{
    ('\u{9}' <= c && c <= '\u{d}') || c == '\u{20}' || c == '\u{85}' || c == '\u{a0}'
        || c == '\u{1680}' || ('\u{2000}' <= c && c <= '\u{200a}') || c == '\u{2028}'
        || c == '\u{2029}' || c == '\u{202f}' || c == '\u{205f}' || c == '\u{3000}'
}

/// The characters that the key of a field is made of: ASCII letters, digits, `_` and `-`.
pub open spec fn key_char(c: char) -> bool {
    ||| 'a' <= c <= 'z'
    ||| 'A' <= c <= 'Z'
    ||| '0' <= c <= '9'
    ||| c == '_'
    ||| c == '-'
}

/// Whether a character can be part of the key of a field.
pub fn is_key_char(c: char) -> (part: bool)
    ensures
        part == key_char(c),
{
    ('a' <= c && c <= 'z') || ('A' <= c && c <= 'Z') || ('0' <= c && c <= '9') || c == '_' || c
        == '-'
}

/// A field with this key stands in `text` at `at`: the key comes first, or after a character
/// that makes it no part of a longer key.
pub open spec fn field_at(text: Seq<char>, key: Seq<char>, at: int) -> bool {
    occurs_at(text, key, at) && (at == 0 || !key_char(text[at - 1]))
}

/// `text` has a field with this key.
pub open spec fn has_field(text: Seq<char>, key: Seq<char>) -> bool {
    exists|at: int| field_at(text, key, at)
}

/// `at` is the first position of a field with this key.
pub open spec fn first_field_at(text: Seq<char>, key: Seq<char>, at: int) -> bool {
    &&& field_at(text, key, at)
    &&& forall|before: int| field_at(text, key, before) ==> at <= before
}

/// What follows the key of the first such field, where there is one.
pub open spec fn after_field(text: Seq<char>, key: Seq<char>) -> Seq<char> {
    text.skip((choose|at: int| first_field_at(text, key, at)) + key.len())
}

/// The first position of a field with this key.
pub fn find_field(text: &Vec<char>, key: &Vec<char>) -> (found: Option<usize>)
    ensures
        found is Some <==> has_field(text@, key@),
        found matches Some(at) ==> first_field_at(text@, key@, at as int),
{
    if key.len() > text.len() {
        return None;
    }
    let last: usize = text.len() - key.len();
    let mut at: usize = 0;
    loop
        invariant
            at <= last,
            last == text@.len() - key@.len(),
            forall|before: int| field_at(text@, key@, before) ==> at <= before,
        decreases last - at,
    {
        if (at == 0 || !is_key_char(text[at - 1])) && matches_at(text, key, at) {
            assert(field_at(text@, key@, at as int));
            return Some(at);
        }
        if at == last {
            return None;
        }
        at = at + 1;
    }
}

/// A text without the white space that it starts with.
pub open spec fn without_leading_space(text: Seq<char>) -> Seq<char>
    decreases text.len(),
{
    if text.len() > 0 && white_space(text[0]) {
        without_leading_space(text.drop_first())
    } else {
        text
    }
}

/// A text without the white space that it ends with.
pub open spec fn without_trailing_space(text: Seq<char>) -> Seq<char>
    decreases text.len(),
{
    if text.len() > 0 && white_space(text.last()) {
        without_trailing_space(text.drop_last())
    } else {
        text
    }
}

/// A text without the white space around it.
pub open spec fn trimmed(text: Seq<char>) -> Seq<char> {
    without_trailing_space(without_leading_space(text))
}

/// The characters that a text starts with, up to its first white space.
pub open spec fn up_to_space(text: Seq<char>) -> Seq<char>
    decreases text.len(),
{
    if text.len() > 0 && !white_space(text[0]) {
        seq![text[0]] + up_to_space(text.drop_first())
    } else {
        Seq::empty()
    }
}

/// The first word of a text: empty where it holds nothing but white space.
pub open spec fn first_word(text: Seq<char>) -> Seq<char> {
    up_to_space(without_leading_space(text))
}

/// A word that is followed by nothing or by white space is the first word.
pub proof fn first_word_is_read(word: Seq<char>, rest: Seq<char>)
    requires
        word.len() > 0,
        forall|i: int| 0 <= i < word.len() ==> !white_space(#[trigger] word[i]),
        rest.len() > 0 ==> white_space(rest[0]),
    ensures
        first_word(word + rest) == word,
{
    assert((word + rest)[0] == word[0]);
    up_to_space_of(word, rest);
}

/// What stands before the first white space.
proof fn up_to_space_of(word: Seq<char>, rest: Seq<char>)
    requires
        forall|i: int| 0 <= i < word.len() ==> !white_space(#[trigger] word[i]),
        rest.len() > 0 ==> white_space(rest[0]),
    ensures
        up_to_space(word + rest) == word,
    decreases word.len(),
{
    if word.len() == 0 {
        assert(word + rest =~= rest);
        assert(up_to_space(rest) =~= word);
    } else {
        let tail = word.drop_first();
        assert forall|i: int| 0 <= i < tail.len() implies !white_space(#[trigger] tail[i]) by {
            assert(tail[i] == word[i + 1]);
        }
        up_to_space_of(tail, rest);
        assert((word + rest).drop_first() =~= tail + rest);
        assert(seq![word[0]] + tail =~= word);
    }
}

/// A filter that keeps every character keeps the text.
pub proof fn filter_of_kept(text: Seq<char>, kept: spec_fn(char) -> bool)
    requires
        forall|i: int| 0 <= i < text.len() ==> kept(#[trigger] text[i]),
    ensures
        text.filter(kept) == text,
    decreases text.len(),
{
    reveal(Seq::filter);
    if text.len() > 0 {
        let init = text.drop_last();
        assert forall|i: int| 0 <= i < init.len() implies kept(#[trigger] init[i]) by {
            assert(init[i] == text[i]);
        }
        filter_of_kept(init, kept);
        assert(init.push(text.last()) =~= text);
    }
}

/// The position after the white space with which the text from `from` on starts.
fn after_space(chars: &Vec<char>, from: usize) -> (at: usize)
    requires
        from <= chars@.len(),
    ensures
        from <= at <= chars@.len(),
        chars@.skip(at as int) == without_leading_space(chars@.skip(from as int)),
{
    let mut at: usize = from;
    while at < chars.len() && is_white_space(chars[at])
        invariant
            from <= at <= chars@.len(),
            without_leading_space(chars@.skip(at as int)) == without_leading_space(
                chars@.skip(from as int),
            ),
        ensures
            from <= at <= chars@.len(),
            chars@.skip(at as int) == without_leading_space(chars@.skip(from as int)),
        decreases chars@.len() - at,
    {
        assert(chars@.skip(at as int).drop_first() =~= chars@.skip(at + 1));
        at = at + 1;
    }
    at
}

/// The position of the first white space from `from` on, or the end of the text.
fn before_space(chars: &Vec<char>, from: usize) -> (at: usize)
    requires
        from <= chars@.len(),
    ensures
        from <= at <= chars@.len(),
        chars@.subrange(from as int, at as int) == up_to_space(chars@.skip(from as int)),
{
    let mut at: usize = from;
    while at < chars.len() && !is_white_space(chars[at])
        invariant
            from <= at <= chars@.len(),
            chars@.subrange(from as int, at as int) + up_to_space(chars@.skip(at as int))
                == up_to_space(chars@.skip(from as int)),
        decreases chars@.len() - at,
    {
        assert(chars@.skip(at as int).drop_first() =~= chars@.skip(at + 1));
        assert(chars@.subrange(from as int, at + 1) =~= chars@.subrange(from as int, at as int)
            + seq![chars@[at as int]]);
        at = at + 1;
    }
    at
}

/// The text without the white space around it.
pub fn trim(text: &str) -> (res: String)
    ensures
        res@ == trimmed(text@),
{
    let chars: Vec<char> = chars_of(text);
    assert(chars@.skip(0) =~= chars@);
    let from: usize = after_space(&chars, 0);
    let mut to: usize = chars.len();
    assert(chars@.subrange(from as int, to as int) =~= chars@.skip(from as int));
    while to > from && is_white_space(chars[to - 1])
        invariant
            from <= to <= chars@.len(),
            without_trailing_space(chars@.subrange(from as int, to as int)) == trimmed(text@),
        ensures
            from <= to <= chars@.len(),
            chars@.subrange(from as int, to as int) == trimmed(text@),
        decreases to,
    {
        assert(chars@.subrange(from as int, to as int).drop_last() =~= chars@.subrange(
            from as int,
            to - 1,
        ));
        to = to - 1;
    }
    text_of(&chars, from, to)
}

/// The first word that the characters spell, without any `dropped` in it.
pub fn word_without(chars: &Vec<char>, dropped: char) -> (word: String)
    ensures
        word@ == first_word(chars@).filter(|c: char| c != dropped),
{
    assert(chars@.skip(0) =~= chars@);
    let from: usize = after_space(chars, 0);
    let to: usize = before_space(chars, from);
    filtered(chars, from, to, dropped)
}

/// The characters `from..to`, without any `dropped` among them.
fn filtered(chars: &Vec<char>, from: usize, to: usize, dropped: char) -> (text: String)
    requires
        from <= to <= chars@.len(),
    ensures
        text@ == chars@.subrange(from as int, to as int).filter(|c: char| c != dropped),
{
    let ghost kept = |c: char| c != dropped;
    let mut text = String::new();
    proof {
        reveal(Seq::filter);
    }
    for i in from..to
        invariant
            from <= i <= to <= chars@.len(),
            kept == (|c: char| c != dropped),
            text@ == chars@.subrange(from as int, i as int).filter(kept),
    {
        proof {
            reveal(Seq::filter);
            assert(chars@.subrange(from as int, i + 1).drop_last() =~= chars@.subrange(
                from as int,
                i as int,
            ));
        }
        if chars[i] != dropped {
            text.push(chars[i]);
        }
    }
    text
}

// ---------------------------------------------------------------------------
// Order
// ---------------------------------------------------------------------------

/// `a` stands before `b` in the dictionary order of their code points.
pub open spec fn precedes(a: Seq<char>, b: Seq<char>) -> bool
    decreases a.len(),
{
    if b.len() == 0 {
        false
    } else if a.len() == 0 {
        true
    } else if a[0] != b[0] {
        a[0] < b[0]
    } else {
        precedes(a.drop_first(), b.drop_first())
    }
}

/// Of two distinct texts exactly one precedes the other, and none precedes itself.
pub proof fn precedes_is_total(a: Seq<char>, b: Seq<char>)
    ensures
        a == b ==> !precedes(a, b),
        a != b ==> (precedes(a, b) <==> !precedes(b, a)),
    decreases a.len(),
{
    if a.len() == 0 || b.len() == 0 {
        if a.len() == b.len() {
            assert(a =~= b);
        }
    } else {
        precedes_is_total(a.drop_first(), b.drop_first());
        if a[0] == b[0] && a.drop_first() == b.drop_first() {
            assert(a =~= seq![a[0]] + a.drop_first());
            assert(b =~= seq![b[0]] + b.drop_first());
        }
    }
}

/// The dictionary order is transitive.
pub proof fn precedes_is_transitive(a: Seq<char>, b: Seq<char>, c: Seq<char>)
    requires
        precedes(a, b),
        precedes(b, c),
    ensures
        precedes(a, c),
    decreases a.len(),
{
    if a.len() > 0 && b.len() > 0 && c.len() > 0 && a[0] == b[0] && b[0] == c[0] {
        precedes_is_transitive(a.drop_first(), b.drop_first(), c.drop_first());
    }
}

/// Whether `a` stands before `b` in dictionary order.
pub fn text_precedes(a: &Vec<char>, b: &Vec<char>) -> (before: bool)
    ensures
        before == precedes(a@, b@),
{
    let mut i: usize = 0;
    assert(a@.skip(0) =~= a@);
    assert(b@.skip(0) =~= b@);
    while i < a.len() && i < b.len() && a[i] == b[i]
        invariant
            i <= a@.len(),
            i <= b@.len(),
            precedes(a@, b@) == precedes(a@.skip(i as int), b@.skip(i as int)),
        decreases a@.len() - i,
    {
        assert(a@.skip(i as int).drop_first() =~= a@.skip(i + 1));
        assert(b@.skip(i as int).drop_first() =~= b@.skip(i + 1));
        i = i + 1;
    }
    if i >= b.len() {
        false
    } else if i >= a.len() {
        true
    } else {
        a[i] < b[i]
    }
}

// ---------------------------------------------------------------------------
// Laws
// ---------------------------------------------------------------------------

/// The number that decimal digits stand for.
pub open spec fn number_of(digits: Seq<char>) -> int
    decreases digits.len(),
{
    if digits.len() == 0 {
        0
    } else {
        10 * number_of(digits.drop_last()) + (digits.last() as int - '0' as int)
    }
}

/// The characters are digits, at least one, and a zero comes first only where it is the only one.
pub open spec fn is_numeral(digits: Seq<char>) -> bool {
    &&& digits.len() > 0
    &&& forall|i: int| 0 <= i < digits.len() ==> '0' <= #[trigger] digits[i] <= '9'
    &&& digits.len() > 1 ==> digits[0] != '0'
}

/// The decimal digits of a number read as that number, and have no needless zeros.
pub proof fn decimal_reads_back(n: nat)
    ensures
        is_numeral(decimal(n)),
        number_of(decimal(n)) == n,
    decreases n,
{
    reveal_with_fuel(number_of, 2);
    decimal_is_not_empty(n);
    if n >= 10 {
        let head = decimal(n / 10);
        decimal_reads_back(n / 10);
        decimal_is_not_empty(n / 10);
        assert(decimal(n).drop_last() =~= head);
        assert(decimal(n)[0] == head[0]);
        if head.len() == 1 {
            assert(head.drop_last() =~= Seq::<char>::empty());
        }
    } else {
        assert(decimal(n).drop_last() =~= Seq::<char>::empty());
    }
}

/// An integer is written as its distance from zero, with a minus sign in front exactly when it is
/// negative.
pub proof fn signed_decimal_reads_back(n: int)
    ensures
        n >= 0 ==> is_numeral(signed_decimal(n)) && number_of(signed_decimal(n)) == n,
        n < 0 ==> {
            &&& signed_decimal(n).len() > 1
            &&& signed_decimal(n)[0] == '-'
            &&& is_numeral(signed_decimal(n).skip(1))
            &&& number_of(signed_decimal(n).skip(1)) == -n
        },
{
    if n < 0 {
        decimal_reads_back((-n) as nat);
        assert(signed_decimal(n).skip(1) =~= decimal((-n) as nat));
    } else {
        decimal_reads_back(n as nat);
    }
}

/// What a text is made of stands in it, at the position where the parts join.
pub proof fn part_is_found(before: Seq<char>, pattern: Seq<char>, after: Seq<char>)
    ensures
        occurs_at(before + pattern + after, pattern, before.len() as int),
        contains(before + pattern + after, pattern),
{
    let text = before + pattern + after;
    let at = before.len() as int;
    assert(text.subrange(at, at + pattern.len()) =~= pattern);
    assert(occurs_at(text, pattern, at));
}

/// Where a pattern stands in a text, the text is made of what is before it, the pattern, and what
/// is after it.
pub proof fn found_is_a_part(text: Seq<char>, pattern: Seq<char>, at: int)
    requires
        occurs_at(text, pattern, at),
    ensures
        0 <= at <= text.len() - pattern.len(),
        text == text.take(at) + pattern + text.skip(at + pattern.len()),
        contains(text, pattern),
{
    let window = text.subrange(at, at + pattern.len());
    assert(text =~= text.take(at) + window + text.skip(at + pattern.len()));
}

/// A text without the pattern is cut nowhere. Another one is cut where the pattern stands, and
/// nowhere does it stand earlier.
pub proof fn cut_is_at_the_first(text: Seq<char>, pattern: Seq<char>)
    ensures
        !contains(text, pattern) ==> up_to(text, pattern) == text,
        contains(text, pattern) ==> {
            &&& occurs_at(text, pattern, up_to(text, pattern).len() as int)
            &&& up_to(text, pattern) == text.take(up_to(text, pattern).len() as int)
            &&& first_at(text, pattern, up_to(text, pattern).len() as int)
        },
        forall|at: int|
            occurs_at(text, pattern, at) ==> #[trigger] up_to(text, pattern).len() <= at,
{
    if contains(text, pattern) {
        first_exists(text, pattern);
        let first = choose|at: int| first_at(text, pattern, at);
        assert(occurs_at(text, pattern, first));
        assert(up_to(text, pattern) == text.take(first));
        assert(up_to(text, pattern).len() == first);
    } else {
        assert forall|at: int| !occurs_at(text, pattern, at) by {
            assert(occurs_at(text, pattern, at) ==> contains(text, pattern));
        }
    }
}

/// An ending that was put to a text can be taken off again, and from a text that has it not
/// nothing is taken.
pub proof fn ending_comes_off(text: Seq<char>, ending: Seq<char>)
    ensures
        without_ending(text + ending, ending) == text,
        (forall|head: Seq<char>| text != #[trigger] (head + ending)) ==> without_ending(
            text,
            ending,
        ) == text,
{
    let whole = text + ending;
    let to = whole.len() - ending.len();
    assert(whole.subrange(to, to + ending.len()) =~= ending);
    assert(whole.take(to) =~= text);
    let at = text.len() - ending.len();
    if occurs_at(text, ending, at) {
        found_is_a_part(text, ending, at);
        assert(text =~= text.take(at) + ending);
    }
}

/// The code points that count as white space.
pub proof fn white_space_by_code_point(c: char)
    ensures
        white_space(c) <==> {
            let p = c as int;
            ||| p == 9 || p == 10 || p == 11 || p == 12 || p == 13 || p == 32 || p == 133
            ||| p == 160 || p == 5760 || p == 8192 || p == 8193 || p == 8194 || p == 8195
            ||| p == 8196 || p == 8197 || p == 8198 || p == 8199 || p == 8200 || p == 8201
            ||| p == 8202 || p == 8232 || p == 8233 || p == 8239 || p == 8287 || p == 12288
        },
{
}

/// The code points that the key of a field can have.
pub proof fn key_char_by_code_point(c: char)
    ensures
        key_char(c) <==> {
            let p = c as int;
            48 <= p <= 57 || 65 <= p <= 90 || 97 <= p <= 122 || p == 45 || p == 95
        },
{
}

/// A field stands where its key does, unless a longer key ends there.
pub proof fn field_is_no_longer_key(
    before: Seq<char>,
    key: Seq<char>,
    after: Seq<char>,
)
    ensures
        field_at(before + key + after, key, before.len() as int) <==> (before.len() > 0
            ==> !key_char(before.last())),
{
    part_is_found(before, key, after);
    if before.len() > 0 {
        assert((before + key + after)[before.len() - 1] == before.last());
    }
}

/// Nothing but white space.
pub open spec fn all_space(text: Seq<char>) -> bool {
    forall|i: int| 0 <= i < text.len() ==> white_space(#[trigger] text[i])
}

/// Leading white space does not count.
proof fn leading_space_goes(space: Seq<char>, text: Seq<char>)
    requires
        all_space(space),
    ensures
        without_leading_space(space + text) == without_leading_space(text),
    decreases space.len(),
{
    if space.len() == 0 {
        assert(space + text =~= text);
    } else {
        let rest = space.drop_first();
        assert forall|i: int| 0 <= i < rest.len() implies white_space(#[trigger] rest[i]) by {
            assert(rest[i] == space[i + 1]);
        }
        leading_space_goes(rest, text);
        assert((space + text)[0] == space[0]);
        assert((space + text).drop_first() =~= rest + text);
    }
}

/// Trailing white space does not count.
proof fn trailing_space_goes(text: Seq<char>, space: Seq<char>)
    requires
        all_space(space),
    ensures
        without_trailing_space(text + space) == without_trailing_space(text),
    decreases space.len(),
{
    if space.len() == 0 {
        assert(text + space =~= text);
    } else {
        let rest = space.drop_last();
        assert forall|i: int| 0 <= i < rest.len() implies white_space(#[trigger] rest[i]) by {
            assert(rest[i] == space[i]);
        }
        trailing_space_goes(text, rest);
        assert((text + space).last() == space.last());
        assert((text + space).drop_last() =~= text + rest);
    }
}

/// To trim a text takes the white space before and after it, and no more.
pub proof fn trimmed_is_what_stands_between(
    before: Seq<char>,
    core: Seq<char>,
    after: Seq<char>,
)
    requires
        all_space(before),
        all_space(after),
        core.len() > 0 ==> !white_space(core[0]) && !white_space(core.last()),
    ensures
        trimmed(before + core + after) == core,
{
    let text = before + core + after;
    assert(text =~= before + (core + after));
    leading_space_goes(before, core + after);
    if core.len() > 0 {
        assert((core + after)[0] == core[0]);
        trailing_space_goes(core, after);
    } else {
        assert(core + after =~= after + core);
        leading_space_goes(after, core);
        assert(core =~= Seq::<char>::empty());
    }
}

/// The first word of a text ends at the white space behind it, whatever white space stands before
/// it. White space alone holds no word.
pub proof fn first_word_stands_between(before: Seq<char>, word: Seq<char>, rest: Seq<char>)
    requires
        all_space(before),
        forall|i: int| 0 <= i < word.len() ==> !white_space(#[trigger] word[i]),
        rest.len() > 0 ==> white_space(rest[0]),
        word.len() == 0 ==> rest.len() == 0,
    ensures
        first_word(before + word + rest) == word,
{
    assert(before + word + rest =~= before + (word + rest));
    leading_space_goes(before, word + rest);
    if word.len() > 0 {
        first_word_is_read(word, rest);
    } else {
        assert(word + rest =~= Seq::<char>::empty());
        assert(word =~= Seq::<char>::empty());
    }
}

/// Up to `k` the texts agree, and there `a` ends or has the smaller code point.
pub open spec fn smaller_at(a: Seq<char>, b: Seq<char>, k: int) -> bool {
    &&& 0 <= k <= a.len()
    &&& k < b.len()
    &&& forall|i: int| 0 <= i < k ==> a[i] == b[i]
    &&& k == a.len() || (a[k] as int) < (b[k] as int)
}

/// One text precedes another exactly when it is smaller at the first difference.
pub proof fn precedes_by_the_first_difference(a: Seq<char>, b: Seq<char>)
    ensures
        precedes(a, b) <==> exists|k: int| smaller_at(a, b, k),
    decreases a.len(),
{
    if a.len() > 0 && b.len() > 0 && a[0] == b[0] {
        let (x, y) = (a.drop_first(), b.drop_first());
        precedes_by_the_first_difference(x, y);
        if exists|k: int| smaller_at(x, y, k) {
            let k = choose|k: int| smaller_at(x, y, k);
            assert forall|i: int| 0 <= i < k + 1 implies a[i] == b[i] by {
                if i > 0 {
                    assert(x[i - 1] == y[i - 1]);
                }
            }
            assert(smaller_at(a, b, k + 1));
        }
        if exists|k: int| smaller_at(a, b, k) {
            let k = choose|k: int| smaller_at(a, b, k);
            assert forall|i: int| 0 <= i < k - 1 implies x[i] == y[i] by {
                assert(a[i + 1] == b[i + 1]);
            }
            assert(smaller_at(x, y, k - 1));
        }
    } else if b.len() > 0 {
        if precedes(a, b) {
            assert(smaller_at(a, b, 0));
        }
    }
}

/// A list of strings has their texts at their positions.
pub proof fn texts_stand_in_place(list: Seq<String>)
    ensures
        texts(list).len() == list.len(),
        forall|i: int| 0 <= i < list.len() ==> #[trigger] texts(list)[i] == list[i]@,
{
}

/// Bytes that are UTF-8 read as the text that they encode, and others as std reads them.
pub proof fn utf8_is_read_exactly(bytes: Seq<u8>)
    ensures
        valid_utf8(bytes) ==> readable(bytes) == decode_utf8(bytes),
        !valid_utf8(bytes) ==> readable(bytes) == lossy_text(bytes),
{
}

} // verus!
