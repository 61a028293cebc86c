//! Text primitives: trimming, ASCII case folding, decimal numbers and upper-casing.

use vstd::prelude::*;
use vstd::string::*;

verus! {

/// `String::push`: the character is appended to the end of the string.
pub assume_specification[ String::push ](s: &mut String, c: char)
    ensures
        final(s)@ == old(s)@.push(c),
;

// ---------------------------------------------------------------------------
// Characters
// ---------------------------------------------------------------------------

/// The characters with the Unicode property `White_Space`.
pub open spec fn white_space(c: char) -> bool {
    let u = c as u32;
    ||| 0x09 <= u <= 0x0d
    ||| u == 0x20
    ||| u == 0x85
    ||| u == 0xa0
    ||| u == 0x1680
    ||| 0x2000 <= u <= 0x200a
    ||| u == 0x2028
    ||| u == 0x2029
    ||| u == 0x202f
    ||| u == 0x205f
    ||| u == 0x3000
}

/// Whether `c` has the Unicode property `White_Space`.
pub fn is_white_space(c: char) -> (r: bool)
    ensures
        r == white_space(c),
{
    let u: u32 = c as u32;
    (0x09 <= u && u <= 0x0d) || u == 0x20 || u == 0x85 || u == 0xa0 || u == 0x1680 || (0x2000 <= u
        && u <= 0x200a) || u == 0x2028 || u == 0x2029 || u == 0x202f || u == 0x205f || u == 0x3000
}

/// The lower-case form of an ASCII letter; any other character is left alone.
pub open spec fn ascii_lower(c: char) -> char {
    if 'A' <= c && c <= 'Z' {
        ((c as u32) + 32) as char
    } else {
        c
    }
}

/// The upper-case form of an ASCII letter; any other character is left alone.
pub open spec fn ascii_upper(c: char) -> char {
    if 'a' <= c && c <= 'z' {
        ((c as u32) - 32) as char
    } else {
        c
    }
}

/// `text` with every ASCII letter in lower case.
pub open spec fn ascii_lower_text(text: Seq<char>) -> Seq<char> {
    text.map_values(|c: char| ascii_lower(c))
}

/// `text` with every ASCII letter in upper case.
pub open spec fn ascii_upper_text(text: Seq<char>) -> Seq<char> {
    text.map_values(|c: char| ascii_upper(c))
}

/// The lower-case form of an ASCII letter; any other character is returned unchanged.
pub fn to_ascii_lower(c: char) -> (r: char)
    ensures
        r == ascii_lower(c),
{
    if 'A' <= c && c <= 'Z' {
        let u: u8 = c as u8;
        (u + 32) as char
    } else {
        c
    }
}

// ---------------------------------------------------------------------------
// Comparing
// ---------------------------------------------------------------------------

/// The characters of `text`.
pub fn chars_of(text: &str) -> (r: Vec<char>)
    ensures
        r@ == text@,
{
    let mut chars: Vec<char> = Vec::new();
    for c in it: text.chars()
        invariant
            it.seq() == text@,
            chars@ == it.seq().take(it.index() as int),
    {
        chars.push(c);
        assert(chars@ =~= it.seq().take(it.index() + 1));
    }
    chars
}

/// The string made of `chars[from..to]`.
pub fn string_of(chars: &Vec<char>, from: usize, to: usize) -> (r: String)
    requires
        from <= to <= chars@.len(),
    ensures
        r@ == chars@.subrange(from as int, to as int),
{
    let mut text = String::new();
    let mut i: usize = from;
    while i < to
        invariant
            from <= i <= to <= chars@.len(),
            text@ == chars@.subrange(from as int, i as int),
        decreases to - i,
    {
        text.push(chars[i]);
        i = i + 1;
        assert(text@ =~= chars@.subrange(from as int, i as int));
    }
    text
}

/// Whether the two texts hold the same characters.
pub fn text_eq(a: &str, b: &str) -> (r: bool)
    ensures
        r == (a@ == b@),
{
    a.to_owned() == b.to_owned()
}

/// Whether the two texts are equal when the case of ASCII letters is ignored.
pub fn eq_ignore_ascii_case(a: &str, b: &str) -> (r: bool)
    ensures
        r == (ascii_lower_text(a@) == ascii_lower_text(b@)),
{
    let left = chars_of(a);
    let right = chars_of(b);
    if left.len() != right.len() {
        assert(ascii_lower_text(a@).len() != ascii_lower_text(b@).len());
        return false;
    }
    let mut i: usize = 0;
    while i < left.len()
        invariant
            left@ == a@,
            right@ == b@,
            left@.len() == right@.len(),
            i <= left@.len(),
            forall|j: int| 0 <= j < i ==> ascii_lower(#[trigger] left@[j]) == ascii_lower(right@[j]),
        decreases left@.len() - i,
    {
        if to_ascii_lower(left[i]) != to_ascii_lower(right[i]) {
            assert(ascii_lower_text(a@)[i as int] != ascii_lower_text(b@)[i as int]);
            return false;
        }
        i = i + 1;
    }
    assert(ascii_lower_text(a@) =~= ascii_lower_text(b@));
    true
}

/// `text` with every ASCII letter in lower case.
pub fn to_ascii_lowercase(text: &str) -> (r: String)
    ensures
        r@ == ascii_lower_text(text@),
{
    let chars = chars_of(text);
    let mut lowered = String::new();
    let mut i: usize = 0;
    while i < chars.len()
        invariant
            chars@ == text@,
            i <= chars@.len(),
            lowered@ == ascii_lower_text(text@.take(i as int)),
        decreases chars@.len() - i,
    {
        lowered.push(to_ascii_lower(chars[i]));
        i = i + 1;
        assert(lowered@ =~= ascii_lower_text(text@.take(i as int)));
    }
    assert(text@.take(i as int) =~= text@);
    lowered
}

/// `pattern` stands in `text` at position `at`.
pub open spec fn occurs_at(text: Seq<char>, pattern: Seq<char>, at: int) -> bool {
    &&& 0 <= at
    &&& at + pattern.len() <= text.len()
    &&& text.subrange(at, at + pattern.len()) == pattern
}

/// `pattern` stands somewhere in `text`.
pub open spec fn occurs_in(text: Seq<char>, pattern: Seq<char>) -> bool {
    exists|at: int| occurs_at(text, pattern, at)
}

/// Whether `needle` stands in `hay` at position `at`.
fn matches_at(hay: &Vec<char>, needle: &Vec<char>, at: usize) -> (r: bool)
    requires
        at + needle@.len() <= hay@.len(),
    ensures
        r == occurs_at(hay@, needle@, at as int),
{
    let mut i: usize = 0;
    while i < needle.len()
        invariant
            at + needle@.len() <= hay.len(),
            i <= needle@.len(),
            forall|j: int| 0 <= j < i ==> hay@[at + j] == #[trigger] needle@[j],
        decreases needle@.len() - i,
    {
        if hay[at + i] != needle[i] {
            assert(hay@.subrange(at as int, at + needle@.len())[i as int] == hay@[at + i]);
            return false;
        }
        i = i + 1;
    }
    assert(hay@.subrange(at as int, at + needle@.len()) =~= needle@);
    true
}

/// Whether `pattern` stands somewhere in `text`.
pub fn contains(text: &str, pattern: &str) -> (r: bool)
    ensures
        r == occurs_in(text@, pattern@),
{
    let hay = chars_of(text);
    let needle = chars_of(pattern);
    if needle.len() > hay.len() {
        return false;
    }
    let last: usize = hay.len() - needle.len();
    let mut at: usize = 0;
    while at < last
        invariant
            hay@ == text@,
            needle@ == pattern@,
            last + needle@.len() == hay@.len(),
            at <= last,
            forall|k: int| 0 <= k < at ==> !occurs_at(text@, pattern@, k),
        decreases last - at,
    {
        if matches_at(&hay, &needle, at) {
            return true;
        }
        at = at + 1;
    }
    matches_at(&hay, &needle, last)
}

// ---------------------------------------------------------------------------
// Upper case
// ---------------------------------------------------------------------------

/// The upper-case form of a character, as `char::to_uppercase` gives it.
pub uninterp spec fn upper_char(c: char) -> Seq<char>;

/// The upper-case form of a text, as `str::to_uppercase` gives it.
pub uninterp spec fn upper_text(text: Seq<char>) -> Seq<char>;

/// `char::to_uppercase`: the result is the Unicode upper-case form of the character, one or more
/// characters, which the library only names. For an ASCII character it is the one ASCII upper-case
/// character. That an upper-case form is its own upper-case form is not claimed.
#[verifier::external_body]
pub(crate) fn char_to_uppercase(c: char) -> (r: String)
    ensures
        r@ == upper_char(c),
        r@.len() > 0,
        (c as u32) < 128 ==> r@ == seq![ascii_upper(c)],
{
    c.to_uppercase().to_string()
}

/// `str::to_uppercase`: the result is the Unicode upper-case form of the text, which the library
/// only names. In an ASCII text every letter is replaced by its ASCII upper-case form.
#[verifier::external_body]
pub(crate) fn to_uppercase(text: &str) -> (r: String)
    ensures
        r@ == upper_text(text@),
        is_ascii(text) ==> r@ == ascii_upper_text(text@),
{
    text.to_uppercase()
}

// ---------------------------------------------------------------------------
// Joining
// ---------------------------------------------------------------------------

/// The characters of each string.
pub open spec fn texts(strings: Seq<String>) -> Seq<Seq<char>> {
    strings.map_values(|s: String| s@)
}

/// The characters of an optional string.
pub open spec fn text_in(value: Option<String>) -> Option<Seq<char>> {
    match value {
        Some(s) => Some(s@),
        None => None,
    }
}

/// `a` followed by `b`.
pub fn join2(a: &str, b: &str) -> (r: String)
    ensures
        r@ == a@ + b@,
{
    let mut text = a.to_owned();
    text.append(b);
    text
}

/// `a`, `b` and `c`, one after the other.
pub fn join3(a: &str, b: &str, c: &str) -> (r: String)
    ensures
        r@ == a@ + b@ + c@,
{
    let mut text = a.to_owned();
    text.append(b);
    text.append(c);
    text
}

// ---------------------------------------------------------------------------
// Trimming
// ---------------------------------------------------------------------------

/// `text` without its longest prefix of characters for which `drop` holds.
pub open spec fn stripped_start(text: Seq<char>, drop: spec_fn(char) -> bool) -> Seq<char>
    decreases text.len(),
{
    if text.len() > 0 && drop(text[0]) {
        stripped_start(text.drop_first(), drop)
    } else {
        text
    }
}

/// `text` without its longest suffix of characters for which `drop` holds.
pub open spec fn stripped_end(text: Seq<char>, drop: spec_fn(char) -> bool) -> Seq<char>
    decreases text.len(),
{
    if text.len() > 0 && drop(text.last()) {
        stripped_end(text.drop_last(), drop)
    } else {
        text
    }
}

/// `text` without the white space around it.
pub open spec fn trimmed(text: Seq<char>) -> Seq<char> {
    stripped_end(stripped_start(text, |c: char| white_space(c)), |c: char| white_space(c))
}

/// `text` without the run of `mark` at its end.
pub open spec fn without_trailing(text: Seq<char>, mark: char) -> Seq<char>
    decreases text.len(),
{
    if text.len() > 0 && text.last() == mark {
        without_trailing(text.drop_last(), mark)
    } else {
        text
    }
}

/// A text without its trailing marks ends in no mark, and is a beginning of the text after which
/// only marks come.
pub proof fn trimming_leaves_no_mark(text: Seq<char>, mark: char)
    ensures
        ({
            let left = without_trailing(text, mark);
            &&& left.len() > 0 ==> left.last() != mark
            &&& left.len() <= text.len()
            &&& left == text.take(left.len() as int)
            &&& forall|i: int| left.len() <= i < text.len() ==> #[trigger] text[i] == mark
        }),
    decreases text.len(),
{
    if text.len() > 0 && text.last() == mark {
        trimming_leaves_no_mark(text.drop_last(), mark);
        let left = without_trailing(text, mark);
        assert(left =~= text.take(left.len() as int));
        assert forall|i: int| left.len() <= i < text.len() implies #[trigger] text[i] == mark by {
            if i < text.len() - 1 {
                assert(text.drop_last()[i] == mark);
            }
        }
    } else {
        assert(text =~= text.take(text.len() as int));
    }
}

/// `text` without leading and trailing white space.
pub fn trim(text: &str) -> (r: &str)
    ensures
        r@ == trimmed(text@),
{
    let chars = chars_of(text);
    let ghost white = |c: char| white_space(c);
    let mut from: usize = 0;
    assert(text@.skip(0) =~= text@);
    while from < chars.len() && is_white_space(chars[from])
        invariant
            chars@ == text@,
            from <= chars@.len(),
            white == (|c: char| white_space(c)),
            stripped_start(text@, white) == stripped_start(text@.skip(from as int), white),
        decreases chars@.len() - from,
    {
        assert(text@.skip(from as int).drop_first() =~= text@.skip(from + 1));
        from = from + 1;
    }
    let mut to: usize = chars.len();
    assert(text@.subrange(from as int, to as int) =~= text@.skip(from as int));
    while from < to && is_white_space(chars[to - 1])
        invariant
            chars@ == text@,
            from <= to <= chars@.len(),
            white == (|c: char| white_space(c)),
            trimmed(text@) == stripped_end(text@.subrange(from as int, to as int), white),
        decreases to - from,
    {
        assert(text@.subrange(from as int, to as int).drop_last() =~= text@.subrange(
            from as int,
            to - 1,
        ));
        to = to - 1;
    }
    text.substring_char(from, to)
}

/// `text` without the run of `mark` at its end.
pub fn trim_end_matches(text: &str, mark: char) -> (r: &str)
    ensures
        r@ == without_trailing(text@, mark),
{
    let chars = chars_of(text);
    let mut to: usize = chars.len();
    assert(text@.take(to as int) =~= text@);
    while 0 < to && chars[to - 1] == mark
        invariant
            chars@ == text@,
            to <= chars@.len(),
            without_trailing(text@, mark) == without_trailing(text@.take(to as int), mark),
        decreases to,
    {
        assert(text@.take(to as int).drop_last() =~= text@.take(to - 1));
        to = to - 1;
    }
    assert(text@.subrange(0, to as int) =~= text@.take(to as int));
    text.substring_char(0, to)
}

/// Trimming twice is trimming once.
pub proof fn trimming_is_idempotent(text: Seq<char>)
    ensures
        trimmed(trimmed(text)) == trimmed(text),
{
    let white = |c: char| white_space(c);
    let front = stripped_start(text, white);
    lemma_stripped_start(text, white);
    lemma_stripped_end(front, white);
    let both = stripped_end(front, white);
    if both.len() > 0 {
        assert(both[0] == front[0]);
    }
}

/// What is left of a text after its front was stripped does not start with a dropped character.
proof fn lemma_stripped_start(text: Seq<char>, drop: spec_fn(char) -> bool)
    ensures
        ({
            let rest = stripped_start(text, drop);
            rest.len() == 0 || !drop(rest[0])
        }),
    decreases text.len(),
{
    if text.len() > 0 && drop(text[0]) {
        lemma_stripped_start(text.drop_first(), drop);
    }
}

/// What is left of a text after its end was stripped is a prefix of it that does not end in a
/// dropped character.
proof fn lemma_stripped_end(text: Seq<char>, drop: spec_fn(char) -> bool)
    ensures
        ({
            let rest = stripped_end(text, drop);
            &&& rest.len() <= text.len()
            &&& rest == text.take(rest.len() as int)
            &&& rest.len() == 0 || !drop(rest.last())
        }),
    decreases text.len(),
{
    if text.len() > 0 && drop(text.last()) {
        lemma_stripped_end(text.drop_last(), drop);
        let rest = stripped_end(text, drop);
        assert(text.drop_last().take(rest.len() as int) =~= text.take(rest.len() as int));
    } else {
        assert(text.take(text.len() as int) =~= text);
    }
}

// ---------------------------------------------------------------------------
// Decimal numbers
// ---------------------------------------------------------------------------

/// `c` is one of the ten ASCII digits.
pub open spec fn is_digit(c: char) -> bool {
    '0' <= c && c <= '9'
}

/// The digit for a number below ten.
pub open spec fn digit(n: nat) -> char {
    (48 + n) as char
}

/// The decimal digits of `n`, most significant first, without leading zeros.
pub open spec fn decimal_digits(n: nat) -> Seq<char>
    decreases n,
{
    if n < 10 {
        seq![digit(n)]
    } else {
        decimal_digits(n / 10).push(digit(n % 10))
    }
}

/// The number that a run of decimal digits stands for.
pub open spec fn digits_value(digits: Seq<char>) -> nat
    decreases digits.len(),
{
    if digits.len() == 0 {
        0
    } else {
        (digits_value(digits.drop_last()) * 10 + (digits.last() as u32 - 48)) as nat
    }
}

/// What is left of `text` after an optional leading plus sign.
pub open spec fn unsigned_part(text: Seq<char>) -> Seq<char> {
    if text.len() > 0 && text[0] == '+' {
        text.drop_first()
    } else {
        text
    }
}

/// The unsigned number that `text` spells: an optional plus sign, then one or more decimal
/// digits and nothing else.
pub open spec fn spelled_number(text: Seq<char>) -> Option<nat> {
    let digits = unsigned_part(text);
    if digits.len() > 0 && (forall|i: int| 0 <= i < digits.len() ==> is_digit(#[trigger] digits[i])) {
        Some(digits_value(digits))
    } else {
        None
    }
}

/// The number that `text` spells, if it is at most `limit`.
pub open spec fn number_up_to(text: Seq<char>, limit: nat) -> Option<nat> {
    match spelled_number(text) {
        Some(n) => if n <= limit {
            Some(n)
        } else {
            None
        },
        None => None,
    }
}

/// The decimal notation of `n`.
pub fn decimal(n: u64) -> (r: String)
    ensures
        r@ == decimal_digits(n as nat),
    decreases n,
{
    let mut text = if n < 10 {
        String::new()
    } else {
        decimal(n / 10)
    };
    let last: u8 = (n % 10) as u8;
    text.push((48u8 + last) as char);
    assert(text@ =~= decimal_digits(n as nat));
    text
}

/// The lower-case hexadecimal digit for a number below sixteen.
pub open spec fn hex_digit(n: nat) -> char {
    if n < 10 {
        (48 + n) as char
    } else {
        (87 + n) as char
    }
}

/// The hexadecimal digits of `n`, most significant first, without leading zeros.
pub open spec fn hex_digits(n: nat) -> Seq<char>
    decreases n,
{
    if n < 16 {
        seq![hex_digit(n)]
    } else {
        hex_digits(n / 16).push(hex_digit(n % 16))
    }
}

/// The lower-case hexadecimal notation of `n`.
pub fn hexadecimal(n: u64) -> (r: String)
    ensures
        r@ == hex_digits(n as nat),
    decreases n,
{
    let mut text = if n < 16 {
        String::new()
    } else {
        hexadecimal(n / 16)
    };
    let last: u8 = (n % 16) as u8;
    if last < 10 {
        text.push((48u8 + last) as char);
    } else {
        text.push((87u8 + last) as char);
    }
    assert(text@ =~= hex_digits(n as nat));
    text
}

/// The value of a prefix is at most the value of the whole run of digits.
proof fn lemma_prefix_value(digits: Seq<char>, len: int)
    requires
        0 <= len <= digits.len(),
        forall|i: int| 0 <= i < digits.len() ==> is_digit(#[trigger] digits[i]),
    ensures
        digits_value(digits.take(len)) <= digits_value(digits),
    decreases digits.len() - len,
{
    if len == digits.len() {
        assert(digits.take(len) =~= digits);
    } else {
        lemma_prefix_value(digits, len + 1);
        assert(digits.take(len + 1).drop_last() =~= digits.take(len));
        assert(is_digit(digits[len]));
    }
}

/// Parses an unsigned decimal number of at most `limit`: an optional plus sign and one or more
/// digits, with nothing around them.
pub fn parse_number(text: &str, limit: u64) -> (r: Option<u64>)
    ensures
        r is Some <==> number_up_to(text@, limit as nat) is Some,
        r matches Some(n) ==> number_up_to(text@, limit as nat) == Some(n as nat),
{
    let chars = chars_of(text);
    let start: usize = if chars.len() > 0 && chars[0] == '+' {
        1
    } else {
        0
    };
    let ghost digits = unsigned_part(text@);
    assert(digits =~= text@.skip(start as int));
    if start == chars.len() {
        return None;
    }
    let mut value: u64 = 0;
    let mut i: usize = start;
    while i < chars.len()
        invariant
            chars@ == text@,
            start <= i <= chars@.len(),
            start < chars@.len(),
            digits == unsigned_part(text@),
            digits == text@.skip(start as int),
            value <= limit,
            value == digits_value(digits.take(i - start)),
            forall|j: int| 0 <= j < i - start ==> is_digit(#[trigger] digits[j]),
        decreases chars@.len() - i,
    {
        let c = chars[i];
        assert(digits[i - start] == c);
        if c < '0' || '9' < c {
            return None;
        }
        let d: u64 = (c as u32 - 48) as u64;
        assert(digits.take(i + 1 - start).drop_last() =~= digits.take(i - start));
        assert(digits_value(digits.take(i + 1 - start)) == value * 10 + d);
        if value > limit / 10 || limit - value * 10 < d {
            proof {
                if forall|k: int| 0 <= k < digits.len() ==> is_digit(#[trigger] digits[k]) {
                    lemma_prefix_value(digits, i + 1 - start);
                }
            }
            return None;
        }
        value = value * 10 + d;
        i = i + 1;
    }
    assert(digits.take(i - start) =~= digits);
    Some(value)
}

/// Reading the decimal notation of a number gives the number back.
pub proof fn decimal_round_trip(n: nat)
    ensures
        spelled_number(decimal_digits(n)) == Some(n),
{
    lemma_decimal_digits(n);
}

/// The decimal notation is a non-empty run of digits with the value of the number.
pub proof fn lemma_decimal_digits(n: nat)
    ensures
        decimal_digits(n).len() > 0,
        forall|i: int|
            0 <= i < decimal_digits(n).len() ==> is_digit(#[trigger] decimal_digits(n)[i]),
        digits_value(decimal_digits(n)) == n,
    decreases n,
{
    if n < 10 {
        let one = seq![digit(n)];
        assert(one.drop_last() =~= Seq::<char>::empty());
        assert(digits_value(one) == n) by {
            reveal_with_fuel(digits_value, 2);
        }
    } else {
        lemma_decimal_digits(n / 10);
        let all = decimal_digits(n);
        assert(all.drop_last() =~= decimal_digits(n / 10));
    }
}

// ---------------------------------------------------------------------------
// Laws
// ---------------------------------------------------------------------------

/// Each of the 26 ASCII letters has one other case, and no other character has one.
pub proof fn letters_have_two_cases(k: int, c: char)
    requires
        0 <= k < 26,
    ensures
        ascii_lower((65 + k) as char) == (97 + k) as char,
        ascii_upper((97 + k) as char) == (65 + k) as char,
        (c as int) < 65 || 90 < (c as int) ==> ascii_lower(c) == c,
        (c as int) < 97 || 122 < (c as int) ==> ascii_upper(c) == c,
{
}

/// The case of a text is changed character by character.
pub proof fn case_changes_character_by_character(text: Seq<char>, i: int)
    requires
        0 <= i < text.len(),
    ensures
        ascii_lower_text(text).len() == text.len(),
        ascii_lower_text(text)[i] == ascii_lower(text[i]),
        ascii_upper_text(text).len() == text.len(),
        ascii_upper_text(text)[i] == ascii_upper(text[i]),
{
}

/// A pattern stands in a text if and only if the text is something, the pattern and something.
pub proof fn a_pattern_stands_between_two_parts(
    text: Seq<char>,
    pattern: Seq<char>,
    front: Seq<char>,
    back: Seq<char>,
)
    ensures
        occurs_in(front + pattern + back, pattern),
        occurs_in(text, pattern) ==> exists|a: Seq<char>, b: Seq<char>|
            text == #[trigger] (a + pattern + b),
{
    let whole = front + pattern + back;
    let at = front.len() as int;
    assert(whole.subrange(at, at + pattern.len()) =~= pattern);
    assert(occurs_at(whole, pattern, at));
    if occurs_in(text, pattern) {
        let at = choose|at: int| occurs_at(text, pattern, at);
        let a = text.take(at);
        let b = text.skip(at + pattern.len());
        assert(text.subrange(at, at + pattern.len()) == pattern);
        assert(text =~= a + pattern + b);
    }
}

/// Trimming takes the white space around a text and nothing else.
pub proof fn trimming_takes_what_stands_around(front: Seq<char>, core: Seq<char>, back: Seq<char>)
    requires
        forall|i: int| 0 <= i < front.len() ==> white_space(#[trigger] front[i]),
        forall|i: int| 0 <= i < back.len() ==> white_space(#[trigger] back[i]),
        core.len() > 0 ==> !white_space(core[0]) && !white_space(core.last()),
    ensures
        trimmed(front + core + back) == core,
{
    let white = |c: char| white_space(c);
    lemma_strip_front(front, core + back, white);
    assert(front + core + back =~= front + (core + back));
    if core.len() > 0 {
        assert(stripped_start(core + back, white) == core + back);
        lemma_strip_back(core, back, white);
    } else {
        assert(core + back =~= back);
        lemma_strip_front(back, core, white);
        assert(back + core =~= back);
    }
}

/// Dropped characters at the front of a text do not matter.
proof fn lemma_strip_front(front: Seq<char>, rest: Seq<char>, drop: spec_fn(char) -> bool)
    requires
        forall|i: int| 0 <= i < front.len() ==> drop(#[trigger] front[i]),
    ensures
        stripped_start(front + rest, drop) == stripped_start(rest, drop),
    decreases front.len(),
{
    if front.len() > 0 {
        let less = front.drop_first();
        assert forall|i: int| 0 <= i < less.len() implies drop(#[trigger] less[i]) by {
            assert(less[i] == front[i + 1]);
        }
        assert((front + rest).drop_first() =~= less + rest);
        assert(drop((front + rest)[0]));
        lemma_strip_front(less, rest, drop);
    } else {
        assert(front + rest =~= rest);
    }
}

/// Dropped characters at the end of a text do not matter.
proof fn lemma_strip_back(core: Seq<char>, back: Seq<char>, drop: spec_fn(char) -> bool)
    requires
        forall|i: int| 0 <= i < back.len() ==> drop(#[trigger] back[i]),
        core.len() > 0,
        !drop(core.last()),
    ensures
        stripped_end(core + back, drop) == core,
    decreases back.len(),
{
    if back.len() > 0 {
        let less = back.drop_last();
        assert((core + back).drop_last() =~= core + less);
        assert((core + back).last() == back[back.len() - 1]);
        lemma_strip_back(core, less, drop);
    } else {
        assert(core + back =~= core);
    }
}

/// Marks at the end of a text are dropped, however many there are.
pub proof fn trailing_marks_do_not_matter(text: Seq<char>, marks: nat, mark: char)
    requires
        text.len() > 0 ==> text.last() != mark,
    ensures
        without_trailing(text + Seq::new(marks, |i: int| mark), mark) == text,
    decreases marks,
{
    let whole = text + Seq::new(marks, |i: int| mark);
    if marks > 0 {
        assert(whole.last() == mark);
        assert(whole.drop_last() =~= text + Seq::new((marks - 1) as nat, |i: int| mark));
        trailing_marks_do_not_matter(text, (marks - 1) as nat, mark);
    } else {
        assert(whole =~= text);
    }
}

/// A number is spelled by its digits: one digit is worth itself, and a digit after a number adds to
/// ten times it. A plus sign before digits changes nothing.
pub proof fn numbers_are_read_digit_by_digit(text: Seq<char>, n: nat, d: nat)
    requires
        d < 10,
    ensures
        spelled_number(seq![(48 + d) as char]) == Some(d),
        spelled_number(text) == Some(n) ==> spelled_number(text.push((48 + d) as char)) == Some(
            (10 * n + d) as nat,
        ),
        text.len() > 0 && text[0] != '+' ==> spelled_number(seq!['+'] + text) == spelled_number(
            text,
        ),
{
    let c = (48 + d) as char;
    let one = seq![c];
    assert(one.drop_last() =~= Seq::<char>::empty());
    assert(digits_value(one) == d) by {
        reveal_with_fuel(digits_value, 2);
    }
    assert(unsigned_part(one) == one);
    if spelled_number(text) == Some(n) {
        let digits = unsigned_part(text);
        let more = text.push(c);
        assert(unsigned_part(more) =~= digits.push(c));
        assert(digits.push(c).drop_last() =~= digits);
        assert forall|i: int| 0 <= i < digits.push(c).len() implies is_digit(
            #[trigger] digits.push(c)[i],
        ) by {
            if i < digits.len() {
                assert(is_digit(digits[i]));
            }
        }
        assert(digits_value(digits.push(c)) == 10 * n + d);
    }
    if text.len() > 0 && text[0] != '+' {
        assert((seq!['+'] + text).drop_first() =~= text);
    }
}

/// A text with anything but digits after an optional plus sign, or without a digit, is no number.
/// One that is a number is taken up to the limit.
pub proof fn other_texts_are_no_numbers(text: Seq<char>, i: int, limit: nat)
    ensures
        0 <= i < text.len() && ((text[i] as int) < 48 || 57 < (text[i] as int)) && (i > 0 || text[i]
            != '+') ==> spelled_number(text) is None,
        text.len() == 0 ==> spelled_number(text) is None,
        text == seq!['+'] ==> spelled_number(text) is None,
        number_up_to(text, limit) == Some(limit) <==> spelled_number(text) == Some(limit),
        spelled_number(text) is None ==> number_up_to(text, limit) is None,
        spelled_number(text) matches Some(n) ==> if n <= limit {
            number_up_to(text, limit) == Some(n)
        } else {
            number_up_to(text, limit) is None
        },
{
    let digits = unsigned_part(text);
    if 0 <= i < text.len() && ((text[i] as int) < 48 || 57 < (text[i] as int)) && (i > 0 || text[i]
        != '+') {
        if text[0] == '+' {
            assert(digits[i - 1] == text[i]);
        } else {
            assert(digits[i] == text[i]);
        }
    }
}

/// A number is written without needless zeros: below ten by its one digit, else by the digits of
/// its tenth and the last digit.
pub proof fn numbers_are_written_digit_by_digit(n: nat, d: nat)
    requires
        d < 10,
    ensures
        decimal_digits(d) == seq![(48 + d) as char],
        n > 0 ==> decimal_digits((10 * n + d) as nat) == decimal_digits(n).push((48 + d) as char),
{
    if n > 0 {
        assert((10 * n + d) / 10 == n);
        assert((10 * n + d) % 10 == d);
    }
}

/// A hexadecimal number is written without needless zeros, in lower case.
pub proof fn hex_numbers_are_written_digit_by_digit(n: nat, d: nat)
    requires
        d < 16,
    ensures
        hex_digits(d) == seq!["0123456789abcdef"@[d as int]],
        n > 0 ==> hex_digits((16 * n + d) as nat) == hex_digits(n).push(
            "0123456789abcdef"@[d as int],
        ),
{
    reveal_strlit("0123456789abcdef");
    assert(hex_digit(d) == "0123456789abcdef"@[d as int]);
    if n > 0 {
        assert((16 * n + d) / 16 == n);
        assert((16 * n + d) % 16 == d);
    }
}

/// The characters of strings are those of each string.
pub proof fn texts_are_those_of_the_strings(strings: Seq<String>, value: String)
    ensures
        texts(strings).len() == strings.len(),
        forall|i: int| 0 <= i < strings.len() ==> #[trigger] texts(strings)[i] == strings[i]@,
        text_in(Some(value)) == Some(value@),
        text_in(None) is None,
{
}

} // verus!
