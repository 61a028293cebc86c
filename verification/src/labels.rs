//! Icons and labels for the words that Home Assistant uses.

use vstd::prelude::*;
use vstd::string::*;

use crate::text;
use crate::text::{char_to_uppercase, chars_of, join2, string_of, text_eq, to_uppercase};

verus! {

// ---------------------------------------------------------------------------
// Weather
// ---------------------------------------------------------------------------

/// The icon for a weather condition; a partly cloudy sky has one for the night.
pub open spec fn weather_icon(condition: Seq<char>, is_night: bool) -> Seq<char> {
    if condition == "sunny"@ {
        "sun"@
    } else if condition == "clear-night"@ {
        "moon"@
    } else if condition == "partlycloudy"@ {
        if is_night {
            "cloud-moon"@
        } else {
            "cloud-sun"@
        }
    } else if condition == "rainy"@ {
        "cloud-rain"@
    } else if condition == "pouring"@ || condition == "windy"@ || condition == "windy-variant"@ {
        "cloud-rain-wind"@
    } else if condition == "lightning"@ || condition == "lightning-rainy"@ {
        "cloud-lightning"@
    } else if condition == "snowy"@ || condition == "snowy-rainy"@ || condition == "hail"@ {
        "snowflake"@
    } else if condition == "fog"@ {
        "cloud-fog"@
    } else {
        "cloud"@
    }
}

/// The icon for a weather condition.
pub fn weather_kind(condition: &str, is_night: bool) -> (r: &'static str)
    ensures
        r@ == weather_icon(condition@, is_night),
{
    if text_eq(condition, "sunny") {
        "sun"
    } else if text_eq(condition, "clear-night") {
        "moon"
    } else if text_eq(condition, "partlycloudy") {
        if is_night {
            "cloud-moon"
        } else {
            "cloud-sun"
        }
    } else if text_eq(condition, "rainy") {
        "cloud-rain"
    } else if text_eq(condition, "pouring") || text_eq(condition, "windy") || text_eq(
        condition,
        "windy-variant",
    ) {
        "cloud-rain-wind"
    } else if text_eq(condition, "lightning") || text_eq(condition, "lightning-rainy") {
        "cloud-lightning"
    } else if text_eq(condition, "snowy") || text_eq(condition, "snowy-rainy") || text_eq(
        condition,
        "hail",
    ) {
        "snowflake"
    } else if text_eq(condition, "fog") {
        "cloud-fog"
    } else {
        "cloud"
    }
}

/// Night changes the icon of a partly cloudy sky and of nothing else.
pub proof fn night_matters_only_when_partly_cloudy(condition: Seq<char>)
    ensures
        weather_icon(condition, true) != weather_icon(condition, false) <==> condition
            == "partlycloudy"@,
{
    reveal_strlit("cloud-moon");
    reveal_strlit("cloud-sun");
    assert("cloud-moon"@.len() != "cloud-sun"@.len());
    reveal_strlit("partlycloudy");
    reveal_strlit("sunny");
    reveal_strlit("clear-night");
    assert("partlycloudy"@.len() != "sunny"@.len());
    assert("partlycloudy"@.len() != "clear-night"@.len());
}

// ---------------------------------------------------------------------------
// Labels
// ---------------------------------------------------------------------------

/// The characters that part the words of an identifier.
pub open spec fn separates(c: char) -> bool {
    c == '_' || c == '-' || c == ' '
}

/// The length of the word at the start of `text`.
pub open spec fn word_len(text: Seq<char>) -> nat
    decreases text.len(),
{
    if text.len() == 0 || separates(text[0]) {
        0
    } else {
        1 + word_len(text.drop_first())
    }
}

/// The words of `text`: the longest runs of characters that do not part words.
pub open spec fn words(text: Seq<char>) -> Seq<Seq<char>>
    decreases text.len(),
{
    if text.len() == 0 {
        seq![]
    } else if word_len(text) == 0 {
        words(text.drop_first())
    } else {
        proof {
            lemma_word_len(text);
        }
        seq![text.take(word_len(text) as int)] + words(text.skip(word_len(text) as int))
    }
}

/// The words with one blank between each two.
pub open spec fn joined(parts: Seq<Seq<char>>) -> Seq<char>
    decreases parts.len(),
{
    if parts.len() == 0 {
        seq![]
    } else if parts.len() == 1 {
        parts[0]
    } else {
        parts[0] + seq![' '] + joined(parts.drop_first())
    }
}

/// The Unicode upper-case form of each character.
pub open spec fn unicode_upper() -> spec_fn(char) -> Seq<char> {
    |c: char| text::upper_char(c)
}

/// The ASCII upper-case form of each character.
pub open spec fn plain_upper() -> spec_fn(char) -> Seq<char> {
    |c: char| seq![text::ascii_upper(c)]
}

/// `word` with its first character replaced by the upper-case form of it.
pub open spec fn capitalised(word: Seq<char>, upper: spec_fn(char) -> Seq<char>) -> Seq<char> {
    if word.len() == 0 {
        word
    } else {
        upper(word[0]) + word.drop_first()
    }
}

/// The text that stands for `value` in a label.
pub open spec fn spelled_out(value: Seq<char>) -> Seq<char> {
    if value == "partlycloudy"@ {
        "partly cloudy"@
    } else {
        value
    }
}

/// The label for an identifier: its words, each with a capital, parted by single blanks.
pub open spec fn label(value: Seq<char>, upper: spec_fn(char) -> Seq<char>) -> Seq<char> {
    joined(words(spelled_out(value)).map_values(|word: Seq<char>| capitalised(word, upper)))
}

/// The first word of a text is a run without separators, up to the first separator or the end.
pub proof fn lemma_word_len(text: Seq<char>)
    ensures
        word_len(text) <= text.len(),
        forall|i: int| 0 <= i < word_len(text) ==> !separates(#[trigger] text[i]),
        word_len(text) < text.len() ==> separates(text[word_len(text) as int]),
    decreases text.len(),
{
    if text.len() > 0 && !separates(text[0]) {
        let rest = text.drop_first();
        lemma_word_len(rest);
        assert forall|i: int| 0 <= i < word_len(text) implies !separates(#[trigger] text[i]) by {
            if i > 0 {
                assert(text[i] == rest[i - 1]);
            }
        }
        if word_len(text) < text.len() {
            assert(text[word_len(text) as int] == rest[word_len(rest) as int]);
        }
    }
}

/// A run without separators that is followed by one, or by nothing, is the first word.
proof fn lemma_word_len_is(text: Seq<char>, n: nat)
    requires
        n <= text.len(),
        forall|i: int| 0 <= i < n ==> !separates(#[trigger] text[i]),
        n < text.len() ==> separates(text[n as int]),
    ensures
        word_len(text) == n,
{
    lemma_word_len(text);
    if word_len(text) < n {
        assert(!separates(text[word_len(text) as int]));
    }
}

/// Every text is made of ASCII characters.
spec fn texts_are_ascii(parts: Seq<Seq<char>>) -> bool {
    forall|i: int| 0 <= i < parts.len() ==> vstd::utf8::is_ascii_chars(#[trigger] parts[i])
}

/// The words of an ASCII text are ASCII texts.
proof fn lemma_words_of_ascii(text: Seq<char>)
    requires
        vstd::utf8::is_ascii_chars(text),
    ensures
        texts_are_ascii(words(text)),
    decreases text.len(),
{
    if text.len() == 0 {
    } else if word_len(text) == 0 {
        lemma_words_of_ascii(text.drop_first());
    } else {
        lemma_word_len(text);
        lemma_words_of_ascii(text.skip(word_len(text) as int));
    }
}

/// The words of `text`.
pub fn label_words(text: &str) -> (r: Vec<String>)
    ensures
        text::texts(r@) == words(text@),
{
    let chars = chars_of(text);
    let mut found: Vec<String> = Vec::new();
    let mut i: usize = 0;
    assert(text@.skip(0) =~= text@);
    assert(text::texts(found@) + words(text@) =~= words(text@));
    while i < chars.len()
        invariant
            chars@ == text@,
            i <= chars@.len(),
            words(text@) == text::texts(found@) + words(text@.skip(i as int)),
        decreases chars@.len() - i,
    {
        let ghost rest = text@.skip(i as int);
        let mut end: usize = i;
        while end < chars.len() && !(chars[end] == '_' || chars[end] == '-' || chars[end] == ' ')
            invariant
                chars@ == text@,
                i <= end <= chars@.len(),
                forall|j: int| i <= j < end ==> !separates(#[trigger] chars@[j]),
            decreases chars@.len() - end,
        {
            end = end + 1;
        }
        proof {
            assert forall|j: int| 0 <= j < end - i implies !separates(#[trigger] rest[j]) by {
                assert(rest[j] == chars@[i + j]);
            }
            lemma_word_len_is(rest, (end - i) as nat);
        }
        if end == i {
            assert(rest.drop_first() =~= text@.skip(i + 1));
            i = i + 1;
        } else {
            let word = string_of(&chars, i, end);
            let ghost before = found@;
            found.push(word);
            assert(word@ =~= rest.take(end - i));
            assert(rest.skip(end - i) =~= text@.skip(end as int));
            assert(text::texts(found@) =~= text::texts(before) + seq![word@]);
            assert(text::texts(before) + (seq![word@] + words(text@.skip(end as int))) =~= text::texts(found@)
                + words(text@.skip(end as int)));
            i = end;
        }
    }
    assert(words(text@.skip(i as int)) =~= Seq::<Seq<char>>::empty());
    assert(text::texts(found@) =~= words(text@));
    found
}

/// The words with one blank between each two.
pub fn join_words(parts: &Vec<String>) -> (r: String)
    ensures
        r@ == joined(text::texts(parts@)),
{
    let mut line = String::new();
    let ghost all = text::texts(parts@);
    let mut i: usize = 0;
    assert(all.skip(0) =~= all);
    while i < parts.len()
        invariant
            all == text::texts(parts@),
            i <= parts@.len(),
            i == 0 ==> line@.len() == 0,
            joined(all) == if i == 0 {
                joined(all.skip(i as int))
            } else if i == parts@.len() {
                line@
            } else {
                line@ + seq![' '] + joined(all.skip(i as int))
            },
        decreases parts@.len() - i,
    {
        let ghost before = line@;
        let ghost rest = all.skip(i as int);
        if i > 0 {
            line.push(' ');
        }
        line.append(&parts[i]);
        assert(rest[0] == parts@[i as int]@);
        assert(rest.drop_first() =~= all.skip(i + 1));
        if i + 1 < parts.len() {
            assert(joined(rest) == rest[0] + seq![' '] + joined(all.skip(i + 1)));
            if i > 0 {
                assert(before + seq![' '] + (rest[0] + seq![' '] + joined(all.skip(i + 1)))
                    =~= line@ + seq![' '] + joined(all.skip(i + 1)));
            } else {
                assert(line@ =~= rest[0]);
            }
        } else {
            assert(joined(rest) == rest[0]);
            if i > 0 {
                assert(before + seq![' '] + rest[0] =~= line@);
            } else {
                assert(line@ =~= rest[0]);
            }
        }
        i = i + 1;
    }
    assert(line@ =~= joined(all));
    line
}

/// `word` with `initial` in place of its first character.
pub fn with_initial(initial: &str, word: &str) -> (r: String)
    requires
        word@.len() > 0,
    ensures
        r@ == initial@ + word@.drop_first(),
{
    let rest = word.substring_char(1, word.unicode_len());
    assert(rest@ =~= word@.drop_first());
    join2(initial, rest)
}

/// `word` with a capital.
pub fn capitalise(word: &str) -> (r: String)
    ensures
        r@ == capitalised(word@, unicode_upper()),
        word@.len() > 0 && (word@[0] as u32) < 128 ==> r@ == capitalised(word@, plain_upper()),
{
    if word.is_empty() {
        String::new()
    } else {
        with_initial(&char_to_uppercase(word.get_char(0)), word)
    }
}

/// Joining words that hold no separator and splitting the line again gives the words back.
pub proof fn joined_words_split_again(parts: Seq<Seq<char>>)
    requires
        forall|i: int| 0 <= i < parts.len() ==> (#[trigger] parts[i]).len() > 0,
        forall|i: int, j: int|
            0 <= i < parts.len() && 0 <= j < parts[i].len() ==> !separates(#[trigger] parts[i][j]),
    ensures
        words(joined(parts)) == parts,
    decreases parts.len(),
{
    if parts.len() == 1 {
        let line = parts[0];
        lemma_word_len_is(line, line.len());
        assert(line.take(line.len() as int) =~= line);
        assert(words(line.skip(line.len() as int)) =~= Seq::<Seq<char>>::empty());
        assert(words(line) =~= parts);
    } else if parts.len() > 1 {
        let rest = parts.drop_first();
        joined_words_split_again(rest);
        let line = joined(parts);
        let n = parts[0].len();
        assert forall|i: int| 0 <= i < n implies !separates(#[trigger] line[i]) by {
            assert(line[i] == parts[0][i]);
        }
        assert(line[n as int] == ' ');
        lemma_word_len_is(line, n);
        assert(line.take(n as int) =~= parts[0]);
        let tail = line.skip(n as int);
        assert(word_len(tail) == 0);
        assert(tail.drop_first() =~= joined(rest));
        assert(words(tail) == rest);
        assert(words(line) == seq![parts[0]] + rest);
        assert(seq![parts[0]] + rest =~= parts);
    }
}

/// The words of a text are not empty and hold no separator.
pub proof fn words_hold_no_separator(text: Seq<char>)
    ensures
        forall|i: int| 0 <= i < words(text).len() ==> (#[trigger] words(text)[i]).len() > 0,
        forall|i: int, j: int|
            0 <= i < words(text).len() && 0 <= j < words(text)[i].len() ==> !separates(
                #[trigger] words(text)[i][j],
            ),
    decreases text.len(),
{
    if text.len() == 0 {
    } else if word_len(text) == 0 {
        words_hold_no_separator(text.drop_first());
        assert(words(text) == words(text.drop_first()));
    } else {
        lemma_word_len(text);
        let rest = text.skip(word_len(text) as int);
        words_hold_no_separator(rest);
        let first = text.take(word_len(text) as int);
        assert(words(text) == seq![first] + words(rest));
        assert forall|i: int, j: int|
            0 <= i < words(text).len() && 0 <= j < words(text)[i].len() implies !separates(
            #[trigger] words(text)[i][j],
        ) by {
            if i == 0 {
                assert(words(text)[i] == first);
                assert(first[j] == text[j]);
            } else {
                assert(words(text)[i] == words(rest)[i - 1]);
                assert(!separates(words(rest)[i - 1][j]));
            }
        }
        assert forall|i: int| 0 <= i < words(text).len() implies (#[trigger] words(text)[i]).len()
            > 0 by {
            if i > 0 {
                assert(words(text)[i] == words(rest)[i - 1]);
            }
        }
    }
}

/// The capital of a character is not empty, holds no separator, and begins with a character that is
/// its own capital.
pub open spec fn settles(c: char, upper: spec_fn(char) -> Seq<char>) -> bool {
    &&& upper(c).len() > 0
    &&& forall|j: int| 0 <= j < upper(c).len() ==> !separates(#[trigger] upper(c)[j])
    &&& upper(upper(c)[0]) == seq![upper(c)[0]]
}

/// The capital of every word of a label settles.
pub open spec fn initials_settle(value: Seq<char>, upper: spec_fn(char) -> Seq<char>) -> bool {
    forall|i: int|
        0 <= i < words(spelled_out(value)).len() ==> settles(
            (#[trigger] words(spelled_out(value))[i])[0],
            upper,
        )
}

/// Every word of a label begins with an ASCII character.
pub open spec fn plain_initials(value: Seq<char>) -> bool {
    forall|i: int|
        0 <= i < words(spelled_out(value)).len() ==> ((
        #[trigger] words(spelled_out(value))[i])[0] as u32) < 128
}

/// The words of a label are the capitalised words of the identifier.
proof fn lemma_words_of_label(value: Seq<char>, upper: spec_fn(char) -> Seq<char>)
    requires
        initials_settle(value, upper),
    ensures
        words(label(value, upper)) == words(spelled_out(value)).map_values(
            |word: Seq<char>| capitalised(word, upper),
        ),
{
    let found = words(spelled_out(value));
    let parts = found.map_values(|word: Seq<char>| capitalised(word, upper));
    words_hold_no_separator(spelled_out(value));
    assert forall|i: int| 0 <= i < parts.len() implies (#[trigger] parts[i]).len() > 0 by {
        assert(settles(found[i][0], upper));
    }
    assert forall|i: int, j: int|
        0 <= i < parts.len() && 0 <= j < parts[i].len() implies !separates(
        #[trigger] parts[i][j],
    ) by {
        let capital = upper(found[i][0]);
        assert(settles(found[i][0], upper));
        assert(found[i].len() > 0);
        if j < capital.len() {
            assert(parts[i][j] == capital[j]);
        } else {
            assert(parts[i][j] == found[i][j - capital.len() + 1]);
        }
    }
    joined_words_split_again(parts);
}

/// The label of a label is the label itself, where the capitals of its words settle and `p` is not
/// its own capital.
pub proof fn labels_are_stable(value: Seq<char>, upper: spec_fn(char) -> Seq<char>)
    requires
        initials_settle(value, upper),
        upper('p') != seq!['p'],
    ensures
        label(label(value, upper), upper) == label(value, upper),
        initials_settle(label(value, upper), upper),
{
    let once = label(value, upper);
    let found = words(spelled_out(value));
    let parts = found.map_values(|word: Seq<char>| capitalised(word, upper));
    lemma_words_of_label(value, upper);
    words_hold_no_separator(spelled_out(value));
    assert forall|i: int| 0 <= i < parts.len() implies {
        &&& (#[trigger] parts[i]).len() > 0
        &&& parts[i][0] == upper(found[i][0])[0]
        &&& settles(parts[i][0], upper)
        &&& capitalised(parts[i], upper) == parts[i]
    } by {
        assert(found[i].len() > 0);
        let capital = upper(found[i][0]);
        assert(settles(found[i][0], upper));
        assert(parts[i] == capital + found[i].drop_first());
        assert(parts[i][0] == capital[0]);
        assert(upper(parts[i][0]) == seq![parts[i][0]]);
        assert(!separates(capital[0]));
        assert(capitalised(parts[i], upper) =~= parts[i]);
    }
    assert(spelled_out(once) == once) by {
        reveal_strlit("partlycloudy");
        if once == "partlycloudy"@ {
            assert(parts.len() > 0);
            assert(once[0] == parts[0][0]);
            assert(settles(found[0][0], upper));
        }
    }
    assert(parts.map_values(|word: Seq<char>| capitalised(word, upper)) =~= parts);
}

/// The label of a label is the label itself, when only ASCII letters get a capital. Where every
/// word begins with an ASCII character, so does every word of the label.
pub proof fn plain_labels_are_stable(value: Seq<char>)
    ensures
        label(label(value, plain_upper()), plain_upper()) == label(value, plain_upper()),
        plain_initials(value) ==> plain_initials(label(value, plain_upper())),
{
    let upper = plain_upper();
    let found = words(spelled_out(value));
    words_hold_no_separator(spelled_out(value));
    assert forall|i: int| 0 <= i < found.len() implies settles((#[trigger] found[i])[0], upper) by {
        assert(!separates(found[i][0]));
        assert(upper(found[i][0]) == seq![text::ascii_upper(found[i][0])]);
    }
    assert(upper('p')[0] == 'P');
    labels_are_stable(value, upper);
    if plain_initials(value) {
        let once = label(value, upper);
        let parts = found.map_values(|word: Seq<char>| capitalised(word, upper));
        lemma_words_of_label(value, upper);
        assert(words(spelled_out(once)) == parts) by {
            reveal_strlit("partlycloudy");
            if once == "partlycloudy"@ {
                assert(parts.len() > 0);
                assert(once[0] == parts[0][0]);
                assert(parts[0][0] == text::ascii_upper(found[0][0]));
            }
        }
        assert forall|i: int| 0 <= i < parts.len() implies ((#[trigger] parts[i])[0] as u32)
            < 128 by {
            assert(found[i].len() > 0);
            assert((found[i][0] as u32) < 128);
            assert(parts[i][0] == text::ascii_upper(found[i][0]));
        }
    }
}

/// The words of an ASCII identifier begin with ASCII characters.
proof fn lemma_plain_initials(value: Seq<char>)
    requires
        vstd::utf8::is_ascii_chars(value),
    ensures
        plain_initials(value),
{
    let spelled = spelled_out(value);
    let found = words(spelled);
    reveal_strlit("partly cloudy");
    assert(vstd::utf8::is_ascii_chars(spelled));
    lemma_words_of_ascii(spelled);
    words_hold_no_separator(spelled);
    assert forall|i: int| 0 <= i < found.len() implies ((#[trigger] found[i])[0] as u32) < 128 by {
        assert(vstd::utf8::is_ascii_chars(found[i]));
        assert(found[i].len() > 0);
    }
}

/// The label for an identifier.
pub fn pretty_label(value: &str) -> (r: String)
    ensures
        r@ == label(value@, unicode_upper()),
        plain_initials(value@) ==> r@ == label(value@, plain_upper()),
        is_ascii(value) ==> r@ == label(value@, plain_upper()),
        plain_initials(value@) ==> label(r@, plain_upper()) == r@ && plain_initials(r@),
        initials_settle(value@, unicode_upper()) && text::upper_char('p') != seq!['p'] ==> label(
            r@,
            unicode_upper(),
        ) == r@,
{
    let spelled: &str = if text_eq(value, "partlycloudy") {
        "partly cloudy"
    } else {
        value
    };
    let found = label_words(spelled);
    let ghost of_unicode = |word: Seq<char>| capitalised(word, unicode_upper());
    let ghost of_ascii = |word: Seq<char>| capitalised(word, plain_upper());
    proof {
        words_hold_no_separator(spelled@);
        plain_labels_are_stable(value@);
        if initials_settle(value@, unicode_upper()) && text::upper_char('p') != seq!['p'] {
            labels_are_stable(value@, unicode_upper());
        }
        if is_ascii(value) {
            lemma_plain_initials(value@);
        }
    }
    let mut parts: Vec<String> = Vec::new();
    let mut i: usize = 0;
    while i < found.len()
        invariant
            spelled@ == spelled_out(value@),
            text::texts(found@) == words(spelled@),
            forall|j: int|
                0 <= j < words(spelled@).len() ==> (#[trigger] words(spelled@)[j]).len() > 0,
            i <= found@.len(),
            parts@.len() == i,
            forall|j: int|
                0 <= j < i ==> (#[trigger] parts@[j])@ == capitalised(found@[j]@, unicode_upper()),
            plain_initials(value@) ==> forall|j: int|
                0 <= j < i ==> (#[trigger] parts@[j])@ == capitalised(found@[j]@, plain_upper()),
        decreases found@.len() - i,
    {
        assert(text::texts(found@)[i as int] == found@[i as int]@);
        parts.push(capitalise(&found[i]));
        i = i + 1;
    }
    assert(text::texts(parts@) =~= words(spelled@).map_values(of_unicode)) by {
        assert forall|j: int| 0 <= j < parts@.len() implies text::texts(parts@)[j] == words(
            spelled@,
        ).map_values(of_unicode)[j] by {
            assert(text::texts(found@)[j] == found@[j]@);
        }
    }
    assert(plain_initials(value@) ==> text::texts(parts@) =~= words(spelled@).map_values(
        of_ascii,
    )) by {
        if plain_initials(value@) {
            assert forall|j: int| 0 <= j < parts@.len() implies text::texts(parts@)[j] == words(
                spelled@,
            ).map_values(of_ascii)[j] by {
                assert(text::texts(found@)[j] == found@[j]@);
            }
        }
    }
    join_words(&parts)
}

/// ASCII texts joined are an ASCII text.
proof fn lemma_joined_ascii(parts: Seq<Seq<char>>)
    requires
        texts_are_ascii(parts),
    ensures
        vstd::utf8::is_ascii_chars(joined(parts)),
    decreases parts.len(),
{
    if parts.len() > 1 {
        lemma_joined_ascii(parts.drop_first());
    }
}

/// The label of an ASCII identifier is an ASCII text.
pub proof fn labels_of_ascii_are_ascii(value: Seq<char>)
    requires
        vstd::utf8::is_ascii_chars(value),
    ensures
        vstd::utf8::is_ascii_chars(label(value, plain_upper())),
{
    let spelled = spelled_out(value);
    let found = words(spelled);
    let parts = found.map_values(|word: Seq<char>| capitalised(word, plain_upper()));
    reveal_strlit("partly cloudy");
    assert(vstd::utf8::is_ascii_chars(spelled));
    lemma_words_of_ascii(spelled);
    assert forall|i: int| 0 <= i < parts.len() implies vstd::utf8::is_ascii_chars(
        #[trigger] parts[i],
    ) by {
        assert(vstd::utf8::is_ascii_chars(found[i]));
        assert(parts[i] == capitalised(found[i], plain_upper()));
    }
    lemma_joined_ascii(parts);
}

// ---------------------------------------------------------------------------
// Headings
// ---------------------------------------------------------------------------

/// The label for an identifier in upper case.
pub open spec fn heading(value: Seq<char>) -> Seq<char> {
    text::upper_text(label(value, unicode_upper()))
}

/// The label for an ASCII identifier in upper case.
pub open spec fn plain_heading(value: Seq<char>) -> Seq<char> {
    text::ascii_upper_text(label(value, plain_upper()))
}

/// `shown` is the label for an identifier in upper case.
pub open spec fn heads(value: Seq<char>, shown: Seq<char>) -> bool {
    &&& shown == heading(value)
    &&& vstd::utf8::is_ascii_chars(value) ==> shown == plain_heading(value)
}

/// The label for an identifier in upper case.
pub fn pretty_heading(value: &str) -> (r: String)
    ensures
        heads(value@, r@),
{
    proof {
        if is_ascii(value) {
            labels_of_ascii_are_ascii(value@);
        }
    }
    to_uppercase(&pretty_label(value))
}

// ---------------------------------------------------------------------------
// Icons, words and labels in their parts
// ---------------------------------------------------------------------------

/// Each condition has its icon, and every other condition is a cloud.
pub proof fn each_condition_has_its_icon(is_night: bool, condition: Seq<char>)
    ensures
        weather_icon("sunny"@, is_night) == "sun"@,
        weather_icon("clear-night"@, is_night) == "moon"@,
        weather_icon("partlycloudy"@, true) == "cloud-moon"@,
        weather_icon("partlycloudy"@, false) == "cloud-sun"@,
        weather_icon("rainy"@, is_night) == "cloud-rain"@,
        weather_icon("pouring"@, is_night) == "cloud-rain-wind"@,
        weather_icon("windy"@, is_night) == "cloud-rain-wind"@,
        weather_icon("windy-variant"@, is_night) == "cloud-rain-wind"@,
        weather_icon("lightning"@, is_night) == "cloud-lightning"@,
        weather_icon("lightning-rainy"@, is_night) == "cloud-lightning"@,
        weather_icon("snowy"@, is_night) == "snowflake"@,
        weather_icon("snowy-rainy"@, is_night) == "snowflake"@,
        weather_icon("hail"@, is_night) == "snowflake"@,
        weather_icon("fog"@, is_night) == "cloud-fog"@,
        weather_icon(condition, is_night) == "cloud"@ || condition == "sunny"@ || condition
            == "clear-night"@ || condition == "partlycloudy"@ || condition == "rainy"@ || condition
            == "pouring"@ || condition == "windy"@ || condition == "windy-variant"@ || condition
            == "lightning"@ || condition == "lightning-rainy"@ || condition == "snowy"@ || condition
            == "snowy-rainy"@ || condition == "hail"@ || condition == "fog"@,
{
    reveal_strlit("sunny");
    reveal_strlit("clear-night");
    reveal_strlit("partlycloudy");
    reveal_strlit("rainy");
    reveal_strlit("pouring");
    reveal_strlit("windy");
    reveal_strlit("windy-variant");
    reveal_strlit("lightning");
    reveal_strlit("lightning-rainy");
    reveal_strlit("snowy");
    reveal_strlit("snowy-rainy");
    reveal_strlit("hail");
    reveal_strlit("fog");
    assert("sunny"@.len() == 5 && "sunny"@[1] == 'u');
    assert("clear-night"@.len() == 11 && "clear-night"@[0] == 'c');
    assert("partlycloudy"@.len() == 12);
    assert("rainy"@.len() == 5 && "rainy"@[1] == 'a');
    assert("pouring"@.len() == 7);
    assert("windy"@.len() == 5 && "windy"@[1] == 'i');
    assert("windy-variant"@.len() == 13);
    assert("lightning"@.len() == 9);
    assert("lightning-rainy"@.len() == 15);
    assert("snowy"@.len() == 5 && "snowy"@[1] == 'n');
    assert("snowy-rainy"@.len() == 11 && "snowy-rainy"@[0] == 's');
    assert("hail"@.len() == 4);
    assert("fog"@.len() == 3);
}

/// Each of the three separators parts a text: its words are those before and then those after it. A
/// text without them is one word, or none if it is empty.
pub proof fn separators_part_words(before: Seq<char>, mark: char, after: Seq<char>)
    requires
        mark == '_' || mark == '-' || mark == ' ',
    ensures
        words(before + seq![mark] + after) == words(before) + words(after),
        words(Seq::<char>::empty()).len() == 0,
        before.len() > 0 && (forall|i: int|
            0 <= i < before.len() ==> (#[trigger] before[i]) != '_' && before[i] != '-' && before[i]
                != ' ') ==> words(before) == seq![before],
    decreases before.len(),
{
    let whole = before + seq![mark] + after;
    if before.len() == 0 {
        assert(whole.drop_first() =~= after);
        assert(words(whole) == words(after));
        assert(words(before) + words(after) =~= words(after));
    } else if word_len(before) == 0 {
        assert(separates(before[0]));
        assert(whole[0] == before[0]);
        assert(whole.drop_first() =~= before.drop_first() + seq![mark] + after);
        separators_part_words(before.drop_first(), mark, after);
        assert(words(whole) == words(whole.drop_first()));
    } else {
        lemma_word_len(before);
        let n = word_len(before);
        assert forall|i: int| 0 <= i < n implies !separates(#[trigger] whole[i]) by {
            assert(whole[i] == before[i]);
        }
        if n < before.len() {
            assert(whole[n as int] == before[n as int]);
        } else {
            assert(whole[n as int] == mark);
        }
        lemma_word_len_is(whole, n);
        let rest = before.skip(n as int);
        assert(whole.skip(n as int) =~= rest + seq![mark] + after);
        assert(whole.take(n as int) =~= before.take(n as int));
        separators_part_words(rest, mark, after);
        assert(words(whole) =~= words(before) + words(after));
        if forall|i: int|
            0 <= i < before.len() ==> (#[trigger] before[i]) != '_' && before[i] != '-' && before[i]
                != ' ' {
            lemma_word_len_is(before, before.len());
            assert(before.take(before.len() as int) =~= before);
            assert(words(before.skip(before.len() as int)) =~= Seq::<Seq<char>>::empty());
            assert(words(before) =~= seq![before]);
        }
    }
}

/// Words are joined by one blank between each two of them.
pub proof fn one_blank_joins_two_words(some: Seq<Seq<char>>, more: Seq<Seq<char>>, word: Seq<char>)
    ensures
        joined(Seq::<Seq<char>>::empty()).len() == 0,
        joined(seq![word]) == word,
        some.len() > 0 && more.len() > 0 ==> joined(some + more) == joined(some) + seq![' ']
            + joined(more),
    decreases some.len(),
{
    if some.len() > 0 && more.len() > 0 {
        let whole = some + more;
        assert(whole.drop_first() =~= some.drop_first() + more);
        assert(whole[0] == some[0]);
        if some.len() > 1 {
            one_blank_joins_two_words(some.drop_first(), more, word);
        } else {
            assert(whole.drop_first() =~= more);
        }
        assert(joined(whole) =~= joined(some) + seq![' '] + joined(more));
    }
}

/// A label is made of the words of the identifier, in their order, each with its first character
/// replaced by the capital of it. The one exception is spelled as two words.
pub proof fn a_label_capitalises_each_word(value: Seq<char>, upper: spec_fn(char) -> Seq<char>)
    ensures
        value != "partlycloudy"@ ==> label(value, upper) == joined(
            Seq::new(
                words(value).len(),
                |i: int| upper(words(value)[i][0]) + words(value)[i].drop_first(),
            ),
        ),
        label("partlycloudy"@, upper) == upper('p') + "artly"@ + seq![' '] + upper('c') + "loudy"@,
        forall|c: char| #[trigger] unicode_upper()(c) == text::upper_char(c),
        forall|c: char| #[trigger] plain_upper()(c) == seq![text::ascii_upper(c)],
{
    let of = |word: Seq<char>| capitalised(word, upper);
    words_hold_no_separator(value);
    if value != "partlycloudy"@ {
        assert(words(value).map_values(of) =~= Seq::new(
            words(value).len(),
            |i: int| upper(words(value)[i][0]) + words(value)[i].drop_first(),
        ));
    }
    reveal_strlit("partly cloudy");
    reveal_strlit("partly");
    reveal_strlit("cloudy");
    reveal_strlit("artly");
    reveal_strlit("loudy");
    assert("partly cloudy"@ =~= "partly"@ + seq![' '] + "cloudy"@);
    separators_part_words("partly"@, ' ', "cloudy"@);
    separators_part_words("cloudy"@, ' ', "partly"@);
    let both = seq!["partly"@, "cloudy"@];
    assert(words("partly cloudy"@) =~= both);
    assert("partly"@.drop_first() =~= "artly"@);
    assert("cloudy"@.drop_first() =~= "loudy"@);
    let parts = both.map_values(of);
    assert(parts =~= seq![upper('p') + "artly"@] + seq![upper('c') + "loudy"@]);
    one_blank_joins_two_words(
        seq![upper('p') + "artly"@],
        seq![upper('c') + "loudy"@],
        upper('p') + "artly"@,
    );
    one_blank_joins_two_words(
        seq![upper('c') + "loudy"@],
        seq![upper('p') + "artly"@],
        upper('c') + "loudy"@,
    );
    assert(label("partlycloudy"@, upper) =~= upper('p') + "artly"@ + seq![' '] + upper('c')
        + "loudy"@);
}

/// A heading is the label in upper case.
pub proof fn a_heading_is_a_label_in_upper_case(value: Seq<char>, shown: Seq<char>)
    requires
        heads(value, shown),
    ensures
        shown == text::upper_text(label(value, unicode_upper())),
        vstd::utf8::is_ascii_chars(value) ==> shown.len() == label(value, plain_upper()).len()
            && forall|i: int|
            0 <= i < shown.len() ==> #[trigger] shown[i] == text::ascii_upper(
                label(value, plain_upper())[i],
            ),
{
}

/// A word gets the capital of its first character and keeps the others; no word is left as it is.
pub proof fn a_capital_replaces_the_first_character(
    first: char,
    rest: Seq<char>,
    upper: spec_fn(char) -> Seq<char>,
)
    ensures
        capitalised(seq![first] + rest, upper) == upper(first) + rest,
        capitalised(Seq::<char>::empty(), upper).len() == 0,
{
    assert((seq![first] + rest).drop_first() =~= rest);
}

} // verus!
