//! Text helpers shared by the other modules: trimming, padding, decimal
//! numbers and comparison, each stated over the characters of a string.
use vstd::prelude::*;
use vstd::string::*;
use vstd::utf8::*;

verus! {

/// The characters with the Unicode `White_Space` property.
pub open spec fn is_white_space(c: char) -> bool {
    ||| '\u{9}' <= c <= '\u{d}'
    ||| c == '\u{20}'
    ||| c == '\u{85}'
    ||| c == '\u{a0}'
    ||| c == '\u{1680}'
    ||| '\u{2000}' <= c <= '\u{200a}'
    ||| c == '\u{2028}'
    ||| c == '\u{2029}'
    ||| c == '\u{202f}'
    ||| c == '\u{205f}'
    ||| c == '\u{3000}'
}

/// `text` without the white space at its start.
pub open spec fn without_leading_space(text: Seq<char>) -> Seq<char>
    decreases text.len(),
{
    if text.len() > 0 && is_white_space(text.first()) {
        without_leading_space(text.drop_first())
    } else {
        text
    }
}

/// `text` without the white space at its end.
pub open spec fn without_trailing_space(text: Seq<char>) -> Seq<char>
    decreases text.len(),
{
    if text.len() > 0 && is_white_space(text.last()) {
        without_trailing_space(text.drop_last())
    } else {
        text
    }
}

/// `text` without the white space at either end.
pub open spec fn trimmed(text: Seq<char>) -> Seq<char> {
    without_trailing_space(without_leading_space(text))
}

/// `str::trim`: the white space at both ends is gone and nothing else is.
pub assume_specification[ str::trim ](text: &str) -> (core: &str)
    ensures
        core@ == trimmed(text@),
;

/// The lower-case form of an ASCII capital letter; any other character is
/// itself.
pub open spec fn ascii_lower(c: char) -> char {
    if 'A' <= c <= 'Z' {
        (c as u32 + 32) as char
    } else {
        c
    }
}

/// `text` with every ASCII capital letter in lower case.
pub open spec fn lower_case(text: Seq<char>) -> Seq<char> {
    text.map_values(|c: char| ascii_lower(c))
}

/// `str::to_ascii_lowercase`: ASCII capital letters become small ones, and
/// every other character stays as it is.
pub assume_specification[ str::to_ascii_lowercase ](text: &str) -> (lower: String)
    ensures
        lower@ == lower_case(text@),
;

/// True if every character of `text` is white space.
pub open spec fn only_space(text: Seq<char>) -> bool {
    forall|i: int| 0 <= i < text.len() ==> is_white_space(#[trigger] text[i])
}

proof fn lemma_leading_space_drops(space: Seq<char>, text: Seq<char>)
    requires
        only_space(space),
    ensures
        without_leading_space(space + text) == without_leading_space(text),
    decreases space.len(),
{
    if space.len() == 0 {
        assert(space + text =~= text);
    } else {
        assert(is_white_space(space[0]));
        assert((space + text).drop_first() =~= space.drop_first() + text);
        lemma_leading_space_drops(space.drop_first(), text);
    }
}

proof fn lemma_trailing_space_drops(text: Seq<char>, space: Seq<char>)
    requires
        only_space(space),
    ensures
        without_trailing_space(text + space) == without_trailing_space(text),
    decreases space.len(),
{
    if space.len() == 0 {
        assert(text + space =~= text);
    } else {
        assert(is_white_space(space.last()));
        assert((text + space).drop_last() =~= text + space.drop_last());
        lemma_trailing_space_drops(text, space.drop_last());
    }
}

proof fn lemma_leading_space_stops(text: Seq<char>, end: Seq<char>)
    requires
        only_space(end),
    ensures
        without_leading_space(text + end) == without_leading_space(text) + end || (only_space(text)
            && without_leading_space(text).len() == 0 && without_leading_space(text + end).len()
            == 0),
    decreases text.len(),
{
    if text.len() == 0 {
        assert(text + end =~= end);
        assert(end + Seq::<char>::empty() =~= end);
        lemma_leading_space_drops(end, Seq::empty());
    } else if is_white_space(text.first()) {
        assert((text + end).drop_first() =~= text.drop_first() + end);
        lemma_leading_space_stops(text.drop_first(), end);
        if only_space(text.drop_first()) {
            assert forall|i: int| 0 <= i < text.len() implies is_white_space(
                #[trigger] text[i],
            ) by {
                if i > 0 {
                    assert(text.drop_first()[i - 1] == text[i]);
                }
            }
        }
    }
}

/// White space around a text makes no difference once it is trimmed.
pub proof fn law_outer_space_is_trimmed(before: Seq<char>, text: Seq<char>, after: Seq<char>)
    requires
        only_space(before),
        only_space(after),
    ensures
        trimmed(before + text + after) == trimmed(text),
{
    assert(before + text + after =~= before + (text + after));
    lemma_leading_space_drops(before, text + after);
    lemma_leading_space_stops(text, after);
    lemma_trailing_space_drops(without_leading_space(text), after);
}

proof fn lemma_leading_lower(text: Seq<char>)
    ensures
        without_leading_space(lower_case(text)) == lower_case(without_leading_space(text)),
    decreases text.len(),
{
    if text.len() > 0 && is_white_space(text.first()) {
        assert(lower_case(text).first() == text.first());
        assert(lower_case(text).drop_first() =~= lower_case(text.drop_first()));
        lemma_leading_lower(text.drop_first());
    } else if text.len() > 0 {
        assert(lower_case(text).first() == ascii_lower(text.first()));
    }
}

proof fn lemma_trailing_lower(text: Seq<char>)
    ensures
        without_trailing_space(lower_case(text)) == lower_case(without_trailing_space(text)),
    decreases text.len(),
{
    if text.len() > 0 && is_white_space(text.last()) {
        assert(lower_case(text).last() == text.last());
        assert(lower_case(text).drop_last() =~= lower_case(text.drop_last()));
        lemma_trailing_lower(text.drop_last());
    } else if text.len() > 0 {
        assert(lower_case(text).last() == ascii_lower(text.last()));
    }
}

/// It makes no difference whether a text is trimmed before or after its
/// capitals are made small, or whether they are made small twice.
pub proof fn law_lower_case_and_trimming_commute(text: Seq<char>)
    ensures
        trimmed(lower_case(text)) == lower_case(trimmed(text)),
        lower_case(lower_case(text)) == lower_case(text),
{
    lemma_leading_lower(text);
    lemma_trailing_lower(without_leading_space(text));
    assert(lower_case(lower_case(text)) =~= lower_case(text));
}

/// What has been trimmed neither starts nor ends with white space, and
/// trimming it again changes nothing.
pub proof fn law_trimmed_has_no_outer_space(text: Seq<char>)
    ensures
        trimmed(text).len() > 0 ==> !is_white_space(trimmed(text).first()) && !is_white_space(
            trimmed(text).last(),
        ),
        trimmed(trimmed(text)) == trimmed(text),
{
    lemma_no_leading_space(text);
    lemma_no_trailing_space(without_leading_space(text));
}

proof fn lemma_no_leading_space(text: Seq<char>)
    ensures
        without_leading_space(text).len() > 0 ==> !is_white_space(
            without_leading_space(text).first(),
        ),
    decreases text.len(),
{
    if text.len() > 0 && is_white_space(text.first()) {
        lemma_no_leading_space(text.drop_first());
    }
}

proof fn lemma_no_trailing_space(text: Seq<char>)
    ensures
        without_trailing_space(text).len() > 0 ==> !is_white_space(
            without_trailing_space(text).last(),
        ) && without_trailing_space(text).first() == text.first(),
    decreases text.len(),
{
    if text.len() > 0 && is_white_space(text.last()) {
        lemma_no_trailing_space(text.drop_last());
    }
}

/// `==` on string slices: true if the two hold the same characters.
pub assume_specification[ <str as PartialEq>::eq ](left: &str, right: &str) -> (same: bool)
    ensures
        same == (left@ == right@),
;

/// True if the two texts hold the same characters.
pub fn same_text(left: &str, right: &str) -> (same: bool)
    ensures
        same == (left@ == right@),
{
    *left == *right
}

/// The decimal digit of a number below ten.
pub open spec fn digit_char(digit: nat) -> char {
    ('0' as u32 + digit) as char
}

/// `number` in decimal, without leading zeros.
pub open spec fn decimal_text(number: nat) -> Seq<char>
    decreases number,
{
    if number < 10 {
        seq![digit_char(number)]
    } else {
        decimal_text(number / 10).push(digit_char(number % 10))
    }
}

/// `number` in decimal, with one leading zero if it has a single digit.
pub open spec fn two_digit_text(number: nat) -> Seq<char> {
    if number < 10 {
        seq!['0'] + decimal_text(number)
    } else {
        decimal_text(number)
    }
}

fn digit(value: u64) -> (text: &'static str)
    requires
        value < 10,
    ensures
        text@ == seq![digit_char(value as nat)],
{
    proof {
        reveal_strlit("0");
        reveal_strlit("1");
        reveal_strlit("2");
        reveal_strlit("3");
        reveal_strlit("4");
        reveal_strlit("5");
        reveal_strlit("6");
        reveal_strlit("7");
        reveal_strlit("8");
        reveal_strlit("9");
    }
    if value == 0 {
        "0"
    } else if value == 1 {
        "1"
    } else if value == 2 {
        "2"
    } else if value == 3 {
        "3"
    } else if value == 4 {
        "4"
    } else if value == 5 {
        "5"
    } else if value == 6 {
        "6"
    } else if value == 7 {
        "7"
    } else if value == 8 {
        "8"
    } else {
        "9"
    }
}

/// Writes `number` in decimal.
pub fn decimal(number: u64) -> (text: String)
    ensures
        text@ == decimal_text(number as nat),
    decreases number,
{
    if number < 10 {
        String::from_str(digit(number))
    } else {
        let mut text = decimal(number / 10);
        text.append(digit(number % 10));
        text
    }
}

/// Writes `number` in decimal with at least two digits.
pub fn two_digits(number: u64) -> (text: String)
    ensures
        text@ == two_digit_text(number as nat),
{
    if number < 10 {
        proof {
            reveal_strlit("0");
        }
        let mut text = String::from_str("0");
        assert(text@ == seq!['0']);
        text.append(digit(number));
        text
    } else {
        decimal(number)
    }
}

/// `text` followed by as many spaces as bring it to `width` characters.
pub open spec fn padded(text: Seq<char>, width: nat) -> Seq<char> {
    if text.len() < width {
        text + Seq::new((width - text.len()) as nat, |i: int| ' ')
    } else {
        text
    }
}

/// Pads `text` on the right with spaces to `width` characters.
pub fn pad_right(text: &str, width: usize) -> (column: String)
    ensures
        column@ == padded(text@, width as nat),
{
    proof {
        reveal_strlit(" ");
    }
    let mut column = String::from_str(text);
    let mut length: usize = text.unicode_len();
    while length < width
        invariant
            text@.len() <= length,
            length <= width || length == text@.len(),
            column@ == text@ + Seq::new((length - text@.len()) as nat, |i: int| ' '),
            " "@ == seq![' '],
        decreases width - length,
    {
        column.append(" ");
        length = length + 1;
        assert(column@ =~= text@ + Seq::new((length - text@.len()) as nat, |i: int| ' '));
    }
    assert(column@ =~= padded(text@, width as nat));
    column
}

/// `parts` in order, with `separator` between each two neighbours.
pub open spec fn joined(parts: Seq<Seq<char>>, separator: Seq<char>) -> Seq<char>
    decreases parts.len(),
{
    if parts.len() == 0 {
        Seq::empty()
    } else if parts.len() == 1 {
        parts[0]
    } else {
        joined(parts.drop_last(), separator) + separator + parts.last()
    }
}

/// The characters of each of `parts`.
pub open spec fn texts(parts: Seq<&str>) -> Seq<Seq<char>> {
    parts.map_values(|part: &str| part@)
}

/// The characters of each of `lines`.
pub open spec fn line_texts(lines: Seq<String>) -> Seq<Seq<char>> {
    lines.map_values(|line: String| line@)
}

/// Joins `parts` with `separator` between neighbours.
pub fn join(parts: &Vec<&str>, separator: &str) -> (text: String)
    ensures
        text@ == joined(texts(parts@), separator@),
{
    let mut text = String::new();
    let mut next: usize = 0;
    while next < parts.len()
        invariant
            next <= parts.len(),
            text@ == joined(texts(parts@).take(next as int), separator@),
        decreases parts.len() - next,
    {
        if next > 0 {
            text.append(separator);
        }
        text.append(parts[next]);
        next = next + 1;
        proof {
            let taken = texts(parts@).take(next as int);
            assert(taken.drop_last() =~= texts(parts@).take(next - 1));
            assert(taken.last() == parts@[next - 1]@);
            assert(text@ =~= joined(taken, separator@));
        }
    }
    assert(texts(parts@).take(next as int) =~= texts(parts@));
    text
}

/// `text` with a space in place of every line break.
pub open spec fn on_one_line(text: Seq<char>) -> Seq<char> {
    text.map_values(
        |c: char|
            if c == '\n' || c == '\r' {
                ' '
            } else {
                c
            },
    )
}

/// Puts a space in place of every line break.
pub fn flatten_lines(text: &str) -> (line: String)
    ensures
        line@ == on_one_line(text@),
{
    proof {
        reveal_strlit(" ");
    }
    let mut line = String::new();
    let length: usize = text.unicode_len();
    let mut next: usize = 0;
    while next < length
        invariant
            next <= length,
            length == text@.len(),
            line@ == on_one_line(text@).take(next as int),
            " "@ == seq![' '],
        decreases length - next,
    {
        let c = text.get_char(next);
        let ghost before = line@;
        if c == '\n' || c == '\r' {
            line.append(" ");
        } else {
            line.append(text.substring_char(next, next + 1));
        }
        assert(line@ =~= before.push(on_one_line(text@)[next as int]));
        next = next + 1;
        assert(line@ =~= on_one_line(text@).take(next as int));
    }
    assert(on_one_line(text@).take(next as int) =~= on_one_line(text@));
    line
}

/// A text without line breaks is not changed by putting it on one line.
pub proof fn law_single_lines_are_kept(text: Seq<char>)
    requires
        !text.contains('\n'),
        !text.contains('\r'),
    ensures
        on_one_line(text) == text,
{
    assert forall|i: int| 0 <= i < text.len() implies on_one_line(text)[i] == text[i] by {
        assert(text.contains(text[i]));
    }
    assert(on_one_line(text) =~= text);
}

/// How many line feeds `text` holds.
pub open spec fn line_feeds(text: Seq<char>) -> nat
    decreases text.len(),
{
    if text.len() == 0 {
        0
    } else {
        line_feeds(text.drop_last()) + (if text.last() == '\n' {
            1nat
        } else {
            0nat
        })
    }
}

/// The line feeds of two texts are those of the two put together.
pub proof fn lemma_line_feeds_add_up(left: Seq<char>, right: Seq<char>)
    ensures
        line_feeds(left + right) == line_feeds(left) + line_feeds(right),
    decreases right.len(),
{
    if right.len() == 0 {
        assert(left + right =~= left);
    } else {
        assert((left + right).drop_last() =~= left + right.drop_last());
        lemma_line_feeds_add_up(left, right.drop_last());
    }
}

/// A text with no line feed in it has none.
pub proof fn lemma_no_line_feeds(text: Seq<char>)
    requires
        forall|i: int| 0 <= i < text.len() ==> #[trigger] text[i] != '\n',
    ensures
        line_feeds(text) == 0,
    decreases text.len(),
{
    if text.len() > 0 {
        let front = text.drop_last();
        assert forall|i: int| 0 <= i < front.len() implies #[trigger] front[i] != '\n' by {
            assert(front[i] == text[i]);
        }
        lemma_no_line_feeds(front);
    }
}

/// A number in decimal has no line feed in it.
pub proof fn lemma_decimal_has_no_line_feeds(number: nat)
    ensures
        line_feeds(decimal_text(number)) == 0,
    decreases number,
{
    let text = decimal_text(number);
    reveal_with_fuel(line_feeds, 2);
    assert(text.last() == digit_char(number % 10));
    assert('0' <= digit_char(number % 10) <= '9');
    if number >= 10 {
        lemma_decimal_has_no_line_feeds(number / 10);
        assert(text.drop_last() =~= decimal_text(number / 10));
    } else {
        assert(text.drop_last() =~= Seq::empty());
    }
}

/// True if the first `length` characters of `text` are the last ones of
/// `previous`.
pub open spec fn is_overlap(previous: Seq<char>, text: Seq<char>, length: nat) -> bool {
    &&& length <= previous.len()
    &&& length <= text.len()
    &&& text.take(length as int) == previous.skip(previous.len() - length)
}

/// True if there is white space between two neighbouring characters, or one of
/// them is.
pub open spec fn parts_words(left: char, right: char) -> bool {
    is_white_space(left) || is_white_space(right)
}

/// True if the last `length` characters of `previous` and the first ones of
/// `text` are whole words of each.
pub open spec fn is_whole_words(previous: Seq<char>, text: Seq<char>, length: nat) -> bool {
    &&& length == previous.len() || parts_words(
        previous[previous.len() - length - 1],
        previous[previous.len() - length],
    )
    &&& length == text.len() || parts_words(text[length - 1], text[length as int])
}

/// True if the first `length` characters of `text` repeat the end of
/// `previous`: the two agree there by more than chance, in whole words or in
/// more than eight bytes.
pub open spec fn is_repetition(previous: Seq<char>, text: Seq<char>, length: nat) -> bool {
    &&& length > 0
    &&& is_overlap(previous, text, length)
    &&& is_whole_words(previous, text, length) || encode_utf8(text.take(length as int)).len() > 8
}

/// How much of the start of `text` repeats the end of `previous`, if it is not
/// more than `limit` characters.
pub open spec fn overlap_within(previous: Seq<char>, text: Seq<char>, limit: nat) -> nat
    decreases limit,
{
    if limit == 0 {
        0
    } else if is_repetition(previous, text, limit) {
        limit
    } else {
        overlap_within(previous, text, (limit - 1) as nat)
    }
}

/// How much of the start of `text` repeats the end of `previous`.
pub open spec fn overlap(previous: Seq<char>, text: Seq<char>) -> nat {
    overlap_within(previous, text, text.len())
}

/// `text` without what it repeats of the end of `previous`.
pub open spec fn without_overlap(previous: Seq<char>, text: Seq<char>) -> Seq<char> {
    text.skip(overlap(previous, text) as int)
}

proof fn lemma_overlap_within(previous: Seq<char>, text: Seq<char>, limit: nat)
    ensures
        overlap_within(previous, text, limit) <= limit,
        overlap_within(previous, text, limit) > 0 ==> is_repetition(
            previous,
            text,
            overlap_within(previous, text, limit),
        ),
        forall|length: nat|
            overlap_within(previous, text, limit) < length <= limit ==> !#[trigger] is_repetition(
                previous,
                text,
                length,
            ),
    decreases limit,
{
    if limit > 0 && !is_repetition(previous, text, limit) {
        lemma_overlap_within(previous, text, (limit - 1) as nat);
    }
}

/// The overlap of two texts is the longest start of the second that repeats the
/// end of the first.
pub proof fn law_overlap_is_the_longest(previous: Seq<char>, text: Seq<char>)
    ensures
        overlap(previous, text) <= text.len(),
        overlap(previous, text) > 0 ==> is_repetition(previous, text, overlap(previous, text)),
        forall|length: nat| #[trigger]
            is_repetition(previous, text, length) ==> length <= overlap(previous, text),
{
    lemma_overlap_within(previous, text, text.len());
}

/// A text that repeats nothing is kept whole.
pub proof fn law_text_without_repetition_is_kept(previous: Seq<char>, text: Seq<char>)
    requires
        forall|length: nat| !#[trigger] is_repetition(previous, text, length),
    ensures
        without_overlap(previous, text) == text,
{
    law_overlap_is_the_longest(previous, text);
    assert(text.skip(0) =~= text);
}

/// Where nothing was said before, every text is kept whole.
pub proof fn law_first_text_is_kept(text: Seq<char>)
    ensures
        without_overlap(Seq::empty(), text) == text,
{
    law_text_without_repetition_is_kept(Seq::empty(), text);
}

fn is_space(c: char) -> (answer: bool)
    ensures
        answer == is_white_space(c),
{
    ('\u{9}' <= c && c <= '\u{d}') || c == '\u{20}' || c == '\u{85}' || c == '\u{a0}' || c
        == '\u{1680}' || ('\u{2000}' <= c && c <= '\u{200a}') || c == '\u{2028}' || c == '\u{2029}'
        || c == '\u{202f}' || c == '\u{205f}' || c == '\u{3000}'
}

/// True if `text` starts with white space.
pub fn starts_with_space(text: &str) -> (answer: bool)
    ensures
        answer == (text@.len() > 0 && is_white_space(text@.first())),
{
    text.unicode_len() > 0 && is_space(text.get_char(0))
}

/// True if `text` ends with white space.
pub fn ends_with_space(text: &str) -> (answer: bool)
    ensures
        answer == (text@.len() > 0 && is_white_space(text@.last())),
{
    let length: usize = text.unicode_len();
    length > 0 && is_space(text.get_char(length - 1))
}

fn repeats_by(previous: &str, text: &str, length: usize) -> (answer: bool)
    requires
        0 < length <= text@.len(),
    ensures
        answer == is_repetition(previous@, text@, length as nat),
{
    let before: usize = previous.unicode_len();
    let total: usize = text.unicode_len();
    if length > before {
        return false;
    }
    let start = text.substring_char(0, length);
    let end = previous.substring_char(before - length, before);
    assert(start@ =~= text@.take(length as int));
    assert(end@ =~= previous@.skip(before - length));
    if !same_text(start, end) {
        return false;
    }
    if start.as_bytes().len() > 8 {
        return true;
    }
    let starts_a_word = length == before || is_space(previous.get_char(before - length - 1))
        || is_space(previous.get_char(before - length));
    let ends_a_word = length == total || is_space(text.get_char(length - 1)) || is_space(
        text.get_char(length),
    );
    starts_a_word && ends_a_word
}

/// Drops what `text` repeats of the end of `previous`.
pub fn drop_overlap<'a>(previous: &str, text: &'a str) -> (rest: &'a str)
    ensures
        rest@ == without_overlap(previous@, text@),
{
    let length: usize = text.unicode_len();
    let mut limit: usize = length;
    while limit > 0
        invariant
            limit <= length,
            length == text@.len(),
            overlap(previous@, text@) == overlap_within(previous@, text@, limit as nat),
        decreases limit,
    {
        if repeats_by(previous, text, limit) {
            assert(text@.subrange(limit as int, length as int) =~= text@.skip(limit as int));
            return text.substring_char(limit, length);
        }
        limit = limit - 1;
    }
    assert(text@.skip(0) =~= text@);
    text
}

/// True if `left` comes before `right` in the order of a dictionary, by the
/// numbers of the characters.
pub open spec fn precedes(left: Seq<char>, right: Seq<char>) -> bool
    decreases left.len(),
{
    if right.len() == 0 {
        false
    } else if left.len() == 0 {
        true
    } else if left.first() == right.first() {
        precedes(left.drop_first(), right.drop_first())
    } else {
        (left.first() as int) < (right.first() as int)
    }
}

/// True if `left` comes before `right` in the order of a dictionary.
pub fn comes_before(left: &str, right: &str) -> (answer: bool)
    ensures
        answer == precedes(left@, right@),
{
    let left_length: usize = left.unicode_len();
    let right_length: usize = right.unicode_len();
    let mut next: usize = 0;
    assert(left@.skip(0) =~= left@);
    assert(right@.skip(0) =~= right@);
    while next < left_length && next < right_length
        invariant
            next <= left_length,
            next <= right_length,
            left_length == left@.len(),
            right_length == right@.len(),
            precedes(left@, right@) == precedes(left@.skip(next as int), right@.skip(next as int)),
        decreases left_length - next,
    {
        let a = left.get_char(next);
        let b = right.get_char(next);
        assert(left@.skip(next as int).first() == a);
        assert(right@.skip(next as int).first() == b);
        if a != b {
            return (a as u32) < (b as u32);
        }
        assert(left@.skip(next as int).drop_first() =~= left@.skip(next + 1));
        assert(right@.skip(next as int).drop_first() =~= right@.skip(next + 1));
        next = next + 1;
    }
    next < right_length
}

/// `text` without the slashes and backslashes at its start.
pub open spec fn without_leading_separators(text: Seq<char>) -> Seq<char>
    decreases text.len(),
{
    if text.len() > 0 && (text.first() == '\\' || text.first() == '/') {
        without_leading_separators(text.drop_first())
    } else {
        text
    }
}

/// Drops the slashes and backslashes at the start of `text`.
pub fn trim_leading_separators(text: &str) -> (rest: &str)
    ensures
        rest@ == without_leading_separators(text@),
{
    let length: usize = text.unicode_len();
    let mut start: usize = 0;
    assert(text@.skip(0) =~= text@);
    while start < length && (text.get_char(start) == '\\' || text.get_char(start) == '/')
        invariant
            start <= length,
            length == text@.len(),
            without_leading_separators(text@.skip(start as int)) == without_leading_separators(
                text@,
            ),
        decreases length - start,
    {
        assert(text@.skip(start as int).drop_first() =~= text@.skip(start + 1));
        start = start + 1;
    }
    assert(text@.subrange(start as int, length as int) =~= text@.skip(start as int));
    text.substring_char(start, length)
}

/// True if the bytes of `text` end with the bytes of `end`.
pub open spec fn ends_with_bytes(text: Seq<u8>, end: Seq<u8>) -> bool {
    text.len() >= end.len() && text.skip(text.len() - end.len()) == end
}

/// True if `text` ends with `end`.
pub fn ends_with(text: &str, end: &str) -> (answer: bool)
    ensures
        answer == ends_with_bytes(text.spec_bytes(), end.spec_bytes()),
{
    let text_bytes = text.as_bytes();
    let end_bytes = end.as_bytes();
    let total: usize = text_bytes.len();
    if total < end_bytes.len() {
        return false;
    }
    let offset: usize = total - end_bytes.len();
    let mut i: usize = 0;
    while i < end_bytes.len()
        invariant
            i <= end_bytes@.len(),
            total == text_bytes@.len(),
            offset + end_bytes@.len() == total,
            text_bytes@ == text.spec_bytes(),
            end_bytes@ == end.spec_bytes(),
            forall|j: int| 0 <= j < i ==> text_bytes@[offset + j] == end_bytes@[j],
        decreases end_bytes@.len() - i,
    {
        if text_bytes[offset + i] != end_bytes[i] {
            assert(text_bytes@.skip(offset as int)[i as int] != end_bytes@[i as int]);
            return false;
        }
        i = i + 1;
    }
    assert(text_bytes@.skip(offset as int) =~= end_bytes@);
    true
}

/// A character is white space if it has one of these numbers, and no other is.
pub proof fn law_white_space_has_these_numbers(c: char)
    ensures
        is_white_space(c) <==> 9 <= c as int <= 13 || c as int == 32 || c as int == 0x85 || c as int
            == 0xa0 || c as int == 0x1680 || 0x2000 <= c as int <= 0x200a || c as int == 0x2028
            || c as int == 0x2029 || c as int == 0x202f || c as int == 0x205f || c as int == 0x3000,
{
}

proof fn lemma_leading_space_is_space(text: Seq<char>) -> (space: Seq<char>)
    ensures
        only_space(space),
        text == space + without_leading_space(text),
    decreases text.len(),
{
    if text.len() > 0 && is_white_space(text.first()) {
        let more = lemma_leading_space_is_space(text.drop_first());
        let space = seq![text.first()] + more;
        assert(text =~= seq![text.first()] + text.drop_first());
        assert(text =~= space + without_leading_space(text.drop_first()));
        assert forall|i: int| 0 <= i < space.len() implies is_white_space(#[trigger] space[i]) by {
            if i > 0 {
                assert(space[i] == more[i - 1]);
            }
        }
        space
    } else {
        assert(text =~= Seq::empty() + text);
        Seq::empty()
    }
}

proof fn lemma_trailing_space_is_space(text: Seq<char>) -> (space: Seq<char>)
    ensures
        only_space(space),
        text == without_trailing_space(text) + space,
    decreases text.len(),
{
    if text.len() > 0 && is_white_space(text.last()) {
        let more = lemma_trailing_space_is_space(text.drop_last());
        let space = more.push(text.last());
        assert(text =~= text.drop_last().push(text.last()));
        assert(text =~= without_trailing_space(text.drop_last()) + space);
        space
    } else {
        assert(text =~= text + Seq::empty());
        Seq::empty()
    }
}

/// Trimming takes nothing away but white space at the two ends.
pub proof fn law_trimming_takes_only_outer_space(text: Seq<char>) -> (ends: (Seq<char>, Seq<char>))
    ensures
        text == ends.0 + trimmed(text) + ends.1,
        forall|i: int| 0 <= i < ends.0.len() ==> is_white_space(#[trigger] ends.0[i]),
        forall|i: int| 0 <= i < ends.1.len() ==> is_white_space(#[trigger] ends.1[i]),
{
    let before = lemma_leading_space_is_space(text);
    let after = lemma_trailing_space_is_space(without_leading_space(text));
    assert(text =~= before + trimmed(text) + after);
    (before, after)
}

/// A text that neither starts nor ends with white space is not changed by
/// trimming.
pub proof fn law_trim_text_is_kept(text: Seq<char>)
    requires
        text.len() > 0 ==> !is_white_space(text.first()) && !is_white_space(text.last()),
    ensures
        trimmed(text) == text,
{
}

/// Lower case changes the ASCII capitals, each to the letter that stands
/// thirty-two places behind it, and no other character.
pub proof fn law_lower_case_changes_only_capitals(text: Seq<char>)
    ensures
        lower_case(text).len() == text.len(),
        forall|i: int|
            0 <= i < text.len() ==> (#[trigger] lower_case(text)[i]) as int == if 65 <= text[i] as int
                <= 90 {
                text[i] as int + 32
            } else {
                text[i] as int
            },
{
}

/// The number that a row of decimal digits writes.
pub open spec fn decimal_value(digits: Seq<char>) -> int
    decreases digits.len(),
{
    if digits.len() == 0 {
        0
    } else {
        10 * decimal_value(digits.drop_last()) + (digits.last() as int - 48)
    }
}

/// True if `text` is made of decimal digits.
pub open spec fn only_digits(text: Seq<char>) -> bool {
    forall|i: int| 0 <= i < text.len() ==> 48 <= (#[trigger] text[i]) as int <= 57
}

/// A number in decimal is read back as that number. It is made of digits, of
/// which the first is a zero only where there is no other.
pub proof fn law_decimal_numbers_are_read_back(number: nat)
    ensures
        decimal_value(decimal_text(number)) == number,
        only_digits(decimal_text(number)),
        decimal_text(number).len() > 0,
        decimal_text(number).len() == 1 <==> number < 10,
        decimal_text(number).len() <= 2 <==> number < 100,
        decimal_text(number).len() > 1 ==> decimal_text(number)[0] as int != 48,
        number > 0 ==> decimal_text(number)[0] as int != 48,
    decreases number,
{
    let text = decimal_text(number);
    assert(digit_char(number % 10) as int == 48 + number % 10);
    if number >= 10 {
        law_decimal_numbers_are_read_back(number / 10);
        assert(text.drop_last() =~= decimal_text(number / 10));
        assert(text[0] == decimal_text(number / 10)[0]);
        assert(number < 100 <==> number / 10 < 10);
    } else {
        reveal_with_fuel(decimal_value, 2);
        assert(text.drop_last() =~= Seq::empty());
    }
}

/// A number with at least two digits is read back as that number; it has a zero
/// in front only if it is below ten, and then just one.
pub proof fn law_two_digit_numbers_are_read_back(number: nat)
    ensures
        decimal_value(two_digit_text(number)) == number,
        only_digits(two_digit_text(number)),
        two_digit_text(number).len() >= 2,
        two_digit_text(number).len() == 2 <==> number < 100,
        number >= 10 ==> two_digit_text(number)[0] as int != 48,
    decreases number,
{
    law_decimal_numbers_are_read_back(number);
    if number < 10 {
        let text = two_digit_text(number);
        reveal_with_fuel(decimal_value, 3);
        assert(text.len() == 2);
        assert(text.drop_last() =~= seq!['0']);
        assert(seq!['0'].drop_last() =~= Seq::empty());
        assert(text.last() == digit_char(number));
    }
}

/// Padding puts spaces behind a text, as many as it lacks of the width, and
/// leaves one that is wide enough alone.
pub proof fn law_padding_adds_only_spaces(text: Seq<char>, width: nat)
    ensures
        text.len() <= width ==> padded(text, width).len() == width,
        text.len() >= width ==> padded(text, width) == text,
        text.is_prefix_of(padded(text, width)),
        forall|i: int|
            text.len() <= i < padded(text, width).len() ==> #[trigger] padded(text, width)[i] == ' ',
{
}

/// Joining puts the separator between neighbours and nowhere else: a further
/// part comes behind all others, with the separator before it unless it is the
/// first.
pub proof fn law_joining_separates_neighbours(
    parts: Seq<Seq<char>>,
    next: Seq<char>,
    separator: Seq<char>,
)
    ensures
        joined(Seq::empty(), separator).len() == 0,
        joined(seq![next], separator) == next,
        parts.len() > 0 ==> joined(parts.push(next), separator) == joined(parts, separator)
            + separator + next,
{
    assert(parts.push(next).drop_last() =~= parts);
}

/// The lines of a report are all there, each with all its characters.
pub proof fn law_lines_are_told_whole(lines: Seq<String>, parts: Seq<&str>)
    ensures
        line_texts(lines).len() == lines.len(),
        forall|i: int| 0 <= i < lines.len() ==> #[trigger] line_texts(lines)[i] == lines[i]@,
        texts(parts).len() == parts.len(),
        forall|i: int| 0 <= i < parts.len() ==> #[trigger] texts(parts)[i] == parts[i]@,
{
}

/// Putting a text on one line changes every line break to a space, and nothing
/// else.
pub proof fn law_only_line_breaks_are_flattened(text: Seq<char>)
    ensures
        on_one_line(text).len() == text.len(),
        forall|i: int|
            0 <= i < text.len() ==> #[trigger] on_one_line(text)[i] == if text[i] as int == 10
                || text[i] as int == 13 {
                ' '
            } else {
                text[i]
            },
{
}

/// What is dropped of a text is the end of the text before: the rest is an end
/// of the text, and the characters in front of it are the last ones of the text
/// before. They are whole words on both sides, or more than eight bytes.
pub proof fn law_only_the_end_of_the_text_before_is_dropped(previous: Seq<char>, text: Seq<char>)
    ensures
        ({
            let rest = without_overlap(previous, text);
            let dropped = text.len() - rest.len();
            &&& dropped >= 0
            &&& text == text.take(dropped) + rest
            &&& dropped > 0 ==> {
                let kept = previous.len() - dropped;
                &&& kept >= 0
                &&& text.take(dropped) == previous.skip(kept)
                &&& encode_utf8(text.take(dropped)).len() > 8 || {
                    &&& kept == 0 || is_white_space(previous[kept - 1]) || is_white_space(
                        previous[kept],
                    )
                    &&& rest.len() == 0 || is_white_space(text[dropped - 1]) || is_white_space(
                        rest[0],
                    )
                }
            }
        }),
{
    law_overlap_is_the_longest(previous, text);
    let length = overlap(previous, text);
    assert(text =~= text.take(length as int) + text.skip(length as int));
}

/// What a text has in common with the end of the text before is dropped, if it
/// is whole words on both sides or more than eight bytes: at most what comes
/// behind it is left.
pub proof fn law_repeated_start_is_dropped(before: Seq<char>, common: Seq<char>, rest: Seq<char>)
    requires
        common.len() > 0,
        encode_utf8(common).len() > 8 || {
            &&& before.len() == 0 || is_white_space(before.last()) || is_white_space(common.first())
            &&& rest.len() == 0 || is_white_space(common.last()) || is_white_space(rest.first())
        },
    ensures
        without_overlap(before + common, common + rest).len() <= rest.len(),
        without_overlap(before + common, common + rest) == rest.skip(
            rest.len() - without_overlap(before + common, common + rest).len(),
        ),
{
    let previous = before + common;
    let text = common + rest;
    law_overlap_is_the_longest(previous, text);
    assert(is_repetition(previous, text, common.len())) by {
        assert(text.take(common.len() as int) =~= common);
        assert(previous.skip(previous.len() - common.len()) =~= common);
        assert(previous.len() - common.len() == before.len());
        assert(previous[before.len() as int] == common.first());
        assert(text[common.len() - 1] == common.last());
        if before.len() > 0 {
            assert(previous[before.len() - 1] == before.last());
        }
        if rest.len() > 0 {
            assert(text[common.len() as int] == rest.first());
        }
    }
    let length = overlap(previous, text);
    assert(length >= common.len());
    assert(text.skip(length as int) =~= rest.skip(length - common.len()));
}

/// A text that starts with no end of the text before is kept whole, whatever
/// else the two have in common.
pub proof fn law_text_that_continues_nothing_is_kept(previous: Seq<char>, text: Seq<char>)
    requires
        forall|length: int|
            0 < length <= text.len() && length <= previous.len() ==> #[trigger] text.take(length)
                != previous.skip(previous.len() - length),
    ensures
        without_overlap(previous, text) == text,
{
    law_only_the_end_of_the_text_before_is_dropped(previous, text);
    let rest = without_overlap(previous, text);
    let dropped = text.len() - rest.len();
    if dropped > 0 {
        assert(text.take(dropped) == previous.skip(previous.len() - dropped));
    } else {
        assert(text.take(0) + rest =~= rest);
    }
}

/// Texts are ordered by the first characters in which they differ, and a text
/// comes before every longer one that starts with it.
pub proof fn law_texts_are_in_dictionary_order(
    common: Seq<char>,
    left: Seq<char>,
    right: Seq<char>,
)
    ensures
        precedes(common, common + right) <==> right.len() > 0,
        !precedes(common + left, common),
        left.len() > 0 && right.len() > 0 && left.first() != right.first() ==> (precedes(
            common + left,
            common + right,
        ) <==> (left.first() as int) < (right.first() as int)),
    decreases common.len(),
{
    if common.len() > 0 {
        let tail = common.drop_first();
        law_texts_are_in_dictionary_order(tail, left, right);
        assert((common + left).drop_first() =~= tail + left);
        assert((common + right).drop_first() =~= tail + right);
        assert((common + left).first() == common.first());
        assert((common + right).first() == common.first());
    } else {
        assert(common + left =~= left);
        assert(common + right =~= right);
    }
}

/// Only slashes and backslashes are taken off the start of a text, and all of
/// them are.
pub proof fn law_only_leading_separators_are_dropped(text: Seq<char>)
    ensures
        without_leading_separators(text).len() <= text.len(),
        without_leading_separators(text) == text.skip(
            text.len() - without_leading_separators(text).len(),
        ),
        forall|i: int|
            0 <= i < text.len() - without_leading_separators(text).len() ==> #[trigger] text[i]
                == '/' || text[i] == '\\',
        without_leading_separators(text).len() > 0 ==> without_leading_separators(text).first()
            != '/' && without_leading_separators(text).first() != '\\',
    decreases text.len(),
{
    if text.len() > 0 && (text.first() == '\\' || text.first() == '/') {
        let tail = text.drop_first();
        law_only_leading_separators_are_dropped(tail);
        let rest = without_leading_separators(tail);
        assert(tail.skip(tail.len() - rest.len()) =~= text.skip(text.len() - rest.len()));
        assert forall|i: int| 0 <= i < text.len() - rest.len() implies #[trigger] text[i] == '/'
            || text[i] == '\\' by {
            if i > 0 {
                assert(tail[i - 1] == text[i]);
            }
        }
    } else {
        assert(text.skip(0) =~= text);
    }
}

/// Bytes end with exactly those bytes behind which nothing else comes.
pub proof fn law_ends_are_what_stands_last(start: Seq<u8>, end: Seq<u8>, text: Seq<u8>)
    ensures
        ends_with_bytes(start + end, end),
        ends_with_bytes(text, end) ==> end.len() <= text.len() && text == text.take(
            text.len() - end.len(),
        ) + end,
{
    assert((start + end).skip(start.len() as int) =~= end);
    if ends_with_bytes(text, end) {
        assert(text =~= text.take(text.len() - end.len()) + text.skip(text.len() - end.len()));
    }
}

} // verus!
