//! Strings as JSON writes them.
use crate::checksum::{hex_digit, hex_digit_text};
use vstd::prelude::*;
use vstd::string::*;

verus! {

/// What stands for `c` in a JSON string: a quotation mark and a backslash get a
/// backslash in front, a control character is written by its number, and any
/// other character stands for itself.
pub open spec fn escaped_char(c: char) -> Seq<char> {
    if c == '"' || c == '\\' {
        seq!['\\', c]
    } else if ' ' > c {
        seq!['\\', 'u', '0', '0', hex_digit(c as int / 16), hex_digit(c as int % 16)]
    } else {
        seq![c]
    }
}

/// What stands for `text` between the quotation marks of a JSON string.
pub open spec fn escaped(text: Seq<char>) -> Seq<char>
    decreases text.len(),
{
    if text.len() == 0 {
        Seq::empty()
    } else {
        escaped(text.drop_last()) + escaped_char(text.last())
    }
}

/// The value of a lower-case hexadecimal digit.
pub open spec fn hex_value(c: char) -> Option<int> {
    if '0' <= c <= '9' {
        Some(c as int - '0' as int)
    } else if 'a' <= c <= 'f' {
        Some(c as int - 'a' as int + 10)
    } else {
        None
    }
}

/// The text that is written as `string` between the quotation marks of a JSON
/// string; nothing, if a quotation mark or a control character stands there as
/// it is, or a backslash with something else behind it than is written above.
pub open spec fn unescaped(string: Seq<char>) -> Option<Seq<char>>
    decreases string.len(),
{
    if string.len() == 0 {
        Some(Seq::empty())
    } else if string[0] == '"' || ' ' > string[0] {
        None
    } else if string[0] != '\\' {
        match unescaped(string.skip(1)) {
            Some(rest) => Some(seq![string[0]] + rest),
            None => None,
        }
    } else if string.len() >= 2 && (string[1] == '"' || string[1] == '\\') {
        match unescaped(string.skip(2)) {
            Some(rest) => Some(seq![string[1]] + rest),
            None => None,
        }
    } else if string.len() >= 6 && string[1] == 'u' && string[2] == '0' && string[3] == '0' {
        match (hex_value(string[4]), hex_value(string[5]), unescaped(string.skip(6))) {
            (Some(high), Some(low), Some(rest)) => Some(seq![(16 * high + low) as char] + rest),
            _ => None,
        }
    } else {
        None
    }
}

proof fn lemma_code_is_natural(c: char)
    ensures
        0 <= c as int,
{
}

proof fn lemma_escaped_front(text: Seq<char>)
    requires
        text.len() > 0,
    ensures
        escaped(text) == escaped_char(text.first()) + escaped(text.drop_first()),
    decreases text.len(),
{
    if text.len() == 1 {
        assert(text.drop_last() =~= Seq::empty());
        assert(text.drop_first() =~= Seq::empty());
        assert(escaped(text) =~= escaped_char(text.first()) + escaped(text.drop_first()));
    } else {
        lemma_escaped_front(text.drop_last());
        assert(text.drop_last().drop_first() =~= text.drop_first().drop_last());
        assert(escaped(text) =~= escaped_char(text.first()) + escaped(text.drop_first()));
    }
}

/// A text that is written as a JSON string is read back as it was.
pub proof fn law_json_strings_are_read_back(text: Seq<char>)
    ensures
        unescaped(escaped(text)) == Some(text),
    decreases text.len(),
{
    if text.len() > 0 {
        let c = text.first();
        let tail = escaped(text.drop_first());
        lemma_escaped_front(text);
        law_json_strings_are_read_back(text.drop_first());
        let string = escaped(text);
        if c == '"' || c == '\\' {
            assert(string.skip(2) =~= tail);
        } else if ' ' > c {
            assert(string.skip(6) =~= tail);
            let code = c as int;
            lemma_code_is_natural(c);
            assert(code < 32);
            assert(code / 16 == 0 || code / 16 == 1);
            assert(hex_value(string[4]) == Some(c as int / 16));
            assert(hex_value(string[5]) == Some(c as int % 16));
            assert(16 * (c as int / 16) + c as int % 16 == c as int);
        } else {
            assert(string.skip(1) =~= tail);
        }
        assert(seq![c] + text.drop_first() =~= text);
    }
}

/// A JSON string stands on one line: it holds no control character.
pub proof fn law_json_strings_stand_on_one_line(text: Seq<char>)
    ensures
        forall|i: int| 0 <= i < escaped(text).len() ==> (#[trigger] escaped(text)[i]) >= ' ',
    decreases text.len(),
{
    if text.len() > 0 {
        law_json_strings_stand_on_one_line(text.drop_last());
        let front = escaped(text.drop_last());
        let end = escaped_char(text.last());
        assert forall|i: int| 0 <= i < escaped(text).len() implies (#[trigger] escaped(
            text,
        )[i]) >= ' ' by {
            if i < front.len() {
                assert(escaped(text)[i] == front[i]);
            } else {
                assert(escaped(text)[i] == end[i - front.len()]);
                let c = text.last() as int;
                lemma_code_is_natural(text.last());
                assert(' ' > text.last() ==> c / 16 < 2);
                assert(0 <= c % 16 < 16);
            }
        }
    }
}

/// Writes `text` as it stands in a JSON string.
pub fn escape(text: &str) -> (string: String)
    ensures
        string@ == escaped(text@),
{
    proof {
        reveal_strlit("\\\"");
        reveal_strlit("\\\\");
        reveal_strlit("\\u00");
    }
    let mut string = String::new();
    let length: usize = text.unicode_len();
    let mut next: usize = 0;
    while next < length
        invariant
            next <= length,
            length == text@.len(),
            string@ == escaped(text@.take(next as int)),
            "\\\""@ == seq!['\\', '"'],
            "\\\\"@ == seq!['\\', '\\'],
            "\\u00"@ == seq!['\\', 'u', '0', '0'],
        decreases length - next,
    {
        let c = text.get_char(next);
        let ghost before = string@;
        if c == '"' {
            string.append("\\\"");
        } else if c == '\\' {
            string.append("\\\\");
        } else if ' ' > c {
            let code: u8 = c as u8;
            string.append("\\u00");
            string.append(hex_digit_text(code / 16));
            string.append(hex_digit_text(code % 16));
        } else {
            string.append(text.substring_char(next, next + 1));
        }
        assert(string@ =~= before + escaped_char(c));
        next = next + 1;
        proof {
            let taken = text@.take(next as int);
            assert(taken.drop_last() =~= text@.take(next - 1));
            assert(taken.last() == c);
        }
    }
    assert(text@.take(next as int) =~= text@);
    string
}

/// A character more is written behind what stands for the others. A quotation
/// mark and a backslash are written with a backslash in front, a control
/// character by two digits of its number in base sixteen, and every other
/// character as it is.
pub proof fn law_json_strings_are_written_character_by_character(text: Seq<char>, c: char)
    ensures
        escaped(Seq::empty()).len() == 0,
        c as int == 34 || c as int == 92 ==> escaped(text.push(c)) == escaped(text) + seq!['\\', c],
        c as int >= 32 && c as int != 34 && c as int != 92 ==> escaped(text.push(c)) == escaped(
            text,
        ) + seq![c],
        (c as int) < 32 ==> {
            let written = escaped(text.push(c)).skip(escaped(text).len() as int);
            let last = c as int % 16;
            &&& escaped(text).is_prefix_of(escaped(text.push(c)))
            &&& written.len() == 6
            &&& written.take(4) == seq!['\\', 'u', '0', '0']
            &&& written[4] as int == 48 + c as int / 16
            &&& written[5] as int == if last < 10 {
                48 + last
            } else {
                87 + last
            }
        },
{
    assert(text.push(c).drop_last() =~= text);
    lemma_code_is_natural(c);
    if (c as int) < 32 {
        let whole = escaped(text.push(c));
        assert(whole == escaped(text) + escaped_char(c));
        assert(whole.skip(escaped(text).len() as int) =~= escaped_char(c));
        assert(escaped_char(c).take(4) =~= seq!['\\', 'u', '0', '0']);
        assert(0 <= c as int / 16 < 2);
    }
}

} // verus!
