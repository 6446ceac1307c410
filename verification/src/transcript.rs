//! The lines of a transcript, and how they are laid out in each format.
use crate::error::AppError;
use crate::json::{escape, escaped, law_json_strings_stand_on_one_line};
use crate::settings::TranscriptFormat;
use crate::text::{
    comes_before, decimal, decimal_text, ends_with, ends_with_bytes, flatten_lines, joined,
    lemma_decimal_has_no_line_feeds, lemma_line_feeds_add_up, lemma_no_line_feeds, line_feeds,
    on_one_line, precedes, same_text, two_digit_text, two_digits,
};
use vstd::prelude::*;
use vstd::string::*;
use vstd::utf8::*;

verus! {

/// One line of a transcript.
#[derive(Debug)]
pub struct TranscriptLine {
    pub timestamp: String,
    pub text: String,
}

/// What a `TranscriptLine` says.
#[verifier::ext_equal]
pub struct LineText {
    pub timestamp: Seq<char>,
    pub text: Seq<char>,
}

impl View for TranscriptLine {
    type V = LineText;

    open spec fn view(&self) -> LineText {
        LineText { timestamp: self.timestamp@, text: self.text@ }
    }
}

impl Clone for TranscriptLine {
    fn clone(&self) -> (copy: TranscriptLine)
        ensures
            copy@ == self@,
    {
        TranscriptLine { timestamp: self.timestamp.clone(), text: self.text.clone() }
    }
}

/// What each of `lines` says.
pub open spec fn transcript_lines(lines: Seq<TranscriptLine>) -> Seq<LineText> {
    lines.map_values(|line: TranscriptLine| line@)
}

/// What stands before the lines of a transcript.
pub open spec fn heading(format: TranscriptFormat) -> Seq<char> {
    match format {
        TranscriptFormat::Md => "# Transcript\n\n"@,
        TranscriptFormat::Json => "[\n"@,
        _ => ""@,
    }
}

/// What stands behind the lines of a transcript.
pub open spec fn ending(format: TranscriptFormat) -> Seq<char> {
    match format {
        TranscriptFormat::Json => "\n]\n"@,
        _ => ""@,
    }
}

/// A line as a JSON object.
pub open spec fn object(line: LineText) -> Seq<char> {
    "{\"timestamp\":\""@ + escaped(line.timestamp) + "\",\"text\":\""@ + escaped(line.text)
        + "\"}"@
}

/// How many hours have gone by at the last of `lines`. The time of a line is
/// counted within the hour, so an hour has gone by wherever a line's time falls
/// behind that of the line before it.
pub open spec fn hours(lines: Seq<LineText>) -> nat
    decreases lines.len(),
{
    if lines.len() < 2 {
        0
    } else {
        hours(lines.drop_last()) + (if precedes(
            lines.last().timestamp,
            lines[lines.len() - 2].timestamp,
        ) {
            1nat
        } else {
            0nat
        })
    }
}

/// The time of the last of `lines`, with its hour; the start, if there is none.
pub open spec fn time_of_last(lines: Seq<LineText>) -> Seq<char> {
    if lines.len() == 0 {
        "00:00:00"@
    } else {
        two_digit_text(hours(lines)) + ":"@ + on_one_line(lines.last().timestamp)
    }
}

/// A subtitle: its number, its time and its text, each on a line of its own,
/// and an empty line. The time of a line is when it was recognized, so its
/// speech lies between the line before and itself.
pub open spec fn cue(before: Seq<LineText>, line: LineText) -> Seq<char> {
    decimal_text(before.len() + 1) + "\n"@ + time_of_last(before) + ",000 --> "@ + time_of_last(
        before.push(line),
    ) + ",000\n"@ + on_one_line(line.text) + "\n\n"@
}

/// No subtitle runs backwards: it ends in a later hour than it starts, or in
/// the same hour and not before.
pub proof fn law_subtitles_run_forwards(before: Seq<LineText>, line: LineText)
    requires
        before.len() > 0,
    ensures
        hours(before.push(line)) >= hours(before),
        hours(before.push(line)) == hours(before) ==> !precedes(
            line.timestamp,
            before.last().timestamp,
        ),
{
    assert(before.push(line).drop_last() =~= before);
    assert(before.push(line)[before.len() - 1] == before.last());
}

/// What a line of a transcript is written as, behind the lines `before`.
pub open spec fn entry(format: TranscriptFormat, before: Seq<LineText>, line: LineText) -> Seq<
    char,
> {
    match format {
        TranscriptFormat::Md => "- ["@ + line.timestamp + "] "@ + line.text + "\n"@,
        TranscriptFormat::Txt => "["@ + line.timestamp + "] "@ + line.text + "\n"@,
        TranscriptFormat::Srt => cue(before, line),
        TranscriptFormat::Jsonl => object(line) + "\n"@,
        TranscriptFormat::Json => if before.len() == 0 {
            object(line)
        } else {
            ",\n"@ + object(line)
        },
    }
}

/// What the lines of a transcript are written as.
pub open spec fn entries(format: TranscriptFormat, lines: Seq<LineText>) -> Seq<char>
    decreases lines.len(),
{
    if lines.len() == 0 {
        Seq::empty()
    } else {
        entries(format, lines.drop_last()) + entry(format, lines.drop_last(), lines.last())
    }
}

/// The whole text of a transcript with these lines.
pub open spec fn document(format: TranscriptFormat, lines: Seq<LineText>) -> Seq<char> {
    heading(format) + entries(format, lines) + ending(format)
}

/// True if a line can be added to a transcript by writing it behind the file.
pub open spec fn grows_at_its_end(format: TranscriptFormat) -> bool {
    format != TranscriptFormat::Json
}

/// A transcript whose format lets it grow at its end does: with one line more,
/// its text is what it was followed by that line, so writing the line behind
/// the file leaves the same as writing the file anew.
pub proof fn law_document_grows_at_its_end(
    format: TranscriptFormat,
    lines: Seq<LineText>,
    line: LineText,
)
    requires
        grows_at_its_end(format),
    ensures
        document(format, lines.push(line)) == document(format, lines) + entry(format, lines, line),
{
    reveal_strlit("");
    assert(lines.push(line).drop_last() =~= lines);
    assert(document(format, lines.push(line)) =~= document(format, lines) + entry(
        format,
        lines,
        line,
    ));
}

/// The lines as JSON objects.
pub open spec fn objects(lines: Seq<LineText>) -> Seq<Seq<char>> {
    lines.map_values(|line: LineText| object(line))
}

/// A transcript in JSON is one array, of one object for each line in order.
pub proof fn law_json_is_one_array(lines: Seq<LineText>)
    ensures
        document(TranscriptFormat::Json, lines) == "[\n"@ + joined(objects(lines), ",\n"@)
            + "\n]\n"@,
        objects(lines).len() == lines.len(),
{
    lemma_json_entries(lines);
}

proof fn lemma_json_entries(lines: Seq<LineText>)
    ensures
        entries(TranscriptFormat::Json, lines) == joined(objects(lines), ",\n"@),
    decreases lines.len(),
{
    if lines.len() > 0 {
        lemma_json_entries(lines.drop_last());
        assert(objects(lines).drop_last() =~= objects(lines.drop_last()));
        assert(objects(lines).last() == object(lines.last()));
        assert(entries(TranscriptFormat::Json, lines) =~= joined(objects(lines), ",\n"@));
    }
}

proof fn lemma_object_stands_on_one_line(line: LineText)
    ensures
        line_feeds(object(line)) == 0,
{
    reveal_strlit("{\"timestamp\":\"");
    reveal_strlit("\",\"text\":\"");
    reveal_strlit("\"}");
    law_json_strings_stand_on_one_line(line.timestamp);
    law_json_strings_stand_on_one_line(line.text);
    let first = "{\"timestamp\":\""@;
    let second = first + escaped(line.timestamp);
    let third = second + "\",\"text\":\""@;
    let fourth = third + escaped(line.text);
    lemma_no_line_feeds(first);
    lemma_no_line_feeds(escaped(line.timestamp));
    lemma_no_line_feeds("\",\"text\":\""@);
    lemma_no_line_feeds(escaped(line.text));
    lemma_no_line_feeds("\"}"@);
    lemma_line_feeds_add_up(first, escaped(line.timestamp));
    lemma_line_feeds_add_up(second, "\",\"text\":\""@);
    lemma_line_feeds_add_up(third, escaped(line.text));
    lemma_line_feeds_add_up(fourth, "\"}"@);
}

/// A transcript in JSON Lines has as many lines as there are, and each is the
/// object of its line.
pub proof fn law_json_lines_has_one_object_per_line(lines: Seq<LineText>)
    ensures
        line_feeds(document(TranscriptFormat::Jsonl, lines)) == lines.len(),
        lines.len() > 0 ==> document(TranscriptFormat::Jsonl, lines) == document(
            TranscriptFormat::Jsonl,
            lines.drop_last(),
        ) + object(lines.last()) + "\n"@ && line_feeds(object(lines.last())) == 0,
    decreases lines.len(),
{
    reveal_strlit("");
    reveal_strlit("\n");
    reveal_with_fuel(line_feeds, 2);
    if lines.len() == 0 {
        assert(document(TranscriptFormat::Jsonl, lines) =~= Seq::empty());
    } else {
        let front = document(TranscriptFormat::Jsonl, lines.drop_last());
        law_json_lines_has_one_object_per_line(lines.drop_last());
        law_document_grows_at_its_end(TranscriptFormat::Jsonl, lines.drop_last(), lines.last());
        assert(lines.drop_last().push(lines.last()) =~= lines);
        lemma_object_stands_on_one_line(lines.last());
        assert(document(TranscriptFormat::Jsonl, lines) =~= front + object(lines.last()) + "\n"@);
        lemma_line_feeds_add_up(front, object(lines.last()));
        lemma_line_feeds_add_up(front + object(lines.last()), "\n"@);
        assert("\n"@.drop_last() =~= Seq::empty());
    }
}

proof fn lemma_flat_text_has_no_line_feeds(text: Seq<char>)
    ensures
        line_feeds(on_one_line(text)) == 0,
{
    lemma_no_line_feeds(on_one_line(text));
}

proof fn lemma_time_has_no_line_feeds(lines: Seq<LineText>)
    ensures
        line_feeds(time_of_last(lines)) == 0,
{
    reveal_strlit("00:00:00");
    reveal_strlit(":");
    if lines.len() == 0 {
        lemma_no_line_feeds("00:00:00"@);
    } else {
        let hour = two_digit_text(hours(lines));
        lemma_decimal_has_no_line_feeds(hours(lines));
        lemma_no_line_feeds(seq!['0']);
        lemma_line_feeds_add_up(seq!['0'], decimal_text(hours(lines)));
        lemma_no_line_feeds(":"@);
        lemma_flat_text_has_no_line_feeds(lines.last().timestamp);
        lemma_line_feeds_add_up(hour, ":"@);
        lemma_line_feeds_add_up(hour + ":"@, on_one_line(lines.last().timestamp));
    }
}

proof fn lemma_cue_has_four_lines(before: Seq<LineText>, line: LineText)
    ensures
        line_feeds(cue(before, line)) == 4,
{
    reveal_strlit("\n");
    reveal_strlit(",000 --> ");
    reveal_strlit(",000\n");
    reveal_strlit("\n\n");
    reveal_with_fuel(line_feeds, 2);
    let number = decimal_text(before.len() + 1);
    let start = time_of_last(before);
    let end = time_of_last(before.push(line));
    let text = on_one_line(line.text);
    lemma_decimal_has_no_line_feeds(before.len() + 1);
    lemma_time_has_no_line_feeds(before);
    lemma_time_has_no_line_feeds(before.push(line));
    lemma_flat_text_has_no_line_feeds(line.text);
    lemma_no_line_feeds(",000 --> "@);
    assert("\n"@.drop_last() =~= Seq::empty());
    assert(line_feeds("\n"@) == 1);
    assert(",000\n"@ =~= seq![',', '0', '0', '0'] + "\n"@);
    lemma_line_feeds_add_up(seq![',', '0', '0', '0'], "\n"@);
    lemma_no_line_feeds(seq![',', '0', '0', '0']);
    assert("\n\n"@ =~= "\n"@ + "\n"@);
    lemma_line_feeds_add_up("\n"@, "\n"@);
    let a = number + "\n"@;
    let b = a + start;
    let c = b + ",000 --> "@;
    let d = c + end;
    let e = d + ",000\n"@;
    let f = e + text;
    lemma_line_feeds_add_up(number, "\n"@);
    lemma_line_feeds_add_up(a, start);
    lemma_line_feeds_add_up(b, ",000 --> "@);
    lemma_line_feeds_add_up(c, end);
    lemma_line_feeds_add_up(d, ",000\n"@);
    lemma_line_feeds_add_up(e, text);
    lemma_line_feeds_add_up(f, "\n\n"@);
}

/// A transcript of subtitles has one cue for each line, which is numbered from
/// one on and stands on four lines.
pub proof fn law_subtitles_have_one_cue_per_line(lines: Seq<LineText>)
    ensures
        line_feeds(document(TranscriptFormat::Srt, lines)) == 4 * lines.len(),
        lines.len() > 0 ==> document(TranscriptFormat::Srt, lines) == document(
            TranscriptFormat::Srt,
            lines.drop_last(),
        ) + cue(lines.drop_last(), lines.last()),
    decreases lines.len(),
{
    reveal_strlit("");
    reveal_with_fuel(line_feeds, 2);
    if lines.len() == 0 {
        assert(document(TranscriptFormat::Srt, lines) =~= Seq::empty());
    } else {
        let front = document(TranscriptFormat::Srt, lines.drop_last());
        law_subtitles_have_one_cue_per_line(lines.drop_last());
        law_document_grows_at_its_end(TranscriptFormat::Srt, lines.drop_last(), lines.last());
        assert(lines.drop_last().push(lines.last()) =~= lines);
        lemma_cue_has_four_lines(lines.drop_last(), lines.last());
        lemma_line_feeds_add_up(front, cue(lines.drop_last(), lines.last()));
    }
}

fn append_object(text: &mut String, line: &TranscriptLine)
    ensures
        final(text)@ == old(text)@ + object(line@),
{
    text.append("{\"timestamp\":\"");
    text.append(escape(line.timestamp.as_str()).as_str());
    text.append("\",\"text\":\"");
    text.append(escape(line.text.as_str()).as_str());
    text.append("\"}");
    assert(text@ =~= old(text)@ + object(line@));
}

fn count_hours(lines: &Vec<TranscriptLine>, count: usize) -> (passed: u64)
    requires
        count <= lines@.len(),
    ensures
        passed == hours(transcript_lines(lines@).take(count as int)),
{
    let mut passed: u64 = 0;
    let mut next: usize = 1;
    if count < 2 {
        return 0;
    }
    while next < count
        invariant
            1 <= next <= count <= lines@.len(),
            passed == hours(transcript_lines(lines@).take(next as int)),
            passed < next,
        decreases count - next,
    {
        let ghost seen = transcript_lines(lines@).take(next + 1);
        assert(seen.drop_last() =~= transcript_lines(lines@).take(next as int));
        assert(seen.last() == lines@[next as int]@);
        assert(seen[next - 1] == lines@[next - 1]@);
        if comes_before(lines[next].timestamp.as_str(), lines[next - 1].timestamp.as_str()) {
            passed = passed + 1;
        }
        next = next + 1;
    }
    passed
}

fn append_time(text: &mut String, lines: &Vec<TranscriptLine>, count: usize)
    requires
        count <= lines@.len(),
    ensures
        final(text)@ == old(text)@ + time_of_last(transcript_lines(lines@).take(count as int)),
{
    let ghost seen = transcript_lines(lines@).take(count as int);
    if count == 0 {
        text.append("00:00:00");
    } else {
        assert(seen.last() == lines@[count - 1]@);
        text.append(two_digits(count_hours(lines, count)).as_str());
        text.append(":");
        text.append(flatten_lines(lines[count - 1].timestamp.as_str()).as_str());
    }
    assert(text@ =~= old(text)@ + time_of_last(seen));
}

fn append_cue(text: &mut String, lines: &Vec<TranscriptLine>, index: usize)
    requires
        index < lines@.len(),
    ensures
        final(text)@ == old(text)@ + cue(
            transcript_lines(lines@).take(index as int),
            lines@[index as int]@,
        ),
{
    let ghost before = transcript_lines(lines@).take(index as int);
    assert(transcript_lines(lines@).take(index + 1) =~= before.push(lines@[index as int]@));
    assert(lines.len() <= usize::MAX);
    let number: usize = index + 1;
    text.append(decimal(number as u64).as_str());
    text.append("\n");
    append_time(text, lines, index);
    text.append(",000 --> ");
    append_time(text, lines, number);
    text.append(",000\n");
    text.append(flatten_lines(lines[index].text.as_str()).as_str());
    text.append("\n\n");
    assert(text@ =~= old(text)@ + cue(before, lines@[index as int]@));
}

/// Writes the line at `index` behind `text`.
pub(crate) fn append_entry(
    text: &mut String,
    format: TranscriptFormat,
    lines: &Vec<TranscriptLine>,
    index: usize,
)
    requires
        index < lines@.len(),
    ensures
        final(text)@ == old(text)@ + entry(
            format,
            transcript_lines(lines@).take(index as int),
            lines@[index as int]@,
        ),
{
    match format {
        TranscriptFormat::Md | TranscriptFormat::Txt => {
            match format {
                TranscriptFormat::Md => text.append("- ["),
                _ => text.append("["),
            }
            text.append(lines[index].timestamp.as_str());
            text.append("] ");
            text.append(lines[index].text.as_str());
            text.append("\n");
        },
        TranscriptFormat::Srt => append_cue(text, lines, index),
        TranscriptFormat::Jsonl => {
            append_object(text, &lines[index]);
            text.append("\n");
        },
        TranscriptFormat::Json => {
            if index > 0 {
                text.append(",\n");
            }
            append_object(text, &lines[index]);
        },
    }
    assert(text@ =~= old(text)@ + entry(
        format,
        transcript_lines(lines@).take(index as int),
        lines@[index as int]@,
    ));
}

/// Writes the whole text of a transcript.
pub fn write_transcript(format: TranscriptFormat, lines: &Vec<TranscriptLine>) -> (text: Result<
    String,
    AppError,
>)
    ensures
        text matches Ok(text) && text@ == document(format, transcript_lines(lines@)),
{
    Ok(document_text(format, lines))
}

/// Writes the whole text of a transcript.
pub(crate) fn document_text(format: TranscriptFormat, lines: &Vec<TranscriptLine>) -> (text: String)
    ensures
        text@ == document(format, transcript_lines(lines@)),
{
    let mut text = String::from_str(
        match format {
            TranscriptFormat::Md => "# Transcript\n\n",
            TranscriptFormat::Json => "[\n",
            _ => "",
        },
    );
    let mut next: usize = 0;
    assert(text@ =~= heading(format) + entries(format, transcript_lines(lines@).take(0)));
    while next < lines.len()
        invariant
            next <= lines@.len(),
            text@ == heading(format) + entries(format, transcript_lines(lines@).take(next as int)),
        decreases lines@.len() - next,
    {
        append_entry(&mut text, format, lines, next);
        next = next + 1;
        proof {
            let taken = transcript_lines(lines@).take(next as int);
            assert(taken.drop_last() =~= transcript_lines(lines@).take(next - 1));
            assert(taken.last() == lines@[next - 1]@);
            assert(text@ =~= heading(format) + entries(format, taken));
        }
    }
    assert(transcript_lines(lines@).take(next as int) =~= transcript_lines(lines@));
    text.append(
        match format {
            TranscriptFormat::Json => "\n]\n",
            _ => "",
        },
    );
    text
}

/// True if `current` only repeats `previous`: it is the same, or both are
/// longer than eight bytes and `previous` ends with it.
pub open spec fn repeats(previous: Seq<char>, current: Seq<char>) -> bool {
    ||| previous == current
    ||| {
        &&& encode_utf8(previous).len() > 8
        &&& encode_utf8(current).len() > 8
        &&& ends_with_bytes(encode_utf8(previous), encode_utf8(current))
    }
}

/// True if `current` only repeats what was recognized before it.
pub fn is_duplicate(previous: &str, current: &str) -> (answer: bool)
    ensures
        answer == repeats(previous@, current@),
{
    if same_text(previous, current) {
        return true;
    }
    previous.as_bytes().len() > 8 && current.as_bytes().len() > 8 && ends_with(previous, current)
}

/// The minutes and seconds of a time, the minutes counted within the hour.
pub open spec fn elapsed_text(seconds: nat) -> Seq<char> {
    two_digit_text((seconds / 60) % 60) + ":"@ + two_digit_text(seconds % 60)
}

/// Writes the minutes and seconds that have passed.
pub fn format_elapsed(seconds: u64) -> (text: String)
    ensures
        text@ == elapsed_text(seconds as nat),
{
    let mut text = two_digits((seconds / 60) % 60);
    text.append(":");
    text.append(two_digits(seconds % 60).as_str());
    text
}

/// The lines of a transcript are all there, each with all that it says.
pub proof fn law_lines_say_all_they_hold(lines: Seq<TranscriptLine>)
    ensures
        transcript_lines(lines).len() == lines.len(),
        forall|i: int|
            0 <= i < lines.len() ==> (#[trigger] transcript_lines(lines)[i]).timestamp
                == lines[i].timestamp@ && transcript_lines(lines)[i].text == lines[i].text@,
{
}

/// A transcript in Markdown is a heading and then, for each line in order, a
/// list item with the whole time and the whole text of the line.
pub proof fn law_markdown_holds_every_line(lines: Seq<LineText>, line: LineText)
    ensures
        document(TranscriptFormat::Md, Seq::empty()) == "# Transcript\n\n"@,
        document(TranscriptFormat::Md, lines.push(line)) == document(TranscriptFormat::Md, lines)
            + "- ["@ + line.timestamp + "] "@ + line.text + "\n"@,
{
    reveal_strlit("");
    assert(document(TranscriptFormat::Md, Seq::empty()) =~= "# Transcript\n\n"@);
    law_document_grows_at_its_end(TranscriptFormat::Md, lines, line);
    assert(document(TranscriptFormat::Md, lines.push(line)) =~= document(
        TranscriptFormat::Md,
        lines,
    ) + "- ["@ + line.timestamp + "] "@ + line.text + "\n"@);
}

/// A transcript in plain text is, for each line in order, the whole time in
/// brackets and the whole text of the line, and nothing else.
pub proof fn law_plain_text_holds_every_line(lines: Seq<LineText>, line: LineText)
    ensures
        document(TranscriptFormat::Txt, Seq::empty()).len() == 0,
        document(TranscriptFormat::Txt, lines.push(line)) == document(TranscriptFormat::Txt, lines)
            + "["@ + line.timestamp + "] "@ + line.text + "\n"@,
{
    reveal_strlit("");
    law_document_grows_at_its_end(TranscriptFormat::Txt, lines, line);
    assert(document(TranscriptFormat::Txt, lines.push(line)) =~= document(
        TranscriptFormat::Txt,
        lines,
    ) + "["@ + line.timestamp + "] "@ + line.text + "\n"@);
}

/// A transcript in JSON Lines is, for each line in order, an object with the
/// whole time and the whole text of the line, each as a JSON string.
pub proof fn law_json_lines_hold_every_line(lines: Seq<LineText>, line: LineText)
    ensures
        document(TranscriptFormat::Jsonl, Seq::empty()).len() == 0,
        document(TranscriptFormat::Jsonl, lines.push(line)) == document(
            TranscriptFormat::Jsonl,
            lines,
        ) + (("{\"timestamp\":\""@ + escaped(line.timestamp) + "\",\"text\":\""@ + escaped(
            line.text,
        ) + "\"}"@) + "\n"@),
{
    reveal_strlit("");
    law_document_grows_at_its_end(TranscriptFormat::Jsonl, lines, line);
}

/// A transcript in JSON is an array with an object for each line in order, which
/// holds the whole time and the whole text of the line, each as a JSON string: a
/// further line is put before the bracket that closes the array.
pub proof fn law_json_holds_every_line(lines: Seq<LineText>, line: LineText)
    ensures
        document(TranscriptFormat::Json, Seq::empty()) == "[\n"@ + "\n]\n"@,
        ({
            let before = document(TranscriptFormat::Json, lines);
            let item = "{\"timestamp\":\""@ + escaped(line.timestamp) + "\",\"text\":\""@
                + escaped(line.text) + "\"}"@;
            &&& before.len() >= 3
            &&& lines.len() == 0 ==> document(TranscriptFormat::Json, lines.push(line))
                == before.take(before.len() - 3) + item + "\n]\n"@
            &&& lines.len() > 0 ==> document(TranscriptFormat::Json, lines.push(line))
                == before.take(before.len() - 3) + (",\n"@ + item) + "\n]\n"@
        }),
{
    reveal_strlit("\n]\n");
    let before = document(TranscriptFormat::Json, lines);
    let front = "[\n"@ + entries(TranscriptFormat::Json, lines);
    let item = entry(TranscriptFormat::Json, lines, line);
    assert(lines.push(line).drop_last() =~= lines);
    assert("[\n"@ + Seq::empty() =~= "[\n"@);
    assert(before.take(before.len() - 3) =~= front);
    assert("[\n"@ + (entries(TranscriptFormat::Json, lines) + item) =~= front + item);
}

/// An hour is counted wherever the time of a line falls behind that of the line
/// before, and nowhere else.
pub proof fn law_hours_are_counted(lines: Seq<LineText>, line: LineText)
    ensures
        hours(Seq::empty()) == 0,
        hours(seq![line]) == 0,
        lines.len() > 0 && precedes(line.timestamp, lines.last().timestamp) ==> hours(
            lines.push(line),
        ) == hours(lines) + 1,
        lines.len() > 0 && !precedes(line.timestamp, lines.last().timestamp) ==> hours(
            lines.push(line),
        ) == hours(lines),
{
    assert(lines.push(line).drop_last() =~= lines);
    if lines.len() > 0 {
        assert(lines.push(line)[lines.len() - 1] == lines.last());
    }
}

/// A transcript of subtitles has a cue for each line in order: its number, from
/// one on; the time from the line before, or from the start, to the line itself,
/// with the hours that have gone by; and the whole text on one line.
pub proof fn law_subtitles_hold_every_line(lines: Seq<LineText>, line: LineText)
    ensures
        document(TranscriptFormat::Srt, Seq::empty()).len() == 0,
        ({
            let start = if lines.len() == 0 {
                "00:00:00"@
            } else {
                two_digit_text(hours(lines)) + ":"@ + on_one_line(lines.last().timestamp)
            };
            let end = two_digit_text(hours(lines.push(line))) + ":"@ + on_one_line(line.timestamp);
            document(TranscriptFormat::Srt, lines.push(line)) == document(
                TranscriptFormat::Srt,
                lines,
            ) + (decimal_text(lines.len() + 1) + "\n"@ + start + ",000 --> "@ + end + ",000\n"@
                + on_one_line(line.text) + "\n\n"@)
        }),
{
    reveal_strlit("");
    law_document_grows_at_its_end(TranscriptFormat::Srt, lines, line);
    assert(lines.push(line).last() == line);
}

/// A text repeats another if the two are the same, or if it is longer than eight
/// bytes and the other ends with it; in no other case.
pub proof fn law_only_ends_are_repetitions(previous: Seq<char>, current: Seq<char>)
    ensures
        repeats(current, current),
        previous != current ==> (repeats(previous, current) <==> encode_utf8(current).len() > 8
            && encode_utf8(current).is_suffix_of(encode_utf8(previous))),
{
    let whole = encode_utf8(previous);
    let end = encode_utf8(current);
    if end.len() <= whole.len() {
        assert(whole.skip(whole.len() - end.len()) =~= whole.subrange(
            whole.len() - end.len(),
            whole.len() as int,
        ));
    }
}

/// The time of a line shows its minutes and seconds, two digits each, whatever
/// the hour.
pub proof fn law_elapsed_time_shows_minutes_and_seconds(hour: nat, minute: nat, second: nat)
    requires
        minute < 60,
        second < 60,
    ensures
        elapsed_text(3600 * hour + 60 * minute + second) == two_digit_text(minute) + ":"@
            + two_digit_text(second),
        elapsed_text(3600 * hour + 60 * minute + second).len() == 5,
{
    reveal_strlit(":");
    crate::text::law_two_digit_numbers_are_read_back(minute);
    crate::text::law_two_digit_numbers_are_read_back(second);
    let time = 3600 * hour + 60 * minute + second;
    assert(time / 60 == 60 * hour + minute);
    assert((60 * hour + minute) % 60 == minute);
    assert(time % 60 == second);
}

} // verus!
