//! A transcription session: what it says, what it writes, and when.
//!
//! The audio samples, the recognition of speech and the files themselves stay
//! outside; a session is told what was heard and answers with the steps that
//! have to be taken, in their order.
use crate::app::{is_model_installed, model_by_name, model_named, AppPaths, ModelFile, ModelInfo};
use crate::error::AppError;
use crate::output::{is_placed, output_for, output_name, resolve_output_path, Output};
use crate::path::{joined_path, path_named};
use crate::settings::{TranscriptFormat, UserConfig};
use crate::text::{
    drop_overlap, ends_with_space, is_repetition, is_white_space, law_overlap_is_the_longest,
    law_repeated_start_is_dropped, law_text_that_continues_nothing_is_kept,
    law_text_without_repetition_is_kept, law_trimmed_has_no_outer_space,
    law_trimming_takes_only_outer_space, overlap, starts_with_space, trimmed, without_overlap,
};
use crate::transcript::{
    append_entry, document, document_text, elapsed_text, entry, format_elapsed, grows_at_its_end,
    is_duplicate, law_document_grows_at_its_end, law_only_ends_are_repetitions, repeats,
    transcript_lines, LineText, TranscriptLine,
};
use crate::windows::{
    law_windows_make_up_the_audio, lemma_rest_starts_with_the_overlap, remains, starts_of, windows,
};
use std::path::PathBuf;
use vstd::prelude::*;
use vstd::string::*;
use vstd::utf8::*;

verus! {

/// How many samples a second of audio has when speech is recognized in it.
pub const WHISPER_SAMPLE_RATE: u32 = 16000;

/// How the recognition of one piece of audio is set up.
#[derive(Debug)]
pub struct RecognitionOptions<'a> {
    pub language: &'a str,
    /// What was said before.
    pub prompt: &'a str,
    pub threads: i32,
    pub best_of: i32,
    pub translate: bool,
    pub print_special: bool,
    pub print_progress: bool,
    pub print_realtime: bool,
    pub print_timestamps: bool,
    pub single_segment: bool,
    pub no_context: bool,
}

/// Sets the recognition up as configured: greedy, without translation, without
/// output of its own and as one segment. The decoder keeps its context, and is
/// told what the segment before says.
pub fn recognition_options<'a>(config: &'a UserConfig, previous: &'a str) -> (options:
    RecognitionOptions<'a>)
    ensures
        options.language@ == config.language@,
        options.prompt@ == previous@,
        options.threads == config.threads as i32,
        options.best_of == 1,
        !options.translate,
        !options.print_special,
        !options.print_progress,
        !options.print_realtime,
        !options.print_timestamps,
        options.single_segment,
        !options.no_context,
{
    RecognitionOptions {
        language: config.language.as_str(),
        prompt: previous,
        threads: config.threads as i32,
        best_of: 1,
        translate: false,
        print_special: false,
        print_progress: false,
        print_realtime: false,
        print_timestamps: false,
        single_segment: true,
        no_context: false,
    }
}

/// True if `c` starts an English word, a number or what is set in brackets.
pub open spec fn starts_a_word(c: char) -> bool {
    'a' <= c <= 'z' || 'A' <= c <= 'Z' || '0' <= c <= '9' || c == '(' || c == '['
}

/// True if `c` ends an English word, or is one of the marks behind one.
pub open spec fn ends_a_word(c: char) -> bool {
    '!' <= c <= '~' && c != '(' && c != '['
}

/// True if `c` is an ASCII character, as those of English text are.
pub open spec fn is_english(c: char) -> bool {
    c <= '~'
}

/// True if `left` and `right` would run two English words together: a word or
/// the mark behind it meets a word, or there was white space between two ASCII
/// characters.
pub open spec fn words_meet(left: Seq<char>, right: Seq<char>, spaced: bool) -> bool {
    &&& left.len() > 0
    &&& right.len() > 0
    &&& (ends_a_word(left.last()) && starts_a_word(right.first())) || (spaced && is_english(
        left.last(),
    ) && is_english(right.first()))
}

/// `right` behind `left`, with a space between two English words only; `spaced`
/// if there was white space between them.
pub open spec fn attached(left: Seq<char>, right: Seq<char>, spaced: bool) -> Seq<char> {
    if words_meet(left, right, spaced) {
        left + " "@ + right
    } else {
        left + right
    }
}

/// True if `text` starts with white space.
pub open spec fn space_before(text: Seq<char>) -> bool {
    text.len() > 0 && is_white_space(text.first())
}

/// True if there is white space behind the last thing that `segments` say.
pub open spec fn space_behind(segments: Seq<String>) -> bool
    decreases segments.len(),
{
    if segments.len() == 0 {
        false
    } else {
        let text = segments.last()@;
        (text.len() > 0 && is_white_space(text.last())) || (text.len() == 0 && space_behind(
            segments.drop_last(),
        ))
    }
}

/// The recognized segments in order, each trimmed, with nothing between them
/// but a space where English words meet.
pub open spec fn joined_segments(segments: Seq<String>) -> Seq<char>
    decreases segments.len(),
{
    if segments.len() == 0 {
        Seq::empty()
    } else {
        let before = segments.drop_last();
        let next = segments.last()@;
        attached(
            joined_segments(before),
            trimmed(next),
            space_behind(before) || space_before(next),
        )
    }
}

fn ends_in_word(text: &str) -> (answer: bool)
    ensures
        answer == (text@.len() > 0 && ends_a_word(text@.last())),
{
    let length: usize = text.unicode_len();
    if length == 0 {
        return false;
    }
    let c = text.get_char(length - 1);
    '!' <= c && c <= '~' && c != '(' && c != '['
}

fn starts_with_word(text: &str) -> (answer: bool)
    ensures
        answer == (text@.len() > 0 && starts_a_word(text@.first())),
{
    let length: usize = text.unicode_len();
    if length == 0 {
        return false;
    }
    let c = text.get_char(0);
    ('a' <= c && c <= 'z') || ('A' <= c && c <= 'Z') || ('0' <= c && c <= '9') || c == '('
        || c == '['
}

fn need_space(left: &str, right: &str, spaced: bool) -> (answer: bool)
    ensures
        answer == words_meet(left@, right@, spaced),
{
    let length: usize = left.unicode_len();
    if length == 0 || right.unicode_len() == 0 {
        return false;
    }
    (ends_in_word(left) && starts_with_word(right)) || (spaced && left.get_char(length - 1) <= '~'
        && right.get_char(0) <= '~')
}

/// Puts the recognized segments together.
pub fn join_segments(segments: &Vec<String>) -> (text: String)
    ensures
        text@ == joined_segments(segments@),
{
    let mut text = String::new();
    let mut spaced = false;
    let mut next: usize = 0;
    while next < segments.len()
        invariant
            next <= segments@.len(),
            text@ == joined_segments(segments@.take(next as int)),
            spaced == space_behind(segments@.take(next as int)),
        decreases segments@.len() - next,
    {
        let segment = segments[next].as_str();
        let core = segment.trim();
        if need_space(text.as_str(), core, spaced || starts_with_space(segment)) {
            text.append(" ");
        }
        text.append(core);
        if segment.unicode_len() > 0 {
            spaced = ends_with_space(segment);
        }
        next = next + 1;
        assert(segments@.take(next as int).drop_last() =~= segments@.take(next - 1));
    }
    assert(segments@.take(next as int) =~= segments@);
    text
}

/// Joining segments does not run English words together: there is a space
/// wherever white space stood between ASCII characters, and wherever a word
/// follows a word or the mark behind one. There is nothing between segments
/// anywhere else.
pub proof fn law_english_words_stay_apart(segments: Seq<String>, next: String)
    ensures
        joined_segments(segments.push(next)) == attached(
            joined_segments(segments),
            trimmed(next@),
            space_behind(segments) || space_before(next@),
        ),
        ({
            let left = joined_segments(segments);
            let right = trimmed(next@);
            left.len() > 0 && right.len() > 0 && is_english(left.last()) && is_english(
                right.first(),
            ) && (space_behind(segments) || space_before(next@)) ==> joined_segments(
                segments.push(next),
            ) == left + " "@ + right
        }),
{
    assert(segments.push(next).drop_last() =~= segments);
}

/// What a session works with.
pub struct SessionPlan {
    pub model: ModelInfo,
    pub model_path: PathBuf,
    pub output: Output,
}

/// Checks that a session can start, `file` being what was found at the place
/// of the configured model, and fixes what it works with.
pub fn start_session(
    paths: &AppPaths,
    config: &UserConfig,
    requested: Option<TranscriptFormat>,
    out_override: Option<String>,
    file: &ModelFile,
) -> (plan: Result<SessionPlan, AppError>)
    ensures
        match model_named(config.model@) {
            None => plan matches Err(AppError::UnknownSessionModel { requested }) && requested@
                == config.model@,
            Some(model) => if file is Absent {
                plan matches Err(AppError::ModelNotInstalled { name }) && name@ == model.name
            } else {
                plan matches Ok(plan) && plan.model@ == model
            },
        },
        plan matches Ok(plan) ==> {
            &&& plan.model_path == joined_path(paths.models, path_named(plan.model.file_name@))
            &&& plan.output == output_for(*config, requested, output_name(out_override))
            &&& is_placed(plan.output, *config, requested, output_name(out_override))
        },
{
    match model_by_name(config.model.as_str()) {
        None => Err(AppError::UnknownSessionModel { requested: config.model.clone() }),
        Some(model) => if !is_model_installed(file) {
            Err(AppError::ModelNotInstalled { name: String::from_str(model.name) })
        } else {
            Ok(
                SessionPlan {
                    model,
                    model_path: paths.model_path(model),
                    output: resolve_output_path(config, requested, out_override),
                },
            )
        },
    }
}

/// How a session is doing.
#[derive(Clone, Copy, Debug, Eq, PartialEq, Structural)]
pub enum SessionStatus {
    Loading,
    Listening,
    Paused,
    Processing,
    Saving,
    Error,
    Stopped,
}

/// What a session tells those who watch it; `L` is how the level of the input
/// is measured.
#[derive(Debug)]
pub enum SessionEvent<L> {
    Status(SessionStatus),
    Level(L),
    Microphone(String),
    Segment(TranscriptLine),
    Saved(PathBuf),
    Error(String),
    /// A piece of audio was not recognized, because too many pieces wait.
    Skipped,
}

/// What a session can be told to do.
#[derive(Clone, Copy, Debug, Eq, PartialEq, Structural)]
pub enum SessionCommand {
    SetPaused(bool),
    SaveNow,
    Stop,
}

/// A step that the session has to take; where a step fails, those behind it
/// are not taken.
#[derive(Debug)]
pub enum SessionStep<L> {
    /// Tell the watchers.
    Emit(SessionEvent<L>),
    /// Make this the text of the transcript's file.
    Write(String),
    /// Put this behind the text of the transcript's file.
    Append(String),
    /// Stop the microphone, and hand over all that it has still delivered.
    StopCapture,
}

/// What a step comes to.
#[verifier::ext_equal]
pub enum StepText {
    Status(SessionStatus),
    Level,
    Microphone(Seq<char>),
    Segment(LineText),
    Saved(PathBuf),
    Error(Seq<char>),
    Skipped,
    Write(Seq<char>),
    Append(Seq<char>),
    StopCapture,
}

impl<L> View for SessionStep<L> {
    type V = StepText;

    open spec fn view(&self) -> StepText {
        match *self {
            SessionStep::Emit(event) => match event {
                SessionEvent::Status(status) => StepText::Status(status),
                SessionEvent::Level(_) => StepText::Level,
                SessionEvent::Microphone(name) => StepText::Microphone(name@),
                SessionEvent::Segment(line) => StepText::Segment(line@),
                SessionEvent::Saved(path) => StepText::Saved(path),
                SessionEvent::Error(message) => StepText::Error(message@),
                SessionEvent::Skipped => StepText::Skipped,
            },
            SessionStep::Write(text) => StepText::Write(text@),
            SessionStep::Append(text) => StepText::Append(text@),
            SessionStep::StopCapture => StepText::StopCapture,
        }
    }
}

/// What each of `steps` comes to.
pub open spec fn step_texts<L>(steps: Seq<SessionStep<L>>) -> Seq<StepText> {
    steps.map_values(|step: SessionStep<L>| step@)
}

/// The text of the transcript's file, which was `file`, after `steps`.
pub open spec fn file_after(file: Seq<char>, steps: Seq<StepText>) -> Seq<char>
    decreases steps.len(),
{
    if steps.len() == 0 {
        file
    } else {
        let before = file_after(file, steps.drop_last());
        match steps.last() {
            StepText::Write(text) => text,
            StepText::Append(text) => before + text,
            _ => before,
        }
    }
}

/// How many samples two neighbouring pieces of audio have in common: a second,
/// so that no word is cut in two in both of them.
pub const OVERLAP_SAMPLES: usize = 16000;

/// How many pieces of audio may wait to be recognized; while so many do, those
/// that come are skipped.
pub const MAX_OUTSTANDING: usize = 8;

/// The state of a session.
#[verifier::ext_equal]
pub struct SessionState<T> {
    pub format: TranscriptFormat,
    pub output_path: PathBuf,
    /// How many samples are recognized at once.
    pub chunk_samples: nat,
    pub running: bool,
    /// True once the session has been told to stop.
    pub stopping: bool,
    pub paused: bool,
    pub lines: Seq<LineText>,
    /// What was recognized in the piece of audio before; nothing, if that was
    /// passed over or could not be recognized.
    pub heard: Seq<char>,
    /// The audio that the next piece is cut from.
    pub pending: Seq<T>,
    /// How much of that was in the last piece already.
    pub kept: nat,
    /// True if the piece before was skipped.
    pub gap: bool,
    /// The pieces that have been handed out and are not yet answered, oldest
    /// first: for each, true if the piece before it was skipped.
    pub queue: Seq<bool>,
}

impl<T> SessionState<T> {
    /// The text of the line before.
    pub open spec fn last_text(self) -> Seq<char> {
        if self.lines.len() == 0 {
            Seq::empty()
        } else {
            self.lines.last().text
        }
    }

    /// The status while nothing is being done.
    pub open spec fn resting(self) -> SessionStatus {
        if self.paused {
            SessionStatus::Paused
        } else {
            SessionStatus::Listening
        }
    }

    /// The whole text of the transcript.
    pub open spec fn text(self) -> Seq<char> {
        document(self.format, self.lines)
    }

    /// The session after it has obeyed `command`. To stop takes until all that
    /// was said has been recognized, and nothing else is obeyed meanwhile.
    pub open spec fn after_command(self, command: SessionCommand) -> SessionState<T> {
        if self.stopping {
            self
        } else {
            match command {
                SessionCommand::SetPaused(paused) => SessionState { paused, ..self },
                SessionCommand::SaveNow => self,
                SessionCommand::Stop => SessionState { stopping: true, ..self },
            }
        }
    }

    /// The steps by which the session obeys `command`.
    pub open spec fn command_steps(self, command: SessionCommand) -> Seq<StepText> {
        if self.stopping {
            Seq::empty()
        } else {
            match command {
                SessionCommand::SetPaused(_) => seq![
                    StepText::Status(self.after_command(command).resting()),
                ],
                SessionCommand::SaveNow => seq![
                    StepText::Status(SessionStatus::Saving),
                    StepText::Write(self.text()),
                    StepText::Saved(self.output_path),
                    StepText::Status(self.resting()),
                ],
                SessionCommand::Stop => seq![StepText::StopCapture],
            }
        }
    }

    /// The session after a delivery of audio, which is thrown away while it is
    /// paused.
    pub open spec fn after_audio(self, samples: Seq<T>) -> SessionState<T> {
        if self.paused {
            self
        } else {
            SessionState { pending: self.pending + samples, ..self }
        }
    }

    /// How far one piece of audio starts behind the piece before it.
    pub open spec fn stride(self) -> nat {
        (self.chunk_samples - OVERLAP_SAMPLES) as nat
    }

    /// True if no more pieces may be handed out before one is answered.
    pub open spec fn is_full(self) -> bool {
        self.queue.len() >= MAX_OUTSTANDING
    }

    /// What has to be done next: the oldest full piece of audio is recognized,
    /// or skipped and reported if too many pieces wait for an answer. A session
    /// that stops skips nothing and has the rest recognized too, if any of it is
    /// new; it is finished when every piece has been answered.
    pub open spec fn next_task(self) -> TaskText<T> {
        if !self.running {
            TaskText::Wait
        } else if self.pending.len() >= self.chunk_samples {
            if !self.is_full() {
                TaskText::Recognize(self.pending.take(self.chunk_samples as int))
            } else if !self.stopping {
                TaskText::Skip(seq![StepText::Skipped])
            } else {
                TaskText::Wait
            }
        } else if !self.stopping {
            TaskText::Wait
        } else if self.pending.len() > self.kept {
            if !self.is_full() {
                TaskText::Recognize(self.pending)
            } else {
                TaskText::Wait
            }
        } else if self.queue.len() > 0 {
            TaskText::Wait
        } else {
            TaskText::Finish(
                seq![
                    StepText::Write(self.text()),
                    StepText::Saved(self.output_path),
                    StepText::Status(SessionStatus::Stopped),
                ],
            )
        }
    }

    /// The session after it has handed out the next task.
    pub open spec fn after_task(self) -> SessionState<T> {
        match self.next_task() {
            TaskText::Recognize(_) => SessionState {
                pending: if self.pending.len() >= self.chunk_samples {
                    self.pending.skip(self.stride() as int)
                } else {
                    Seq::empty()
                },
                kept: if self.pending.len() >= self.chunk_samples {
                    OVERLAP_SAMPLES as nat
                } else {
                    0
                },
                gap: false,
                queue: self.queue.push(self.gap),
                ..self
            },
            TaskText::Skip(_) => SessionState {
                pending: self.pending.skip(self.stride() as int),
                kept: 0,
                gap: true,
                ..self
            },
            TaskText::Finish(_) => SessionState { running: false, ..self },
            TaskText::Wait => self,
        }
    }

    /// The session after all full pieces of audio have been handed out.
    pub open spec fn after_windows(self) -> SessionState<T> {
        SessionState {
            pending: remains(self.pending, self.chunk_samples, self.stride()),
            kept: if windows(self.pending, self.chunk_samples, self.stride()).len() > 0 {
                OVERLAP_SAMPLES as nat
            } else {
                self.kept
            },
            ..self
        }
    }

    /// The session after one of the pieces that were handed out was answered.
    pub open spec fn answered(self) -> SessionState<T> {
        SessionState {
            queue: if self.queue.len() > 0 {
                self.queue.drop_first()
            } else {
                self.queue
            },
            ..self
        }
    }

    /// The session after a piece was passed over or could not be recognized:
    /// the next one has nothing in common with what was heard before.
    pub open spec fn after_gap(self) -> SessionState<T> {
        SessionState { heard: Seq::empty(), ..self.answered() }
    }

    /// What was heard in the piece before the one that is answered next;
    /// nothing, if that was skipped.
    pub open spec fn context(self) -> Seq<char> {
        if self.queue.len() > 0 && self.queue.first() {
            Seq::empty()
        } else {
            self.heard
        }
    }

    /// What `text` says that the text before did not end with.
    pub open spec fn news(self, text: Seq<char>) -> Seq<char> {
        trimmed(without_overlap(self.context(), trimmed(text)))
    }

    /// True if `text` is worth a line: it says something new, and not only what
    /// the line before says.
    pub open spec fn is_news(self, text: Seq<char>) -> bool {
        self.news(text).len() > 0 && !repeats(self.last_text(), self.news(text))
    }

    /// The line for `text`.
    pub open spec fn line_for(self, text: Seq<char>, seconds: nat) -> LineText {
        LineText { timestamp: elapsed_text(seconds), text: self.news(text) }
    }

    /// The session after `text` was recognized.
    pub open spec fn after_text(self, text: Seq<char>, seconds: nat) -> SessionState<T> {
        SessionState {
            heard: trimmed(text),
            lines: if self.is_news(text) {
                self.lines.push(self.line_for(text, seconds))
            } else {
                self.lines
            },
            ..self.answered()
        }
    }

    /// How a new line gets into the file: behind what is there, unless it is
    /// the first or the format ends with something behind the lines.
    pub open spec fn line_step(self, line: LineText) -> StepText {
        if self.lines.len() == 0 || !grows_at_its_end(self.format) {
            StepText::Write(document(self.format, self.lines.push(line)))
        } else {
            StepText::Append(entry(self.format, self.lines, line))
        }
    }

    /// The steps when `text` was recognized.
    pub open spec fn text_steps(self, text: Seq<char>, seconds: nat) -> Seq<StepText> {
        if self.is_news(text) {
            seq![
                self.line_step(self.line_for(text, seconds)),
                StepText::Segment(self.line_for(text, seconds)),
                StepText::Saved(self.output_path),
                StepText::Status(self.resting()),
            ]
        } else {
            seq![StepText::Status(self.resting())]
        }
    }

    /// What holds of every session: a piece of audio is longer than what it has
    /// in common with the next, what was in the last piece is still there, not
    /// too many pieces wait for an answer, no line of the transcript is empty or
    /// has white space around it, and none only repeats the line before it.
    pub open spec fn is_sound(self) -> bool {
        &&& self.chunk_samples > OVERLAP_SAMPLES
        &&& self.kept <= self.pending.len()
        &&& self.queue.len() <= MAX_OUTSTANDING
        &&& forall|i: int|
            0 <= i < self.lines.len() ==> (#[trigger] self.lines[i]).text.len() > 0 && trimmed(
                self.lines[i].text,
            ) == self.lines[i].text
        &&& forall|i: int, j: int|
            0 <= i && j == i + 1 && j < self.lines.len() ==> !repeats(
                (#[trigger] self.lines[i]).text,
                (#[trigger] self.lines[j]).text,
            )
    }
}

/// What has to be done next in a session.
#[derive(Debug)]
pub enum SessionTask<T, L> {
    /// Recognize the speech in this piece of audio.
    Recognize(Vec<T>),
    /// Take these steps: a piece of audio was skipped.
    Skip(Vec<SessionStep<L>>),
    /// Take these steps; the session is over.
    Finish(Vec<SessionStep<L>>),
    /// Wait for more to happen.
    Wait,
}

/// What a task comes to.
#[verifier::ext_equal]
pub enum TaskText<T> {
    Recognize(Seq<T>),
    Skip(Seq<StepText>),
    Finish(Seq<StepText>),
    Wait,
}

impl<T, L> View for SessionTask<T, L> {
    type V = TaskText<T>;

    open spec fn view(&self) -> TaskText<T> {
        match *self {
            SessionTask::Recognize(samples) => TaskText::Recognize(samples@),
            SessionTask::Skip(steps) => TaskText::Skip(step_texts(steps@)),
            SessionTask::Finish(steps) => TaskText::Finish(step_texts(steps@)),
            SessionTask::Wait => TaskText::Wait,
        }
    }
}

proof fn lemma_news_keeps_soundness<T>(
    before: SessionState<T>,
    text: Seq<char>,
    seconds: nat,
)
    requires
        before.is_sound(),
    ensures
        before.after_text(text, seconds).is_sound(),
{
    let after = before.after_text(text, seconds);
    if before.is_news(text) {
        law_trimmed_has_no_outer_space(without_overlap(before.context(), trimmed(text)));
        assert forall|i: int| 0 <= i < after.lines.len() implies (
        #[trigger] after.lines[i]).text.len() > 0 && trimmed(after.lines[i].text)
            == after.lines[i].text by {
            if i < before.lines.len() {
                assert(after.lines[i] == before.lines[i]);
            }
        }
        assert forall|i: int, j: int|
            0 <= i && j == i + 1 && j < after.lines.len() implies !repeats(
            (#[trigger] after.lines[i]).text,
            (#[trigger] after.lines[j]).text,
        ) by {
            assert(after.lines[i] == before.lines[i]);
            if j < before.lines.len() {
                assert(after.lines[j] == before.lines[j]);
            }
        }
    }
}

/// The tasks of a session are its pieces of audio, oldest first: the next task
/// is the first piece, and the tasks after it are the others.
pub proof fn law_tasks_are_the_windows<T>(state: SessionState<T>)
    requires
        state.is_sound(),
        state.running,
        !state.is_full(),
        windows(state.pending, state.chunk_samples, state.stride()).len() > 0,
    ensures
        state.next_task() == TaskText::Recognize(
            windows(state.pending, state.chunk_samples, state.stride())[0],
        ),
        windows(state.after_task().pending, state.chunk_samples, state.stride()) == windows(
            state.pending,
            state.chunk_samples,
            state.stride(),
        ).drop_first(),
        state.after_task().pending.take(OVERLAP_SAMPLES as int) == windows(
            state.pending,
            state.chunk_samples,
            state.stride(),
        )[0].skip(state.stride() as int),
{
    let pieces = windows(state.pending, state.chunk_samples, state.stride());
    assert(pieces.drop_first() =~= windows(
        state.pending.skip(state.stride() as int),
        state.chunk_samples,
        state.stride(),
    ));
    assert(state.after_task().pending.take(OVERLAP_SAMPLES as int) =~= pieces[0].skip(
        state.stride() as int,
    ));
}

/// How many samples are recognized at once with this configuration.
pub open spec fn configured_chunk(config: UserConfig) -> nat {
    (if config.chunk_seconds < 2 {
        2
    } else {
        config.chunk_seconds as nat
    }) * WHISPER_SAMPLE_RATE as nat
}

/// A running transcription; `T` is one sample of audio.
pub struct Session<T> {
    format: TranscriptFormat,
    output_path: PathBuf,
    chunk_samples: usize,
    running: bool,
    stopping: bool,
    paused: bool,
    lines: Vec<TranscriptLine>,
    heard: String,
    pending: Vec<T>,
    kept: usize,
    gap: bool,
    queue: Vec<bool>,
}

impl<T> View for Session<T> {
    type V = SessionState<T>;

    closed spec fn view(&self) -> SessionState<T> {
        SessionState {
            format: self.format,
            output_path: self.output_path,
            chunk_samples: self.chunk_samples as nat,
            running: self.running,
            stopping: self.stopping,
            paused: self.paused,
            lines: transcript_lines(self.lines@),
            heard: self.heard@,
            pending: self.pending@,
            kept: self.kept as nat,
            gap: self.gap,
            queue: self.queue@,
        }
    }
}

impl<T> Session<T> {
    /// What holds of every session.
    pub open spec fn well_formed(self) -> bool {
        self@.is_sound()
    }

    /// Starts a session with nothing heard yet.
    pub fn new(config: &UserConfig, output: Output) -> (session: Session<T>)
        requires
            configured_chunk(*config) <= usize::MAX,
        ensures
            session.well_formed(),
            session@ == (SessionState::<T> {
                format: output.format,
                output_path: output.path,
                chunk_samples: configured_chunk(*config),
                running: true,
                stopping: false,
                paused: config.start_paused,
                lines: Seq::empty(),
                heard: Seq::empty(),
                pending: Seq::empty(),
                kept: 0,
                gap: false,
                queue: Seq::empty(),
            }),
    {
        let seconds: usize = if config.chunk_seconds < 2 {
            2
        } else {
            config.chunk_seconds as usize
        };
        let session = Session {
            format: output.format,
            output_path: output.path,
            chunk_samples: seconds * WHISPER_SAMPLE_RATE as usize,
            running: true,
            stopping: false,
            paused: config.start_paused,
            lines: Vec::new(),
            heard: String::new(),
            pending: Vec::new(),
            kept: 0,
            gap: false,
            queue: Vec::new(),
        };
        assert(session@.lines =~= Seq::empty());
        session
    }

    /// True until the session is finished.
    pub fn is_running(&self) -> (running: bool)
        ensures
            running == self@.running,
    {
        self.running
    }

    /// The text of the line before, which the recognition is told.
    pub fn last_text(&self) -> (text: &str)
        ensures
            text@ == self@.last_text(),
    {
        let count: usize = self.lines.len();
        if count == 0 {
            proof {
                reveal_strlit("");
                assert(""@ =~= Seq::empty());
            }
            ""
        } else {
            self.lines[count - 1].text.as_str()
        }
    }

    fn resting_status(&self) -> (status: SessionStatus)
        ensures
            status == self@.resting(),
    {
        if self.paused {
            SessionStatus::Paused
        } else {
            SessionStatus::Listening
        }
    }

    /// The steps when the microphone called `device_name` has been opened.
    pub fn opened<L>(&self, device_name: String) -> (steps: Vec<SessionStep<L>>)
        ensures
            step_texts(steps@) == seq![
                StepText::Microphone(device_name@),
                StepText::Status(self@.resting()),
            ],
    {
        let mut steps: Vec<SessionStep<L>> = Vec::new();
        steps.push(SessionStep::Emit(SessionEvent::Microphone(device_name)));
        steps.push(SessionStep::Emit(SessionEvent::Status(self.resting_status())));
        assert(step_texts(steps@) =~= seq![
            StepText::Microphone(device_name@),
            StepText::Status(self@.resting()),
        ]);
        steps
    }

    /// Obeys `command`. Saving writes the whole transcript before it is
    /// reported saved. Stopping starts with the microphone; the rest follows
    /// when what it has delivered is recognized.
    pub fn obey<L>(&mut self, command: SessionCommand) -> (steps: Vec<SessionStep<L>>)
        requires
            old(self).well_formed(),
        ensures
            final(self).well_formed(),
            final(self)@ == old(self)@.after_command(command),
            step_texts(steps@) == old(self)@.command_steps(command),
    {
        let mut steps: Vec<SessionStep<L>> = Vec::new();
        if !self.stopping {
            match command {
                SessionCommand::SetPaused(paused) => {
                    self.paused = paused;
                    steps.push(SessionStep::Emit(SessionEvent::Status(self.resting_status())));
                },
                SessionCommand::SaveNow => {
                    let text = document_text(self.format, &self.lines);
                    steps.push(SessionStep::Emit(SessionEvent::Status(SessionStatus::Saving)));
                    steps.push(SessionStep::Write(text));
                    steps.push(SessionStep::Emit(SessionEvent::Saved(self.output_path.clone())));
                    steps.push(SessionStep::Emit(SessionEvent::Status(self.resting_status())));
                },
                SessionCommand::Stop => {
                    self.stopping = true;
                    steps.push(SessionStep::StopCapture);
                },
            }
        }
        assert(step_texts(steps@) =~= old(self)@.command_steps(command));
        steps
    }

    /// Takes a delivery of audio; while the session is paused it is thrown
    /// away.
    pub fn hear(&mut self, samples: Vec<T>)
        requires
            old(self).well_formed(),
        ensures
            final(self).well_formed(),
            final(self)@ == old(self)@.after_audio(samples@),
    {
        let mut samples = samples;
        if !self.paused {
            self.pending.append(&mut samples);
        }
    }

    fn finishing_steps<L>(&self) -> (steps: Vec<SessionStep<L>>)
        ensures
            step_texts(steps@) == seq![
                StepText::Write(self@.text()),
                StepText::Saved(self@.output_path),
                StepText::Status(SessionStatus::Stopped),
            ],
    {
        let mut steps: Vec<SessionStep<L>> = Vec::new();
        steps.push(SessionStep::Write(document_text(self.format, &self.lines)));
        steps.push(SessionStep::Emit(SessionEvent::Saved(self.output_path.clone())));
        steps.push(SessionStep::Emit(SessionEvent::Status(SessionStatus::Stopped)));
        assert(step_texts(steps@) =~= seq![
            StepText::Write(self@.text()),
            StepText::Saved(self@.output_path),
            StepText::Status(SessionStatus::Stopped),
        ]);
        steps
    }

    /// Says what has to be done next.
    pub fn next_task<L>(&mut self) -> (task: SessionTask<T, L>) where T: Copy
        requires
            old(self).well_formed(),
        ensures
            final(self).well_formed(),
            final(self)@ == old(self)@.after_task(),
            task@ == old(self)@.next_task(),
    {
        if !self.running {
            return SessionTask::Wait;
        }
        let full = self.queue.len() >= MAX_OUTSTANDING;
        if self.pending.len() >= self.chunk_samples {
            if full && self.stopping {
                return SessionTask::Wait;
            }
            let stride: usize = self.chunk_samples - OVERLAP_SAMPLES;
            let ghost before = self.pending@;
            let mut rest = self.pending.split_off(stride);
            std::mem::swap(&mut rest, &mut self.pending);
            let mut piece = rest;
            assert(self.pending@ =~= before.skip(stride as int));
            if full {
                self.kept = 0;
                self.gap = true;
                let mut steps: Vec<SessionStep<L>> = Vec::new();
                steps.push(SessionStep::Emit(SessionEvent::Skipped));
                assert(step_texts(steps@) =~= seq![StepText::Skipped]);
                return SessionTask::Skip(steps);
            }
            copy_onto(&mut piece, &self.pending, OVERLAP_SAMPLES);
            self.kept = OVERLAP_SAMPLES;
            self.enqueue();
            assert(piece@ =~= before.take(self.chunk_samples as int));
            return SessionTask::Recognize(piece);
        }
        if !self.stopping {
            return SessionTask::Wait;
        }
        if self.pending.len() > self.kept {
            if full {
                return SessionTask::Wait;
            }
            let mut piece: Vec<T> = Vec::new();
            std::mem::swap(&mut piece, &mut self.pending);
            self.kept = 0;
            self.enqueue();
            return SessionTask::Recognize(piece);
        }
        if self.queue.len() > 0 {
            return SessionTask::Wait;
        }
        let steps = self.finishing_steps();
        self.running = false;
        SessionTask::Finish(steps)
    }

    fn enqueue(&mut self)
        ensures
            final(self)@ == (SessionState {
                gap: false,
                queue: old(self)@.queue.push(old(self)@.gap),
                ..old(self)@
            }),
    {
        self.queue.push(self.gap);
        self.gap = false;
    }

    fn line_entry<L>(&self) -> (step: SessionStep<L>)
        requires
            self@.lines.len() > 0,
        ensures
            step@ == (SessionState { lines: self@.lines.drop_last(), ..self@ }).line_step(
                self@.lines.last(),
            ),
    {
        let count: usize = self.lines.len();
        let whole = match self.format {
            TranscriptFormat::Json => true,
            _ => count == 1,
        };
        assert(self@.lines.drop_last().push(self@.lines.last()) =~= self@.lines);
        if whole {
            SessionStep::Write(document_text(self.format, &self.lines))
        } else {
            let mut text = String::new();
            append_entry(&mut text, self.format, &self.lines, count - 1);
            assert(transcript_lines(self.lines@).take(count - 1) =~= self@.lines.drop_last());
            assert(text@ =~= entry(self.format, self@.lines.drop_last(), self@.lines.last()));
            SessionStep::Append(text)
        }
    }

    fn answer(&mut self)
        ensures
            final(self)@ == old(self)@.answered(),
    {
        if self.queue.len() > 0 {
            let ghost before = self.queue@;
            self.queue.remove(0);
            assert(self.queue@ =~= before.drop_first());
        }
    }

    fn leave_gap(&mut self)
        ensures
            final(self)@ == old(self)@.after_gap(),
    {
        self.heard = String::new();
        self.answer();
        assert(self@.heard =~= Seq::empty());
    }

    /// The step before a piece of audio is recognized; a silent piece is passed
    /// over, and nothing is said of it.
    pub fn before_recognition<L>(&mut self, silent: bool) -> (steps: Vec<SessionStep<L>>)
        requires
            old(self).well_formed(),
        ensures
            final(self).well_formed(),
            final(self)@ == if silent {
                old(self)@.after_gap()
            } else {
                old(self)@
            },
            step_texts(steps@) == if silent {
                Seq::empty()
            } else {
                seq![StepText::Status(SessionStatus::Processing)]
            },
    {
        let mut steps: Vec<SessionStep<L>> = Vec::new();
        if silent {
            self.leave_gap();
        } else {
            steps.push(SessionStep::Emit(SessionEvent::Status(SessionStatus::Processing)));
        }
        assert(step_texts(steps@) =~= if silent {
            Seq::empty()
        } else {
            seq![StepText::Status(SessionStatus::Processing)]
        });
        steps
    }

    /// Takes note that the recognition of one piece has failed: the session
    /// goes on.
    pub fn recognition_failed<L>(&mut self, message: String) -> (steps: Vec<SessionStep<L>>)
        requires
            old(self).well_formed(),
        ensures
            final(self).well_formed(),
            final(self)@ == old(self)@.after_gap(),
            step_texts(steps@) == seq![
                StepText::Error(message@),
                StepText::Status(old(self)@.resting()),
            ],
    {
        self.leave_gap();
        let mut steps: Vec<SessionStep<L>> = Vec::new();
        steps.push(SessionStep::Emit(SessionEvent::Error(message)));
        steps.push(SessionStep::Emit(SessionEvent::Status(self.resting_status())));
        assert(step_texts(steps@) =~= seq![
            StepText::Error(message@),
            StepText::Status(old(self)@.resting()),
        ]);
        steps
    }

    /// Takes the text that was recognized in one piece, `seconds` after the
    /// session began. What it repeats of the text before is dropped; if what is
    /// left is worth a line, the line is written before it is shown.
    pub fn recognized<L>(&mut self, text: &str, seconds: u64) -> (steps: Vec<SessionStep<L>>)
        requires
            old(self).well_formed(),
        ensures
            final(self).well_formed(),
            final(self)@ == old(self)@.after_text(text@, seconds as nat),
            step_texts(steps@) == old(self)@.text_steps(text@, seconds as nat),
    {
        proof {
            lemma_news_keeps_soundness(self@, text@, seconds as nat);
        }
        let ghost before = self@;
        let mut steps: Vec<SessionStep<L>> = Vec::new();
        let core = text.trim();
        let context = if self.queue.len() > 0 && self.queue[0] {
            ""
        } else {
            self.heard.as_str()
        };
        proof {
            reveal_strlit("");
            assert(context@ =~= before.context());
        }
        let news = drop_overlap(context, core).trim();
        let worth = !news.is_empty() && !is_duplicate(self.last_text(), news);
        if worth {
            let line = TranscriptLine {
                timestamp: format_elapsed(seconds),
                text: String::from_str(news),
            };
            let copy = line.clone();
            self.lines.push(line);
            assert(self@.lines =~= before.lines.push(line@));
            assert(self@.lines.drop_last() =~= before.lines);
            steps.push(self.line_entry());
            steps.push(SessionStep::Emit(SessionEvent::Segment(copy)));
            steps.push(SessionStep::Emit(SessionEvent::Saved(self.output_path.clone())));
        }
        self.heard = String::from_str(core);
        self.answer();
        steps.push(SessionStep::Emit(SessionEvent::Status(self.resting_status())));
        assert(step_texts(steps@) =~= before.text_steps(text@, seconds as nat));
        steps
    }
}

fn copy_onto<T: Copy>(samples: &mut Vec<T>, more: &Vec<T>, count: usize)
    requires
        count <= more@.len(),
    ensures
        final(samples)@ == old(samples)@ + more@.take(count as int),
{
    let mut next: usize = 0;
    assert(samples@ =~= old(samples)@ + more@.take(0));
    while next < count
        invariant
            next <= count <= more@.len(),
            samples@ == old(samples)@ + more@.take(next as int),
        decreases count - next,
    {
        samples.push(more[next]);
        next = next + 1;
        assert(samples@ =~= old(samples)@ + more@.take(next as int));
    }
}

/// Whatever a sound session is told, it stays sound: at no time does its
/// transcript hold an empty line or one that only repeats the line before.
pub proof fn law_sessions_stay_sound<T>(
    state: SessionState<T>,
    command: SessionCommand,
    samples: Seq<T>,
    text: Seq<char>,
    seconds: nat,
)
    requires
        state.is_sound(),
    ensures
        state.after_command(command).is_sound(),
        state.after_audio(samples).is_sound(),
        state.after_task().is_sound(),
        state.after_gap().is_sound(),
        state.after_text(text, seconds).is_sound(),
{
    lemma_news_keeps_soundness(state, text, seconds);
}

/// Text that repeats the end of the text before is trimmed before it is saved:
/// if the start `repeated` of a text repeats the end of what was heard before,
/// and no longer start does, then of that text only the rest is new.
pub proof fn law_repeated_text_is_trimmed<T>(
    state: SessionState<T>,
    repeated: Seq<char>,
    rest: Seq<char>,
    seconds: nat,
)
    requires
        trimmed(repeated + rest) == repeated + rest,
        is_repetition(state.context(), repeated + rest, repeated.len()),
        forall|length: nat| #[trigger]
            is_repetition(state.context(), repeated + rest, length) ==> length <= repeated.len(),
    ensures
        state.news(repeated + rest) == trimmed(rest),
        trimmed(rest).len() > 0 && !repeats(state.last_text(), trimmed(rest)) ==> state.after_text(
            repeated + rest,
            seconds,
        ).lines == state.lines.push(
            LineText { timestamp: elapsed_text(seconds), text: trimmed(rest) },
        ) && state.text_steps(repeated + rest, seconds)[1] == StepText::Segment(
            LineText { timestamp: elapsed_text(seconds), text: trimmed(rest) },
        ),
{
    law_overlap_is_the_longest(state.context(), repeated + rest);
    assert(overlap(state.context(), repeated + rest) == repeated.len());
    assert((repeated + rest).skip(repeated.len() as int) =~= rest);
}

/// Text that repeats nothing is saved whole: if no start of it repeats the end
/// of what was heard before, and it is not a duplicate of the line before, it is
/// the next line as it was said.
pub proof fn law_new_text_is_saved_whole<T>(state: SessionState<T>, text: Seq<char>, seconds: nat)
    requires
        forall|length: nat| !#[trigger] is_repetition(state.context(), trimmed(text), length),
    ensures
        state.news(text) == trimmed(text),
        trimmed(text).len() > 0 && !repeats(state.last_text(), trimmed(text)) ==> state.after_text(
            text,
            seconds,
        ).lines == state.lines.push(
            LineText { timestamp: elapsed_text(seconds), text: trimmed(text) },
        ),
{
    law_text_without_repetition_is_kept(state.context(), trimmed(text));
    law_trimmed_has_no_outer_space(text);
}

/// After a piece that was passed over, skipped or could not be recognized, the
/// next text is saved whole, whatever was said before the gap.
pub proof fn law_nothing_is_trimmed_after_a_gap<T>(
    state: SessionState<T>,
    text: Seq<char>,
    seconds: nat,
)
    ensures
        state.after_gap().news(text) == trimmed(text),
        trimmed(text).len() > 0 && !repeats(state.last_text(), trimmed(text))
            ==> state.after_gap().after_text(text, seconds).lines == state.lines.push(
            LineText { timestamp: elapsed_text(seconds), text: trimmed(text) },
        ),
        state.queue.len() > 0 && state.queue.first() ==> state.news(text) == trimmed(text),
{
    law_new_text_is_saved_whole(state.after_gap(), text, seconds);
    if state.queue.len() > 0 && state.queue.first() {
        law_new_text_is_saved_whole(state, text, seconds);
    }
}

/// The backlog is bounded: no more than so many pieces wait for an answer, and a
/// session that is not stopping keeps less than one piece of audio back. A full
/// piece is recognized or, if too many wait, skipped and reported; the next one
/// starts as far behind it either way, and is not compared to what was heard
/// before one that was skipped.
pub proof fn law_backlog_is_bounded<T>(state: SessionState<T>)
    requires
        state.is_sound(),
        state.running,
        !state.stopping,
    ensures
        state.after_task().queue.len() <= MAX_OUTSTANDING,
        state.next_task() is Wait <==> state.pending.len() < state.chunk_samples,
        state.next_task() is Recognize <==> state.pending.len() >= state.chunk_samples
            && !state.is_full(),
        state.next_task() is Skip <==> state.pending.len() >= state.chunk_samples
            && state.is_full(),
        state.next_task() matches TaskText::Skip(steps) ==> steps == seq![StepText::Skipped],
        !(state.next_task() is Wait) ==> state.after_task().pending == state.pending.skip(
            state.stride() as int,
        ) && state.after_task().pending.len() < state.pending.len(),
        state.after_task().gap <==> state.next_task() is Skip || (state.next_task() is Wait
            && state.gap),
        state.next_task() is Recognize ==> state.after_task().queue.last() == state.gap,
{
}

/// The file never lags behind the transcript. If it holds the transcript, or
/// if there is no line yet, then after a recognized text it holds the
/// transcript as it then stands; saving and finishing leave it so whatever was
/// in the file; and nothing else touches it.
pub proof fn law_file_holds_the_transcript<T>(
    state: SessionState<T>,
    file: Seq<char>,
    command: SessionCommand,
    text: Seq<char>,
    seconds: nat,
)
    ensures
        file == state.text() || (state.lines.len() == 0 && state.is_news(text)) ==> file_after(
            file,
            state.text_steps(text, seconds),
        ) == state.after_text(text, seconds).text(),
        command == SessionCommand::SaveNow && !state.stopping ==> file_after(
            file,
            state.command_steps(command),
        ) == state.text(),
        command != SessionCommand::SaveNow || state.stopping ==> file_after(
            file,
            state.command_steps(command),
        ) == file,
        state.next_task() matches TaskText::Finish(steps) ==> file_after(file, steps)
            == state.text(),
        state.next_task() matches TaskText::Skip(steps) ==> file_after(file, steps) == file,
{
    reveal_with_fuel(file_after, 5);
    assert(seq![StepText::Skipped].drop_last() =~= Seq::empty());
    if state.is_news(text) {
        let line = state.line_for(text, seconds);
        if grows_at_its_end(state.format) {
            law_document_grows_at_its_end(state.format, state.lines, line);
        }
    }
    let steps = state.text_steps(text, seconds);
    if state.is_news(text) {
        assert(steps.drop_last().drop_last().drop_last().last() == steps[0]);
        assert(steps.drop_last().drop_last().last() == steps[1]);
        assert(steps.drop_last().last() == steps[2]);
        assert(steps.drop_last().drop_last().drop_last().drop_last() =~= Seq::empty());
    } else {
        assert(steps.drop_last() =~= Seq::empty());
    }
    let obeying = state.command_steps(command);
    if !state.stopping {
        match command {
            SessionCommand::SaveNow => {
                assert(obeying.drop_last().last() == obeying[2]);
                assert(obeying.drop_last().drop_last().last() == obeying[1]);
            },
            _ => {
                assert(obeying.drop_last() =~= Seq::empty());
            },
        }
    }
    if let TaskText::Finish(last) = state.next_task() {
        assert(last.drop_last().last() == last[1]);
        assert(last.drop_last().drop_last().last() == last[0]);
    }
}

/// A line is in the file before anyone is told of it, and the watchers are told
/// that the transcript was saved only after it was written.
pub proof fn law_lines_are_written_before_they_are_shown<T>(
    state: SessionState<T>,
    file: Seq<char>,
    text: Seq<char>,
    seconds: nat,
)
    requires
        state.is_news(text),
        file == state.text() || state.lines.len() == 0,
    ensures
        file_after(file, state.text_steps(text, seconds).take(1)) == state.after_text(
            text,
            seconds,
        ).text(),
        state.text_steps(text, seconds)[1] == StepText::Segment(state.line_for(text, seconds)),
        state.text_steps(text, seconds)[2] == StepText::Saved(state.output_path),
{
    reveal_with_fuel(file_after, 2);
    if grows_at_its_end(state.format) {
        law_document_grows_at_its_end(state.format, state.lines, state.line_for(text, seconds));
    }
    let first = state.text_steps(text, seconds).take(1);
    assert(first.last() == state.text_steps(text, seconds)[0]);
    assert(first.drop_last() =~= Seq::empty());
}

/// A session that was told to stop stops the microphone first, has all that is
/// still pending recognized, and only then writes the transcript, reports it
/// saved and is over.
pub proof fn law_stopping_comes_in_order<T>(state: SessionState<T>)
    requires
        state.is_sound(),
        state.running,
        !state.stopping,
    ensures
        state.command_steps(SessionCommand::Stop) == seq![StepText::StopCapture],
        state.after_command(SessionCommand::Stop).running,
        state.after_command(SessionCommand::Stop).next_task() is Wait ==> state.queue.len() > 0,
        !(state.after_command(SessionCommand::Stop).next_task() is Skip),
        state.pending.len() > state.kept && !state.is_full()
            ==> state.after_command(SessionCommand::Stop).next_task() is Recognize,
        state.pending.len() > state.kept ==> !(state.after_command(
            SessionCommand::Stop,
        ).next_task() is Finish),
{
}

/// A session that stops comes to its end: it waits only while pieces are
/// unanswered, every task leaves less audio to recognize, every answer leaves
/// one piece less to wait for, and when nothing is left the session is finished,
/// with the whole transcript as its last word.
pub proof fn law_stopping_comes_to_an_end<T>(
    state: SessionState<T>,
    text: Seq<char>,
    seconds: nat,
)
    requires
        state.is_sound(),
        state.running,
        state.stopping,
    ensures
        !(state.next_task() is Skip),
        state.next_task() is Wait ==> state.queue.len() > 0 && state.after_text(
            text,
            seconds,
        ).queue.len() < state.queue.len() && state.after_gap().queue.len() < state.queue.len(),
        state.next_task() is Recognize ==> state.after_task().pending.len() < state.pending.len()
            && state.after_task().stopping && state.after_task().running,
        state.next_task() is Finish <==> state.pending.len() <= state.kept && state.pending.len()
            < state.chunk_samples && state.queue.len() == 0,
        state.next_task() is Finish ==> !state.after_task().running && state.next_task()
            == TaskText::<T>::Finish(
            seq![
                StepText::Write(state.text()),
                StepText::Saved(state.output_path),
                StepText::Status(SessionStatus::Stopped),
            ],
        ),
{
}

/// Stopping loses no audio: the pieces that are recognized, each up to where
/// the next one starts, and what is then left are all that was pending; and
/// what is left is recognized too, unless there is nothing new in it, in which
/// case the last piece ended with it.
pub proof fn law_stopping_loses_no_audio<T>(state: SessionState<T>)
    requires
        state.is_sound(),
        state.running,
        state.stopping,
    ensures
        starts_of(
            windows(state.pending, state.chunk_samples, state.stride()),
            state.stride(),
        ).flatten() + state.after_windows().pending == state.pending,
        state.after_windows().pending.len() > state.after_windows().kept && !state.is_full()
            ==> state.after_windows().next_task() == TaskText::Recognize(
            state.after_windows().pending,
        ),
        state.after_windows().pending.len() <= state.after_windows().kept && windows(
            state.pending,
            state.chunk_samples,
            state.stride(),
        ).len() > 0 ==> state.after_windows().pending == windows(
            state.pending,
            state.chunk_samples,
            state.stride(),
        ).last().skip(state.stride() as int),
{
    law_windows_make_up_the_audio(state.pending, state.chunk_samples, state.stride());
    let left = state.after_windows();
    if windows(state.pending, state.chunk_samples, state.stride()).len() > 0 {
        lemma_rest_starts_with_the_overlap(state.pending, state.chunk_samples, state.stride());
        if left.pending.len() <= left.kept {
            assert(left.pending.take(OVERLAP_SAMPLES as int) =~= left.pending);
        }
    }
}

/// Handing out one task after the other while there are full pieces leads to
/// where all of them have been handed out.
pub proof fn law_tasks_lead_behind_the_windows<T>(state: SessionState<T>)
    requires
        state.is_sound(),
        state.running,
    ensures
        state.pending.len() >= state.chunk_samples && !state.is_full() ==> (SessionState {
            gap: state.gap,
            queue: state.queue,
            ..state.after_task().after_windows()
        }) == state.after_windows(),
        state.pending.len() < state.chunk_samples ==> state.after_windows() == state,
{
    if state.pending.len() >= state.chunk_samples {
        assert(windows(state.pending, state.chunk_samples, state.stride()).len() > 0);
    }
}

/// The last words are in the final transcript: a session that stops has the rest
/// of its audio recognized, and when the last piece is answered, what is written
/// last holds the line for it.
pub proof fn law_last_words_are_saved<T>(state: SessionState<T>, text: Seq<char>, seconds: nat)
    requires
        state.is_sound(),
        state.running,
        state.stopping,
        state.pending.len() < state.chunk_samples,
    ensures
        state.pending.len() > state.kept && !state.is_full() ==> state.next_task()
            == TaskText::Recognize(state.pending) && state.after_task().pending.len() == 0,
        state.pending.len() <= state.kept && state.queue.len() == 1 && state.is_news(text)
            ==> state.after_text(text, seconds).next_task() == TaskText::<T>::Finish(
            seq![
                StepText::Write(
                    document(state.format, state.lines.push(state.line_for(text, seconds))),
                ),
                StepText::Saved(state.output_path),
                StepText::Status(SessionStatus::Stopped),
            ],
        ),
{
}

/// Nothing but recognized text changes the lines of a transcript, and that
/// only adds one at the end.
pub proof fn law_transcript_is_only_added_to<T>(
    state: SessionState<T>,
    command: SessionCommand,
    samples: Seq<T>,
    text: Seq<char>,
    seconds: nat,
)
    ensures
        state.after_command(command).lines == state.lines,
        state.after_audio(samples).lines == state.lines,
        state.after_task().lines == state.lines,
        state.after_gap().lines == state.lines,
        state.lines.is_prefix_of(state.after_text(text, seconds).lines),
        state.after_text(text, seconds).lines.len() <= state.lines.len() + 1,
{
}

/// Saying the same thing again at once, with no piece skipped between, adds
/// nothing.
pub proof fn law_repetition_adds_nothing<T>(
    state: SessionState<T>,
    text: Seq<char>,
    seconds: nat,
    later: nat,
)
    requires
        !(state.queue.len() > 1 && state.queue[1]),
    ensures
        state.after_text(text, seconds).after_text(text, later).lines == state.after_text(
            text,
            seconds,
        ).lines,
        state.after_text(text, seconds).text_steps(text, later) == seq![
            StepText::Status(state.resting()),
        ],
{
    let after = state.after_text(text, seconds);
    let core = trimmed(text);
    law_overlap_is_the_longest(core, core);
    if core.len() > 0 {
        assert(core.take(core.len() as int) =~= core.skip(0));
        assert(is_repetition(core, core, core.len()));
        assert(overlap(core, core) == core.len());
    }
    assert(without_overlap(core, core) =~= Seq::empty());
    assert(after.news(text).len() == 0);
}

/// A pause loses what is said in it and nothing else: audio that comes while
/// the session is paused changes nothing, and after the pause it goes on as
/// if there had been none.
pub proof fn law_pause_loses_only_what_is_said_in_it<T>(state: SessionState<T>, samples: Seq<T>)
    requires
        !state.paused,
        !state.stopping,
    ensures
        state.after_command(SessionCommand::SetPaused(true)).after_audio(samples).after_command(
            SessionCommand::SetPaused(false),
        ) == state,
{
}

/// The steps while the model is being loaded. A program that was built without
/// a recognizer has nothing to load, and says so.
pub fn loading<L>(recognizer: bool) -> (steps: Vec<SessionStep<L>>)
    ensures
        step_texts(steps@) == if recognizer {
            seq![StepText::Status(SessionStatus::Loading)]
        } else {
            seq![
                StepText::Status(SessionStatus::Loading),
                StepText::Status(SessionStatus::Error),
            ]
        },
{
    let mut steps: Vec<SessionStep<L>> = Vec::new();
    steps.push(SessionStep::Emit(SessionEvent::Status(SessionStatus::Loading)));
    if !recognizer {
        steps.push(SessionStep::Emit(SessionEvent::Status(SessionStatus::Error)));
    }
    assert(step_texts(steps@) =~= if recognizer {
        seq![StepText::Status(SessionStatus::Loading)]
    } else {
        seq![StepText::Status(SessionStatus::Loading), StepText::Status(SessionStatus::Error)]
    });
    steps
}

/// The steps when the session itself has failed.
pub fn session_failed<L>(message: String) -> (steps: Vec<SessionStep<L>>)
    ensures
        step_texts(steps@) == seq![
            StepText::Error(message@),
            StepText::Status(SessionStatus::Error),
        ],
{
    let mut steps: Vec<SessionStep<L>> = Vec::new();
    steps.push(SessionStep::Emit(SessionEvent::Error(message)));
    steps.push(SessionStep::Emit(SessionEvent::Status(SessionStatus::Error)));
    assert(step_texts(steps@) =~= seq![
        StepText::Error(message@),
        StepText::Status(SessionStatus::Error),
    ]);
    steps
}

/// A second of audio has sixteen thousand samples; a piece is as long as it is
/// configured, but at least two seconds; two neighbours have one second in common;
/// and eight pieces may wait for an answer.
pub proof fn law_pieces_are_as_long_as_configured(config: UserConfig)
    ensures
        config.chunk_seconds >= 2 ==> configured_chunk(config) == 16000 * config.chunk_seconds,
        config.chunk_seconds < 2 ==> configured_chunk(config) == 32000,
        WHISPER_SAMPLE_RATE == 16000,
        OVERLAP_SAMPLES == 16000,
        MAX_OUTSTANDING == 8,
{
}

/// The session after all of `deliveries`, with no task taken between them.
pub open spec fn after_deliveries<T>(
    state: SessionState<T>,
    deliveries: Seq<Seq<T>>,
) -> SessionState<T>
    decreases deliveries.len(),
{
    if deliveries.len() == 0 {
        state
    } else {
        after_deliveries(state, deliveries.drop_last()).after_audio(deliveries.last())
    }
}

/// All samples of `deliveries`, in order.
pub open spec fn delivered<T>(deliveries: Seq<Seq<T>>) -> Seq<T>
    decreases deliveries.len(),
{
    if deliveries.len() == 0 {
        Seq::empty()
    } else {
        delivered(deliveries.drop_last()) + deliveries.last()
    }
}

/// While the session is not paused, every delivery of audio is kept whole, of
/// whatever length it is and however much is pending: all samples come behind
/// those that were there, in order, and nothing else changes. While it is paused,
/// nothing changes at all.
pub proof fn law_all_that_is_heard_is_kept<T>(state: SessionState<T>, deliveries: Seq<Seq<T>>)
    ensures
        !state.paused ==> after_deliveries(state, deliveries) == (SessionState {
            pending: state.pending + delivered(deliveries),
            ..state
        }),
        state.paused ==> after_deliveries(state, deliveries) == state,
        forall|samples: Seq<T>|
            !state.paused ==> (#[trigger] state.after_audio(samples)) == (SessionState {
                pending: state.pending + samples,
                ..state
            }),
        forall|samples: Seq<T>| state.paused ==> #[trigger] state.after_audio(samples) == state,
    decreases deliveries.len(),
{
    if deliveries.len() == 0 {
        assert(state.pending + delivered(deliveries) =~= state.pending);
    } else {
        law_all_that_is_heard_is_kept(state, deliveries.drop_last());
        assert(state.pending + delivered(deliveries.drop_last()) + deliveries.last()
            =~= state.pending + delivered(deliveries));
    }
}

/// What was heard is recognized: once enough has been delivered for a piece, in
/// however many deliveries, the next task is to recognize the oldest audio, as
/// much as a piece holds.
pub proof fn law_what_was_heard_is_recognized<T>(
    state: SessionState<T>,
    deliveries: Seq<Seq<T>>,
)
    requires
        state.running,
        !state.paused,
        state.queue.len() < 8,
        state.pending.len() + delivered(deliveries).len() >= state.chunk_samples,
    ensures
        after_deliveries(state, deliveries).next_task() == TaskText::Recognize(
            (state.pending + delivered(deliveries)).take(state.chunk_samples as int),
        ),
{
    law_all_that_is_heard_is_kept(state, deliveries);
}

/// A task takes the oldest audio. A full piece is recognized, and the next one
/// starts a second before its end; if eight pieces wait, it is skipped and
/// reported, unless the session stops. A session that stops has what is left
/// recognized, if any of it is new, and is finished when no piece waits; its last
/// steps write the transcript, report it saved and say that the session is over.
/// In all other cases there is nothing to do, and nothing changes.
pub proof fn law_tasks_take_the_oldest_audio<T>(state: SessionState<T>)
    requires
        state.chunk_samples > 16000,
        state.kept <= state.pending.len(),
    ensures
        ({
            let task = state.next_task();
            let after = state.after_task();
            let full_piece = state.pending.len() >= state.chunk_samples;
            let free = state.queue.len() < 8;
            &&& !state.running ==> task is Wait && after == state
            &&& state.running && full_piece && free ==> task == TaskText::Recognize(
                state.pending.take(state.chunk_samples as int),
            ) && after == (SessionState {
                pending: state.pending.skip(state.chunk_samples - 16000),
                kept: 16000,
                gap: false,
                queue: state.queue.push(state.gap),
                ..state
            })
            &&& state.running && full_piece && !free && !state.stopping ==> task == TaskText::<
                T,
            >::Skip(seq![StepText::Skipped]) && after == (SessionState {
                pending: state.pending.skip(state.chunk_samples - 16000),
                kept: 0,
                gap: true,
                ..state
            })
            &&& state.running && full_piece && !free && state.stopping ==> task is Wait && after
                == state
            &&& state.running && !full_piece && !state.stopping ==> task is Wait && after == state
            &&& state.running && !full_piece && state.stopping && state.pending.len() > state.kept
                && free ==> task == TaskText::Recognize(state.pending) && after == (SessionState {
                pending: Seq::empty(),
                kept: 0,
                gap: false,
                queue: state.queue.push(state.gap),
                ..state
            })
            &&& state.running && !full_piece && state.stopping && state.pending.len() > state.kept
                && !free ==> task is Wait && after == state
            &&& state.running && !full_piece && state.stopping && state.pending.len() <= state.kept
                && state.queue.len() > 0 ==> task is Wait && after == state
            &&& state.running && !full_piece && state.stopping && state.pending.len() <= state.kept
                && state.queue.len() == 0 ==> task == TaskText::<T>::Finish(
                seq![
                    StepText::Write(document(state.format, state.lines)),
                    StepText::Saved(state.output_path),
                    StepText::Status(SessionStatus::Stopped),
                ],
            ) && after == (SessionState { running: false, ..state })
        }),
{
}

/// A command does what it says and changes nothing else: a pause is begun or
/// ended and shown; saving writes the whole transcript and reports it saved
/// between the two statuses; stopping stops the microphone. Once the session
/// stops, no command does anything.
pub proof fn law_commands_do_what_they_say<T>(state: SessionState<T>, pause: bool)
    ensures
        ({
            let set = SessionCommand::SetPaused(pause);
            let rest = if state.paused {
                SessionStatus::Paused
            } else {
                SessionStatus::Listening
            };
            &&& state.resting() == rest
            &&& !state.stopping ==> {
                &&& state.after_command(set) == (SessionState { paused: pause, ..state })
                &&& state.command_steps(set) == seq![
                    StepText::Status(
                        if pause {
                            SessionStatus::Paused
                        } else {
                            SessionStatus::Listening
                        },
                    ),
                ]
                &&& state.after_command(SessionCommand::SaveNow) == state
                &&& state.command_steps(SessionCommand::SaveNow) == seq![
                    StepText::Status(SessionStatus::Saving),
                    StepText::Write(document(state.format, state.lines)),
                    StepText::Saved(state.output_path),
                    StepText::Status(rest),
                ]
                &&& state.after_command(SessionCommand::Stop) == (SessionState {
                    stopping: true,
                    ..state
                })
                &&& state.command_steps(SessionCommand::Stop) == seq![StepText::StopCapture]
            }
            &&& state.stopping ==> forall|command: SessionCommand|
                (#[trigger] state.after_command(command)) == state && state.command_steps(
                    command,
                ).len() == 0
        }),
{
}

/// An answer answers the oldest piece that waits. What is heard in it is compared
/// to what was heard in the piece before, and to nothing if that was skipped; a
/// piece that was passed over or failed leaves nothing to compare the next to.
/// The line before is the last one that was saved.
pub proof fn law_answers_come_in_order<T>(
    state: SessionState<T>,
    line: LineText,
    text: Seq<char>,
    seconds: nat,
)
    ensures
        state.queue.len() > 0 && state.queue[0] ==> state.context().len() == 0,
        state.queue.len() == 0 || !state.queue[0] ==> state.context() == state.heard,
        state.queue.len() > 0 ==> state.after_gap() == (SessionState {
            heard: Seq::empty(),
            queue: state.queue.drop_first(),
            ..state
        }),
        state.queue.len() == 0 ==> state.after_gap() == (SessionState {
            heard: Seq::empty(),
            ..state
        }),
        state.after_text(text, seconds) == (SessionState {
            heard: trimmed(text),
            lines: state.after_text(text, seconds).lines,
            queue: state.after_gap().queue,
            ..state
        }),
        state.lines.len() == 0 ==> state.last_text().len() == 0,
        (SessionState { lines: state.lines.push(line), ..state }).last_text() == line.text,
{
}

/// What a recognized text says, without what it repeats of the end of the text
/// before, is the next line of the transcript, with the time at which it came. It
/// is none only if nothing is left, or what is left is the line before, or is
/// longer than eight bytes and the end of the line before.
pub proof fn law_recognized_text_is_saved<T>(state: SessionState<T>, text: Seq<char>, seconds: nat)
    ensures
        ({
            let said = trimmed(without_overlap(state.context(), trimmed(text)));
            let known = said == state.last_text() || (encode_utf8(said).len() > 8 && encode_utf8(
                said,
            ).is_suffix_of(encode_utf8(state.last_text())));
            let line = LineText { timestamp: elapsed_text(seconds), text: said };
            let rest = StepText::Status(
                if state.paused {
                    SessionStatus::Paused
                } else {
                    SessionStatus::Listening
                },
            );
            let steps = state.text_steps(text, seconds);
            &&& said.len() == 0 || known ==> state.after_text(text, seconds).lines == state.lines
                && steps == seq![rest]
            &&& said.len() > 0 && !known ==> {
                &&& state.after_text(text, seconds).lines == state.lines.push(line)
                &&& steps.len() == 4
                &&& steps[1] == StepText::Segment(line)
                &&& steps[2] == StepText::Saved(state.output_path)
                &&& steps[3] == rest
                &&& state.lines.len() == 0 || state.format == TranscriptFormat::Json ==> steps[0]
                    == StepText::Write(document(state.format, state.lines.push(line)))
                &&& state.lines.len() > 0 && state.format != TranscriptFormat::Json ==> (steps[0]
                    matches StepText::Append(added) && document(state.format, state.lines) + added
                    == document(state.format, state.lines.push(line)))
            }
        }),
{
    let said = state.news(text);
    law_only_ends_are_repetitions(state.last_text(), said);
    if state.format != TranscriptFormat::Json {
        law_document_grows_at_its_end(state.format, state.lines, state.line_for(text, seconds));
    }
}

/// A text that starts with no end of the text before is saved as it was said,
/// however the two agree elsewhere, unless it is the line before or a longer end
/// of it.
pub proof fn law_text_that_continues_nothing_is_saved_whole<T>(
    state: SessionState<T>,
    text: Seq<char>,
    seconds: nat,
)
    requires
        trimmed(text).len() > 0,
        forall|length: int|
            0 < length <= trimmed(text).len() && length <= state.context().len()
                ==> #[trigger] trimmed(text).take(length) != state.context().skip(
                state.context().len() - length,
            ),
        trimmed(text) != state.last_text(),
        encode_utf8(trimmed(text)).len() <= 8 || !encode_utf8(trimmed(text)).is_suffix_of(
            encode_utf8(state.last_text()),
        ),
    ensures
        state.after_text(text, seconds).lines == state.lines.push(
            LineText { timestamp: elapsed_text(seconds), text: trimmed(text) },
        ),
{
    law_text_that_continues_nothing_is_kept(state.context(), trimmed(text));
    law_trimmed_has_no_outer_space(text);
    law_recognized_text_is_saved(state, text, seconds);
}

/// What two neighbouring pieces both say is saved once: of a text that goes on
/// behind the end of the text before, nothing is saved but what goes on.
pub proof fn law_common_words_are_saved_once<T>(
    state: SessionState<T>,
    before: Seq<char>,
    common: Seq<char>,
    rest: Seq<char>,
    text: Seq<char>,
)
    requires
        state.context() == before + common,
        trimmed(text) == common + rest,
        common.len() > 0,
        encode_utf8(common).len() > 8 || {
            &&& before.len() == 0 || is_white_space(before.last()) || is_white_space(common.first())
            &&& rest.len() == 0 || is_white_space(common.last()) || is_white_space(rest.first())
        },
    ensures
        state.news(text).len() <= rest.len(),
        exists|start: int|
            0 <= start <= rest.len() && state.news(text) == trimmed(#[trigger] rest.skip(start)),
{
    law_repeated_start_is_dropped(before, common, rest);
    let left = without_overlap(state.context(), trimmed(text));
    let ends = law_trimming_takes_only_outer_space(left);
    assert(state.news(text) == trimmed(rest.skip(rest.len() - left.len())));
}

/// Segments are put together in order, each without the white space around it.
/// There is one space between two of them if there was white space between ASCII
/// characters, or if an ASCII word or the mark behind one is followed by a
/// letter, a digit or an opening bracket; and nothing in all other cases, in
/// particular none beside Japanese.
pub proof fn law_segments_are_put_together_in_order(segments: Seq<String>, next: String)
    ensures
        joined_segments(Seq::empty()).len() == 0,
        !space_behind(Seq::empty()),
        next@.len() == 0 ==> space_behind(segments.push(next)) == space_behind(segments),
        next@.len() > 0 ==> space_behind(segments.push(next)) == is_white_space(next@.last()),
        ({
            let left = joined_segments(segments);
            let right = trimmed(next@);
            let whole = joined_segments(segments.push(next));
            let spaced = space_behind(segments) || (next@.len() > 0 && is_white_space(
                next@.first(),
            ));
            let last = left.last() as int;
            let first = right.first() as int;
            let word = 33 <= last <= 126 && last != 40 && last != 91 && (97 <= first <= 122 || 65
                <= first <= 90 || 48 <= first <= 57 || first == 40 || first == 91);
            &&& left.len() == 0 || right.len() == 0 ==> whole == left + right
            &&& left.len() > 0 && right.len() > 0 && (word || (spaced && last <= 126 && first
                <= 126)) ==> whole == left + seq![' '] + right
            &&& left.len() > 0 && right.len() > 0 && !word && !(spaced && last <= 126 && first
                <= 126) ==> whole == left + right
            &&& left.len() > 0 && right.len() > 0 && (last > 126 || first > 126) ==> whole == left
                + right
        }),
{
    reveal_strlit(" ");
    assert(" "@ =~= seq![' ']);
    assert(segments.push(next).drop_last() =~= segments);
}

/// The steps of a session are told whole, and so are its tasks.
pub proof fn law_steps_are_told_whole<T, L>(
    steps: Seq<SessionStep<L>>,
    text: String,
    line: TranscriptLine,
    path: PathBuf,
    status: SessionStatus,
    samples: Vec<T>,
    taken: Vec<SessionStep<L>>,
)
    ensures
        step_texts(steps).len() == steps.len(),
        forall|i: int| 0 <= i < steps.len() ==> #[trigger] step_texts(steps)[i] == steps[i]@,
        SessionStep::<L>::Write(text)@ == StepText::Write(text@),
        SessionStep::<L>::Append(text)@ == StepText::Append(text@),
        SessionStep::<L>::StopCapture@ == StepText::StopCapture,
        SessionStep::<L>::Emit(SessionEvent::Status(status))@ == StepText::Status(status),
        SessionStep::<L>::Emit(SessionEvent::Microphone(text))@ == StepText::Microphone(text@),
        SessionStep::<L>::Emit(SessionEvent::Saved(path))@ == StepText::Saved(path),
        SessionStep::<L>::Emit(SessionEvent::Error(text))@ == StepText::Error(text@),
        SessionStep::<L>::Emit(SessionEvent::Skipped)@ == StepText::Skipped,
        SessionStep::<L>::Emit(SessionEvent::Segment(line))@ == StepText::Segment(
            LineText { timestamp: line.timestamp@, text: line.text@ },
        ),
        SessionTask::<T, L>::Recognize(samples)@ == TaskText::Recognize(samples@),
        SessionTask::<T, L>::Skip(taken)@ == TaskText::<T>::Skip(step_texts(taken@)),
        SessionTask::<T, L>::Finish(taken)@ == TaskText::<T>::Finish(step_texts(taken@)),
        SessionTask::<T, L>::Wait@ == TaskText::<T>::Wait,
{
}

} // verus!
