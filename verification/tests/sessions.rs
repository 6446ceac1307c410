//! Transcripts and the sessions that write them.
use std::path::PathBuf;
use whispercli::app::{model_by_name, AppPaths, ModelFile};
use whispercli::settings::{TranscriptFormat, UserConfig};
use whispercli::output::{
    name_output, resolve_output_path, session_format, Output,
};
use whispercli::transcriber::{
    join_segments, loading, recognition_options, session_failed, start_session, Session,
    SessionCommand, SessionEvent, SessionStatus, SessionStep, SessionTask, MAX_OUTSTANDING,
    OVERLAP_SAMPLES, WHISPER_SAMPLE_RATE,
};
use whispercli::transcript::{format_elapsed, is_duplicate, write_transcript, TranscriptLine};

fn home_paths() -> AppPaths {
    AppPaths::new(Some(&PathBuf::from("/home/ann"))).unwrap()
}

fn config() -> UserConfig {
    let mut config = UserConfig::default_for(&home_paths(), None, Some(2));
    config.output_dir = PathBuf::from("/out");
    config.chunk_seconds = 2;
    config
}

fn output(format: TranscriptFormat) -> Output {
    Output { format, path: PathBuf::from("/out/a.md") }
}

fn session() -> Session<f32> {
    Session::new(&config(), output(TranscriptFormat::Md))
}

fn line(timestamp: &str, text: &str) -> TranscriptLine {
    TranscriptLine { timestamp: timestamp.to_string(), text: text.to_string() }
}

fn shown(steps: &[SessionStep<f32>]) -> Vec<String> {
    steps
        .iter()
        .map(|step| match step {
            SessionStep::Write(text) => format!("write {text}"),
            SessionStep::Append(text) => format!("append {text}"),
            SessionStep::StopCapture => "stop capture".to_string(),
            SessionStep::Emit(SessionEvent::Status(status)) => format!("{status:?}"),
            SessionStep::Emit(SessionEvent::Level(level)) => format!("level {level}"),
            SessionStep::Emit(SessionEvent::Microphone(name)) => format!("microphone {name}"),
            SessionStep::Emit(SessionEvent::Segment(line)) => {
                format!("segment {} {}", line.timestamp, line.text)
            }
            SessionStep::Emit(SessionEvent::Saved(path)) => format!("saved {}", path.display()),
            SessionStep::Emit(SessionEvent::Error(message)) => format!("error {message}"),
            SessionStep::Emit(SessionEvent::Skipped) => "skipped".to_string(),
        })
        .collect()
}

fn write_steps(file: &mut String, steps: &[SessionStep<f32>]) {
    for step in steps {
        match step {
            SessionStep::Write(text) => *file = text.clone(),
            SessionStep::Append(text) => file.push_str(text),
            SessionStep::Emit(_) | SessionStep::StopCapture => {}
        }
    }
}

/// The piece of audio that has to be recognized next.
fn piece(session: &mut Session<f32>) -> Option<Vec<f32>> {
    match session.next_task::<f32>() {
        SessionTask::Recognize(samples) => Some(samples),
        SessionTask::Wait => None,
        SessionTask::Skip(steps) | SessionTask::Finish(steps) => panic!("unexpected {steps:?}"),
    }
}

/// The last steps of a session that has nothing left to recognize.
fn finish(session: &mut Session<f32>) -> Vec<SessionStep<f32>> {
    match session.next_task() {
        SessionTask::Finish(steps) => steps,
        other => panic!("unexpected {other:?}"),
    }
}

#[test]
fn markdown_transcript() {
    let lines = vec![line("00:05", "hello"), line("01:10", "日本語")];
    assert_eq!(
        write_transcript(TranscriptFormat::Md, &lines).unwrap(),
        "# Transcript\n\n- [00:05] hello\n- [01:10] 日本語\n"
    );
    assert_eq!(write_transcript(TranscriptFormat::Md, &vec![]).unwrap(), "# Transcript\n\n");
}

#[test]
fn plain_transcript() {
    let lines = vec![line("00:05", "hello"), line("01:10", "bye")];
    assert_eq!(
        write_transcript(TranscriptFormat::Txt, &lines).unwrap(),
        "[00:05] hello\n[01:10] bye\n"
    );
    assert_eq!(write_transcript(TranscriptFormat::Txt, &vec![]).unwrap(), "");
}

#[test]
fn subtitles() {
    let lines = vec![line("00:05", "hello"), line("01:10", "two\nlines")];
    assert_eq!(
        write_transcript(TranscriptFormat::Srt, &lines).unwrap(),
        "1\n00:00:00,000 --> 00:00:05,000\nhello\n\n\
         2\n00:00:05,000 --> 00:01:10,000\ntwo lines\n\n"
    );
    assert_eq!(write_transcript(TranscriptFormat::Srt, &vec![]).unwrap(), "");
}

#[test]
fn subtitles_count_the_hours() {
    let lines = vec![line("59:58", "a"), line("00:05", "b"), line("00:05", "c"), line("00:01", "d")];
    let srt = write_transcript(TranscriptFormat::Srt, &lines).unwrap();
    let times: Vec<&str> = srt.lines().filter(|line| line.contains("-->")).collect();
    assert_eq!(
        times,
        vec![
            "00:00:00,000 --> 00:59:58,000",
            "00:59:58,000 --> 01:00:05,000",
            "01:00:05,000 --> 01:00:05,000",
            "01:00:05,000 --> 02:00:01,000",
        ]
    );
}

#[test]
fn json_lines() {
    let lines = vec![line("00:05", "say \"hi\""), line("01:10", "a\nb")];
    assert_eq!(
        write_transcript(TranscriptFormat::Jsonl, &lines).unwrap(),
        "{\"timestamp\":\"00:05\",\"text\":\"say \\\"hi\\\"\"}\n\
         {\"timestamp\":\"01:10\",\"text\":\"a\\u000ab\"}\n"
    );
    assert_eq!(write_transcript(TranscriptFormat::Jsonl, &vec![]).unwrap(), "");
}

#[test]
fn json_array() {
    let lines = vec![line("00:05", "a"), line("01:10", "b")];
    assert_eq!(
        write_transcript(TranscriptFormat::Json, &lines).unwrap(),
        "[\n{\"timestamp\":\"00:05\",\"text\":\"a\"},\n\
         {\"timestamp\":\"01:10\",\"text\":\"b\"}\n]\n"
    );
    assert_eq!(write_transcript(TranscriptFormat::Json, &vec![]).unwrap(), "[\n\n]\n");
}

#[test]
fn every_format_holds_every_text_once() {
    let lines: Vec<TranscriptLine> =
        (0..12).map(|i| line("00:01", &format!("text number {i};"))).collect();
    for format in TranscriptFormat::all() {
        let text = write_transcript(*format, &lines).unwrap();
        let mut place = 0;
        for line in &lines {
            assert_eq!(text.matches(line.text.as_str()).count(), 1);
            let found = text.find(line.text.as_str()).unwrap();
            assert!(found >= place);
            place = found;
        }
    }
    let srt = write_transcript(TranscriptFormat::Srt, &lines).unwrap();
    assert_eq!(srt.lines().count(), 48);
    assert!(srt.contains("\n\n12\n00:00:01,000 --> "));
    assert_eq!(write_transcript(TranscriptFormat::Jsonl, &lines).unwrap().lines().count(), 12);
}

#[test]
fn duplicates_are_recognized() {
    assert!(is_duplicate("short", "short"));
    assert!(is_duplicate("", ""));
    assert!(!is_duplicate("not long", "long"));
    assert!(is_duplicate("this is a longer text", "longer text"));
    assert!(!is_duplicate("longer text", "a longer text"));
    assert!(is_duplicate("こんにちは", "にちは"));
    assert!(!is_duplicate("こんにちは", "ちは"));
}

#[test]
fn elapsed_time_has_minutes_and_seconds() {
    assert_eq!(format_elapsed(0), "00:00");
    assert_eq!(format_elapsed(65), "01:05");
    assert_eq!(format_elapsed(3599), "59:59");
    assert_eq!(format_elapsed(3600), "00:00");
}

#[test]
fn recognition_follows_the_configuration() {
    let mut config = config();
    config.language = "en".to_string();
    config.threads = 6;
    let options = recognition_options(&config, "said before");
    assert_eq!(options.prompt, "said before");
    assert_eq!(options.language, "en");
    assert_eq!(options.threads, 6);
    assert_eq!(options.best_of, 1);
    assert!(options.single_segment && !options.no_context);
    assert!(!options.translate && !options.print_special && !options.print_progress);
    assert!(!options.print_realtime && !options.print_timestamps);
}

#[test]
fn segments_are_trimmed_and_joined() {
    let segments = |texts: &[&str]| {
        join_segments(&texts.iter().map(|text| text.to_string()).collect::<Vec<String>>())
    };
    assert_eq!(segments(&[]), "");
    assert_eq!(segments(&[" こんにちは ", "世界\n"]), "こんにちは世界");
    assert_eq!(segments(&[" hello ", " world "]), "hello world");
    assert_eq!(segments(&["Hello.", "World"]), "Hello. World");
    assert_eq!(segments(&["hello", ", world"]), "hello, world");
    assert_eq!(segments(&["see", "(this)"]), "see (this)");
    assert_eq!(segments(&[" said", " \"hi\""]), "said \"hi\"");
    assert_eq!(segments(&["said ", "", "\"hi\""]), "said \"hi\"");
    assert_eq!(segments(&["said", " ", "\"hi\""]), "said \"hi\"");
    assert_eq!(segments(&["don", "'t"]), "don't");
    assert_eq!(segments(&[" 日本 ", " です"]), "日本です");
    assert_eq!(segments(&["v", "  ", "3"]), "v 3");
    assert_eq!(segments(&["GPT", "です"]), "GPTです");
}

#[test]
fn transcripts_without_a_name_are_meetings() {
    let output = resolve_output_path(&config(), None, None);
    assert_eq!(output.path, PathBuf::from("/out/meeting.md"));
    assert_eq!(output.format, TranscriptFormat::Md);
    let output = resolve_output_path(&config(), Some(TranscriptFormat::Txt), None);
    assert_eq!(output.path, PathBuf::from("/out/meeting.txt"));
    assert_eq!(output.format, TranscriptFormat::Txt);
}

#[test]
fn explicit_extensions_are_kept() {
    let output = resolve_output_path(&config(), None, Some("notes/day.txt".to_string()));
    assert_eq!(output.path, PathBuf::from("/out/notes/day.txt"));
    assert_eq!(output.format, TranscriptFormat::Txt);
    let output = resolve_output_path(&config(), None, Some("day.log".to_string()));
    assert_eq!(output.path, PathBuf::from("/out/day.log"));
    assert_eq!(output.format, TranscriptFormat::Md);
}

#[test]
fn requested_formats_replace_extensions() {
    let output =
        resolve_output_path(&config(), Some(TranscriptFormat::Txt), Some("day.md".to_string()));
    assert_eq!(output.path, PathBuf::from("/out/day.txt"));
    assert_eq!(output.format, TranscriptFormat::Txt);
}

#[test]
fn missing_extensions_are_added() {
    let path = |name: &str| resolve_output_path(&config(), None, Some(name.to_string())).path;
    assert_eq!(path("day"), PathBuf::from("/out/day.md"));
    assert_eq!(path("day."), PathBuf::from("/out/day.md"));
    assert_eq!(path(".day"), PathBuf::from("/out/.day.md"));
    let txt = |name: &str| {
        resolve_output_path(&config(), Some(TranscriptFormat::Txt), Some(name.to_string())).path
    };
    assert_eq!(txt("..b"), PathBuf::from("/out/..txt"));
    assert_eq!(txt(".."), PathBuf::from("/out/.."));
}

#[test]
fn absolute_paths_stay() {
    let output = resolve_output_path(&config(), None, Some("/tmp/day".to_string()));
    assert_eq!(output.path, PathBuf::from("/tmp/day.md"));
    let output = resolve_output_path(&config(), None, Some("../day.md".to_string()));
    assert_eq!(output.path, PathBuf::from("/out/../day.md"));
}

#[test]
fn format_and_name_are_chosen_alike() {
    let typed = PathBuf::from("a.JSON");
    assert_eq!(session_format(TranscriptFormat::Md, None, &typed), TranscriptFormat::Json);
    assert_eq!(name_output(TranscriptFormat::Md, None, &typed), typed);
    let txt = Some(TranscriptFormat::Txt);
    assert_eq!(session_format(TranscriptFormat::Md, txt, &typed), TranscriptFormat::Txt);
    assert_eq!(name_output(TranscriptFormat::Md, txt, &typed), PathBuf::from("a.txt"));
}

#[test]
fn sessions_need_a_known_and_installed_model() {
    let mut config = config();
    let file = ModelFile::Digest("00".to_string());
    let plan = start_session(&home_paths(), &config, None, None, &file).ok().unwrap();
    assert_eq!(plan.model.name, "tiny");
    assert_eq!(plan.model_path, home_paths().model_path(model_by_name("tiny").unwrap()));
    assert_eq!(plan.output.path, PathBuf::from("/out/meeting.md"));
    config.model = "recommended".to_string();
    let error = start_session(&home_paths(), &config, None, None, &ModelFile::Absent).err().unwrap();
    assert_eq!(error.message(), "Model 'large-v3-turbo-q5_0' is not installed");
    config.model = "huge".to_string();
    let error = start_session(&home_paths(), &config, None, None, &file).err().unwrap();
    assert_eq!(error.message(), "Unknown model 'huge'");
}

#[test]
fn opening_reports_microphone_and_status() {
    assert_eq!(shown(&session().opened("USB".to_string())), vec!["microphone USB", "Listening"]);
    let mut paused = config();
    paused.start_paused = true;
    let session: Session<f32> = Session::new(&paused, output(TranscriptFormat::Md));
    assert_eq!(shown(&session.opened("USB".to_string())), vec!["microphone USB", "Paused"]);
}

#[test]
fn first_line_is_written_and_later_ones_are_appended() {
    let mut session = session();
    assert_eq!(
        shown(&session.recognized("  hello \n", 5)),
        vec![
            "write # Transcript\n\n- [00:05] hello\n",
            "segment 00:05 hello",
            "saved /out/a.md",
            "Listening",
        ]
    );
    assert_eq!(
        shown(&session.recognized("world", 65)),
        vec!["append - [01:05] world\n", "segment 01:05 world", "saved /out/a.md", "Listening"]
    );
}

#[test]
fn empty_and_repeated_texts_add_nothing() {
    let mut session = session();
    assert_eq!(shown(&session.recognized(" \n", 1)), vec!["Listening"]);
    session.recognized::<f32>("a longer sentence", 2);
    assert_eq!(shown(&session.recognized("a longer sentence", 3)), vec!["Listening"]);
    assert_eq!(shown(&session.recognized("longer sentence", 4)), vec!["Listening"]);
    assert_eq!(session.last_text(), "a longer sentence");
}

#[test]
fn repeated_text_is_trimmed_before_it_is_saved() {
    let mut session = session();
    session.recognized::<f32>("hello world", 1);
    assert_eq!(
        shown(&session.recognized(" world again ", 2)),
        vec!["append - [00:02] again\n", "segment 00:02 again", "saved /out/a.md", "Listening"]
    );
    assert_eq!(shown(&session.recognized("world again and again", 3))[1], "segment 00:03 and again");
}

#[test]
fn accidental_agreement_is_not_trimmed() {
    let mut session = session();
    session.recognized::<f32>("banana", 1);
    assert_eq!(shown(&session.recognized("apple", 2))[1], "segment 00:02 apple");
    session.recognized::<f32>("そうです", 3);
    assert_eq!(shown(&session.recognized("すみません", 4))[1], "segment 00:04 すみません");
}

#[test]
fn nothing_is_trimmed_after_a_gap() {
    let mut session = session();
    session.recognized::<f32>("hello world", 1);
    assert!(session.before_recognition::<f32>(true).is_empty());
    assert_eq!(shown(&session.recognized("world again", 2))[1], "segment 00:02 world again");
    session.recognition_failed::<f32>("no".to_string());
    assert_eq!(shown(&session.recognized("again and again", 3))[1], "segment 00:03 again and again");
    session.recognized::<f32>(" ", 4);
    assert_eq!(shown(&session.recognized("again", 5))[1], "segment 00:05 again");
}

#[test]
fn file_always_holds_the_transcript() {
    let mut session = session();
    let mut file = String::new();
    for (text, seconds) in [("one", 1), ("two", 2), ("two", 3), ("three", 64)] {
        write_steps(&mut file, &session.recognized(text, seconds));
    }
    assert_eq!(file, "# Transcript\n\n- [00:01] one\n- [00:02] two\n- [01:04] three\n");
    let kept = file.clone();
    write_steps(&mut file, &session.obey(SessionCommand::SetPaused(true)));
    assert_eq!(file, kept);
    let mut lost = String::from("something else");
    write_steps(&mut lost, &session.obey(SessionCommand::SaveNow));
    assert_eq!(lost, kept);
    write_steps(&mut file, &session.obey(SessionCommand::Stop));
    assert_eq!(file, kept);
    let mut lost = String::new();
    write_steps(&mut lost, &finish(&mut session));
    assert_eq!(lost, kept);
}

#[test]
fn plain_sessions_have_no_heading() {
    let mut session: Session<f32> = Session::new(&config(), output(TranscriptFormat::Txt));
    assert_eq!(shown(&session.recognized("one", 1))[0], "write [00:01] one\n");
    assert_eq!(shown(&session.recognized("two", 2))[0], "append [00:02] two\n");
}

#[test]
fn json_sessions_are_written_anew() {
    let mut session: Session<f32> = Session::new(&config(), output(TranscriptFormat::Json));
    let mut file = String::new();
    for text in ["one", "two"] {
        let steps = session.recognized(text, 1);
        assert!(shown(&steps)[0].starts_with("write [\n"));
        write_steps(&mut file, &steps);
    }
    assert_eq!(
        file,
        write_transcript(TranscriptFormat::Json, &vec![line("00:01", "one"), line("00:01", "two")])
            .unwrap()
    );
}

#[test]
fn file_is_the_transcript_in_every_format() {
    for format in TranscriptFormat::all() {
        let mut session: Session<f32> = Session::new(&config(), output(*format));
        let mut file = String::new();
        let mut lines = vec![];
        for text in ["one", "two", "three"] {
            lines.push(line("00:07", text));
            write_steps(&mut file, &session.recognized(text, 7));
            assert_eq!(file, write_transcript(*format, &lines).unwrap());
        }
    }
}

#[test]
fn commands_are_obeyed() {
    let mut session = session();
    assert_eq!(shown(&session.obey(SessionCommand::SetPaused(true))), vec!["Paused"]);
    assert_eq!(
        shown(&session.obey(SessionCommand::SaveNow)),
        vec!["Saving", "write # Transcript\n\n", "saved /out/a.md", "Paused"]
    );
    assert_eq!(shown(&session.obey(SessionCommand::SetPaused(false))), vec!["Listening"]);
    assert!(session.is_running());
    assert_eq!(shown(&session.obey(SessionCommand::Stop)), vec!["stop capture"]);
    assert!(session.is_running());
    assert!(session.obey::<f32>(SessionCommand::SetPaused(true)).is_empty());
    assert_eq!(
        shown(&finish(&mut session)),
        vec!["write # Transcript\n\n", "saved /out/a.md", "Stopped"]
    );
    assert!(!session.is_running());
    assert!(matches!(session.next_task::<f32>(), SessionTask::Wait));
}

#[test]
fn pieces_of_audio_overlap() {
    let length = 2 * WHISPER_SAMPLE_RATE as usize;
    let audio: Vec<f32> = (0..length + OVERLAP_SAMPLES).map(|i| i as f32).collect();
    let mut session = session();
    session.hear(audio[..length - 1].to_vec());
    assert_eq!(piece(&mut session), None);
    session.hear(audio[length - 1..].to_vec());
    assert_eq!(piece(&mut session).unwrap(), audio[..length].to_vec());
    let stride = length - OVERLAP_SAMPLES;
    assert_eq!(piece(&mut session).unwrap(), audio[stride..stride + length].to_vec());
    assert_eq!(piece(&mut session), None);
}

#[test]
fn deliveries_do_not_matter() {
    let audio: Vec<f32> = (0..100_000).map(|i| i as f32).collect();
    let mut whole = session();
    whole.hear(audio.clone());
    let mut parts = session();
    let mut pieces = vec![];
    for delivery in audio.chunks(777) {
        parts.hear(delivery.to_vec());
        while let Some(samples) = piece(&mut parts) {
            pieces.push(samples);
            parts.recognized::<f32>("", 0);
        }
    }
    for samples in pieces {
        assert_eq!(piece(&mut whole), Some(samples));
        whole.recognized::<f32>("", 0);
    }
    assert_eq!(piece(&mut whole), None);
}

#[test]
fn short_pieces_are_at_least_two_seconds_long() {
    let mut short = config();
    short.chunk_seconds = 0;
    let mut session: Session<u8> = Session::new(&short, output(TranscriptFormat::Md));
    session.hear(vec![0; 32000]);
    assert!(matches!(
        session.next_task::<f32>(),
        SessionTask::Recognize(samples) if samples.len() == 32000
    ));
}

#[test]
fn last_words_are_recognized_before_the_session_ends() {
    let mut session = session();
    session.hear(vec![0.5, 0.25]);
    assert_eq!(piece(&mut session), None);
    session.obey::<f32>(SessionCommand::Stop);
    session.hear(vec![0.125]);
    assert_eq!(piece(&mut session), Some(vec![0.5, 0.25, 0.125]));
    assert!(matches!(session.next_task::<f32>(), SessionTask::Wait));
    session.recognized::<f32>("last words", 61);
    assert_eq!(
        shown(&finish(&mut session))[0],
        "write # Transcript\n\n- [01:01] last words\n"
    );
}

#[test]
fn last_words_after_silence_are_saved_as_they_were_said() {
    let mut session = session();
    session.recognized::<f32>("banana", 1);
    session.before_recognition::<f32>(true);
    session.hear(vec![0.5]);
    session.obey::<f32>(SessionCommand::Stop);
    piece(&mut session).unwrap();
    session.recognized::<f32>("apple", 2);
    assert_eq!(
        shown(&finish(&mut session))[0],
        "write # Transcript\n\n- [00:01] banana\n- [00:02] apple\n"
    );
}

fn skip(session: &mut Session<f32>) -> Vec<String> {
    match session.next_task() {
        SessionTask::Skip(steps) => shown(&steps),
        task => panic!("unexpected {task:?}"),
    }
}

#[test]
fn pieces_are_skipped_while_too_many_wait() {
    let length = 2 * WHISPER_SAMPLE_RATE as usize;
    let stride = length - OVERLAP_SAMPLES;
    let mut session = session();
    let samples: Vec<f32> =
        (0..stride * (MAX_OUTSTANDING + 2) + OVERLAP_SAMPLES).map(|at| at as f32).collect();
    session.hear(samples.clone());
    for at in 0..MAX_OUTSTANDING {
        assert_eq!(piece(&mut session).unwrap()[0], (at * stride) as f32);
    }
    assert_eq!(skip(&mut session), vec!["skipped"]);
    for second in 0..MAX_OUTSTANDING - 1 {
        session.recognized::<f32>("", second as u64);
    }
    assert_eq!(piece(&mut session).unwrap()[0], ((MAX_OUTSTANDING + 1) * stride) as f32);
    assert_eq!(piece(&mut session), None);
    session.recognized::<f32>("hello world", 20);
    assert_eq!(shown(&session.recognized("world again", 21))[1], "segment 00:21 world again");
    assert_eq!(shown(&session.recognized("again", 22)), vec!["Listening"]);
}

#[test]
fn nothing_is_skipped_once_the_session_stops() {
    let length = 2 * WHISPER_SAMPLE_RATE as usize;
    let mut session = session();
    session.hear(vec![0.5; length * 20]);
    session.obey::<f32>(SessionCommand::Stop);
    for _ in 0..MAX_OUTSTANDING {
        assert!(piece(&mut session).is_some());
    }
    assert_eq!(piece(&mut session), None);
    session.recognized::<f32>("one", 1);
    assert!(piece(&mut session).is_some());
    assert_eq!(piece(&mut session), None);
}

#[test]
fn the_end_of_a_skipped_piece_is_recognized_when_the_session_stops() {
    let length = 2 * WHISPER_SAMPLE_RATE as usize;
    let stride = length - OVERLAP_SAMPLES;
    let mut session = session();
    session.hear(vec![0.5; stride * (MAX_OUTSTANDING + 1) + OVERLAP_SAMPLES]);
    for _ in 0..MAX_OUTSTANDING {
        assert!(piece(&mut session).is_some());
    }
    skip(&mut session);
    session.obey::<f32>(SessionCommand::Stop);
    assert_eq!(piece(&mut session), None);
    session.recognized::<f32>("one", 1);
    assert_eq!(piece(&mut session).unwrap().len(), OVERLAP_SAMPLES);
}

#[test]
fn answers_during_a_pause_leave_the_session_paused() {
    let mut session = session();
    session.obey::<f32>(SessionCommand::SetPaused(true));
    assert_eq!(shown(&session.recognized("one", 1))[3], "Paused");
    assert_eq!(shown(&session.recognized("one", 2)), vec!["Paused"]);
    assert_eq!(shown(&session.recognition_failed("no".to_string())), vec!["error no", "Paused"]);
}

#[test]
fn nothing_is_recognized_twice_at_the_end() {
    let length = 2 * WHISPER_SAMPLE_RATE as usize;
    let mut session = session();
    session.hear(vec![0.5; length]);
    session.obey::<f32>(SessionCommand::Stop);
    assert_eq!(piece(&mut session).unwrap().len(), length);
    session.recognized::<f32>("one", 1);
    finish(&mut session);
}

#[test]
fn what_is_new_at_the_end_is_recognized_with_the_overlap() {
    let length = 2 * WHISPER_SAMPLE_RATE as usize;
    let mut session = session();
    session.hear(vec![0.5; length + 1]);
    session.obey::<f32>(SessionCommand::Stop);
    assert_eq!(piece(&mut session).unwrap().len(), length);
    assert_eq!(piece(&mut session).unwrap().len(), OVERLAP_SAMPLES + 1);
    assert_eq!(piece(&mut session), None);
    session.recognized::<f32>("one", 1);
    assert_eq!(piece(&mut session), None);
    session.before_recognition::<f32>(true);
    finish(&mut session);
}

#[test]
fn audio_is_thrown_away_in_a_pause() {
    let mut session = session();
    session.hear(vec![1.0]);
    session.obey::<f32>(SessionCommand::SetPaused(true));
    session.hear(vec![2.0]);
    session.obey::<f32>(SessionCommand::SetPaused(false));
    session.hear(vec![3.0]);
    session.obey::<f32>(SessionCommand::Stop);
    assert_eq!(piece(&mut session), Some(vec![1.0, 3.0]));
}

#[test]
fn loading_is_announced() {
    assert_eq!(shown(&loading(true)), vec!["Loading"]);
    assert_eq!(shown(&loading(false)), vec!["Loading", "Error"]);
}

#[test]
fn silence_is_passed_over() {
    assert!(session().before_recognition::<f32>(true).is_empty());
    assert_eq!(shown(&session().before_recognition(false)), vec!["Processing"]);
}

#[test]
fn failures_are_reported() {
    assert_eq!(
        shown(&session().recognition_failed("no".to_string())),
        vec!["error no", "Listening"]
    );
    assert_eq!(shown(&session_failed("no".to_string())), vec!["error no", "Error"]);
    assert_ne!(SessionStatus::Error, SessionStatus::Loading);
}

#[test]
fn copies_of_lines_are_the_same() {
    let copy = line("00:01", "a").clone();
    assert_eq!((copy.timestamp.as_str(), copy.text.as_str()), ("00:01", "a"));
}
