//! The screen: keys, clicks, and what is drawn where.
use std::path::PathBuf;
use whispercli::app::AppPaths;
use whispercli::cli::LiveArgs;
use whispercli::tui::{
    action_targets, body_layout, button, commands, compose, contains, elapsed, engine_message,
    handle_key, handle_mouse, header, is_wide, render, session, setup_message, App, Area, Key,
    KeyMotion, KeyPress, MouseAction, MouseInput, MouseTarget, Panel, RunOutcome, ScreenMode, Sizing,
    Surroundings, Tone, Wrapping,
};

fn home_paths() -> AppPaths {
    AppPaths::new(Some(&PathBuf::from("/home/ann"))).unwrap()
}

fn app(installed: bool) -> App {
    App::new(LiveArgs::default(), home_paths(), installed).unwrap()
}

fn area(x: u16, y: u16, width: u16, height: u16) -> Area {
    Area { x, y, width, height }
}

fn around() -> Surroundings<'static> {
    Surroundings { seconds: 3725, installed: false, root: "~/.whispercli" }
}

fn press(key: Key, control: bool) -> KeyPress {
    KeyPress { key, control, motion: KeyMotion::Press }
}

fn click(column: u16, row: u16) -> MouseInput {
    MouseInput { left_down: true, column, row }
}

fn texts(panel: &Panel) -> Vec<String> {
    panel
        .lines
        .iter()
        .map(|line| line.iter().map(|piece| piece.text.as_str()).collect::<Vec<&str>>().concat())
        .collect()
}

#[test]
fn screens_depend_on_the_model() {
    assert_eq!(app(false).screen_mode, ScreenMode::SetupRequired);
    assert_eq!(app(true).screen_mode, ScreenMode::EnginePending);
    let app = app(false);
    assert!(app.running);
    assert_eq!(app.outcome, RunOutcome::Quit);
    assert_eq!(app.selected_model.name, "tiny");
    assert!(app.mouse_targets.is_empty());
}

#[test]
fn unknown_models_open_no_screen() {
    let args = LiveArgs { model: "huge".to_string(), ..LiveArgs::default() };
    assert_eq!(
        App::new(args, home_paths(), false).unwrap_err().message(),
        "Unknown model 'huge'. Supported models: tiny, base, small, large-v3-turbo-q5_0, recommended"
    );
}

#[test]
fn quit_keys_leave_either_screen() {
    for installed in [false, true] {
        for key in [press(Key::Esc, false), press(Key::Char('q'), false), press(Key::Char('c'), true)] {
            let mut app = app(installed);
            handle_key(key, &mut app);
            assert!(!app.running);
            assert_eq!(app.outcome, RunOutcome::Quit);
        }
    }
}

#[test]
fn installation_is_asked_for_while_the_model_is_missing() {
    let mut missing = app(false);
    handle_key(press(Key::Char('i'), false), &mut missing);
    assert!(!missing.running);
    assert_eq!(missing.outcome, RunOutcome::InstallModel);
    let mut present = app(true);
    handle_key(press(Key::Char('i'), false), &mut present);
    assert!(present.running);
    assert_eq!(present.outcome, RunOutcome::Quit);
}

#[test]
fn other_keys_do_nothing() {
    for key in [press(Key::Char('c'), false), press(Key::Char('x'), true), press(Key::Other, false)] {
        let mut app = app(false);
        handle_key(key, &mut app);
        assert!(app.running);
    }
}

#[test]
fn keys_count_only_when_they_go_down() {
    for motion in [KeyMotion::Repeat, KeyMotion::Release] {
        for key in [Key::Esc, Key::Char('q'), Key::Char('i')] {
            let mut app = app(false);
            handle_key(KeyPress { key, control: false, motion }, &mut app);
            assert!(app.running);
        }
    }
}

#[test]
fn edges_of_an_area() {
    let area = area(2, 3, 4, 1);
    assert!(contains(area, 2, 3));
    assert!(contains(area, 5, 3));
    assert!(!contains(area, 6, 3));
    assert!(!contains(area, 1, 3));
    assert!(!contains(area, 2, 2));
    assert!(!contains(area, 2, 4));
}

#[test]
fn clicks_reach_the_first_target() {
    let targets = || {
        vec![
            MouseTarget { area: area(0, 0, 10, 2), action: MouseAction::InstallModel },
            MouseTarget { area: area(0, 1, 10, 2), action: MouseAction::Quit },
        ]
    };
    let mut screen = app(false);
    screen.set_mouse_targets(targets());
    handle_mouse(click(20, 0), &mut screen);
    assert!(screen.running);
    handle_mouse(MouseInput { left_down: false, column: 0, row: 2 }, &mut screen);
    assert!(screen.running);
    handle_mouse(click(0, 1), &mut screen);
    assert_eq!(screen.outcome, RunOutcome::InstallModel);
    let mut screen = app(false);
    screen.set_mouse_targets(targets());
    handle_mouse(click(0, 2), &mut screen);
    assert!(!screen.running);
    assert_eq!(screen.outcome, RunOutcome::Quit);
}

#[test]
fn time_has_hours() {
    assert_eq!(elapsed(0), "00:00:00");
    assert_eq!(elapsed(3725), "01:02:05");
    assert_eq!(elapsed(360000), "100:00:00");
}

#[test]
fn header_says_what_was_asked_for() {
    let panel = header(&app(false), 3725);
    assert_eq!(
        texts(&panel),
        vec!["whisperCLI SETUP  01:02:05   model tiny   lang ja   out meeting.md"]
    );
    let tones: Vec<Tone> = panel.lines[0].iter().map(|piece| piece.tone).collect();
    assert_eq!(tones, vec![Tone::Strong, Tone::Gray, Tone::Gray]);
    assert_eq!(panel.wrapping, Wrapping::Cut);
    assert_eq!(panel.title, "");
    assert!(texts(&header(&app(true), 0))[0].starts_with("whisperCLI ENGINE PENDING  00:00:00"));
}

#[test]
fn setup_message_names_model_and_command() {
    let panel = setup_message(&app(false));
    assert_eq!(
        texts(&panel),
        vec![
            "Model is not installed",
            "",
            "whisperCLI will not show fake transcript text or simulated audio.",
            "Install a local whisper.cpp model before starting transcription.",
            "",
            "Recommended: tiny (75 MiB)",
            "Command:     whispercli models install tiny",
        ]
    );
    assert_eq!(panel.title, " Setup ");
    assert_eq!(panel.wrapping, Wrapping::Keep);
}

#[test]
fn engine_message_names_the_output() {
    let panel = engine_message(&app(true));
    assert_eq!(panel.title, " Live Transcript ");
    assert_eq!(texts(&panel)[0], "Ready for the audio engine implementation");
    assert_eq!(texts(&panel)[5], "Output path: meeting.md");
    assert_eq!(panel.lines.len(), 6);
}

#[test]
fn session_summary() {
    let panel = session(&app(false), true, "~/.whispercli");
    assert_eq!(
        texts(&panel),
        vec![
            "model  tiny",
            "state  installed",
            "lang   ja",
            "output meeting.md",
            "home   ~/.whispercli",
        ]
    );
    assert_eq!(panel.title, " Session ");
    assert_eq!(panel.wrapping, Wrapping::Trim);
    assert_eq!(texts(&session(&app(false), false, "x"))[1], "state  missing");
}

#[test]
fn buttons_are_centered() {
    let panel = button("Quit", "click or press q");
    assert_eq!(texts(&panel), vec!["Quit  click or press q"]);
    assert!(panel.centered);
    assert_eq!(panel.lines[0][0].tone, Tone::Strong);
    assert_eq!(panel.lines[0][1].tone, Tone::Muted);
}

#[test]
fn commands_depend_on_the_screen() {
    assert_eq!(
        texts(&commands(&app(false))),
        vec!["Commands  i install model   q/Esc/Ctrl+C quit   mouse click supported"]
    );
    assert_eq!(
        texts(&commands(&app(true))),
        vec!["Commands  q/Esc/Ctrl+C quit   mouse click supported   no fake transcript"]
    );
}

#[test]
fn wide_screens_stand_side_by_side() {
    assert!(is_wide(ScreenMode::SetupRequired, area(0, 0, 94, 16)));
    assert!(!is_wide(ScreenMode::SetupRequired, area(0, 0, 93, 16)));
    assert!(!is_wide(ScreenMode::SetupRequired, area(0, 0, 94, 15)));
    assert!(is_wide(ScreenMode::EnginePending, area(0, 0, 104, 18)));
    assert!(!is_wide(ScreenMode::EnginePending, area(0, 0, 103, 18)));
    assert!(!is_wide(ScreenMode::EnginePending, area(0, 0, 104, 17)));
}

#[test]
fn sizes_of_message_and_actions() {
    assert_eq!(
        body_layout(ScreenMode::SetupRequired, true),
        vec![Sizing::Percentage(62), Sizing::Percentage(38)]
    );
    assert_eq!(
        body_layout(ScreenMode::SetupRequired, false),
        vec![Sizing::Min(9), Sizing::Length(7)]
    );
    assert_eq!(
        body_layout(ScreenMode::EnginePending, true),
        vec![Sizing::Percentage(65), Sizing::Percentage(35)]
    );
    assert_eq!(
        body_layout(ScreenMode::EnginePending, false),
        vec![Sizing::Min(9), Sizing::Length(8)]
    );
}

#[test]
fn upper_button_can_be_clicked_while_the_model_is_missing() {
    let rows = vec![area(0, 0, 9, 3), area(0, 3, 9, 3), area(0, 6, 9, 3)];
    let quit = MouseTarget { area: rows[2], action: MouseAction::Quit };
    assert_eq!(
        action_targets(ScreenMode::SetupRequired, &rows),
        vec![MouseTarget { area: rows[1], action: MouseAction::InstallModel }, quit]
    );
    assert_eq!(action_targets(ScreenMode::EnginePending, &rows), vec![quit]);
}

#[test]
fn composed_screen_shows_everything_in_its_place() {
    let shell = vec![area(0, 0, 9, 3), area(0, 3, 9, 20), area(0, 23, 9, 4)];
    let body = vec![area(0, 3, 9, 10), area(0, 13, 9, 10)];
    let rows = vec![area(0, 13, 9, 4), area(0, 17, 9, 3), area(0, 20, 9, 3)];
    let screen = compose(&app(true), &shell, &body, &rows, around());
    let areas: Vec<Area> = screen.pieces.iter().map(|piece| piece.area).collect();
    assert_eq!(areas, vec![shell[0], body[0], rows[0], rows[1], rows[2], shell[2]]);
    assert_eq!(screen.pieces[1].panel.title, " Live Transcript ");
    assert_eq!(texts(&screen.pieces[3].panel), vec!["Waiting  audio engine pending"]);
    assert_eq!(texts(&screen.pieces[4].panel), vec!["Quit  click or press q"]);
    assert_eq!(
        screen.targets,
        vec![MouseTarget { area: rows[2], action: MouseAction::Quit }]
    );
}

#[test]
fn wide_screen_is_divided() {
    let mut app = app(false);
    let screen = render(&mut app, area(0, 0, 100, 40), around());
    let areas: Vec<Area> = screen.pieces.iter().map(|piece| piece.area).collect();
    assert_eq!(
        areas,
        vec![
            area(0, 0, 100, 3),
            area(0, 3, 62, 33),
            area(62, 3, 38, 27),
            area(62, 30, 38, 3),
            area(62, 33, 38, 3),
            area(0, 36, 100, 4),
        ]
    );
    assert_eq!(app.mouse_targets, screen.targets);
    handle_mouse(click(70, 31), &mut app);
    assert_eq!(app.outcome, RunOutcome::InstallModel);
}

#[test]
fn narrow_screen_is_stacked() {
    let mut app = app(true);
    let screen = render(&mut app, area(1, 2, 80, 40), around());
    let areas: Vec<Area> = screen.pieces.iter().map(|piece| piece.area).collect();
    assert_eq!(areas[0], area(1, 2, 80, 3));
    assert_eq!(areas[1], area(1, 5, 80, 25));
    assert_eq!(areas[5], area(1, 38, 80, 4));
    assert!(areas.iter().all(|part| part.x == 1 && part.width == 80));
    assert_eq!(screen.targets.len(), 1);
    let quit = screen.targets[0].area;
    assert_eq!((quit.x, quit.width), (1, 80));
    handle_mouse(click(quit.x, quit.y), &mut app);
    assert!(!app.running);
}

#[test]
fn actions_of_wide_screens_end_at_the_right_edge() {
    for width in 104..180 {
        for installed in [false, true] {
            let screen = render(&mut app(installed), area(5, 0, width, 40), around());
            for target in screen.targets {
                assert!(target.area.x > 5);
                assert_eq!(target.area.x + target.area.width, 5 + width);
            }
        }
    }
}

#[test]
fn rows_are_shared_out_where_there_is_room() {
    for height in 15..90 {
        for width in [40, 93, 94, 103, 104, 160] {
            for installed in [false, true] {
                let screen = render(&mut app(installed), area(0, 2, width, height), around());
                let parts: Vec<Area> = screen.pieces.iter().map(|piece| piece.area).collect();
                let body = height - 7;
                assert_eq!((parts[0].y, parts[0].height), (2, 3));
                assert_eq!((parts[5].y, parts[5].height), (2 + height - 4, 4));
                let mode = if installed { ScreenMode::EnginePending } else { ScreenMode::SetupRequired };
                let actions = if installed { 8 } else { 7 };
                if is_wide(mode, area(0, 5, width, body)) {
                    assert_eq!((parts[2].y, parts[2].height), (5, body - 6));
                    assert_eq!((parts[3].y, parts[3].height), (5 + body - 6, 3));
                    assert_eq!((parts[4].y, parts[4].height), (5 + body - 3, 3));
                } else if body >= 9 + actions {
                    assert_eq!((parts[1].y, parts[1].height), (5, body - actions));
                    assert_eq!(parts[2].y, 5 + body - actions);
                }
            }
        }
    }
}

#[test]
fn small_screens_are_drawn_within_their_bounds() {
    for (width, height) in [(0, 0), (1, 1), (10, 5), (94, 16), (104, 18), (200, 12)] {
        for installed in [false, true] {
            let whole = area(3, 4, width, height);
            let screen = render(&mut app(installed), whole, around());
            assert_eq!(screen.pieces.len(), 6);
            let buttons = (screen.pieces[3].area, screen.pieces[4].area);
            assert!(buttons.0.y + buttons.0.height <= buttons.1.y);
            for piece in &screen.pieces {
                let part = piece.area;
                assert!(part.x >= whole.x && part.x + part.width <= whole.x + whole.width);
                assert!(part.y >= whole.y && part.y + part.height <= whole.y + whole.height);
            }
        }
    }
}
