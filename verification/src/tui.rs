//! The screen of the program: its state, how it reacts, and what it shows.
use crate::app::{
    model_by_name, model_named, supported_model_names, supported_names, AppPaths, ModelInfo,
};
use crate::cli::LiveArgs;
use crate::error::AppError;
use crate::text::{two_digit_text, two_digits};
use ratatui::layout::{Constraint, Layout, Rect};
use vstd::prelude::*;
use vstd::string::*;

verus! {

/// A rectangle of the terminal.
#[derive(Clone, Copy, Debug, Eq, PartialEq, Structural)]
pub struct Area {
    pub x: u16,
    pub y: u16,
    pub width: u16,
    pub height: u16,
}

impl Area {
    /// True if the far edges of the rectangle have coordinates.
    pub open spec fn fits(self) -> bool {
        self.x + self.width <= u16::MAX && self.y + self.height <= u16::MAX
    }

    /// True if the rectangle lies in `whole`.
    pub open spec fn lies_in(self, whole: Area) -> bool {
        &&& whole.x <= self.x && self.x + self.width <= whole.x + whole.width
        &&& whole.y <= self.y && self.y + self.height <= whole.y + whole.height
    }

    /// True if the cell at `x` and `y` lies in the rectangle.
    pub open spec fn covers(self, x: u16, y: u16) -> bool {
        self.x <= x < self.x + self.width && self.y <= y < self.y + self.height
    }
}

/// True if the cell at `x` and `y` lies in `area`.
pub fn contains(area: Area, x: u16, y: u16) -> (inside: bool)
    requires
        area.fits(),
    ensures
        inside == area.covers(x, y),
{
    x >= area.x && x < area.x + area.width && y >= area.y && y < area.y + area.height
}

/// What the screen is about.
#[derive(Clone, Copy, Debug, Eq, PartialEq, Structural)]
pub enum ScreenMode {
    /// The model has to be installed first.
    SetupRequired,
    /// The model is there.
    EnginePending,
}

/// What a click does.
#[derive(Clone, Copy, Debug, Eq, PartialEq, Structural)]
pub enum MouseAction {
    InstallModel,
    Quit,
}

/// A part of the screen that can be clicked.
#[derive(Clone, Copy, Debug, Eq, PartialEq, Structural)]
pub struct MouseTarget {
    pub area: Area,
    pub action: MouseAction,
}

/// What to do when the screen has been left.
#[derive(Clone, Copy, Debug, Eq, PartialEq, Structural)]
pub enum RunOutcome {
    Quit,
    InstallModel,
}

/// A key, as far as the screen tells keys apart.
#[derive(Clone, Copy, Debug, Eq, PartialEq, Structural)]
pub enum Key {
    Char(char),
    Esc,
    Other,
}

/// What a key did.
#[derive(Clone, Copy, Debug, Eq, PartialEq, Structural)]
pub enum KeyMotion {
    /// It went down.
    Press,
    /// It was held.
    Repeat,
    /// It went up.
    Release,
}

/// What was done with a key, and whether the control key was held.
#[derive(Clone, Copy, Debug, Eq, PartialEq, Structural)]
pub struct KeyPress {
    pub key: Key,
    pub control: bool,
    pub motion: KeyMotion,
}

/// What the mouse did, and where.
#[derive(Clone, Copy, Debug, Eq, PartialEq, Structural)]
pub struct MouseInput {
    /// True if the left button went down.
    pub left_down: bool,
    pub column: u16,
    pub row: u16,
}

/// The state of the screen.
#[derive(Debug)]
pub struct App {
    pub args: LiveArgs,
    pub paths: AppPaths,
    pub running: bool,
    pub outcome: RunOutcome,
    pub screen_mode: ScreenMode,
    pub selected_model: ModelInfo,
    pub mouse_targets: Vec<MouseTarget>,
}

/// True if every target lies where the terminal has coordinates.
pub open spec fn targets_fit(targets: Seq<MouseTarget>) -> bool {
    forall|i: int| 0 <= i < targets.len() ==> (#[trigger] targets[i]).area.fits()
}

/// What the first target that covers a cell does.
pub open spec fn action_at(targets: Seq<MouseTarget>, x: u16, y: u16) -> Option<MouseAction>
    decreases targets.len(),
{
    if targets.len() == 0 {
        None
    } else if targets.first().area.covers(x, y) {
        Some(targets.first().action)
    } else {
        action_at(targets.drop_first(), x, y)
    }
}

/// The hours, minutes and seconds of a time.
pub open spec fn clock_text(seconds: nat) -> Seq<char> {
    two_digit_text(seconds / 3600) + ":"@ + two_digit_text((seconds / 60) % 60) + ":"@
        + two_digit_text(seconds % 60)
}

/// Writes the hours, minutes and seconds that have passed.
pub fn elapsed(seconds: u64) -> (text: String)
    ensures
        text@ == clock_text(seconds as nat),
{
    let mut text = two_digits(seconds / 3600);
    text.append(":");
    text.append(two_digits((seconds / 60) % 60).as_str());
    text.append(":");
    text.append(two_digits(seconds % 60).as_str());
    text
}

impl App {
    /// What holds of every screen: what can be clicked lies on it.
    pub open spec fn well_formed(self) -> bool {
        targets_fit(self.mouse_targets@)
    }

    /// The screen after it was asked to close.
    pub open spec fn after_quit(self) -> App {
        App { outcome: RunOutcome::Quit, running: false, ..self }
    }

    /// The screen after it was asked to install the model, which it does only
    /// while the model is missing.
    pub open spec fn after_install_request(self) -> App {
        if self.screen_mode == ScreenMode::SetupRequired {
            App { outcome: RunOutcome::InstallModel, running: false, ..self }
        } else {
            self
        }
    }

    /// The screen after a key. Only a key that goes down counts: one that is
    /// held or let go does nothing more.
    pub open spec fn after_key(self, press: KeyPress) -> App {
        if press.motion != KeyMotion::Press {
            self
        } else {
            match press.key {
                Key::Esc => self.after_quit(),
                Key::Char(c) => if c == 'q' || (c == 'c' && press.control) {
                    self.after_quit()
                } else if c == 'i' {
                    self.after_install_request()
                } else {
                    self
                },
                Key::Other => self,
            }
        }
    }

    /// The screen after the mouse did something.
    pub open spec fn after_mouse(self, mouse: MouseInput) -> App {
        if mouse.left_down {
            match action_at(self.mouse_targets@, mouse.column, mouse.row) {
                Some(MouseAction::InstallModel) => self.after_install_request(),
                Some(MouseAction::Quit) => self.after_quit(),
                None => self,
            }
        } else {
            self
        }
    }

    /// Opens the screen for the model that `args` names; `installed` says
    /// whether its file is there.
    pub fn new(args: LiveArgs, paths: AppPaths, installed: bool) -> (app: Result<App, AppError>)
        ensures
            match app {
                Ok(app) => {
                    &&& model_named(args.model@) == Some(app.selected_model@)
                    &&& app.args == args
                    &&& app.paths == paths
                    &&& app.running
                    &&& app.outcome == RunOutcome::Quit
                    &&& app.screen_mode == if installed {
                        ScreenMode::EnginePending
                    } else {
                        ScreenMode::SetupRequired
                    }
                    &&& app.mouse_targets@ == Seq::<MouseTarget>::empty()
                    &&& app.well_formed()
                },
                Err(error) => {
                    &&& model_named(args.model@) is None
                    &&& error matches AppError::UnknownModel { requested, supported } && requested@
                        == args.model@ && supported@ == supported_names()
                },
            },
    {
        match model_by_name(args.model.as_str()) {
            None => Err(
                AppError::UnknownModel {
                    requested: args.model,
                    supported: supported_model_names(),
                },
            ),
            Some(selected_model) => {
                let screen_mode = if installed {
                    ScreenMode::EnginePending
                } else {
                    ScreenMode::SetupRequired
                };
                Ok(
                    App {
                        args,
                        paths,
                        running: true,
                        outcome: RunOutcome::Quit,
                        screen_mode,
                        selected_model,
                        mouse_targets: Vec::new(),
                    },
                )
            },
        }
    }

    /// Leaves the screen to install the model, if it is missing.
    pub fn request_install(&mut self)
        ensures
            *final(self) == old(self).after_install_request(),
    {
        match self.screen_mode {
            ScreenMode::SetupRequired => {
                self.outcome = RunOutcome::InstallModel;
                self.running = false;
            },
            ScreenMode::EnginePending => {},
        }
    }

    /// Leaves the screen.
    pub fn quit(&mut self)
        ensures
            *final(self) == old(self).after_quit(),
    {
        self.outcome = RunOutcome::Quit;
        self.running = false;
    }

    /// Says what can be clicked from now on.
    pub fn set_mouse_targets(&mut self, targets: Vec<MouseTarget>)
        requires
            targets_fit(targets@),
        ensures
            *final(self) == (App { mouse_targets: targets, ..*old(self) }),
            final(self).well_formed(),
    {
        self.mouse_targets = targets;
    }
}

/// Reacts to a key.
pub fn handle_key(press: KeyPress, app: &mut App)
    ensures
        *final(app) == old(app).after_key(press),
{
    match press.motion {
        KeyMotion::Press => {},
        _ => {
            return;
        },
    }
    match press.key {
        Key::Esc => app.quit(),
        Key::Char(c) => {
            if c == 'q' || (c == 'c' && press.control) {
                app.quit();
            } else if c == 'i' {
                app.request_install();
            }
        },
        Key::Other => {},
    }
}

/// Reacts to the mouse.
pub fn handle_mouse(mouse: MouseInput, app: &mut App)
    requires
        old(app).well_formed(),
    ensures
        *final(app) == old(app).after_mouse(mouse),
{
    if !mouse.left_down {
        return;
    }
    match target_at(&app.mouse_targets, mouse.column, mouse.row) {
        Some(MouseAction::InstallModel) => app.request_install(),
        Some(MouseAction::Quit) => app.quit(),
        None => {},
    }
}

fn target_at(targets: &Vec<MouseTarget>, x: u16, y: u16) -> (action: Option<MouseAction>)
    requires
        targets_fit(targets@),
    ensures
        action == action_at(targets@, x, y),
{
    let mut next: usize = 0;
    assert(targets@.skip(0) =~= targets@);
    while next < targets.len()
        invariant
            next <= targets@.len(),
            targets_fit(targets@),
            action_at(targets@, x, y) == action_at(targets@.skip(next as int), x, y),
        decreases targets@.len() - next,
    {
        let target: MouseTarget = targets[next];
        assert(targets@.skip(next as int).first() == target);
        assert(targets@.skip(next as int).drop_first() =~= targets@.skip(next + 1));
        if contains(target.area, x, y) {
            return Some(target.action);
        }
        next = next + 1;
    }
    None
}

/// The keys that are promised to leave the screen do, whatever it shows.
pub proof fn law_quit_keys_always_leave(app: App, press: KeyPress)
    requires
        press.motion == KeyMotion::Press,
        press.key == Key::Esc || press.key == Key::Char('q') || (press.key == Key::Char('c')
            && press.control),
    ensures
        !app.after_key(press).running,
        app.after_key(press).outcome == RunOutcome::Quit,
{
}

/// An installation is asked for only while the model is missing, and nothing
/// that the user does changes what the screen is about.
pub proof fn law_installs_only_what_is_missing(app: App, press: KeyPress, mouse: MouseInput)
    requires
        app.outcome == RunOutcome::Quit,
    ensures
        app.after_key(press).outcome == RunOutcome::InstallModel ==> app.screen_mode
            == ScreenMode::SetupRequired,
        app.after_mouse(mouse).outcome == RunOutcome::InstallModel ==> app.screen_mode
            == ScreenMode::SetupRequired,
        app.after_key(press).screen_mode == app.screen_mode,
        app.after_mouse(mouse).screen_mode == app.screen_mode,
        app.after_key(press).mouse_targets == app.mouse_targets,
        app.after_mouse(mouse).mouse_targets == app.mouse_targets,
{
}

/// How a piece of text stands out.
#[derive(Clone, Copy, Debug, Eq, PartialEq, Structural)]
pub enum Tone {
    Plain,
    Strong,
    Gray,
    Muted,
}

/// A piece of text on the screen.
#[derive(Debug)]
pub struct StyledText {
    pub text: String,
    pub tone: Tone,
}

/// What a `StyledText` shows.
#[verifier::ext_equal]
pub struct Styled {
    pub text: Seq<char>,
    pub tone: Tone,
}

impl View for StyledText {
    type V = Styled;

    open spec fn view(&self) -> Styled {
        Styled { text: self.text@, tone: self.tone }
    }
}

/// What becomes of lines that are too long.
#[derive(Clone, Copy, Debug, Eq, PartialEq, Structural)]
pub enum Wrapping {
    /// They are cut.
    Cut,
    /// They are continued, spaces and all.
    Keep,
    /// They are continued without the spaces in front.
    Trim,
}

/// A framed box of text.
#[derive(Debug)]
pub struct Panel {
    /// The title in the frame; empty for none.
    pub title: &'static str,
    pub lines: Vec<Vec<StyledText>>,
    pub wrapping: Wrapping,
    pub centered: bool,
}

/// What a `Panel` shows.
#[verifier::ext_equal]
pub struct PanelText {
    pub title: Seq<char>,
    pub lines: Seq<Seq<Styled>>,
    pub wrapping: Wrapping,
    pub centered: bool,
}

/// What a line of pieces shows.
pub open spec fn shown_line(pieces: Seq<StyledText>) -> Seq<Styled> {
    pieces.map_values(|piece: StyledText| piece@)
}

/// What each of `lines` shows.
pub open spec fn shown_lines(lines: Seq<Vec<StyledText>>) -> Seq<Seq<Styled>> {
    lines.map_values(|line: Vec<StyledText>| shown_line(line@))
}

impl View for Panel {
    type V = PanelText;

    open spec fn view(&self) -> PanelText {
        PanelText {
            title: self.title@,
            lines: shown_lines(self.lines@),
            wrapping: self.wrapping,
            centered: self.centered,
        }
    }
}

/// A line of one piece.
pub open spec fn single(text: Seq<char>, tone: Tone) -> Seq<Styled> {
    seq![Styled { text, tone }]
}

/// A line of a muted label and a plain value.
pub open spec fn entry(label: Seq<char>, value: Seq<char>) -> Seq<Styled> {
    seq![Styled { text: label, tone: Tone::Muted }, Styled { text: value, tone: Tone::Plain }]
}

fn single_line(text: &str, tone: Tone) -> (line: Vec<StyledText>)
    ensures
        shown_line(line@) == single(text@, tone),
{
    let mut line: Vec<StyledText> = Vec::new();
    line.push(StyledText { text: String::from_str(text), tone });
    assert(shown_line(line@) =~= single(text@, tone));
    line
}

fn entry_line(label: &str, value: &str) -> (line: Vec<StyledText>)
    ensures
        shown_line(line@) == entry(label@, value@),
{
    let mut line: Vec<StyledText> = Vec::new();
    line.push(StyledText { text: String::from_str(label), tone: Tone::Muted });
    line.push(StyledText { text: String::from_str(value), tone: Tone::Plain });
    assert(shown_line(line@) =~= entry(label@, value@));
    line
}

fn empty_line() -> (line: Vec<StyledText>)
    ensures
        shown_line(line@) == Seq::<Styled>::empty(),
{
    let line: Vec<StyledText> = Vec::new();
    assert(shown_line(line@) =~= Seq::<Styled>::empty());
    line
}

/// What the header says the screen is about.
pub open spec fn mode_text(mode: ScreenMode) -> Seq<char> {
    match mode {
        ScreenMode::SetupRequired => " SETUP "@,
        ScreenMode::EnginePending => " ENGINE PENDING "@,
    }
}

/// The header: the program, what the screen is about, and what was asked for.
pub open spec fn header_view(app: App, seconds: nat) -> PanelText {
    PanelText {
        title: ""@,
        lines: seq![
            seq![
                Styled { text: "whisperCLI"@, tone: Tone::Strong },
                Styled { text: mode_text(app.screen_mode), tone: Tone::Gray },
                Styled {
                    text: " "@ + clock_text(seconds) + "   model "@ + app.args.model@ + "   lang "@
                        + app.args.lang@ + "   out "@ + app.args.out@,
                    tone: Tone::Gray,
                },
            ],
        ],
        wrapping: Wrapping::Cut,
        centered: false,
    }
}

/// Writes the header, `seconds` after the screen was opened.
pub fn header(app: &App, seconds: u64) -> (panel: Panel)
    ensures
        panel@ == header_view(*app, seconds as nat),
{
    let mode: &str = match app.screen_mode {
        ScreenMode::SetupRequired => " SETUP ",
        ScreenMode::EnginePending => " ENGINE PENDING ",
    };
    let mut meta = String::from_str(" ");
    meta.append(elapsed(seconds).as_str());
    meta.append("   model ");
    meta.append(app.args.model.as_str());
    meta.append("   lang ");
    meta.append(app.args.lang.as_str());
    meta.append("   out ");
    meta.append(app.args.out.as_str());
    let mut line: Vec<StyledText> = Vec::new();
    line.push(StyledText { text: String::from_str("whisperCLI"), tone: Tone::Strong });
    line.push(StyledText { text: String::from_str(mode), tone: Tone::Gray });
    line.push(StyledText { text: meta, tone: Tone::Gray });
    assert(shown_line(line@) =~= header_view(*app, seconds as nat).lines[0]);
    let mut lines: Vec<Vec<StyledText>> = Vec::new();
    lines.push(line);
    assert(shown_lines(lines@) =~= header_view(*app, seconds as nat).lines);
    Panel { title: "", lines, wrapping: Wrapping::Cut, centered: false }
}

/// The message of a screen whose model is missing.
pub open spec fn setup_view(app: App) -> PanelText {
    PanelText {
        title: " Setup "@,
        lines: seq![
            single("Model is not installed"@, Tone::Strong),
            Seq::empty(),
            single(
                "whisperCLI will not show fake transcript text or simulated audio."@,
                Tone::Plain,
            ),
            single(
                "Install a local whisper.cpp model before starting transcription."@,
                Tone::Plain,
            ),
            Seq::empty(),
            entry(
                "Recommended: "@,
                app.selected_model.name@ + " ("@ + app.selected_model.size@ + ")"@,
            ),
            entry("Command:     "@, "whispercli models install "@ + app.args.model@),
        ],
        wrapping: Wrapping::Keep,
        centered: false,
    }
}

/// Writes the message that the model is missing.
pub fn setup_message(app: &App) -> (panel: Panel)
    ensures
        panel@ == setup_view(*app),
{
    let mut recommended = String::from_str(app.selected_model.name);
    recommended.append(" (");
    recommended.append(app.selected_model.size);
    recommended.append(")");
    let mut command = String::from_str("whispercli models install ");
    command.append(app.args.model.as_str());
    let mut lines: Vec<Vec<StyledText>> = Vec::new();
    lines.push(single_line("Model is not installed", Tone::Strong));
    lines.push(empty_line());
    lines.push(
        single_line(
            "whisperCLI will not show fake transcript text or simulated audio.",
            Tone::Plain,
        ),
    );
    lines.push(
        single_line("Install a local whisper.cpp model before starting transcription.", Tone::Plain),
    );
    lines.push(empty_line());
    lines.push(entry_line("Recommended: ", recommended.as_str()));
    lines.push(entry_line("Command:     ", command.as_str()));
    assert(shown_lines(lines@) =~= setup_view(*app).lines);
    Panel { title: " Setup ", lines, wrapping: Wrapping::Keep, centered: false }
}

/// The message of a screen whose model is there.
pub open spec fn engine_view(app: App) -> PanelText {
    PanelText {
        title: " Live Transcript "@,
        lines: seq![
            single("Ready for the audio engine implementation"@, Tone::Strong),
            Seq::empty(),
            single(
                "No transcript is shown until real microphone input and whisper.cpp decoding are connected."@,
                Tone::Plain,
            ),
            single(
                "The model is installed, so the next implementation step is cpal input + whisper-rs streaming."@,
                Tone::Plain,
            ),
            Seq::empty(),
            entry("Output path: "@, app.args.out@),
        ],
        wrapping: Wrapping::Keep,
        centered: false,
    }
}

/// Writes the message that the model is there.
pub fn engine_message(app: &App) -> (panel: Panel)
    ensures
        panel@ == engine_view(*app),
{
    let mut lines: Vec<Vec<StyledText>> = Vec::new();
    lines.push(single_line("Ready for the audio engine implementation", Tone::Strong));
    lines.push(empty_line());
    lines.push(
        single_line(
            "No transcript is shown until real microphone input and whisper.cpp decoding are connected.",
            Tone::Plain,
        ),
    );
    lines.push(
        single_line(
            "The model is installed, so the next implementation step is cpal input + whisper-rs streaming.",
            Tone::Plain,
        ),
    );
    lines.push(empty_line());
    lines.push(entry_line("Output path: ", app.args.out.as_str()));
    assert(shown_lines(lines@) =~= engine_view(*app).lines);
    Panel { title: " Live Transcript ", lines, wrapping: Wrapping::Keep, centered: false }
}

/// The summary of what was asked for; `root` is how the application's
/// directory is shown.
pub open spec fn session_view(app: App, installed: bool, root: Seq<char>) -> PanelText {
    PanelText {
        title: " Session "@,
        lines: seq![
            entry("model  "@, app.args.model@),
            entry(
                "state  "@,
                if installed {
                    "installed"@
                } else {
                    "missing"@
                },
            ),
            entry("lang   "@, app.args.lang@),
            entry("output "@, app.args.out@),
            entry("home   "@, root),
        ],
        wrapping: Wrapping::Trim,
        centered: false,
    }
}

/// Writes the summary of what was asked for.
pub fn session(app: &App, installed: bool, root: &str) -> (panel: Panel)
    ensures
        panel@ == session_view(*app, installed, root@),
{
    let state: &str = if installed {
        "installed"
    } else {
        "missing"
    };
    let mut lines: Vec<Vec<StyledText>> = Vec::new();
    lines.push(entry_line("model  ", app.args.model.as_str()));
    lines.push(entry_line("state  ", state));
    lines.push(entry_line("lang   ", app.args.lang.as_str()));
    lines.push(entry_line("output ", app.args.out.as_str()));
    lines.push(entry_line("home   ", root));
    assert(shown_lines(lines@) =~= session_view(*app, installed, root@).lines);
    Panel { title: " Session ", lines, wrapping: Wrapping::Trim, centered: false }
}

/// A button with a hint how to press it.
pub open spec fn button_view(label: Seq<char>, hint: Seq<char>) -> PanelText {
    PanelText {
        title: ""@,
        lines: seq![
            seq![
                Styled { text: label, tone: Tone::Strong },
                Styled { text: "  "@ + hint, tone: Tone::Muted },
            ],
        ],
        wrapping: Wrapping::Cut,
        centered: true,
    }
}

/// Writes a button.
pub fn button(label: &str, hint: &str) -> (panel: Panel)
    ensures
        panel@ == button_view(label@, hint@),
{
    let mut hint_text = String::from_str("  ");
    hint_text.append(hint);
    let mut line: Vec<StyledText> = Vec::new();
    line.push(StyledText { text: String::from_str(label), tone: Tone::Strong });
    line.push(StyledText { text: hint_text, tone: Tone::Muted });
    assert(shown_line(line@) =~= button_view(label@, hint@).lines[0]);
    let mut lines: Vec<Vec<StyledText>> = Vec::new();
    lines.push(line);
    assert(shown_lines(lines@) =~= button_view(label@, hint@).lines);
    Panel { title: "", lines, wrapping: Wrapping::Cut, centered: true }
}

/// The keys that can be pressed.
pub open spec fn commands_view(mode: ScreenMode) -> PanelText {
    PanelText {
        title: ""@,
        lines: seq![
            entry(
                "Commands  "@,
                match mode {
                    ScreenMode::SetupRequired =>
                        "i install model   q/Esc/Ctrl+C quit   mouse click supported"@,
                    ScreenMode::EnginePending =>
                        "q/Esc/Ctrl+C quit   mouse click supported   no fake transcript"@,
                },
            ),
        ],
        wrapping: Wrapping::Trim,
        centered: false,
    }
}

/// Writes the keys that can be pressed.
pub fn commands(app: &App) -> (panel: Panel)
    ensures
        panel@ == commands_view(app.screen_mode),
{
    let keys: &str = match app.screen_mode {
        ScreenMode::SetupRequired => "i install model   q/Esc/Ctrl+C quit   mouse click supported",
        ScreenMode::EnginePending =>
            "q/Esc/Ctrl+C quit   mouse click supported   no fake transcript",
    };
    let mut lines: Vec<Vec<StyledText>> = Vec::new();
    lines.push(entry_line("Commands  ", keys));
    assert(shown_lines(lines@) =~= commands_view(app.screen_mode).lines);
    Panel { title: "", lines, wrapping: Wrapping::Trim, centered: false }
}

/// How much of an area a part of it asks for.
#[derive(Clone, Copy, Debug, Eq, PartialEq, Structural)]
pub enum Sizing {
    /// This many cells.
    Length(u16),
    /// At least this many cells.
    Min(u16),
    /// This share of the whole, in hundredths.
    Percentage(u16),
}

/// The sum of the shares among `sizes`, in hundredths.
pub open spec fn share_sum(sizes: Seq<Sizing>) -> int
    decreases sizes.len(),
{
    if sizes.len() == 0 {
        0
    } else {
        share_sum(sizes.drop_last()) + (match sizes.last() {
            Sizing::Percentage(share) => share as int,
            _ => 0,
        })
    }
}

/// True if `sizes` share out the whole.
pub open spec fn share_out(sizes: Seq<Sizing>) -> bool {
    &&& forall|i: int| 0 <= i < sizes.len() ==> #[trigger] sizes[i] is Percentage
    &&& share_sum(sizes) == 100
}

/// True if the width of `part` is its share of the width of `whole`, but for
/// what is lost or gained when its two edges are put on cells.
pub open spec fn is_share(part: Area, size: Sizing, whole: Area) -> bool {
    size matches Sizing::Percentage(share) ==> -200 <= 100 * part.width - share * whole.width
        <= 200
}

/// The cells that `size` asks for at least.
pub open spec fn least(size: Sizing) -> int {
    match size {
        Sizing::Length(cells) => cells as int,
        Sizing::Min(cells) => cells as int,
        Sizing::Percentage(_) => 0,
    }
}

/// The cells that `size` asks for exactly.
pub open spec fn exact(size: Sizing) -> int {
    match size {
        Sizing::Length(cells) => cells as int,
        _ => 0,
    }
}

/// The cells that `sizes` ask for at least.
pub open spec fn least_sum(sizes: Seq<Sizing>) -> int
    decreases sizes.len(),
{
    if sizes.len() == 0 {
        0
    } else {
        least_sum(sizes.drop_last()) + least(sizes.last())
    }
}

/// The cells that `sizes` ask for exactly.
pub open spec fn length_sum(sizes: Seq<Sizing>) -> int
    decreases sizes.len(),
{
    if sizes.len() == 0 {
        0
    } else {
        length_sum(sizes.drop_last()) + exact(sizes.last())
    }
}

/// True if all of `sizes` ask for a number of cells, and just the one at `index`
/// may get more.
pub open spec fn grows_only(sizes: Seq<Sizing>, index: int) -> bool {
    &&& 0 <= index < sizes.len()
    &&& sizes[index] is Min
    &&& forall|i: int| 0 <= i < sizes.len() && i != index ==> #[trigger] sizes[i] is Length
}

/// The height of a part that asks for `size` where all get what they ask for,
/// and one of them the rest.
pub open spec fn height_of(size: Sizing, sizes: Seq<Sizing>, height: int) -> int {
    match size {
        Sizing::Length(cells) => cells as int,
        _ => height - length_sum(sizes),
    }
}

/// True if the parts start where `whole` does, and each where the one above it
/// ends.
pub open spec fn stand_flush(parts: Seq<Area>, whole: Area) -> bool {
    &&& parts.len() > 0 ==> parts[0].y == whole.y
    &&& forall|i: int, j: int|
        0 <= i && j == i + 1 && j < parts.len() ==> (#[trigger] parts[j]).y == (
        #[trigger] parts[i]).y + parts[i].height
}

/// True if each part ends before the next one below it starts.
pub open spec fn stand_below(parts: Seq<Area>) -> bool {
    forall|i: int, j: int|
        0 <= i < j < parts.len() ==> (#[trigger] parts[i]).y + parts[i].height
            <= (#[trigger] parts[j]).y
}

/// True if each part ends before the next one beside it starts.
pub open spec fn stand_beside(parts: Seq<Area>) -> bool {
    forall|i: int, j: int|
        0 <= i < j < parts.len() ==> (#[trigger] parts[i]).x + parts[i].width
            <= (#[trigger] parts[j]).x
}

/// True if dividing `area` into parts one below the other, sized as `sizes`
/// ask, can give `parts`. Where the sizes contradict one another the division
/// is not determined.
pub uninterp spec fn may_stack(sizes: Seq<Sizing>, area: Area, parts: Seq<Area>) -> bool;

/// True if dividing `area` into parts side by side, sized as `sizes` ask, can
/// give `parts`. Where the sizes contradict one another the division is not
/// determined.
pub uninterp spec fn may_line_up(sizes: Seq<Sizing>, area: Area, parts: Seq<Area>) -> bool;

/// `Layout::split` of a vertical `Layout`: there is one part for each size,
/// which lies in the area and is as wide, and the parts stand one below the
/// other without a cell in common, the spacing being the default one. Where all
/// sizes are numbers of cells, one of them a minimum, and there is room for them,
/// each part gets its number and the one with the minimum all the rest, without
/// a gap. How high the parts are otherwise is left to the relation.
#[verifier::external_body]
fn stack(sizes: &Vec<Sizing>, area: Area) -> (parts: Vec<Area>)
    requires
        area.fits(),
    ensures
        may_stack(sizes@, area, parts@),
        parts@.len() == sizes@.len(),
        forall|i: int|
            0 <= i < parts@.len() ==> (#[trigger] parts@[i]).lies_in(area) && parts@[i].width
                == area.width,
        stand_below(parts@),
        (exists|grown: int| #[trigger] grows_only(sizes@, grown)) && least_sum(sizes@)
            <= area.height ==> {
            &&& stand_flush(parts@, area)
            &&& forall|i: int|
                0 <= i < parts@.len() ==> (#[trigger] parts@[i]).height == height_of(
                    sizes@[i],
                    sizes@,
                    area.height as int,
                )
        },
{
    let constraints = sizes.iter().map(|size| match *size {
        Sizing::Length(cells) => Constraint::Length(cells),
        Sizing::Min(cells) => Constraint::Min(cells),
        Sizing::Percentage(share) => Constraint::Percentage(share),
    });
    let whole = Rect { x: area.x, y: area.y, width: area.width, height: area.height };
    let parts = Layout::vertical(constraints).split(whole);
    parts.iter().map(|part| Area { x: part.x, y: part.y, width: part.width, height: part.height })
        .collect()
}

/// `Layout::split` of a horizontal `Layout`: there is one part for each size,
/// which lies in the area and is as high, and the parts stand side by side
/// without a cell in common, the spacing being the default one. Where the sizes
/// share out the whole, each part has its share of the width, rounded to cells,
/// and the last one ends where the area does. How wide the parts are otherwise
/// is left to the relation.
#[verifier::external_body]
fn line_up(sizes: &Vec<Sizing>, area: Area) -> (parts: Vec<Area>)
    requires
        area.fits(),
    ensures
        may_line_up(sizes@, area, parts@),
        parts@.len() == sizes@.len(),
        forall|i: int|
            0 <= i < parts@.len() ==> (#[trigger] parts@[i]).lies_in(area) && parts@[i].height
                == area.height,
        stand_beside(parts@),
        share_out(sizes@) ==> parts@.last().x + parts@.last().width == area.x + area.width,
        share_out(sizes@) ==> forall|i: int|
            0 <= i < parts@.len() ==> is_share(#[trigger] parts@[i], sizes@[i], area),
{
    let constraints = sizes.iter().map(|size| match *size {
        Sizing::Length(cells) => Constraint::Length(cells),
        Sizing::Min(cells) => Constraint::Min(cells),
        Sizing::Percentage(share) => Constraint::Percentage(share),
    });
    let whole = Rect { x: area.x, y: area.y, width: area.width, height: area.height };
    let parts = Layout::horizontal(constraints).split(whole);
    parts.iter().map(|part| Area { x: part.x, y: part.y, width: part.width, height: part.height })
        .collect()
}

/// True if the message and the actions of this screen stand side by side in an
/// area of this size.
pub open spec fn stands_wide(mode: ScreenMode, area: Area) -> bool {
    match mode {
        ScreenMode::SetupRequired => area.width >= 94 && area.height >= 16,
        ScreenMode::EnginePending => area.width >= 104 && area.height >= 18,
    }
}

/// The sizes of header, body and footer.
pub open spec fn shell_sizes() -> Seq<Sizing> {
    seq![Sizing::Length(3), Sizing::Min(8), Sizing::Length(4)]
}

/// The sizes of message and actions.
pub open spec fn body_sizes(mode: ScreenMode, wide: bool) -> Seq<Sizing> {
    match mode {
        ScreenMode::SetupRequired => if wide {
            seq![Sizing::Percentage(62), Sizing::Percentage(38)]
        } else {
            seq![Sizing::Min(9), Sizing::Length(7)]
        },
        ScreenMode::EnginePending => if wide {
            seq![Sizing::Percentage(65), Sizing::Percentage(35)]
        } else {
            seq![Sizing::Min(9), Sizing::Length(8)]
        },
    }
}

/// The sizes of the summary and of the two buttons below it.
pub open spec fn action_sizes() -> Seq<Sizing> {
    seq![Sizing::Min(3), Sizing::Length(3), Sizing::Length(3)]
}

/// True if a body of this area can be divided into `parts`.
pub open spec fn may_divide(mode: ScreenMode, area: Area, parts: Seq<Area>) -> bool {
    if stands_wide(mode, area) {
        may_line_up(body_sizes(mode, true), area, parts)
    } else {
        may_stack(body_sizes(mode, false), area, parts)
    }
}

/// Chooses between the wide and the narrow layout of a screen.
pub fn is_wide(mode: ScreenMode, area: Area) -> (wide: bool)
    ensures
        wide == stands_wide(mode, area),
{
    match mode {
        ScreenMode::SetupRequired => area.width >= 94 && area.height >= 16,
        ScreenMode::EnginePending => area.width >= 104 && area.height >= 18,
    }
}

/// Lists the sizes of message and actions.
pub fn body_layout(mode: ScreenMode, wide: bool) -> (sizes: Vec<Sizing>)
    ensures
        sizes@ == body_sizes(mode, wide),
{
    let mut sizes: Vec<Sizing> = Vec::new();
    match mode {
        ScreenMode::SetupRequired => {
            if wide {
                sizes.push(Sizing::Percentage(62));
                sizes.push(Sizing::Percentage(38));
            } else {
                sizes.push(Sizing::Min(9));
                sizes.push(Sizing::Length(7));
            }
        },
        ScreenMode::EnginePending => {
            if wide {
                sizes.push(Sizing::Percentage(65));
                sizes.push(Sizing::Percentage(35));
            } else {
                sizes.push(Sizing::Min(9));
                sizes.push(Sizing::Length(8));
            }
        },
    }
    assert(sizes@ =~= body_sizes(mode, wide));
    sizes
}

/// True if every part lies in `whole`.
pub open spec fn all_lie_in(parts: Seq<Area>, whole: Area) -> bool {
    forall|i: int| 0 <= i < parts.len() ==> (#[trigger] parts[i]).lies_in(whole)
}

/// True if every part is as wide as `whole`.
pub open spec fn all_as_wide(parts: Seq<Area>, whole: Area) -> bool {
    forall|i: int| 0 <= i < parts.len() ==> (#[trigger] parts[i]).width == whole.width
}

/// True if the header has three rows, the footer four and the body all the
/// rows between them.
pub open spec fn shell_has_heights(area: Area, shell: Seq<Area>) -> bool {
    &&& stand_flush(shell, area)
    &&& shell[0].height == 3
    &&& shell[1].height == area.height - 7
    &&& shell[2].height == 4
}

/// How many rows the actions have below the message.
pub open spec fn actions_height(mode: ScreenMode) -> int {
    match mode {
        ScreenMode::SetupRequired => 7,
        ScreenMode::EnginePending => 8,
    }
}

/// True if the actions stand at the foot of the body, and the message has all
/// the rows above them.
pub open spec fn body_has_heights(mode: ScreenMode, area: Area, body: Seq<Area>) -> bool {
    &&& stand_flush(body, area)
    &&& body[0].height == area.height - actions_height(mode)
    &&& body[1].height == actions_height(mode)
}

/// True if each button has three rows at the foot of the actions, and the
/// summary all the rows above them.
pub open spec fn rows_have_heights(area: Area, rows: Seq<Area>) -> bool {
    &&& stand_flush(rows, area)
    &&& rows[0].height == area.height - 6
    &&& rows[1].height == 3
    &&& rows[2].height == 3
}

/// True if message and actions have their shares of the width: of a hundred
/// columns the message has sixty-two while the model is missing and sixty-five
/// once it is there, and the actions have the others, but for what is lost or
/// gained when the edges are put on cells.
pub open spec fn has_widths(mode: ScreenMode, area: Area, body: Seq<Area>) -> bool {
    let share = match mode {
        ScreenMode::SetupRequired => 62,
        ScreenMode::EnginePending => 65int,
    };
    &&& -200 <= 100 * body[0].width - share * area.width <= 200
    &&& -200 <= 100 * body[1].width - (100 - share) * area.width <= 200
}

proof fn lemma_two_sizes(sizes: Seq<Sizing>)
    requires
        sizes.len() == 2,
    ensures
        least_sum(sizes) == least(sizes[0]) + least(sizes[1]),
        length_sum(sizes) == exact(sizes[0]) + exact(sizes[1]),
{
    reveal_with_fuel(least_sum, 3);
    reveal_with_fuel(length_sum, 3);
    assert(sizes.drop_last().last() == sizes[0]);
    assert(sizes.drop_last().drop_last() =~= Seq::empty());
}

proof fn lemma_three_sizes(sizes: Seq<Sizing>)
    requires
        sizes.len() == 3,
    ensures
        least_sum(sizes) == least(sizes[0]) + least(sizes[1]) + least(sizes[2]),
        length_sum(sizes) == exact(sizes[0]) + exact(sizes[1]) + exact(sizes[2]),
{
    lemma_two_sizes(sizes.drop_last());
}

fn divide_shell(area: Area) -> (parts: Vec<Area>)
    requires
        area.fits(),
    ensures
        may_stack(shell_sizes(), area, parts@),
        parts@.len() == 3,
        all_lie_in(parts@, area),
        all_as_wide(parts@, area),
        stand_below(parts@),
        area.height >= 15 ==> shell_has_heights(area, parts@),
{
    let mut sizes: Vec<Sizing> = Vec::new();
    sizes.push(Sizing::Length(3));
    sizes.push(Sizing::Min(8));
    sizes.push(Sizing::Length(4));
    assert(sizes@ =~= shell_sizes());
    proof {
        lemma_three_sizes(sizes@);
        assert(grows_only(sizes@, 1));
    }
    stack(&sizes, area)
}

fn divide_body(mode: ScreenMode, area: Area) -> (parts: Vec<Area>)
    requires
        area.fits(),
    ensures
        may_divide(mode, area, parts@),
        parts@.len() == 2,
        all_lie_in(parts@, area),
        if stands_wide(mode, area) {
            &&& stand_beside(parts@)
            &&& has_widths(mode, area, parts@)
            &&& parts@[1].x > area.x
            &&& parts@[1].x + parts@[1].width == area.x + area.width
        } else {
            &&& stand_below(parts@)
            &&& all_as_wide(parts@, area)
        },
        !stands_wide(mode, area) && area.height >= 9 + actions_height(mode) ==> body_has_heights(
            mode,
            area,
            parts@,
        ),
        stands_wide(mode, area) ==> parts@[1].height == area.height,
{
    proof {
        reveal_with_fuel(share_sum, 3);
        let sizes = body_sizes(mode, true);
        assert(sizes.drop_last().last() == sizes[0]);
        lemma_two_sizes(body_sizes(mode, false));
        assert(grows_only(body_sizes(mode, false), 0));
    }
    let wide = is_wide(mode, area);
    let sizes = body_layout(mode, wide);
    if wide {
        let parts = line_up(&sizes, area);
        assert(is_share(parts@[0], sizes@[0], area));
        assert(is_share(parts@[1], sizes@[1], area));
        assert(parts@[0].width > 0);
        assert(parts@[0].lies_in(area));
        parts
    } else {
        stack(&sizes, area)
    }
}

fn divide_actions(area: Area) -> (parts: Vec<Area>)
    requires
        area.fits(),
    ensures
        may_stack(action_sizes(), area, parts@),
        parts@.len() == 3,
        all_lie_in(parts@, area),
        all_as_wide(parts@, area),
        stand_below(parts@),
        area.height >= 9 ==> rows_have_heights(area, parts@),
{
    let mut sizes: Vec<Sizing> = Vec::new();
    sizes.push(Sizing::Min(3));
    sizes.push(Sizing::Length(3));
    sizes.push(Sizing::Length(3));
    assert(sizes@ =~= action_sizes());
    proof {
        lemma_three_sizes(sizes@);
        assert(grows_only(sizes@, 0));
    }
    stack(&sizes, area)
}

/// A box and where it stands.
#[derive(Debug)]
pub struct Piece {
    pub area: Area,
    pub panel: Panel,
}

/// What a `Piece` shows, and where.
#[verifier::ext_equal]
pub struct PieceText {
    pub area: Area,
    pub panel: PanelText,
}

impl View for Piece {
    type V = PieceText;

    open spec fn view(&self) -> PieceText {
        PieceText { area: self.area, panel: self.panel@ }
    }
}

/// What each of `pieces` shows.
pub open spec fn piece_texts(pieces: Seq<Piece>) -> Seq<PieceText> {
    pieces.map_values(|piece: Piece| piece@)
}

/// What is drawn, in the order in which it is drawn, and what can be clicked.
#[derive(Debug)]
pub struct Screen {
    pub pieces: Vec<Piece>,
    pub targets: Vec<MouseTarget>,
}

/// What the screen shows besides its own state.
#[derive(Clone, Copy, Debug)]
pub struct Surroundings<'a> {
    /// The seconds since the screen was opened.
    pub seconds: u64,
    /// Whether the model's file is there.
    pub installed: bool,
    /// How the application's directory is shown.
    pub root: &'a str,
}

/// The message of the screen.
pub open spec fn message_view(app: App) -> PanelText {
    match app.screen_mode {
        ScreenMode::SetupRequired => setup_view(app),
        ScreenMode::EnginePending => engine_view(app),
    }
}

/// The upper button of the screen.
pub open spec fn upper_button_view(mode: ScreenMode) -> PanelText {
    match mode {
        ScreenMode::SetupRequired => button_view("Install model"@, "click or press i"@),
        ScreenMode::EnginePending => button_view("Waiting"@, "audio engine pending"@),
    }
}

/// What can be clicked when the actions are divided into `rows`: the lower
/// button always, the upper one while the model is missing.
pub open spec fn targets_on(mode: ScreenMode, rows: Seq<Area>) -> Seq<MouseTarget> {
    let quit = MouseTarget { area: rows[2], action: MouseAction::Quit };
    match mode {
        ScreenMode::SetupRequired => seq![
            MouseTarget { area: rows[1], action: MouseAction::InstallModel },
            quit,
        ],
        ScreenMode::EnginePending => seq![quit],
    }
}

/// Everything that is drawn when the screen is divided like this.
pub open spec fn pieces_on(
    app: App,
    shell: Seq<Area>,
    body: Seq<Area>,
    rows: Seq<Area>,
    surroundings: Surroundings,
) -> Seq<PieceText> {
    seq![
        PieceText { area: shell[0], panel: header_view(app, surroundings.seconds as nat) },
        PieceText { area: body[0], panel: message_view(app) },
        PieceText {
            area: rows[0],
            panel: session_view(app, surroundings.installed, surroundings.root@),
        },
        PieceText { area: rows[1], panel: upper_button_view(app.screen_mode) },
        PieceText { area: rows[2], panel: button_view("Quit"@, "click or press q"@) },
        PieceText { area: shell[2], panel: commands_view(app.screen_mode) },
    ]
}

/// Says what can be clicked when the actions are divided into `rows`.
pub fn action_targets(mode: ScreenMode, rows: &Vec<Area>) -> (targets: Vec<MouseTarget>)
    requires
        rows@.len() == 3,
    ensures
        targets@ == targets_on(mode, rows@),
{
    let mut targets: Vec<MouseTarget> = Vec::new();
    match mode {
        ScreenMode::SetupRequired => {
            targets.push(MouseTarget { area: rows[1], action: MouseAction::InstallModel });
        },
        ScreenMode::EnginePending => {},
    }
    targets.push(MouseTarget { area: rows[2], action: MouseAction::Quit });
    assert(targets@ =~= targets_on(mode, rows@));
    targets
}

/// Fills a screen that is divided into `shell`, its middle into `body`, and
/// the second part of that into `rows`.
pub fn compose(
    app: &App,
    shell: &Vec<Area>,
    body: &Vec<Area>,
    rows: &Vec<Area>,
    surroundings: Surroundings<'_>,
) -> (screen: Screen)
    requires
        shell@.len() == 3,
        body@.len() == 2,
        rows@.len() == 3,
    ensures
        piece_texts(screen.pieces@) == pieces_on(*app, shell@, body@, rows@, surroundings),
        screen.targets@ == targets_on(app.screen_mode, rows@),
{
    let message = match app.screen_mode {
        ScreenMode::SetupRequired => setup_message(app),
        ScreenMode::EnginePending => engine_message(app),
    };
    let upper = match app.screen_mode {
        ScreenMode::SetupRequired => button("Install model", "click or press i"),
        ScreenMode::EnginePending => button("Waiting", "audio engine pending"),
    };
    let mut pieces: Vec<Piece> = Vec::new();
    pieces.push(Piece { area: shell[0], panel: header(app, surroundings.seconds) });
    pieces.push(Piece { area: body[0], panel: message });
    pieces.push(
        Piece { area: rows[0], panel: session(app, surroundings.installed, surroundings.root) },
    );
    pieces.push(Piece { area: rows[1], panel: upper });
    pieces.push(Piece { area: rows[2], panel: button("Quit", "click or press q") });
    pieces.push(Piece { area: shell[2], panel: commands(app) });
    assert(piece_texts(pieces@) =~= pieces_on(*app, shell@, body@, rows@, surroundings));
    Screen { pieces, targets: action_targets(app.screen_mode, rows) }
}

/// True if `area` can be divided into `shell`, its middle into `body`, and the
/// second part of that into `rows`.
pub open spec fn may_be_divided(
    mode: ScreenMode,
    area: Area,
    shell: Seq<Area>,
    body: Seq<Area>,
    rows: Seq<Area>,
) -> bool {
    &&& may_stack(shell_sizes(), area, shell)
    &&& may_divide(mode, shell[1], body)
    &&& may_stack(action_sizes(), body[1], rows)
    &&& shell.len() == 3
    &&& body.len() == 2
    &&& rows.len() == 3
}

/// True if the parts stand as they should: header, body and footer one below
/// the other over the whole width; the actions at the right edge beside the
/// message where there is room, and else below it over the whole width; and the
/// two buttons one below the other. Where there is room for all that a part
/// holds, its rows are shared out without a gap.
pub open spec fn is_laid_out(
    mode: ScreenMode,
    area: Area,
    shell: Seq<Area>,
    body: Seq<Area>,
    rows: Seq<Area>,
) -> bool {
    &&& all_lie_in(shell, area) && all_as_wide(shell, area) && stand_below(shell)
    &&& all_lie_in(body, shell[1])
    &&& all_lie_in(rows, body[1]) && all_as_wide(rows, body[1]) && stand_below(rows)
    &&& area.height >= 15 ==> shell_has_heights(area, shell)
    &&& body[1].height >= 9 ==> rows_have_heights(body[1], rows)
    &&& stands_wide(mode, shell[1]) ==> {
        &&& body[1].height == shell[1].height
        &&& stand_beside(body)
        &&& has_widths(mode, shell[1], body)
        &&& forall|i: int|
            0 <= i < rows.len() ==> (#[trigger] rows[i]).x > area.x && rows[i].x + rows[i].width
                == area.x + area.width
    }
    &&& !stands_wide(mode, shell[1]) ==> {
        &&& shell[1].height >= 9 + actions_height(mode) ==> body_has_heights(mode, shell[1], body)
        &&& stand_below(body)
        &&& forall|i: int|
            0 <= i < rows.len() ==> (#[trigger] rows[i]).x == area.x && rows[i].width
                == area.width
    }
}

/// Draws the screen on `area`. What can be clicked afterwards is what this
/// drawing shows.
pub fn render(app: &mut App, area: Area, surroundings: Surroundings<'_>) -> (screen: Screen)
    requires
        area.fits(),
    ensures
        exists|shell: Seq<Area>, body: Seq<Area>, rows: Seq<Area>|
            #[trigger] may_be_divided(old(app).screen_mode, area, shell, body, rows)
                && is_laid_out(old(app).screen_mode, area, shell, body, rows)
                && piece_texts(screen.pieces@) == pieces_on(
                *old(app),
                shell,
                body,
                rows,
                surroundings,
            ) && screen.targets@ == targets_on(old(app).screen_mode, rows),
        forall|i: int|
            0 <= i < screen.pieces@.len() ==> (#[trigger] screen.pieces@[i]).area.lies_in(area),
        *final(app) == (App { mouse_targets: final(app).mouse_targets, ..*old(app) }),
        final(app).mouse_targets@ == screen.targets@,
        final(app).well_formed(),
{
    let shell = divide_shell(area);
    assert(shell@[1].lies_in(area));
    let body = divide_body(app.screen_mode, shell[1]);
    assert(body@[1].lies_in(area));
    let rows = divide_actions(body[1]);
    let screen = compose(app, &shell, &body, &rows, surroundings);
    let targets = action_targets(app.screen_mode, &rows);
    proof {
        assert(may_be_divided(old(app).screen_mode, area, shell@, body@, rows@));
        assert forall|i: int| 0 <= i < rows@.len() implies (#[trigger] rows@[i]).lies_in(body@[1])
            && rows@[i].width == body@[1].width && rows@[i].x == body@[1].x by {
        }
        assert(shell@[1].width == area.width && shell@[1].x == area.x);
        assert(body@[1].lies_in(shell@[1]));
        assert(is_laid_out(old(app).screen_mode, area, shell@, body@, rows@));
        assert(rows@[1].lies_in(area) && rows@[2].lies_in(area));
        assert(targets@ == screen.targets@);
        assert(shell@[0].lies_in(area) && shell@[2].lies_in(area));
        assert(body@[0].lies_in(shell@[1]));
        assert(rows@[0].lies_in(body@[1]));
        assert(rows@[0].lies_in(area) && body@[0].lies_in(area));
        let drawn = pieces_on(*old(app), shell@, body@, rows@, surroundings);
        assert(drawn.len() == 6);
        assert forall|i: int| 0 <= i < screen.pieces@.len() implies (
        #[trigger] screen.pieces@[i]).area.lies_in(area) by {
            assert(piece_texts(screen.pieces@)[i] == screen.pieces@[i]@);
            assert(drawn[i].area.lies_in(area));
        }
    }
    app.set_mouse_targets(targets);
    screen
}

/// On a screen that is laid out as it should be, a click on the last row of the
/// actions leaves it, a click on the row above asks for the model while it is
/// missing and does nothing once it is there, and a click anywhere else does
/// nothing.
pub proof fn law_buttons_do_what_they_say(
    app: App,
    area: Area,
    shell: Seq<Area>,
    body: Seq<Area>,
    rows: Seq<Area>,
    mouse: MouseInput,
)
    requires
        rows.len() == 3,
        is_laid_out(app.screen_mode, area, shell, body, rows),
        app.mouse_targets@ == targets_on(app.screen_mode, rows),
        mouse.left_down,
    ensures
        rows[2].covers(mouse.column, mouse.row) ==> app.after_mouse(mouse) == app.after_quit(),
        rows[1].covers(mouse.column, mouse.row) ==> app.after_mouse(mouse)
            == app.after_install_request(),
        !rows[1].covers(mouse.column, mouse.row) && !rows[2].covers(mouse.column, mouse.row)
            ==> app.after_mouse(mouse) == app,
{
    reveal_with_fuel(action_at, 3);
    let targets = app.mouse_targets@;
    if app.screen_mode == ScreenMode::SetupRequired {
        assert(targets.drop_first()[0] == targets[1]);
        assert(targets.drop_first().drop_first() =~= Seq::empty());
    } else {
        assert(targets.drop_first() =~= Seq::empty());
    }
}

/// A key does something only when it goes down. `q`, the escape key and the
/// control key with `c` leave the screen; `i` leaves it to install the model,
/// while that is missing; every other key does nothing.
pub proof fn law_only_these_keys_do_something(app: App, press: KeyPress)
    ensures
        ({
            let down = press.motion == KeyMotion::Press;
            let quits = press.key == Key::Esc || press.key == Key::Char('q') || (press.key
                == Key::Char('c') && press.control);
            let installs = press.key == Key::Char('i') && app.screen_mode
                == ScreenMode::SetupRequired;
            &&& down && quits ==> app.after_key(press) == (App {
                running: false,
                outcome: RunOutcome::Quit,
                ..app
            })
            &&& down && installs ==> app.after_key(press) == (App {
                running: false,
                outcome: RunOutcome::InstallModel,
                ..app
            })
            &&& !down || (!quits && !installs) ==> app.after_key(press) == app
        }),
        app.after_quit() == (App { running: false, outcome: RunOutcome::Quit, ..app }),
        app.screen_mode == ScreenMode::SetupRequired ==> app.after_install_request() == (App {
            running: false,
            outcome: RunOutcome::InstallModel,
            ..app
        }),
        app.screen_mode == ScreenMode::EnginePending ==> app.after_install_request() == app,
{
}

/// A rectangle covers the cells from its first column and row on, as many as it
/// is wide and high.
pub proof fn law_areas_cover_their_cells(area: Area, right: u16, down: u16, x: u16, y: u16)
    ensures
        x == area.x + right && y == area.y + down ==> (area.covers(x, y) <==> right < area.width
            && down < area.height),
        x < area.x || y < area.y ==> !area.covers(x, y),
{
}

/// A rectangle lies in another only if that covers all its cells, and it fits the
/// terminal if its far edges have coordinates.
pub proof fn law_areas_lie_in_those_that_cover_them(area: Area, whole: Area, x: u16, y: u16)
    ensures
        area.lies_in(whole) && area.covers(x, y) ==> whole.covers(x, y),
        area.lies_in(area),
        area.fits() <==> area.x + area.width <= 65535 && area.y + area.height <= 65535,
        area.lies_in(whole) && whole.fits() ==> area.fits(),
{
}

/// On a screen of any size no two boxes have a cell in common: neither header,
/// body and footer, nor message and actions, nor the rows of the actions; and
/// each lies in the box that it is a part of.
pub proof fn law_boxes_do_not_overlap(
    mode: ScreenMode,
    area: Area,
    shell: Seq<Area>,
    body: Seq<Area>,
    rows: Seq<Area>,
    x: u16,
    y: u16,
)
    requires
        is_laid_out(mode, area, shell, body, rows),
        shell.len() == 3,
        body.len() == 2,
        rows.len() == 3,
    ensures
        forall|i: int, j: int|
            0 <= i < j < 3 ==> !((#[trigger] shell[i]).covers(x, y) && (#[trigger] shell[j]).covers(
                x,
                y,
            )),
        !(body[0].covers(x, y) && body[1].covers(x, y)),
        forall|i: int, j: int|
            0 <= i < j < 3 ==> !((#[trigger] rows[i]).covers(x, y) && (#[trigger] rows[j]).covers(
                x,
                y,
            )),
        forall|i: int| 0 <= i < 3 && (#[trigger] shell[i]).covers(x, y) ==> area.covers(x, y),
        forall|i: int| 0 <= i < 2 && (#[trigger] body[i]).covers(x, y) ==> shell[1].covers(x, y),
        forall|i: int| 0 <= i < 3 && (#[trigger] rows[i]).covers(x, y) ==> body[1].covers(x, y),
{
    assert forall|i: int| 0 <= i < 3 && (#[trigger] shell[i]).covers(x, y) implies area.covers(
        x,
        y,
    ) by {
        assert(shell[i].lies_in(area));
    }
    assert forall|i: int| 0 <= i < 2 && (#[trigger] body[i]).covers(x, y) implies shell[1].covers(
        x,
        y,
    ) by {
        assert(body[i].lies_in(shell[1]));
    }
    assert forall|i: int| 0 <= i < 3 && (#[trigger] rows[i]).covers(x, y) implies body[1].covers(
        x,
        y,
    ) by {
        assert(rows[i].lies_in(body[1]));
    }
}

/// A click does what the first target under it says, and nothing where there is
/// none; the mouse does nothing else.
pub proof fn law_clicks_reach_the_first_target(app: App, mouse: MouseInput, index: int)
    ensures
        !mouse.left_down ==> app.after_mouse(mouse) == app,
        (forall|i: int|
            0 <= i < app.mouse_targets@.len() ==> !(#[trigger] app.mouse_targets@[i]).area.covers(
                mouse.column,
                mouse.row,
            )) ==> app.after_mouse(mouse) == app,
        mouse.left_down && 0 <= index < app.mouse_targets@.len()
            && app.mouse_targets@[index].area.covers(mouse.column, mouse.row) && (forall|i: int|
            0 <= i < index ==> !(#[trigger] app.mouse_targets@[i]).area.covers(
                mouse.column,
                mouse.row,
            )) ==> app.after_mouse(mouse) == match app.mouse_targets@[index].action {
            MouseAction::Quit => app.after_quit(),
            MouseAction::InstallModel => app.after_install_request(),
        },
{
    lemma_first_target(app.mouse_targets@, mouse.column, mouse.row, index);
}

proof fn lemma_first_target(targets: Seq<MouseTarget>, x: u16, y: u16, index: int)
    ensures
        (forall|i: int| 0 <= i < targets.len() ==> !(#[trigger] targets[i]).area.covers(x, y))
            ==> action_at(targets, x, y) is None,
        0 <= index < targets.len() && targets[index].area.covers(x, y) && (forall|i: int|
            0 <= i < index ==> !(#[trigger] targets[i]).area.covers(x, y)) ==> action_at(
            targets,
            x,
            y,
        ) == Some(targets[index].action),
    decreases targets.len(),
{
    if targets.len() > 0 {
        let tail = targets.drop_first();
        lemma_first_target(tail, x, y, index - 1);
        assert(forall|i: int| 0 <= i < tail.len() ==> #[trigger] tail[i] == targets[i + 1]);
        assert(targets[0] == targets.first());
        if forall|i: int| 0 <= i < targets.len() ==> !(#[trigger] targets[i]).area.covers(x, y) {
            assert forall|i: int| 0 <= i < tail.len() implies !(#[trigger] tail[i]).area.covers(
                x,
                y,
            ) by {
                assert(tail[i] == targets[i + 1]);
            }
        }
        if 0 < index < targets.len() && forall|i: int|
            0 <= i < index ==> !(#[trigger] targets[i]).area.covers(x, y) {
            assert forall|i: int| 0 <= i < index - 1 implies !(#[trigger] tail[i]).area.covers(
                x,
                y,
            ) by {
                assert(tail[i] == targets[i + 1]);
            }
            assert(tail[index - 1] == targets[index]);
        }
    }
}

/// The clock shows hours, minutes and seconds, two digits each and more for the
/// hours where they need it.
pub proof fn law_clock_shows_hours_minutes_and_seconds(hour: nat, minute: nat, second: nat)
    requires
        minute < 60,
        second < 60,
    ensures
        clock_text(3600 * hour + 60 * minute + second) == two_digit_text(hour) + ":"@
            + two_digit_text(minute) + ":"@ + two_digit_text(second),
{
    let time = 3600 * hour + 60 * minute + second;
    assert(time / 3600 == hour);
    assert(time / 60 == 60 * hour + minute);
    assert((60 * hour + minute) % 60 == minute);
    assert(time % 60 == second);
}

/// What is shown is told whole: every line and piece of a panel, with its tone.
pub proof fn law_panels_are_told_whole(panel: Panel, pieces: Seq<StyledText>, drawn: Seq<Piece>)
    ensures
        panel@.title == panel.title@,
        panel@.wrapping == panel.wrapping,
        panel@.centered == panel.centered,
        panel@.lines.len() == panel.lines@.len(),
        forall|i: int|
            0 <= i < panel.lines@.len() ==> #[trigger] panel@.lines[i] == shown_line(
                panel.lines@[i]@,
            ),
        shown_line(pieces).len() == pieces.len(),
        forall|i: int|
            0 <= i < pieces.len() ==> (#[trigger] shown_line(pieces)[i]).text == pieces[i].text@
                && shown_line(pieces)[i].tone == pieces[i].tone,
        piece_texts(drawn).len() == drawn.len(),
        forall|i: int|
            0 <= i < drawn.len() ==> (#[trigger] piece_texts(drawn)[i]).area == drawn[i].area
                && piece_texts(drawn)[i].panel == drawn[i].panel@,
{
}

/// The header shows the program, what the screen is about, the time, and the
/// model, the language and the output that were asked for, each whole.
pub proof fn law_header_shows_what_was_asked_for(app: App, seconds: nat)
    ensures
        ({
            let line = header_view(app, seconds).lines[0];
            &&& header_view(app, seconds).lines.len() == 1
            &&& line.len() == 3
            &&& line[0].text == "whisperCLI"@
            &&& app.screen_mode == ScreenMode::SetupRequired ==> line[1].text == " SETUP "@
            &&& app.screen_mode == ScreenMode::EnginePending ==> line[1].text == " ENGINE PENDING "@
            &&& line[2].text == " "@ + clock_text(seconds) + "   model "@ + app.args.model@
                + "   lang "@ + app.args.lang@ + "   out "@ + app.args.out@
            &&& line[0].tone == Tone::Strong && line[1].tone == Tone::Gray && line[2].tone
                == Tone::Gray
        }),
{
}

/// The summary shows the model, whether it is there, the language, the output and
/// the application's directory, each whole on its line.
pub proof fn law_summary_shows_what_was_asked_for(app: App, installed: bool, root: Seq<char>)
    ensures
        ({
            let lines = session_view(app, installed, root).lines;
            &&& lines.len() == 5
            &&& lines[0][0].text == "model  "@ && lines[0][1].text == app.args.model@
            &&& lines[1][0].text == "state  "@ && lines[1][1].text == if installed {
                "installed"@
            } else {
                "missing"@
            }
            &&& lines[2][0].text == "lang   "@ && lines[2][1].text == app.args.lang@
            &&& lines[3][0].text == "output "@ && lines[3][1].text == app.args.out@
            &&& lines[4][0].text == "home   "@ && lines[4][1].text == root
            &&& forall|i: int|
                0 <= i < 5 ==> (#[trigger] lines[i]).len() == 2 && lines[i][0].tone == Tone::Muted
                    && lines[i][1].tone == Tone::Plain
        }),
{
}

/// A screen whose model is missing says so, names the model with its size, and
/// gives the command that installs it.
pub proof fn law_missing_model_is_told_of(app: App)
    ensures
        setup_view(app).lines.len() == 7,
        setup_view(app).lines[0] == seq![
            Styled { text: "Model is not installed"@, tone: Tone::Strong },
        ],
        setup_view(app).lines[1].len() == 0,
        setup_view(app).lines[2][0].text
            == "whisperCLI will not show fake transcript text or simulated audio."@,
        setup_view(app).lines[3][0].text
            == "Install a local whisper.cpp model before starting transcription."@,
        setup_view(app).lines[4].len() == 0,
        setup_view(app).lines[5][0].text == "Recommended: "@,
        setup_view(app).lines[5][1].text == app.selected_model.name@ + " ("@
            + app.selected_model.size@ + ")"@,
        setup_view(app).lines[6][0].text == "Command:     "@,
        setup_view(app).lines[6][1].text == "whispercli models install "@ + app.args.model@,
{
}

/// A screen whose model is there shows no transcript that was not heard, and
/// where the transcript goes.
pub proof fn law_present_model_is_told_of(app: App)
    ensures
        engine_view(app).lines.len() == 6,
        engine_view(app).lines[0][0].text == "Ready for the audio engine implementation"@,
        engine_view(app).lines[1].len() == 0,
        engine_view(app).lines[2][0].text
            == "No transcript is shown until real microphone input and whisper.cpp decoding are connected."@,
        engine_view(app).lines[3][0].text
            == "The model is installed, so the next implementation step is cpal input + whisper-rs streaming."@,
        engine_view(app).lines[4].len() == 0,
        engine_view(app).lines[5][0].text == "Output path: "@,
        engine_view(app).lines[5][1].text == app.args.out@,
{
}

/// A button shows its label and its hint, both whole; the footer shows the keys
/// that do something on this screen.
pub proof fn law_buttons_and_keys_are_shown(label: Seq<char>, hint: Seq<char>)
    ensures
        button_view(label, hint).lines == seq![
            seq![
                Styled { text: label, tone: Tone::Strong },
                Styled { text: "  "@ + hint, tone: Tone::Muted },
            ],
        ],
        button_view(label, hint).centered,
        upper_button_view(ScreenMode::SetupRequired) == button_view(
            "Install model"@,
            "click or press i"@,
        ),
        upper_button_view(ScreenMode::EnginePending) == button_view(
            "Waiting"@,
            "audio engine pending"@,
        ),
        commands_view(ScreenMode::SetupRequired).lines[0][1].text
            == "i install model   q/Esc/Ctrl+C quit   mouse click supported"@,
        commands_view(ScreenMode::EnginePending).lines[0][1].text
            == "q/Esc/Ctrl+C quit   mouse click supported   no fake transcript"@,
{
}

/// The frames of the boxes carry these titles, and what is too long for a box is
/// continued in the message, the summary and the footer, and cut elsewhere.
pub proof fn law_frames_have_these_titles(
    app: App,
    seconds: nat,
    installed: bool,
    root: Seq<char>,
    label: Seq<char>,
)
    ensures
        header_view(app, seconds).title == ""@,
        header_view(app, seconds).wrapping == Wrapping::Cut,
        !header_view(app, seconds).centered,
        setup_view(app).title == " Setup "@,
        setup_view(app).wrapping == Wrapping::Keep,
        !setup_view(app).centered,
        engine_view(app).title == " Live Transcript "@,
        engine_view(app).wrapping == Wrapping::Keep,
        !engine_view(app).centered,
        session_view(app, installed, root).title == " Session "@,
        session_view(app, installed, root).wrapping == Wrapping::Trim,
        !session_view(app, installed, root).centered,
        button_view(label, root).title == ""@,
        button_view(label, root).wrapping == Wrapping::Cut,
        commands_view(app.screen_mode).title == ""@,
        commands_view(app.screen_mode).lines.len() == 1,
        commands_view(app.screen_mode).lines[0].len() == 2,
        commands_view(app.screen_mode).lines[0][0].text == "Commands  "@,
        commands_view(app.screen_mode).wrapping == Wrapping::Trim,
        !commands_view(app.screen_mode).centered,
{
}

/// Six boxes are drawn: the header, the message for the state of the model, the
/// summary, the two buttons and the footer, each at its place. The lower button
/// can always be clicked to leave, and the upper one to install the model, while
/// that is missing.
pub proof fn law_screen_has_these_parts(
    app: App,
    shell: Seq<Area>,
    body: Seq<Area>,
    rows: Seq<Area>,
    surroundings: Surroundings,
)
    ensures
        ({
            let pieces = pieces_on(app, shell, body, rows, surroundings);
            &&& pieces.len() == 6
            &&& pieces[0].area == shell[0] && pieces[0].panel == header_view(
                app,
                surroundings.seconds as nat,
            )
            &&& pieces[1].area == body[0]
            &&& app.screen_mode == ScreenMode::SetupRequired ==> pieces[1].panel == setup_view(app)
            &&& app.screen_mode == ScreenMode::EnginePending ==> pieces[1].panel == engine_view(app)
            &&& pieces[2].area == rows[0] && pieces[2].panel == session_view(
                app,
                surroundings.installed,
                surroundings.root@,
            )
            &&& pieces[3].area == rows[1] && pieces[3].panel == upper_button_view(app.screen_mode)
            &&& pieces[4].area == rows[2] && pieces[4].panel == button_view(
                "Quit"@,
                "click or press q"@,
            )
            &&& pieces[5].area == shell[2] && pieces[5].panel == commands_view(app.screen_mode)
        }),
        targets_on(ScreenMode::EnginePending, rows) == seq![
            MouseTarget { area: rows[2], action: MouseAction::Quit },
        ],
        targets_on(ScreenMode::SetupRequired, rows) == seq![
            MouseTarget { area: rows[1], action: MouseAction::InstallModel },
            MouseTarget { area: rows[2], action: MouseAction::Quit },
        ],
{
}

/// Message and actions stand side by side from a certain size of the body on, and
/// one below the other on every smaller one.
pub proof fn law_wide_bodies_stand_side_by_side(area: Area)
    ensures
        stands_wide(ScreenMode::SetupRequired, area) <==> area.width >= 94 && area.height >= 16,
        stands_wide(ScreenMode::EnginePending, area) <==> area.width >= 104 && area.height >= 18,
        shell_sizes() == seq![Sizing::Length(3), Sizing::Min(8), Sizing::Length(4)],
        action_sizes() == seq![Sizing::Min(3), Sizing::Length(3), Sizing::Length(3)],
        body_sizes(ScreenMode::SetupRequired, true) == seq![
            Sizing::Percentage(62),
            Sizing::Percentage(38),
        ],
        body_sizes(ScreenMode::SetupRequired, false) == seq![Sizing::Min(9), Sizing::Length(7)],
        body_sizes(ScreenMode::EnginePending, true) == seq![
            Sizing::Percentage(65),
            Sizing::Percentage(35),
        ],
        body_sizes(ScreenMode::EnginePending, false) == seq![Sizing::Min(9), Sizing::Length(8)],
{
}

/// On a screen that is laid out as it should be and has room, the header takes the
/// first three rows and the footer the last four. Beside the message the actions
/// reach to the right edge and from the header to the footer; below it they stand
/// on the footer, seven or eight rows high. In both cases the last six rows of the
/// actions are the two buttons.
pub proof fn law_parts_stand_at_their_places(
    mode: ScreenMode,
    area: Area,
    shell: Seq<Area>,
    body: Seq<Area>,
    rows: Seq<Area>,
)
    requires
        is_laid_out(mode, area, shell, body, rows),
        shell.len() == 3,
        body.len() == 2,
        rows.len() == 3,
        area.height >= 24,
    ensures
        shell[0].y == area.y && shell[0].height == 3,
        shell[1].y == area.y + 3 && shell[1].height == area.height - 7,
        shell[2].y == area.y + area.height - 4 && shell[2].height == 4,
        forall|i: int|
            0 <= i < 3 ==> (#[trigger] shell[i]).x == area.x && shell[i].width == area.width,
        stands_wide(mode, shell[1]) ==> {
            &&& body[1].y == shell[1].y && body[1].height == shell[1].height
            &&& body[0].x + body[0].width <= body[1].x
            &&& mode == ScreenMode::SetupRequired ==> 62 * area.width - 200 <= 100 * body[0].width
                <= 62 * area.width + 200
            &&& mode == ScreenMode::EnginePending ==> 65 * area.width - 200 <= 100 * body[0].width
                <= 65 * area.width + 200
            &&& body[1].x + body[1].width == area.x + area.width
        },
        !stands_wide(mode, shell[1]) ==> {
            let below = if mode == ScreenMode::SetupRequired {
                7
            } else {
                8int
            };
            &&& body[0].y == shell[1].y
            &&& body[0].height == shell[1].height - below
            &&& body[1].y == shell[1].y + shell[1].height - below
            &&& body[1].height == below
            &&& body[1].x == area.x && body[1].width == area.width
        },
        body[1].height >= 9 ==> {
            &&& rows[0].y == body[1].y && rows[0].height == body[1].height - 6
            &&& rows[1].y == body[1].y + body[1].height - 6 && rows[1].height == 3
            &&& rows[2].y == body[1].y + body[1].height - 3 && rows[2].height == 3
        },
        forall|i: int|
            0 <= i < 3 ==> (#[trigger] rows[i]).x == body[1].x && rows[i].width == body[1].width,
{
    assert(shell[0].lies_in(area) && shell[1].lies_in(area) && shell[2].lies_in(area));
    assert(body[0].lies_in(shell[1]) && body[1].lies_in(shell[1]));
    assert(rows[0].lies_in(body[1]) && rows[1].lies_in(body[1]) && rows[2].lies_in(body[1]));
    assert(shell[0].width == area.width && shell[1].width == area.width && shell[2].width
        == area.width);
    assert(rows[0].width == body[1].width && rows[1].width == body[1].width && rows[2].width
        == body[1].width);
    assert(rows[0].x == body[1].x);
}

} // verus!
