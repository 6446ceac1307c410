//! The installation of a model, as a machine that says what to do next.
//!
//! The machine knows what has to be asked, fetched and written and in which
//! order; the files and the network are reached by whoever runs it, and report
//! back with an event.
use crate::app::{
    catalogue, law_model_files_are_distinct, model_by_name, model_named, state_of,
    supported_model_names, supported_names, AppPaths, ModelFile, ModelInfo, ModelState, ModelText,
    MODEL_BASE_URL,
};
use crate::checksum::{compare_digest, sha1_hex, Checksum};
use crate::error::{add_context, with_context, AppError};
use crate::path::{
    display, file_stem, joined_path, name_part, name_with_extension, ordinary, parts_with_extension,
    path_display, path_named, path_parts, plain_name, renamed_path, with_extension, PathPart,
};
use crate::text::{decimal, decimal_text, line_texts, same_text};
use std::path::PathBuf;
use vstd::prelude::*;
use vstd::string::*;
use vstd::utf8::*;

verus! {

/// What is installed, from where, and to which place.
#[derive(Debug)]
pub struct InstallPlan {
    pub model: ModelInfo,
    /// The directory of the models.
    pub directory: PathBuf,
    /// The place of the model's file.
    pub target: PathBuf,
    /// The place of the file while it is incomplete.
    pub temp: PathBuf,
    pub url: String,
}

/// Plans the installation of the model that `requested` names.
pub fn plan_install(paths: &AppPaths, requested: &str) -> (plan: Result<InstallPlan, AppError>)
    ensures
        match plan {
            Ok(plan) => {
                &&& model_named(requested@) == Some(plan.model@)
                &&& plan.directory == paths.models
                &&& plan.target == joined_path(paths.models, path_named(plan.model.file_name@))
                &&& plan.temp == renamed_path(plan.target, "bin.part"@)
                &&& ordinary(paths.models) ==> path_parts(plan.target) == path_parts(
                    paths.models,
                ).push(name_part(plan.model.file_name@))
                &&& path_parts(plan.temp) == parts_with_extension(
                    path_parts(plan.target),
                    "bin.part"@,
                )
                &&& plan.url@ == MODEL_BASE_URL@ + "/"@ + plan.model.file_name@
            },
            Err(error) => {
                &&& model_named(requested@) is None
                &&& error matches AppError::UnknownModel { requested: name, supported } && name@
                    == requested@ && supported@ == supported_names()
            },
        },
{
    match model_by_name(requested) {
        None => Err(
            AppError::UnknownModel {
                requested: String::from_str(requested),
                supported: supported_model_names(),
            },
        ),
        Some(model) => {
            proof {
                lemma_found_is_listed(catalogue(), crate::app::requested_name(requested@));
                law_model_files_are_distinct();
                let i = choose|i: int|
                    0 <= i < catalogue().len() && #[trigger] catalogue()[i] == model@;
                assert(plain_name(catalogue()[i].file_name));
                reveal_strlit("bin.part");
            }
            let target = paths.model_path(model);
            let temp = with_extension(&target, "bin.part");
            let mut url = String::from_str(MODEL_BASE_URL);
            url.append("/");
            url.append(model.file_name);
            Ok(InstallPlan { model, directory: paths.models.clone(), target, temp, url })
        },
    }
}

proof fn lemma_found_is_listed(models: Seq<ModelText>, name: Seq<char>)
    ensures
        crate::app::first_named(models, name) matches Some(model) ==> exists|i: int|
            0 <= i < models.len() && #[trigger] models[i] == model,
    decreases models.len(),
{
    if models.len() > 0 {
        if models.first().name == name {
            assert(models[0] == models.first());
        } else {
            lemma_found_is_listed(models.drop_first(), name);
            if crate::app::first_named(models.drop_first(), name) is Some {
                let model = crate::app::first_named(models.drop_first(), name)->0;
                let i = choose|i: int|
                    0 <= i < models.drop_first().len() && #[trigger] models.drop_first()[i] == model;
                assert(models[i + 1] == model);
            }
        }
    }
}

/// How far an installation has come: what it is waiting to hear.
#[derive(Clone, Copy, Debug, Eq, PartialEq, Structural)]
pub enum Phase {
    CheckTarget,
    HashTarget,
    CreateDirectory,
    CheckTemp,
    RemoveStale,
    BuildClient,
    Send,
    CheckStatus,
    CreateTemp,
    Receive,
    Flush,
    Discard,
    Rename,
    Finished,
}

/// What became of the last action.
#[derive(Debug)]
pub enum InstallEvent {
    /// Whether the file exists.
    Exists(bool),
    /// The digest of the file.
    Digest(String),
    /// It succeeded.
    Done,
    /// The next piece of the model was received and written.
    Chunk(Vec<u8>),
    /// The model was received to its end.
    EndOfBody,
    /// It failed, for this reason.
    Failed(String),
    /// A piece of the model was received but could not be written.
    WriteFailed(String),
}

/// What has to be done next.
#[derive(Debug)]
pub enum InstallAction {
    /// Find out whether there is a file.
    CheckExists(PathBuf),
    /// Compute the digest of a file.
    HashFile(PathBuf),
    CreateDirectory(PathBuf),
    RemoveFile(PathBuf),
    /// Show these lines and get ready for a download.
    BuildClient(Vec<String>),
    /// Ask the server for this address.
    Send(String),
    /// See whether the server consents.
    CheckStatus,
    CreateFile(PathBuf),
    /// Receive the next piece and write it to the file.
    Receive,
    /// Finish writing the file.
    Flush,
    /// Remove the file; it does not matter if that fails.
    Discard(PathBuf),
    Rename { from: PathBuf, to: PathBuf },
    /// Show this line; the installation is over.
    Finish(String),
    /// The installation has failed with this message.
    Fail(String),
}

/// What an action comes to.
#[verifier::ext_equal]
pub enum ActionText {
    CheckExists(PathBuf),
    HashFile(PathBuf),
    CreateDirectory(PathBuf),
    RemoveFile(PathBuf),
    BuildClient(Seq<Seq<char>>),
    Send(Seq<char>),
    CheckStatus,
    CreateFile(PathBuf),
    Receive,
    Flush,
    Discard(PathBuf),
    Rename { from: PathBuf, to: PathBuf },
    Finish(Seq<char>),
    Fail(Seq<char>),
}

impl View for InstallAction {
    type V = ActionText;

    open spec fn view(&self) -> ActionText {
        match *self {
            InstallAction::CheckExists(path) => ActionText::CheckExists(path),
            InstallAction::HashFile(path) => ActionText::HashFile(path),
            InstallAction::CreateDirectory(path) => ActionText::CreateDirectory(path),
            InstallAction::RemoveFile(path) => ActionText::RemoveFile(path),
            InstallAction::BuildClient(lines) => ActionText::BuildClient(line_texts(lines@)),
            InstallAction::Send(url) => ActionText::Send(url@),
            InstallAction::CheckStatus => ActionText::CheckStatus,
            InstallAction::CreateFile(path) => ActionText::CreateFile(path),
            InstallAction::Receive => ActionText::Receive,
            InstallAction::Flush => ActionText::Flush,
            InstallAction::Discard(path) => ActionText::Discard(path),
            InstallAction::Rename { from, to } => ActionText::Rename { from, to },
            InstallAction::Finish(line) => ActionText::Finish(line@),
            InstallAction::Fail(message) => ActionText::Fail(message@),
        }
    }
}

/// The state of an installation.
#[verifier::ext_equal]
pub struct InstallState {
    pub model: ModelText,
    pub directory: PathBuf,
    pub target: PathBuf,
    pub temp: PathBuf,
    pub url: Seq<char>,
    pub phase: Phase,
    /// The content received and written so far.
    pub received: Seq<u8>,
}

/// What the server is asked for is announced by these lines.
pub open spec fn announcement(state: InstallState) -> Seq<Seq<char>> {
    seq!["downloading "@ + state.model.name + " ("@ + state.model.size + ")"@, state.url]
}

/// The sentence for content of `subject` that has the digest `actual` in place
/// of the one in the catalogue.
pub open spec fn mismatch_text(subject: Seq<char>, expected: Seq<char>, actual: Seq<char>) -> Seq<
    char,
> {
    "SHA1 mismatch for "@ + subject + ": expected "@ + expected + ", got "@ + actual
}

/// What was being attempted when the action of this phase failed.
pub open spec fn failure_text(state: InstallState, cause: Seq<char>) -> Seq<char> {
    match state.phase {
        Phase::HashTarget => with_context(
            "Installed model is corrupt: "@ + path_display(state.target),
            with_context("Failed to read "@ + path_display(state.target), cause),
        ),
        Phase::CreateDirectory => with_context(
            "Failed to create "@ + path_display(state.directory),
            cause,
        ),
        Phase::RemoveStale => with_context(
            "Failed to remove stale "@ + path_display(state.temp),
            cause,
        ),
        Phase::BuildClient => with_context("Failed to create HTTP client"@, cause),
        Phase::Send => with_context("Failed to start download from "@ + state.url, cause),
        Phase::CheckStatus => with_context(
            "Model server returned an error for "@ + state.url,
            cause,
        ),
        Phase::CreateTemp => with_context("Failed to create "@ + path_display(state.temp), cause),
        Phase::Receive => with_context("Failed to read from "@ + state.url, cause),
        Phase::Rename => with_context(
            "Failed to move model into "@ + path_display(state.target),
            cause,
        ),
        _ => cause,
    }
}

/// True if `event` can be heard in this phase.
pub open spec fn expects(phase: Phase, event: InstallEvent) -> bool {
    match phase {
        Phase::CheckTarget | Phase::CheckTemp => event is Exists,
        Phase::HashTarget => event is Digest || event is Failed,
        Phase::Receive => event is Chunk || event is EndOfBody || event is Failed
            || event is WriteFailed,
        Phase::Finished => false,
        _ => event is Done || event is Failed,
    }
}

/// The state after `event`.
pub open spec fn state_after(state: InstallState, event: InstallEvent) -> InstallState {
    let phase = match (state.phase, event) {
        (Phase::CheckTarget, InstallEvent::Exists(exists)) => if exists {
            Phase::HashTarget
        } else {
            Phase::CreateDirectory
        },
        (Phase::CreateDirectory, InstallEvent::Done) => Phase::CheckTemp,
        (Phase::CheckTemp, InstallEvent::Exists(exists)) => if exists {
            Phase::RemoveStale
        } else {
            Phase::BuildClient
        },
        (Phase::RemoveStale, InstallEvent::Done) => Phase::BuildClient,
        (Phase::BuildClient, InstallEvent::Done) => Phase::Send,
        (Phase::Send, InstallEvent::Done) => Phase::CheckStatus,
        (Phase::CheckStatus, InstallEvent::Done) => Phase::CreateTemp,
        (Phase::CreateTemp, InstallEvent::Done) => Phase::Receive,
        (Phase::Receive, InstallEvent::Chunk(_)) => Phase::Receive,
        (Phase::Receive, InstallEvent::EndOfBody) => Phase::Flush,
        (Phase::Flush, InstallEvent::Done) => if sha1_hex(state.received) == state.model.sha1 {
            Phase::Rename
        } else {
            Phase::Discard
        },
        _ => Phase::Finished,
    };
    let received = match (state.phase, event) {
        (Phase::Receive, InstallEvent::Chunk(data)) => state.received + data@,
        _ => state.received,
    };
    InstallState { phase, received, ..state }
}

/// What has to be done after `event`.
pub open spec fn action_after(state: InstallState, event: InstallEvent) -> ActionText {
    let next = state_after(state, event);
    match (state.phase, event) {
        (Phase::HashTarget, InstallEvent::Digest(actual)) => if actual@ == state.model.sha1 {
            ActionText::Finish(
                "model '"@ + state.model.name + "' already installed at "@ + path_display(
                    state.target,
                ),
            )
        } else {
            ActionText::Fail(
                with_context(
                    "Installed model is corrupt: "@ + path_display(state.target),
                    mismatch_text(path_display(state.target), state.model.sha1, actual@),
                ),
            )
        },
        (Phase::Discard, _) => ActionText::Fail(
            mismatch_text(state.model.name, state.model.sha1, sha1_hex(state.received)),
        ),
        (_, InstallEvent::Failed(cause)) => ActionText::Fail(failure_text(state, cause@)),
        (_, InstallEvent::WriteFailed(cause)) => ActionText::Fail(
            with_context("Failed to write "@ + path_display(state.temp), cause@),
        ),
        _ => match next.phase {
            Phase::CheckTarget => ActionText::CheckExists(state.target),
            Phase::HashTarget => ActionText::HashFile(state.target),
            Phase::CreateDirectory => ActionText::CreateDirectory(state.directory),
            Phase::CheckTemp => ActionText::CheckExists(state.temp),
            Phase::RemoveStale => ActionText::RemoveFile(state.temp),
            Phase::BuildClient => ActionText::BuildClient(announcement(state)),
            Phase::Send => ActionText::Send(state.url),
            Phase::CheckStatus => ActionText::CheckStatus,
            Phase::CreateTemp => ActionText::CreateFile(state.temp),
            Phase::Receive => ActionText::Receive,
            Phase::Flush => ActionText::Flush,
            Phase::Discard => ActionText::Discard(state.temp),
            Phase::Rename => ActionText::Rename { from: state.temp, to: state.target },
            Phase::Finished => ActionText::Finish("installed "@ + path_display(state.target)),
        },
    }
}

/// An installation in progress.
pub struct Install {
    plan: InstallPlan,
    phase: Phase,
    checksum: Checksum,
    received: Ghost<Seq<u8>>,
    /// The digest of what was received, once it is known to be wrong.
    digest: String,
}

impl View for Install {
    type V = InstallState;

    closed spec fn view(&self) -> InstallState {
        InstallState {
            model: self.plan.model@,
            directory: self.plan.directory,
            target: self.plan.target,
            temp: self.plan.temp,
            url: self.plan.url@,
            phase: self.phase,
            received: self.received@,
        }
    }
}

/// The state in which an installation starts.
pub open spec fn initial_state(plan: InstallPlan) -> InstallState {
    InstallState {
        model: plan.model@,
        directory: plan.directory,
        target: plan.target,
        temp: plan.temp,
        url: plan.url@,
        phase: Phase::CheckTarget,
        received: Seq::empty(),
    }
}

fn prefixed(prefix: &str, path: &PathBuf) -> (text: String)
    ensures
        text@ == prefix@ + path_display(*path),
{
    let mut text = String::from_str(prefix);
    text.append(display(path).as_str());
    text
}

fn prefixed_text(prefix: &str, rest: &str) -> (text: String)
    ensures
        text@ == prefix@ + rest@,
{
    let mut text = String::from_str(prefix);
    text.append(rest);
    text
}

fn mismatch_message(subject: &str, expected: &str, actual: &str) -> (message: String)
    ensures
        message@ == mismatch_text(subject@, expected@, actual@),
{
    AppError::Sha1Mismatch {
        subject: String::from_str(subject),
        expected: String::from_str(expected),
        actual: String::from_str(actual),
    }.message()
}

impl Install {
    /// What holds of every installation.
    pub closed spec fn well_formed(self) -> bool {
        &&& self.phase == Phase::Discard ==> self.digest@ == sha1_hex(self.received@)
        &&& match self.phase {
            Phase::Discard | Phase::Rename | Phase::Finished => true,
            _ => self.checksum@ == self.received@,
        }
    }

    /// Starts the installation: the first thing to do is to look for the file.
    pub fn new(plan: InstallPlan) -> (start: (Install, InstallAction))
        ensures
            start.0.well_formed(),
            start.0@ == initial_state(plan),
            start.1@ == ActionText::CheckExists(plan.target),
    {
        let target = plan.target.clone();
        (
            Install {
                plan,
                phase: Phase::CheckTarget,
                checksum: Checksum::new(),
                received: Ghost(Seq::empty()),
                digest: String::new(),
            },
            InstallAction::CheckExists(target),
        )
    }

    /// True once the installation is over.
    pub fn is_finished(&self) -> (finished: bool)
        ensures
            finished == (self@.phase == Phase::Finished),
    {
        match self.phase {
            Phase::Finished => true,
            _ => false,
        }
    }

    /// True if `event` can be heard now.
    pub fn can_hear(&self, event: &InstallEvent) -> (answer: bool)
        ensures
            answer == expects(self@.phase, *event),
    {
        match self.phase {
            Phase::CheckTarget | Phase::CheckTemp => match event {
                InstallEvent::Exists(_) => true,
                _ => false,
            },
            Phase::HashTarget => match event {
                InstallEvent::Digest(_) | InstallEvent::Failed(_) => true,
                _ => false,
            },
            Phase::Receive => match event {
                InstallEvent::Chunk(_)
                | InstallEvent::EndOfBody
                | InstallEvent::Failed(_)
                | InstallEvent::WriteFailed(_) => true,
                _ => false,
            },
            Phase::Finished => false,
            _ => match event {
                InstallEvent::Done | InstallEvent::Failed(_) => true,
                _ => false,
            },
        }
    }

    fn failure_message(&self, cause: &str) -> (message: String)
        ensures
            message@ == failure_text(self@, cause@),
    {
        match self.phase {
            Phase::HashTarget => {
                let context = prefixed("Installed model is corrupt: ", &self.plan.target);
                let reading = prefixed("Failed to read ", &self.plan.target);
                let inner = add_context(reading.as_str(), cause);
                add_context(context.as_str(), inner.as_str())
            },
            Phase::CreateDirectory => {
                let context = prefixed("Failed to create ", &self.plan.directory);
                add_context(context.as_str(), cause)
            },
            Phase::RemoveStale => {
                let context = prefixed("Failed to remove stale ", &self.plan.temp);
                add_context(context.as_str(), cause)
            },
            Phase::BuildClient => add_context("Failed to create HTTP client", cause),
            Phase::Send => {
                let context = prefixed_text(
                    "Failed to start download from ",
                    self.plan.url.as_str(),
                );
                add_context(context.as_str(), cause)
            },
            Phase::CheckStatus => {
                let context = prefixed_text(
                    "Model server returned an error for ",
                    self.plan.url.as_str(),
                );
                add_context(context.as_str(), cause)
            },
            Phase::CreateTemp => {
                let context = prefixed("Failed to create ", &self.plan.temp);
                add_context(context.as_str(), cause)
            },
            Phase::Receive => {
                let context = prefixed_text("Failed to read from ", self.plan.url.as_str());
                add_context(context.as_str(), cause)
            },
            Phase::Rename => {
                let context = prefixed("Failed to move model into ", &self.plan.target);
                add_context(context.as_str(), cause)
            },
            _ => String::from_str(cause),
        }
    }

    fn announcement_lines(&self) -> (lines: Vec<String>)
        ensures
            line_texts(lines@) == announcement(self@),
    {
        let mut line = String::from_str("downloading ");
        line.append(self.plan.model.name);
        line.append(" (");
        line.append(self.plan.model.size);
        line.append(")");
        let mut lines: Vec<String> = Vec::new();
        lines.push(line);
        lines.push(self.plan.url.clone());
        assert(line_texts(lines@) =~= announcement(self@));
        lines
    }

    /// Hears what became of the last action and says what to do next.
    pub fn step(&mut self, event: InstallEvent) -> (action: InstallAction)
        requires
            old(self).well_formed(),
            expects(old(self)@.phase, event),
        ensures
            final(self).well_formed(),
            final(self)@ == state_after(old(self)@, event),
            action@ == action_after(old(self)@, event),
    {
        match event {
            InstallEvent::Exists(exists) => match self.phase {
                Phase::CheckTarget => if exists {
                    self.phase = Phase::HashTarget;
                    InstallAction::HashFile(self.plan.target.clone())
                } else {
                    self.phase = Phase::CreateDirectory;
                    InstallAction::CreateDirectory(self.plan.directory.clone())
                },
                _ => if exists {
                    self.phase = Phase::RemoveStale;
                    InstallAction::RemoveFile(self.plan.temp.clone())
                } else {
                    self.phase = Phase::BuildClient;
                    InstallAction::BuildClient(self.announcement_lines())
                },
            },
            InstallEvent::Digest(actual) => {
                self.phase = Phase::Finished;
                self.judge_target(actual.as_str())
            },
            InstallEvent::Done => self.advance(),
            InstallEvent::Chunk(data) => {
                self.checksum.update(data.as_slice());
                self.received = Ghost(self.received@ + data@);
                InstallAction::Receive
            },
            InstallEvent::EndOfBody => {
                self.phase = Phase::Flush;
                InstallAction::Flush
            },
            InstallEvent::Failed(cause) => {
                let message = match self.phase {
                    Phase::Discard => mismatch_message(
                        self.plan.model.name,
                        self.plan.model.sha1,
                        self.digest.as_str(),
                    ),
                    _ => self.failure_message(cause.as_str()),
                };
                self.phase = Phase::Finished;
                InstallAction::Fail(message)
            },
            InstallEvent::WriteFailed(cause) => {
                let context = prefixed("Failed to write ", &self.plan.temp);
                self.phase = Phase::Finished;
                InstallAction::Fail(add_context(context.as_str(), cause.as_str()))
            },
        }
    }

    fn judge_target(&self, actual: &str) -> (action: InstallAction)
        ensures
            action@ == if actual@ == self@.model.sha1 {
                ActionText::Finish(
                    "model '"@ + self@.model.name + "' already installed at "@ + path_display(
                        self@.target,
                    ),
                )
            } else {
                ActionText::Fail(
                    with_context(
                        "Installed model is corrupt: "@ + path_display(self@.target),
                        mismatch_text(path_display(self@.target), self@.model.sha1, actual@),
                    ),
                )
            },
    {
        let place = display(&self.plan.target);
        match compare_digest(place.as_str(), self.plan.model.sha1, actual) {
            Ok(()) => {
                let mut line = String::from_str("model '");
                line.append(self.plan.model.name);
                line.append("' already installed at ");
                line.append(place.as_str());
                InstallAction::Finish(line)
            },
            Err(error) => {
                let context = prefixed("Installed model is corrupt: ", &self.plan.target);
                InstallAction::Fail(add_context(context.as_str(), error.message().as_str()))
            },
        }
    }

    fn advance(&mut self) -> (action: InstallAction)
        requires
            old(self).well_formed(),
            expects(old(self)@.phase, InstallEvent::Done),
        ensures
            final(self).well_formed(),
            final(self)@ == state_after(old(self)@, InstallEvent::Done),
            action@ == action_after(old(self)@, InstallEvent::Done),
    {
        match self.phase {
            Phase::CreateDirectory => {
                self.phase = Phase::CheckTemp;
                InstallAction::CheckExists(self.plan.temp.clone())
            },
            Phase::RemoveStale => {
                self.phase = Phase::BuildClient;
                InstallAction::BuildClient(self.announcement_lines())
            },
            Phase::BuildClient => {
                self.phase = Phase::Send;
                InstallAction::Send(self.plan.url.clone())
            },
            Phase::Send => {
                self.phase = Phase::CheckStatus;
                InstallAction::CheckStatus
            },
            Phase::CheckStatus => {
                self.phase = Phase::CreateTemp;
                InstallAction::CreateFile(self.plan.temp.clone())
            },
            Phase::CreateTemp => {
                self.phase = Phase::Receive;
                InstallAction::Receive
            },
            Phase::Flush => {
                let mut checksum = Checksum::new();
                std::mem::swap(&mut checksum, &mut self.checksum);
                let digest = checksum.finish();
                if same_text(digest.as_str(), self.plan.model.sha1) {
                    self.phase = Phase::Rename;
                    InstallAction::Rename {
                        from: self.plan.temp.clone(),
                        to: self.plan.target.clone(),
                    }
                } else {
                    self.digest = digest;
                    self.phase = Phase::Discard;
                    InstallAction::Discard(self.plan.temp.clone())
                }
            },
            Phase::Discard => {
                let message = mismatch_message(
                    self.plan.model.name,
                    self.plan.model.sha1,
                    self.digest.as_str(),
                );
                self.phase = Phase::Finished;
                InstallAction::Fail(message)
            },
            _ => {
                self.phase = Phase::Finished;
                InstallAction::Finish(prefixed("installed ", &self.plan.target))
            },
        }
    }
}

/// The state after all of `events`.
pub open spec fn state_after_all(state: InstallState, events: Seq<InstallEvent>) -> InstallState
    decreases events.len(),
{
    if events.len() == 0 {
        state
    } else {
        state_after(state_after_all(state, events.drop_last()), events.last())
    }
}

/// True if each of `events` can be heard when it comes.
pub open spec fn all_expected(state: InstallState, events: Seq<InstallEvent>) -> bool
    decreases events.len(),
{
    events.len() == 0 || {
        &&& all_expected(state, events.drop_last())
        &&& expects(state_after_all(state, events.drop_last()).phase, events.last())
    }
}

/// The pieces among `events`, put together.
pub open spec fn written_content(events: Seq<InstallEvent>) -> Seq<u8>
    decreases events.len(),
{
    if events.len() == 0 {
        Seq::empty()
    } else {
        match events.last() {
            InstallEvent::Chunk(data) => written_content(events.drop_last()) + data@,
            _ => written_content(events.drop_last()),
        }
    }
}

/// Whatever happens, the installation stays that of its plan, and the content
/// it knows of is exactly what was written to the incomplete file, in order.
pub proof fn law_content_is_what_was_written(plan: InstallPlan, events: Seq<InstallEvent>)
    requires
        all_expected(initial_state(plan), events),
    ensures
        state_after_all(initial_state(plan), events) == (InstallState {
            phase: state_after_all(initial_state(plan), events).phase,
            received: written_content(events),
            ..initial_state(plan)
        }),
        state_after_all(initial_state(plan), events).phase == Phase::Rename ==> sha1_hex(
            written_content(events),
        ) == plan.model@.sha1,
    decreases events.len(),
{
    if events.len() > 0 {
        law_content_is_what_was_written(plan, events.drop_last());
    }
}

/// A file is moved to the model's place only if all that was written to it has
/// the digest of the catalogue.
pub proof fn law_only_sound_files_are_put_in_place(
    plan: InstallPlan,
    events: Seq<InstallEvent>,
    event: InstallEvent,
)
    requires
        all_expected(initial_state(plan), events.push(event)),
        action_after(state_after_all(initial_state(plan), events), event) is Rename,
    ensures
        action_after(state_after_all(initial_state(plan), events), event) == (ActionText::Rename {
            from: plan.temp,
            to: plan.target,
        }),
        sha1_hex(written_content(events)) == plan.model@.sha1,
{
    assert(events.push(event).drop_last() =~= events);
    law_content_is_what_was_written(plan, events);
}

/// Success is reported only if the file that was there already has the digest
/// of the catalogue, or if a file with that digest has just been moved to the
/// model's place.
pub proof fn law_success_means_a_sound_file(
    plan: InstallPlan,
    events: Seq<InstallEvent>,
    event: InstallEvent,
)
    requires
        all_expected(initial_state(plan), events.push(event)),
        action_after(state_after_all(initial_state(plan), events), event) is Finish,
    ensures
        ({
            ||| event matches InstallEvent::Digest(digest) && digest@ == plan.model@.sha1
            ||| {
                &&& state_after_all(initial_state(plan), events).phase == Phase::Rename
                &&& event is Done
                &&& sha1_hex(written_content(events)) == plan.model@.sha1
            }
        }),
{
    assert(events.push(event).drop_last() =~= events);
    law_content_is_what_was_written(plan, events);
}

/// The list of models and the installation judge a file alike: one that is
/// listed as installed needs no installation, and for one that is listed as
/// corrupt the installation fails.
pub proof fn law_list_and_installation_agree(state: InstallState, digest: String)
    requires
        state.phase == Phase::HashTarget,
    ensures
        action_after(state, InstallEvent::Digest(digest)) is Finish <==> state_of(
            state.model,
            ModelFile::Digest(digest),
        ) == ModelState::Installed,
        action_after(state, InstallEvent::Digest(digest)) is Fail <==> state_of(
            state.model,
            ModelFile::Digest(digest),
        ) == ModelState::Corrupt,
{
}

/// Content with a wrong digest is never put in place: the incomplete file is
/// removed, whether that succeeds or not the installation fails, and the
/// message names both digests.
pub proof fn law_wrong_content_is_discarded(state: InstallState, event: InstallEvent)
    requires
        state.phase == Phase::Flush,
        sha1_hex(state.received) != state.model.sha1,
        expects(Phase::Discard, event),
    ensures
        action_after(state, InstallEvent::Done) == ActionText::Discard(state.temp),
        state_after(state_after(state, InstallEvent::Done), event).phase == Phase::Finished,
        action_after(state_after(state, InstallEvent::Done), event) == ActionText::Fail(
            mismatch_text(state.model.name, state.model.sha1, sha1_hex(state.received)),
        ),
{
}

/// A model that is there already is not fetched: once its file was found,
/// nothing but its digest is asked for.
pub proof fn law_present_model_is_not_fetched(plan: InstallPlan, events: Seq<InstallEvent>)
    requires
        all_expected(initial_state(plan), events),
        events.len() > 0,
        events[0] == InstallEvent::Exists(true),
    ensures
        events.len() <= 2,
        events.len() == 1 ==> state_after_all(initial_state(plan), events).phase
            == Phase::HashTarget,
        events.len() == 2 ==> state_after_all(initial_state(plan), events).phase
            == Phase::Finished,
        events.len() == 1 ==> action_after(initial_state(plan), events[0]) == ActionText::HashFile(
            plan.target,
        ),
    decreases events.len(),
{
    reveal_with_fuel(state_after_all, 3);
    reveal_with_fuel(all_expected, 3);
    if events.len() > 1 {
        assert(events.drop_last()[0] == events[0]);
        law_present_model_is_not_fetched(plan, events.drop_last());
    } else {
        assert(events.drop_last() =~= Seq::empty());
        assert(events.last() == events[0]);
    }
}

/// Any failure ends the installation with a message that says why, except that
/// it does not matter whether a discarded file could be removed.
pub proof fn law_failure_ends_the_installation(state: InstallState, cause: String)
    requires
        expects(state.phase, InstallEvent::Failed(cause)),
    ensures
        state_after(state, InstallEvent::Failed(cause)).phase == Phase::Finished,
        action_after(state, InstallEvent::Failed(cause)) is Fail,
        state.phase != Phase::Discard ==> action_after(state, InstallEvent::Failed(cause))
            == ActionText::Fail(failure_text(state, cause@)),
        forall|event: InstallEvent|
            !expects(state_after(state, InstallEvent::Failed(cause)).phase, event),
{
}

proof fn lemma_bin_stem(name: Seq<char>)
    requires
        name.len() > 4,
        is_ascii_chars(name),
        name[name.len() - 4] == '.',
        name[name.len() - 3] == 'b',
        name[name.len() - 2] == 'i',
        name[name.len() - 1] == 'n',
    ensures
        file_stem(encode_utf8(name)) == encode_utf8(name).take(name.len() - 4),
        encode_utf8(name).len() == name.len(),
{
    is_ascii_chars_encode_utf8(name);
    let bytes = encode_utf8(name);
    bytes.index_of_last_ensures('.' as u8);
    assert(bytes[name.len() - 4] == '.' as u8);
    assert(bytes.contains('.' as u8));
    assert(bytes[name.len() - 3] == 'b' as u8);
    assert(bytes[name.len() - 2] == 'i' as u8);
    assert(bytes[name.len() - 1] == 'n' as u8);
}

/// While it is incomplete, the file of a model stands at a place of its own:
/// next to the model's file, under that name with `.part` behind it.
pub proof fn law_incomplete_file_stands_apart(directory: Seq<PathPart>, index: int)
    requires
        0 <= index < catalogue().len(),
    ensures
        parts_with_extension(
            directory.push(name_part(catalogue()[index].file_name)),
            "bin.part"@,
        ) == directory.push(name_part(catalogue()[index].file_name + ".part"@)),
        directory.push(name_part(catalogue()[index].file_name + ".part"@)) != directory.push(
            name_part(catalogue()[index].file_name),
        ),
{
    let name = catalogue()[index].file_name;
    reveal_strlit("ggml-tiny.bin");
    reveal_strlit("ggml-base.bin");
    reveal_strlit("ggml-small.bin");
    reveal_strlit("ggml-large-v3-turbo-q5_0.bin");
    reveal_strlit("bin.part");
    reveal_strlit(".part");
    assert(is_ascii_chars(name));
    assert(is_ascii_chars("bin.part"@));
    assert(is_ascii_chars(name + ".part"@));
    lemma_bin_stem(name);
    is_ascii_chars_encode_utf8(name);
    is_ascii_chars_encode_utf8("bin.part"@);
    is_ascii_chars_encode_utf8(name + ".part"@);
    let parts = directory.push(name_part(name));
    assert(parts.drop_last() =~= directory);
    assert(name_with_extension(encode_utf8(name), "bin.part"@) =~= encode_utf8(name + ".part"@));
    assert(encode_utf8(name + ".part"@).len() != encode_utf8(name).len());
    assert(directory.push(name_part(name + ".part"@)).last() != directory.push(
        name_part(name),
    ).last());
}

/// How much has been received, in mebibytes, with the share of the whole in
/// front where the whole is known.
pub open spec fn progress_text(downloaded: nat, total: Option<u64>, percent: Seq<char>) -> Seq<
    char,
> {
    match total {
        Some(total) => "\r"@ + percent + "%  "@ + decimal_text(downloaded / 1024 / 1024) + "/"@
            + decimal_text(total as nat / 1024 / 1024) + " MiB"@,
        None => "\r"@ + decimal_text(downloaded / 1024 / 1024) + " MiB"@,
    }
}

/// Writes how much has been received; `percent` is the share of the whole.
pub fn progress_line(downloaded: u64, total: Option<u64>, percent: &str) -> (line: String)
    ensures
        line@ == progress_text(downloaded as nat, total, percent@),
{
    let mut line = String::from_str("\r");
    match total {
        Some(total) => {
            line.append(percent);
            line.append("%  ");
            line.append(decimal(downloaded / 1024 / 1024).as_str());
            line.append("/");
            line.append(decimal(total / 1024 / 1024).as_str());
        },
        None => {
            line.append(decimal(downloaded / 1024 / 1024).as_str());
        },
    }
    line.append(" MiB");
    line
}

/// Receiving ends only where the model does: a piece of any length is put behind
/// what was received, and the next one is asked for; only the end of the body
/// leads on, and what was received stays as it is.
pub proof fn law_receiving_ends_only_at_the_end(state: InstallState, data: Vec<u8>)
    requires
        state.phase == Phase::Receive,
    ensures
        expects(state.phase, InstallEvent::Chunk(data)),
        expects(state.phase, InstallEvent::EndOfBody),
        state_after(state, InstallEvent::Chunk(data)) == (InstallState {
            received: state.received + data@,
            ..state
        }),
        action_after(state, InstallEvent::Chunk(data)) == ActionText::Receive,
        state_after(state, InstallEvent::EndOfBody) == (InstallState {
            phase: Phase::Flush,
            ..state
        }),
        action_after(state, InstallEvent::EndOfBody) == ActionText::Flush,
{
}

/// As long as nothing fails, the steps follow one another: the directory is
/// created, a file that was left incomplete is removed, the server is asked and
/// has to consent, the file is created, and the model is received; a file whose
/// content has the digest of the catalogue is moved to its place, and that is the
/// end.
pub proof fn law_steps_follow_one_another(state: InstallState)
    ensures
        state.phase == Phase::CheckTarget ==> {
            let next = state_after(state, InstallEvent::Exists(false));
            &&& expects(state.phase, InstallEvent::Exists(false))
            &&& next == (InstallState { phase: Phase::CreateDirectory, ..state })
            &&& action_after(state, InstallEvent::Exists(false)) == ActionText::CreateDirectory(
                state.directory,
            )
        },
        state.phase == Phase::CheckTarget ==> {
            let next = state_after(state, InstallEvent::Exists(true));
            &&& expects(state.phase, InstallEvent::Exists(true))
            &&& next == (InstallState { phase: Phase::HashTarget, ..state })
            &&& action_after(state, InstallEvent::Exists(true)) == ActionText::HashFile(
                state.target,
            )
        },
        state.phase == Phase::CheckTemp ==> {
            let fresh = state_after(state, InstallEvent::Exists(false));
            let stale = state_after(state, InstallEvent::Exists(true));
            &&& expects(state.phase, InstallEvent::Exists(false))
            &&& expects(state.phase, InstallEvent::Exists(true))
            &&& fresh == (InstallState { phase: Phase::BuildClient, ..state })
            &&& stale == (InstallState { phase: Phase::RemoveStale, ..state })
            &&& action_after(state, InstallEvent::Exists(false)) is BuildClient
            &&& action_after(state, InstallEvent::Exists(true)) == ActionText::RemoveFile(
                state.temp,
            )
        },
        ({
            let next = state_after(state, InstallEvent::Done);
            let action = action_after(state, InstallEvent::Done);
            let heard = expects(state.phase, InstallEvent::Done);
            &&& state.phase == Phase::CreateDirectory ==> heard && next == (InstallState {
                phase: Phase::CheckTemp,
                ..state
            }) && action == ActionText::CheckExists(state.temp)
            &&& state.phase == Phase::RemoveStale ==> heard && next == (InstallState {
                phase: Phase::BuildClient,
                ..state
            }) && action is BuildClient
            &&& state.phase == Phase::BuildClient ==> heard && next == (InstallState {
                phase: Phase::Send,
                ..state
            }) && action == ActionText::Send(state.url)
            &&& state.phase == Phase::Send ==> heard && next == (InstallState {
                phase: Phase::CheckStatus,
                ..state
            }) && action == ActionText::CheckStatus
            &&& state.phase == Phase::CheckStatus ==> heard && next == (InstallState {
                phase: Phase::CreateTemp,
                ..state
            }) && action == ActionText::CreateFile(state.temp)
            &&& state.phase == Phase::CreateTemp ==> heard && next == (InstallState {
                phase: Phase::Receive,
                ..state
            }) && action == ActionText::Receive
            &&& state.phase == Phase::Flush && sha1_hex(state.received) == state.model.sha1 ==> heard
                && next == (InstallState { phase: Phase::Rename, ..state }) && action
                == (ActionText::Rename { from: state.temp, to: state.target })
            &&& state.phase == Phase::Flush && sha1_hex(state.received) != state.model.sha1 ==> heard
                && next == (InstallState { phase: Phase::Discard, ..state }) && action
                == ActionText::Discard(state.temp)
            &&& state.phase == Phase::Rename ==> heard && next == (InstallState {
                phase: Phase::Finished,
                ..state
            }) && action == ActionText::Finish("installed "@ + path_display(state.target))
        }),
{
}

/// What the user is told before a download names the model, its size and where
/// it comes from, each whole.
pub proof fn law_downloads_are_announced(state: InstallState)
    ensures
        announcement(state).len() == 2,
        announcement(state)[0] == "downloading "@ + state.model.name + " ("@ + state.model.size
            + ")"@,
        announcement(state)[1] == state.url,
        state.phase == Phase::RemoveStale ==> action_after(state, InstallEvent::Done)
            == ActionText::BuildClient(
            seq!["downloading "@ + state.model.name + " ("@ + state.model.size + ")"@, state.url],
        ),
        state.phase == Phase::CheckTemp ==> action_after(state, InstallEvent::Exists(false))
            == ActionText::BuildClient(
            seq!["downloading "@ + state.model.name + " ("@ + state.model.size + ")"@, state.url],
        ),
{
}

/// A file that is there already decides by its digest alone: with that of the
/// catalogue the model counts as installed, with any other as corrupt, and the
/// user is told the place and, of a corrupt file, both digests.
pub proof fn law_present_file_is_judged_by_its_digest(state: InstallState, digest: String)
    requires
        state.phase == Phase::HashTarget,
    ensures
        expects(state.phase, InstallEvent::Digest(digest)),
        state_after(state, InstallEvent::Digest(digest)) == (InstallState {
            phase: Phase::Finished,
            ..state
        }),
        digest@ == state.model.sha1 ==> action_after(state, InstallEvent::Digest(digest))
            == ActionText::Finish(
            "model '"@ + state.model.name + "' already installed at "@ + path_display(state.target),
        ),
        digest@ != state.model.sha1 ==> action_after(state, InstallEvent::Digest(digest))
            == ActionText::Fail(
            "Installed model is corrupt: "@ + path_display(state.target) + ": "@ + (
            "SHA1 mismatch for "@ + path_display(state.target) + ": expected "@ + state.model.sha1
                + ", got "@ + digest@),
        ),
{
}

/// Whatever fails, the installation is over, and the user is told what was being
/// attempted, on what, and why it failed.
pub proof fn law_failures_say_what_was_attempted(state: InstallState, cause: String)
    ensures
        ({
            let failed = action_after(state, InstallEvent::Failed(cause));
            &&& expects(state.phase, InstallEvent::Failed(cause)) ==> state_after(
                state,
                InstallEvent::Failed(cause),
            ) == (InstallState { phase: Phase::Finished, ..state })
            &&& state.phase == Phase::HashTarget ==> failed == ActionText::Fail(
                "Installed model is corrupt: "@ + path_display(state.target) + ": "@ + (
                "Failed to read "@ + path_display(state.target) + ": "@ + cause@),
            )
            &&& state.phase == Phase::CreateDirectory ==> failed == ActionText::Fail(
                "Failed to create "@ + path_display(state.directory) + ": "@ + cause@,
            )
            &&& state.phase == Phase::RemoveStale ==> failed == ActionText::Fail(
                "Failed to remove stale "@ + path_display(state.temp) + ": "@ + cause@,
            )
            &&& state.phase == Phase::BuildClient ==> failed == ActionText::Fail(
                "Failed to create HTTP client"@ + ": "@ + cause@,
            )
            &&& state.phase == Phase::Send ==> failed == ActionText::Fail(
                "Failed to start download from "@ + state.url + ": "@ + cause@,
            )
            &&& state.phase == Phase::CheckStatus ==> failed == ActionText::Fail(
                "Model server returned an error for "@ + state.url + ": "@ + cause@,
            )
            &&& state.phase == Phase::CreateTemp ==> failed == ActionText::Fail(
                "Failed to create "@ + path_display(state.temp) + ": "@ + cause@,
            )
            &&& state.phase == Phase::Receive ==> failed == ActionText::Fail(
                "Failed to read from "@ + state.url + ": "@ + cause@,
            )
            &&& state.phase == Phase::Flush ==> failed == ActionText::Fail(cause@)
            &&& state.phase == Phase::Rename ==> failed == ActionText::Fail(
                "Failed to move model into "@ + path_display(state.target) + ": "@ + cause@,
            )
        }),
        state.phase == Phase::Receive ==> {
            &&& state_after(state, InstallEvent::WriteFailed(cause)) == (InstallState {
                phase: Phase::Finished,
                ..state
            })
            &&& action_after(state, InstallEvent::WriteFailed(cause)) == ActionText::Fail(
                "Failed to write "@ + path_display(state.temp) + ": "@ + cause@,
            )
        },
        mismatch_text(state.model.name, state.model.sha1, cause@) == "SHA1 mismatch for "@
            + state.model.name + ": expected "@ + state.model.sha1 + ", got "@ + cause@,
{
}

/// In every phase, all that can become of the action is heard: that it failed,
/// where it can fail, and every way in which it can succeed. Once the
/// installation is over, nothing is.
pub proof fn law_every_outcome_is_heard(phase: Phase, event: InstallEvent)
    ensures
        (phase == Phase::CheckTarget || phase == Phase::CheckTemp) ==> (expects(phase, event)
            <==> event is Exists),
        phase == Phase::HashTarget ==> (expects(phase, event) <==> event is Digest
            || event is Failed),
        phase == Phase::Receive ==> (expects(phase, event) <==> event is Chunk || event is EndOfBody
            || event is Failed || event is WriteFailed),
        phase == Phase::Finished ==> !expects(phase, event),
        phase != Phase::CheckTarget && phase != Phase::CheckTemp && phase != Phase::HashTarget
            && phase != Phase::Receive && phase != Phase::Finished ==> (expects(phase, event)
            <==> event is Done || event is Failed),
{
}

/// An installation starts by looking for the model's file, as its plan says, with
/// nothing received.
pub proof fn law_installations_start_from_their_plan(plan: InstallPlan)
    ensures
        initial_state(plan).model == plan.model@,
        initial_state(plan).directory == plan.directory,
        initial_state(plan).target == plan.target,
        initial_state(plan).temp == plan.temp,
        initial_state(plan).url == plan.url@,
        initial_state(plan).phase == Phase::CheckTarget,
        initial_state(plan).received.len() == 0,
{
}

/// The pieces that a model is received in, put together.
pub open spec fn put_together(pieces: Seq<Vec<u8>>) -> Seq<u8>
    decreases pieces.len(),
{
    if pieces.len() == 0 {
        Seq::empty()
    } else {
        put_together(pieces.drop_last()) + pieces.last()@
    }
}

/// What is heard when a model is received in these pieces.
pub open spec fn receptions(pieces: Seq<Vec<u8>>) -> Seq<InstallEvent> {
    pieces.map_values(|piece: Vec<u8>| InstallEvent::Chunk(piece))
}

/// What is heard before the first piece where nothing fails: there is no file
/// yet, and an incomplete one is or is not there.
pub open spec fn preparations(stale: bool) -> Seq<InstallEvent> {
    seq![InstallEvent::Exists(false), InstallEvent::Done, InstallEvent::Exists(stale)] + (if stale {
        seq![InstallEvent::Done]
    } else {
        Seq::empty()
    }) + seq![
        InstallEvent::Done,
        InstallEvent::Done,
        InstallEvent::Done,
        InstallEvent::Done,
    ]
}

proof fn lemma_one_more(state: InstallState, events: Seq<InstallEvent>, event: InstallEvent)
    ensures
        state_after_all(state, events.push(event)) == state_after(
            state_after_all(state, events),
            event,
        ),
        all_expected(state, events.push(event)) == (all_expected(state, events) && expects(
            state_after_all(state, events).phase,
            event,
        )),
{
    assert(events.push(event).drop_last() =~= events);
}

proof fn lemma_preparations_lead_to_receiving(state: InstallState, stale: bool)
    requires
        state.phase == Phase::CheckTarget,
    ensures
        all_expected(state, preparations(stale)),
        state_after_all(state, preparations(stale)) == (InstallState {
            phase: Phase::Receive,
            ..state
        }),
{
    let done = InstallEvent::Done;
    let a = seq![InstallEvent::Exists(false)];
    assert(a =~= Seq::empty().push(InstallEvent::Exists(false)));
    lemma_one_more(state, Seq::empty(), InstallEvent::Exists(false));
    let b = a.push(done);
    lemma_one_more(state, a, done);
    let c = b.push(InstallEvent::Exists(stale));
    lemma_one_more(state, b, InstallEvent::Exists(stale));
    let d = if stale {
        c.push(done)
    } else {
        c
    };
    lemma_one_more(state, c, done);
    let e = d.push(done);
    lemma_one_more(state, d, done);
    let f = e.push(done);
    lemma_one_more(state, e, done);
    let g = f.push(done);
    lemma_one_more(state, f, done);
    let h = g.push(done);
    lemma_one_more(state, g, done);
    assert(h =~= preparations(stale));
}

proof fn lemma_pieces_are_received(
    state: InstallState,
    events: Seq<InstallEvent>,
    pieces: Seq<Vec<u8>>,
)
    requires
        all_expected(state, events),
        state_after_all(state, events).phase == Phase::Receive,
    ensures
        all_expected(state, events + receptions(pieces)),
        state_after_all(state, events + receptions(pieces)) == (InstallState {
            received: state_after_all(state, events).received + put_together(pieces),
            ..state_after_all(state, events)
        }),
    decreases pieces.len(),
{
    if pieces.len() == 0 {
        assert(events + receptions(pieces) =~= events);
        assert(state_after_all(state, events).received + put_together(pieces) =~= state_after_all(
            state,
            events,
        ).received);
    } else {
        let front = pieces.drop_last();
        lemma_pieces_are_received(state, events, front);
        lemma_one_more(state, events + receptions(front), InstallEvent::Chunk(pieces.last()));
        assert((events + receptions(front)).push(InstallEvent::Chunk(pieces.last())) =~= events
            + receptions(pieces));
        assert(state_after_all(state, events).received + put_together(front) + pieces.last()@
            =~= state_after_all(state, events).received + put_together(pieces));
    }
}

/// A sound model is installed: if there is no file yet, nothing fails and the
/// pieces that are received, however many and long, make up content with the
/// digest of the catalogue, then the file is moved to the model's place, and the
/// installation ends by saying where the model is. If they make up anything else,
/// the file is removed.
pub proof fn law_sound_models_are_installed(plan: InstallPlan, stale: bool, pieces: Seq<Vec<u8>>)
    ensures
        ({
            let start = initial_state(plan);
            let received = preparations(stale) + receptions(pieces);
            let flushed = received.push(InstallEvent::EndOfBody);
            let judged = flushed.push(InstallEvent::Done);
            &&& all_expected(start, judged)
            &&& action_after(state_after_all(start, received), InstallEvent::EndOfBody)
                == ActionText::Flush
            &&& sha1_hex(put_together(pieces)) == plan.model@.sha1 ==> {
                &&& action_after(state_after_all(start, flushed), InstallEvent::Done) == (
                ActionText::Rename { from: plan.temp, to: plan.target })
                &&& expects(state_after_all(start, judged).phase, InstallEvent::Done)
                &&& action_after(state_after_all(start, judged), InstallEvent::Done)
                    == ActionText::Finish("installed "@ + path_display(plan.target))
                &&& state_after(state_after_all(start, judged), InstallEvent::Done).phase
                    == Phase::Finished
            }
            &&& sha1_hex(put_together(pieces)) != plan.model@.sha1 ==> action_after(
                state_after_all(start, flushed),
                InstallEvent::Done,
            ) == ActionText::Discard(plan.temp)
        }),
{
    let start = initial_state(plan);
    let received = preparations(stale) + receptions(pieces);
    let flushed = received.push(InstallEvent::EndOfBody);
    lemma_preparations_lead_to_receiving(start, stale);
    lemma_pieces_are_received(start, preparations(stale), pieces);
    assert(Seq::empty() + put_together(pieces) =~= put_together(pieces));
    lemma_one_more(start, received, InstallEvent::EndOfBody);
    lemma_one_more(start, flushed, InstallEvent::Done);
}

/// How much has been received is shown in whole mebibytes, with the whole and the
/// share of it where they are known.
pub proof fn law_progress_is_shown_in_mebibytes(
    received: nat,
    over: nat,
    whole: u64,
    percent: Seq<char>,
)
    requires
        over < 1048576,
    ensures
        progress_text(1048576 * received + over, None, percent) == "\r"@ + decimal_text(received)
            + " MiB"@,
        progress_text(1048576 * received + over, Some(whole), percent) == "\r"@ + percent + "%  "@
            + decimal_text(received) + "/"@ + decimal_text(whole as nat / 1048576) + " MiB"@,
{
    let total = 1048576 * received + over;
    assert(total / 1024 / 1024 == received);
    assert(whole as nat / 1024 / 1024 == whole as nat / 1048576);
}

/// What has to be done is told whole: actions that come to the same are the same.
pub proof fn law_actions_are_told_whole(
    lines: Vec<String>,
    text: String,
    path: PathBuf,
    other: PathBuf,
)
    ensures
        InstallAction::BuildClient(lines)@ == ActionText::BuildClient(line_texts(lines@)),
        InstallAction::Send(text)@ == ActionText::Send(text@),
        InstallAction::Finish(text)@ == ActionText::Finish(text@),
        InstallAction::Fail(text)@ == ActionText::Fail(text@),
        InstallAction::CheckExists(path)@ == ActionText::CheckExists(path),
        InstallAction::HashFile(path)@ == ActionText::HashFile(path),
        InstallAction::CreateDirectory(path)@ == ActionText::CreateDirectory(path),
        InstallAction::RemoveFile(path)@ == ActionText::RemoveFile(path),
        InstallAction::CreateFile(path)@ == ActionText::CreateFile(path),
        InstallAction::Discard(path)@ == ActionText::Discard(path),
        InstallAction::CheckStatus@ == ActionText::CheckStatus,
        InstallAction::Receive@ == ActionText::Receive,
        InstallAction::Flush@ == ActionText::Flush,
        (InstallAction::Rename { from: path, to: other })@ == (ActionText::Rename {
            from: path,
            to: other,
        }),
{
}

} // verus!
