//! What can go wrong, and the sentence that the user is shown for it.
use vstd::prelude::*;
use vstd::string::*;

verus! {

/// A refusal or failure.
#[derive(Debug)]
pub enum AppError {
    /// No variable names the home directory.
    HomeNotSet,
    /// The application's directories have no home to stand in.
    NoHomeDirectory,
    /// The requested name is not in the model catalogue.
    UnknownModel { requested: String, supported: String },
    /// The configured name is not in the model catalogue.
    UnknownSessionModel { requested: String },
    /// The configured model has not been installed.
    ModelNotInstalled { name: String },
    /// The content of `subject` does not have the expected digest.
    Sha1Mismatch { subject: String, expected: String, actual: String },
    /// The executable does not stand in a directory.
    ExecutableWithoutParent { executable: String },
    /// The script that updates the search path failed.
    PathUpdateFailed { status: String },
    /// No input device has the selected name.
    MicrophoneNotFound { name: String },
    /// The host has no default input device.
    NoDefaultMicrophone,
    /// Samples of this format cannot be read.
    UnsupportedSampleFormat { format: String },
}

impl AppError {
    /// The sentence for this error.
    pub open spec fn text(self) -> Seq<char> {
        match self {
            AppError::HomeNotSet => "Neither USERPROFILE nor HOME is set"@,
            AppError::NoHomeDirectory => "Could not determine your home directory: "@
                + "Neither USERPROFILE nor HOME is set"@,
            AppError::UnknownModel { requested, supported } => "Unknown model '"@ + requested@
                + "'. Supported models: "@ + supported@,
            AppError::UnknownSessionModel { requested } => "Unknown model '"@ + requested@ + "'"@,
            AppError::ModelNotInstalled { name } => "Model '"@ + name@ + "' is not installed"@,
            AppError::Sha1Mismatch { subject, expected, actual } => "SHA1 mismatch for "@
                + subject@ + ": expected "@ + expected@ + ", got "@ + actual@,
            AppError::ExecutableWithoutParent { executable } =>
                "Executable has no parent directory: "@ + executable@,
            AppError::PathUpdateFailed { status } =>
                "PowerShell PATH update failed with status "@ + status@,
            AppError::MicrophoneNotFound { name } => "Selected microphone was not found: "@
                + name@,
            AppError::NoDefaultMicrophone => "No default microphone is available"@,
            AppError::UnsupportedSampleFormat { format } =>
                "Unsupported input sample format: "@ + format@,
        }
    }

    /// Writes the sentence for this error.
    pub fn message(&self) -> (message: String)
        ensures
            message@ == self.text(),
    {
        match self {
            AppError::HomeNotSet => String::from_str("Neither USERPROFILE nor HOME is set"),
            AppError::NoHomeDirectory => {
                let mut message = String::from_str("Could not determine your home directory: ");
                message.append("Neither USERPROFILE nor HOME is set");
                message
            },
            AppError::UnknownModel { requested, supported } => {
                let mut message = String::from_str("Unknown model '");
                message.append(requested.as_str());
                message.append("'. Supported models: ");
                message.append(supported.as_str());
                message
            },
            AppError::UnknownSessionModel { requested } => {
                let mut message = String::from_str("Unknown model '");
                message.append(requested.as_str());
                message.append("'");
                message
            },
            AppError::ModelNotInstalled { name } => {
                let mut message = String::from_str("Model '");
                message.append(name.as_str());
                message.append("' is not installed");
                message
            },
            AppError::Sha1Mismatch { subject, expected, actual } => {
                let mut message = String::from_str("SHA1 mismatch for ");
                message.append(subject.as_str());
                message.append(": expected ");
                message.append(expected.as_str());
                message.append(", got ");
                message.append(actual.as_str());
                message
            },
            AppError::ExecutableWithoutParent { executable } => {
                let mut message = String::from_str("Executable has no parent directory: ");
                message.append(executable.as_str());
                message
            },
            AppError::PathUpdateFailed { status } => {
                let mut message = String::from_str("PowerShell PATH update failed with status ");
                message.append(status.as_str());
                message
            },
            AppError::MicrophoneNotFound { name } => {
                let mut message = String::from_str("Selected microphone was not found: ");
                message.append(name.as_str());
                message
            },
            AppError::NoDefaultMicrophone => String::from_str("No default microphone is available"),
            AppError::UnsupportedSampleFormat { format } => {
                let mut message = String::from_str("Unsupported input sample format: ");
                message.append(format.as_str());
                message
            },
        }
    }
}

/// `cause` behind what was being attempted when it arose.
pub open spec fn with_context(context: Seq<char>, cause: Seq<char>) -> Seq<char> {
    context + ": "@ + cause
}

/// Puts what was being attempted in front of `cause`.
pub fn add_context(context: &str, cause: &str) -> (message: String)
    ensures
        message@ == with_context(context@, cause@),
{
    let mut message = String::from_str(context);
    message.append(": ");
    message.append(cause);
    message
}

/// What was being attempted is said first, and the cause behind it, both whole.
pub proof fn law_context_and_cause_are_told_whole(context: Seq<char>, cause: Seq<char>)
    ensures
        context.is_prefix_of(with_context(context, cause)),
        cause.is_suffix_of(with_context(context, cause)),
        with_context(context, cause).len() == context.len() + 2 + cause.len(),
        with_context(context, cause)[context.len() as int] == ':',
        with_context(context, cause)[context.len() as int + 1] == ' ',
{
    reveal_strlit(": ");
    let whole = with_context(context, cause);
    assert(whole.subrange(0, context.len() as int) =~= context);
    assert(whole.subrange(whole.len() - cause.len(), whole.len() as int) =~= cause);
}

/// What an error names is named whole in its sentence.
pub proof fn law_errors_name_their_subject(a: String, b: String, c: String)
    ensures
        (AppError::UnknownModel { requested: a, supported: b }).text() == "Unknown model '"@ + a@
            + "'. Supported models: "@ + b@,
        (AppError::UnknownSessionModel { requested: a }).text() == "Unknown model '"@ + a@ + "'"@,
        (AppError::ModelNotInstalled { name: a }).text() == "Model '"@ + a@ + "' is not installed"@,
        (AppError::Sha1Mismatch { subject: a, expected: b, actual: c }).text()
            == "SHA1 mismatch for "@ + a@ + ": expected "@ + b@ + ", got "@ + c@,
        a@.is_suffix_of((AppError::ExecutableWithoutParent { executable: a }).text()),
        a@.is_suffix_of((AppError::PathUpdateFailed { status: a }).text()),
        a@.is_suffix_of((AppError::MicrophoneNotFound { name: a }).text()),
        a@.is_suffix_of((AppError::UnsupportedSampleFormat { format: a }).text()),
        AppError::HomeNotSet.text().is_suffix_of(AppError::NoHomeDirectory.text()),
{
}

} // verus!
