//! The ways in which provisioning ends early.

use vstd::prelude::*;
use vstd::string::*;
use crate::step::{InstallStep, StepSpec};

verus! {

/// Why a run ended before its last step. Nothing is retried and nothing is
/// undone: the steps applied before the failure stay applied.
#[derive(Debug, Clone, PartialEq, Eq)]
pub enum Error {
    /// No marker file of a supported distribution was found.
    UnsupportedDistribution,
    /// The filesystem refused `step`; `cause` is what it reported.
    FilesystemOperationFailed { step: InstallStep, cause: String },
    /// The file at `path` was in the way of a link and could not be removed.
    UnlinkFailed { path: String, cause: String },
}

/// What an [`Error`] says, with each text as a sequence of characters.
pub enum ErrorSpec {
    UnsupportedDistribution,
    FilesystemOperationFailed { step: StepSpec, cause: Seq<char> },
    UnlinkFailed { path: Seq<char>, cause: Seq<char> },
}

impl View for Error {
    type V = ErrorSpec;

    open spec fn view(&self) -> ErrorSpec {
        match *self {
            Error::UnsupportedDistribution => ErrorSpec::UnsupportedDistribution,
            Error::FilesystemOperationFailed { step, cause } => {
                ErrorSpec::FilesystemOperationFailed { step: step@, cause: cause@ }
            },
            Error::UnlinkFailed { path, cause } => ErrorSpec::UnlinkFailed {
                path: path@,
                cause: cause@,
            },
        }
    }
}

/// The error that stands for `step` refused with `cause`: a refused removal
/// is an [`ErrorSpec::UnlinkFailed`] of the path, anything else an
/// [`ErrorSpec::FilesystemOperationFailed`] of the whole step.
pub open spec fn refused(step: StepSpec, cause: Seq<char>) -> ErrorSpec {
    match step {
        StepSpec::Unlink { path } => ErrorSpec::UnlinkFailed { path, cause },
        _ => ErrorSpec::FilesystemOperationFailed { step, cause },
    }
}

/// What the step of a failure was doing, as the start of a sentence.
pub open spec fn verb(step: StepSpec) -> Seq<char> {
    match step {
        StepSpec::CopyFile { .. } => "failed to copy file to "@,
        StepSpec::CopyDir { .. } => "failed to copy directory to "@,
        StepSpec::Mkdirp { .. } => "failed to create directory "@,
        StepSpec::Symlink { .. } => "failed to create symlink "@,
        StepSpec::Unlink { .. } => "failed to unlink "@,
    }
}

impl ErrorSpec {
    /// The path in the guest root at which the run ended; empty where no
    /// distribution was found.
    pub open spec fn place(self) -> Seq<char> {
        match self {
            ErrorSpec::UnsupportedDistribution => Seq::empty(),
            ErrorSpec::FilesystemOperationFailed { step, .. } => step.place(),
            ErrorSpec::UnlinkFailed { path, .. } => path,
        }
    }

    /// The error as one line of text: what failed, at which path, and why.
    pub open spec fn message(self) -> Seq<char> {
        match self {
            ErrorSpec::UnsupportedDistribution => {
                "failed to detect supported Linux Distribution"@
            },
            ErrorSpec::FilesystemOperationFailed { step, cause } => {
                verb(step) + step.place() + ": "@ + cause
            },
            ErrorSpec::UnlinkFailed { path, cause } => {
                "failed to unlink "@ + path + ": "@ + cause
            },
        }
    }
}

impl Error {
    /// The error for `step` refused by the filesystem with `cause`.
    pub fn refused(step: InstallStep, cause: String) -> (error: Error)
        ensures
            error@ == refused(step@, cause@),
    {
        match step {
            InstallStep::Unlink { path } => Error::UnlinkFailed { path, cause },
            other => Error::FilesystemOperationFailed { step: other, cause },
        }
    }

    /// The error as one line of text: what failed, at which path, and why.
    pub fn message(&self) -> (text: String)
        ensures
            text@ == self@.message(),
    {
        match self {
            Error::UnsupportedDistribution => {
                String::from_str("failed to detect supported Linux Distribution")
            },
            Error::FilesystemOperationFailed { step, cause } => {
                let mut text = match step {
                    InstallStep::CopyFile { .. } => String::from_str("failed to copy file to "),
                    InstallStep::CopyDir { .. } => String::from_str(
                        "failed to copy directory to ",
                    ),
                    InstallStep::Mkdirp { .. } => String::from_str("failed to create directory "),
                    InstallStep::Symlink { .. } => String::from_str("failed to create symlink "),
                    InstallStep::Unlink { .. } => String::from_str("failed to unlink "),
                };
                text.append(step.place().as_str());
                text.append(": ");
                text.append(cause.as_str());
                text
            },
            Error::UnlinkFailed { path, cause } => {
                let mut text = String::from_str("failed to unlink ");
                text.append(path.as_str());
                text.append(": ");
                text.append(cause.as_str());
                text
            },
        }
    }
}

} // verus!
