//! The ways in which an installation fails. Each one ends the run: nothing
//! is retried.

use vstd::prelude::*;

verus! {

/// Why an installation failed.
#[derive(Clone, Debug, PartialEq, Eq)]
pub enum InstallError {
    /// The requested version is not of the form `nightly-YYYY-MM-DD`.
    InvalidVersionFormat { given: String },
    /// The directory that the toolchain would be installed to exists.
    DestinationAlreadyExists { path: String },
    /// The request could not be sent, or the connection failed.
    RequestError { url: String, message: String },
    /// The server answered with a status other than success.
    HttpStatusError { status: u16, url: String },
    /// The compressed stream is malformed or ends too early.
    DecompressionError { message: String },
    /// The archive's structure is malformed.
    ArchiveParseError { message: String },
    /// A directory or file could not be created.
    FilesystemError { path: String, message: String },
}

/// An `InstallError` with its texts as sequences of characters.
pub enum Failure {
    InvalidVersionFormat { given: Seq<char> },
    DestinationAlreadyExists { path: Seq<char> },
    RequestError { url: Seq<char>, message: Seq<char> },
    HttpStatusError { status: u16, url: Seq<char> },
    DecompressionError { message: Seq<char> },
    ArchiveParseError { message: Seq<char> },
    FilesystemError { path: Seq<char>, message: Seq<char> },
}

impl View for InstallError {
    type V = Failure;

    open spec fn view(&self) -> Failure {
        match self {
            InstallError::InvalidVersionFormat { given } => Failure::InvalidVersionFormat {
                given: given@,
            },
            InstallError::DestinationAlreadyExists { path } => Failure::DestinationAlreadyExists {
                path: path@,
            },
            InstallError::RequestError { url, message } => Failure::RequestError {
                url: url@,
                message: message@,
            },
            InstallError::HttpStatusError { status, url } => Failure::HttpStatusError {
                status: *status,
                url: url@,
            },
            InstallError::DecompressionError { message } => Failure::DecompressionError {
                message: message@,
            },
            InstallError::ArchiveParseError { message } => Failure::ArchiveParseError {
                message: message@,
            },
            InstallError::FilesystemError { path, message } => Failure::FilesystemError {
                path: path@,
                message: message@,
            },
        }
    }
}

impl InstallError {
    /// A second value that says the same.
    pub fn duplicate(&self) -> (copy: InstallError)
        ensures
            copy@ == self@,
    {
        match self {
            InstallError::InvalidVersionFormat { given } => InstallError::InvalidVersionFormat {
                given: given.clone(),
            },
            InstallError::DestinationAlreadyExists { path } => {
                InstallError::DestinationAlreadyExists { path: path.clone() }
            },
            InstallError::RequestError { url, message } => InstallError::RequestError {
                url: url.clone(),
                message: message.clone(),
            },
            InstallError::HttpStatusError { status, url } => InstallError::HttpStatusError {
                status: *status,
                url: url.clone(),
            },
            InstallError::DecompressionError { message } => InstallError::DecompressionError {
                message: message.clone(),
            },
            InstallError::ArchiveParseError { message } => InstallError::ArchiveParseError {
                message: message.clone(),
            },
            InstallError::FilesystemError { path, message } => InstallError::FilesystemError {
                path: path.clone(),
                message: message.clone(),
            },
        }
    }
}

/// What a unit of work reported, with its failure's texts as sequences of
/// characters.
pub open spec fn outcome_view(outcome: Result<(), InstallError>) -> Result<(), Failure> {
    match outcome {
        Ok(_) => Ok(()),
        Err(e) => Err(e@),
    }
}

/// How an attempt to create a directory ended.
#[derive(Clone, Debug, PartialEq, Eq)]
pub enum DirOutcome {
    /// The directory was created.
    Created,
    /// Nothing was created because the path exists already.
    AlreadyExists,
    /// The attempt failed for another reason, described by the text.
    Failed(String),
}

/// Judges an attempt to create the directory `path`: that it exists already
/// is as good as having created it, any other failure is an error.
pub fn dir_result(outcome: DirOutcome, path: &str) -> (r: Result<(), InstallError>)
    ensures
        outcome is Created || outcome is AlreadyExists ==> r is Ok,
        outcome matches DirOutcome::Failed(message) ==> (r matches Err(e) && e@
            == (Failure::FilesystemError { path: path@, message: message@ })),
{
    match outcome {
        DirOutcome::Created => Ok(()),
        DirOutcome::AlreadyExists => Ok(()),
        DirOutcome::Failed(message) => Err(
            InstallError::FilesystemError { path: path.to_owned(), message },
        ),
    }
}

} // verus!
