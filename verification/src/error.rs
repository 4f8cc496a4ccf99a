//! The fatal conditions of a run.

use vstd::prelude::*;

verus! {

/// The exit code of a run that ended in any fatal condition.
pub const EXIT_FAILURE: i32 = 1;

/// The exit code of a run that extracted its archive.
pub const EXIT_SUCCESS: i32 = 0;

/// Why a run stopped. Every one of these is fatal.
#[derive(Debug, PartialEq, Eq)]
pub enum Error {
    /// None of the candidate input paths opened as a regular file. `name` is
    /// the first candidate.
    InputNotFound { name: String },
    /// The bytes could not be read as a zip container, or one of its entries
    /// could not be opened.
    MalformedArchive,
    /// No entry name ends with any of the project file names that were asked
    /// for, which are listed in `markers`.
    NoProjectFileFound { markers: Vec<String> },
    /// A directory or file could not be created, or the bytes of an entry
    /// could not be copied. `name` is the archive's name.
    ExtractionIOFailure { name: String },
}

/// An [`Error`] with its texts as sequences of characters.
pub enum ErrorView {
    InputNotFound { name: Seq<char> },
    MalformedArchive,
    NoProjectFileFound { markers: Seq<Seq<char>> },
    ExtractionIOFailure { name: Seq<char> },
}

impl View for Error {
    type V = ErrorView;

    open spec fn view(&self) -> ErrorView {
        match *self {
            Error::InputNotFound { name } => ErrorView::InputNotFound { name: name@ },
            Error::MalformedArchive => ErrorView::MalformedArchive,
            Error::NoProjectFileFound { markers } => ErrorView::NoProjectFileFound {
                markers: markers.deep_view(),
            },
            Error::ExtractionIOFailure { name } => ErrorView::ExtractionIOFailure { name: name@ },
        }
    }
}

impl Error {
    /// The exit code that the process ends with on this error.
    pub fn exit_code(&self) -> (code: i32)
        ensures
            code == EXIT_FAILURE,
            code != EXIT_SUCCESS,
    {
        EXIT_FAILURE
    }
}

/// The exit code of a run: `EXIT_SUCCESS` when it went through, and the
/// error's exit code when it did not.
pub fn exit_code<T>(outcome: &Result<T, Error>) -> (code: i32)
    ensures
        code == (if outcome is Ok { EXIT_SUCCESS } else { EXIT_FAILURE }),
{
    match outcome {
        Ok(_) => EXIT_SUCCESS,
        Err(error) => error.exit_code(),
    }
}

} // verus!
