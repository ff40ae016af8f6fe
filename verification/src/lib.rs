//! A verified model of a process-wide, mutually exclusive "scratch
//! environment": a temporary working directory plus a snapshot/restore
//! mechanism for environment variables.
//!
//! The library models the ambient process state that a session touches (the
//! environment-variable table, the working directory, and the single
//! process-wide exclusion lock) and proves that every session restores that
//! state exactly on teardown, releases the lock on every exit path, and
//! confines write operations to the scratch directory.

use vstd::prelude::*;

pub mod env_table;
pub mod session;
pub mod space_path;

verus! {

/// A single set-or-unset instruction against the environment table.
///
/// `SetVar` gives a variable a value; `UnsetVar` removes it. A sequence of
/// these is what a restore pass replays to bring the table back to a snapshot.
#[derive(Debug)]
pub enum EnvAction {
    SetVar(String, String),
    UnsetVar(String),
}

/// Relies on std::io::Error as an opaque value: teardown and setup carry
/// operating-system errors through without reading them.
#[verifier::external_type_specification]
#[verifier::external_body]
pub struct ExIoError(std::io::Error);

/// An error entering or leaving a playspace.
#[derive(Debug)]
pub enum SpaceError {
    /// A session was already active when a non-blocking entry was attempted.
    AlreadyInSpace,
    /// Teardown ran but reported failures.
    ExitError(ExitError),
    /// An operating-system call failed during setup.
    StdIo(std::io::Error),
}

/// An error from a write operation routed through the containment check.
#[derive(Debug)]
pub enum WriteError {
    /// The requested path lies outside the scratch directory; the original
    /// request is carried for diagnostics.
    OutsidePlayspace(space_path::SpacePath),
    /// An operating-system call failed while writing.
    StdIo(std::io::Error),
}

/// The failures a teardown can report. Teardown always attempts every step;
/// when both the working-directory restore and the scratch-directory removal
/// fail, both errors are carried.
#[derive(Debug)]
pub enum ExitError {
    WorkingDirChangeFailed { source: std::io::Error, temp_dir: Option<std::io::Error> },
    TempDirRemoveFailed { source: std::io::Error },
}

impl ExitError {
    /// A human-readable account of the failure.
    pub fn message(&self) -> (m: String)
        ensures
            (match self {
                ExitError::WorkingDirChangeFailed { temp_dir: None, .. } => m@
                    == "could not change working directory"@,
                ExitError::WorkingDirChangeFailed { temp_dir: Some(_), .. } => m@
                    == "could not change working directory and also encountered an error removing temporary directory"@,
                ExitError::TempDirRemoveFailed { .. } => m@
                    == "could not remove temporary directory"@,
            }),
    {
        match self {
            ExitError::WorkingDirChangeFailed { temp_dir: None, .. } => {
                "could not change working directory".to_owned()
            },
            ExitError::WorkingDirChangeFailed { temp_dir: Some(_), .. } => {
                "could not change working directory and also encountered an error removing temporary directory".to_owned()
            },
            ExitError::TempDirRemoveFailed { .. } => {
                "could not remove temporary directory".to_owned()
            },
        }
    }
}

/// `Some` error of a failed step, `None` for a step that went through.
pub open spec fn spec_err_of(r: Result<(), std::io::Error>) -> Option<std::io::Error> {
    match r {
        Ok(_) => None,
        Err(e) => Some(e),
    }
}

/// The teardown verdict built from the working-directory restore outcome and
/// the scratch-directory removal outcome. Both steps have already been
/// attempted; this combines their results, keeping every error encountered:
/// a failed restore is reported first and carries the removal error, if any,
/// beside it.
pub fn aggregate_teardown(
    working: Result<(), std::io::Error>,
    temp: Result<(), std::io::Error>,
) -> (r: Result<(), ExitError>)
    ensures
        (match (working, temp) {
            (Ok(_), Ok(_)) => r == Ok::<(), ExitError>(()),
            (Ok(_), Err(t)) => r == Err::<(), ExitError>(
                (ExitError::TempDirRemoveFailed { source: t }),
            ),
            (Err(w), Ok(_)) => r == Err::<(), ExitError>(
                (ExitError::WorkingDirChangeFailed { source: w, temp_dir: None }),
            ),
            (Err(w), Err(t)) => r == Err::<(), ExitError>(
                (ExitError::WorkingDirChangeFailed { source: w, temp_dir: Some(t) }),
            ),
        }),
{
    match working {
        Ok(_) => match temp {
            Ok(_) => Ok(()),
            Err(t) => Err(ExitError::TempDirRemoveFailed { source: t }),
        },
        Err(w) => {
            let temp_err = match temp {
                Ok(_) => None,
                Err(t) => Some(t),
            };
            Err(ExitError::WorkingDirChangeFailed { source: w, temp_dir: temp_err })
        },
    }
}

} // verus!
