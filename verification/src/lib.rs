//! A verified model of a swap-and-restore engine for system utility binaries.
//!
//! The library detects the host distribution, selects the matching package
//! manager command set, and replaces existing binaries with symlinks after
//! taking permission-preserving backups, reversibly. All state lives in an
//! explicit filesystem model; an unverified shell around the library performs
//! each recorded action against the real filesystem and package manager.
use vstd::prelude::*;

pub mod command;
pub mod distro;
pub mod experiment;
pub mod fsmodel;
pub mod laws;
pub mod lookup;
pub mod pathname;
pub mod system;
pub mod textutil;

verus! {

/// The failures the library reports.
#[derive(Clone, Debug, PartialEq, Eq)]
pub enum Error {
    /// The host distribution could not be determined.
    Detection,
    /// No supported package manager exists for the distribution.
    UnsupportedPlatform,
    /// A spawned command exited with a non-zero status.
    Execution { command: String, stderr: String },
    /// A backup could not be taken.
    Backup { path: String },
    /// A generic file operation failed.
    Filesystem { path: String },
}

impl Error {
    /// A short description of the error, for user-facing messages.
    pub fn describe(&self) -> (r: String)
        ensures
            r@.len() > 0,
            ({
                match self {
                    Error::Detection => r@ == "unable to determine distribution information"@,
                    Error::UnsupportedPlatform => r@ == "unsupported platform"@,
                    Error::Execution { command, stderr } => r@ == "failed to run command '"@
                        + command@ + "': "@ + stderr@,
                    Error::Backup { path } => r@ == "unable to back up "@ + path@,
                    Error::Filesystem { path } => r@ == "file operation failed on "@ + path@,
                }
            }),
    {
        let out: String = match self {
            Error::Detection => String::from_str("unable to determine distribution information"),
            Error::UnsupportedPlatform => String::from_str("unsupported platform"),
            Error::Execution { command, stderr } => {
                let mut s = String::from_str("failed to run command '");
                s.append(command.as_str());
                s.append("': ");
                s.append(stderr.as_str());
                s
            },
            Error::Backup { path } => {
                let mut s = String::from_str("unable to back up ");
                s.append(path.as_str());
                s
            },
            Error::Filesystem { path } => {
                let mut s = String::from_str("file operation failed on ");
                s.append(path.as_str());
                s
            },
        };
        proof {
            reveal_strlit("unable to determine distribution information");
            reveal_strlit("unsupported platform");
            reveal_strlit("failed to run command '");
            reveal_strlit("unable to back up ");
            reveal_strlit("file operation failed on ");
        }
        out
    }
}

} // verus!
