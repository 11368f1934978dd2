//! The failures toolchain discovery and environment extraction can report.
//!
//! Every failure is a typed value returned to the immediate caller; nothing
//! is swallowed.  Diagnostic text captured from a subprocess rides along as a
//! plain string.

use crate::arch::MsvcArch;
use vstd::prelude::*;

verus! {

/// A failure while discovering a toolchain or extracting its environment.
#[derive(Debug, PartialEq, Eq)]
pub enum MsvcEnvError {
    /// A cache-directory or file operation failed; carries the reported
    /// reason.
    IoError(String),
    /// The locator tool could not be fetched; carries the reported reason.
    DownloadError(String),
    /// The locator tool could not be spawned or exited abnormally; carries
    /// its captured error output.
    VswhereError(String),
    /// The locator tool ran and reported that no installation is present.
    NoVisualStudio,
    /// An installation exists but lacks the requested architecture's
    /// component; carries the architecture and the missing script filename.
    ArchNotSupported(MsvcArch, String),
    /// The setup script or the environment dump step failed at runtime;
    /// carries its captured error output.
    VcvarsError(String),
    /// The captured output could not be interpreted as an environment dump
    /// at all; carries that output.
    ParseError(String),
}

} // verus!
