//! The closed set of target architectures a toolchain environment can be
//! requested for, together with the fixed naming conventions attached to each
//! one: the token handed to the setup script and the per-architecture setup
//! script filename.

use vstd::prelude::*;

verus! {

/// A target instruction-set architecture, used as a cache key and as the
/// argument to the toolchain setup script.  `All` selects the umbrella setup
/// script that covers every architecture.
#[derive(Debug, Clone, Copy, PartialEq, Eq, Hash, Structural)]
pub enum MsvcArch {
    X86,
    X64,
    Arm,
    Arm64,
    All,
}

/// The token that names `arch` on a command line and as the setup-script
/// argument.
pub open spec fn spec_arch_token(arch: MsvcArch) -> Seq<char> {
    match arch {
        MsvcArch::X86 => "x86"@,
        MsvcArch::X64 => "x64"@,
        MsvcArch::Arm => "arm"@,
        MsvcArch::Arm64 => "arm64"@,
        MsvcArch::All => "all"@,
    }
}

/// The filename of the setup script that configures a toolchain for `arch`.
pub open spec fn spec_bat_filename(arch: MsvcArch) -> Seq<char> {
    match arch {
        MsvcArch::X86 => "vcvarsamd64_x86.bat"@,
        MsvcArch::X64 => "vcvars64.bat"@,
        MsvcArch::Arm => "vcvarsamd64_arm.bat"@,
        MsvcArch::Arm64 => "vcvarsamd64_arm64.bat"@,
        MsvcArch::All => "vcvarsall.bat"@,
    }
}

impl MsvcArch {
    /// The architecture token as passed to the setup script.
    pub fn as_str(&self) -> (r: &'static str)
        ensures
            r@ == spec_arch_token(*self),
    {
        match self {
            MsvcArch::X86 => "x86",
            MsvcArch::X64 => "x64",
            MsvcArch::Arm => "arm",
            MsvcArch::Arm64 => "arm64",
            MsvcArch::All => "all",
        }
    }

    /// The setup-script filename for this architecture.
    pub fn bat_filename(&self) -> (r: &'static str)
        ensures
            r@ == spec_bat_filename(*self),
    {
        match self {
            MsvcArch::X86 => "vcvarsamd64_x86.bat",
            MsvcArch::X64 => "vcvars64.bat",
            MsvcArch::Arm => "vcvarsamd64_arm.bat",
            MsvcArch::Arm64 => "vcvarsamd64_arm64.bat",
            MsvcArch::All => "vcvarsall.bat",
        }
    }
}

} // verus!
