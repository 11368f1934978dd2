//! Locating a toolchain installation and its per-architecture setup script.
//!
//! The filesystem and subprocess work stays with the caller: it runs the
//! locator tool, probes for files, and hands the outcomes in as plain
//! values.  The functions here hold the logic: the fixed path layout under
//! an installation root, the interpretation of the locator tool's output,
//! and the choice of error for each failure.

use crate::arch::{spec_arch_token, spec_bat_filename, MsvcArch};
use crate::error::MsvcEnvError;
use crate::parse::parse_dump;
use crate::snapshot::MsvcEnvironment;
use crate::strutil::{trim_str, trim_ws};
use vstd::prelude::*;
use vstd::string::*;

verus! {

/// The directory that holds the toolchain proper, under an installation
/// root.
pub open spec fn spec_vc_dir(vs: Seq<char>) -> Seq<char> {
    vs + "\\VC"@
}

/// The directory that holds the setup scripts, under an installation root.
pub open spec fn spec_build_dir(vs: Seq<char>) -> Seq<char> {
    spec_vc_dir(vs) + "\\Auxiliary\\Build"@
}

/// The setup script for `arch`, under an installation root.
pub open spec fn spec_bat_path(vs: Seq<char>, arch: MsvcArch) -> Seq<char> {
    spec_build_dir(vs) + "\\"@ + spec_bat_filename(arch)
}

/// The developer-command script, under an installation root.
pub open spec fn spec_vsdevcmd_path(vs: Seq<char>) -> Seq<char> {
    vs + "\\Common7\\Tools\\VsDevCmd.bat"@
}

/// Whether a filename names a setup script: a `.bat` file with a non-empty
/// stem.
pub open spec fn has_bat_ext(name: Seq<char>) -> bool {
    name.len() > 4 && name.skip(name.len() - 4) == ".bat"@
}

/// The filenames with a `.bat` extension, in their given order.
pub open spec fn bat_files_of(names: Seq<Seq<char>>) -> Seq<Seq<char>>
    decreases names.len(),
{
    if names.len() == 0 {
        Seq::empty()
    } else if has_bat_ext(names.last()) {
        bat_files_of(names.drop_last()).push(names.last())
    } else {
        bat_files_of(names.drop_last())
    }
}

/// Whether `name` has a `.bat` extension, as `has_bat_ext` describes.
fn is_bat_file(name: &str) -> (b: bool)
    ensures
        b == has_bat_ext(name@),
{
    let n = name.unicode_len();
    if n <= 4 {
        proof {
            reveal_strlit(".bat");
        }
        return false;
    }
    let b = name.get_char(n - 4) == '.' && name.get_char(n - 3) == 'b' && name.get_char(n - 2)
        == 'a' && name.get_char(n - 1) == 't';
    proof {
        reveal_strlit(".bat");
        let tail = name@.skip(n - 4 as int);
        assert(tail.len() == 4);
        assert(tail[0] == name@[n - 4]);
        assert(tail[1] == name@[n - 3]);
        assert(tail[2] == name@[n - 2]);
        assert(tail[3] == name@[n - 1]);
        if b {
            assert(tail =~= ".bat"@);
        }
        if !b && tail == ".bat"@ {
            assert(false);
        }
    }
    b
}

/// Discovery and extraction of a toolchain environment.  Holds no state of
/// its own; the per-process memoization lives in `EnvironmentCache`.
pub struct MsvcEnv;

impl MsvcEnv {
    /// A fresh handle.
    pub fn new() -> Self {
        MsvcEnv
    }

    /// The release address the locator tool is fetched from on first use.
    pub fn vswhere_url(&self) -> (r: &'static str)
        ensures
            r@ == "https://github.com/microsoft/vswhere/releases/download/3.1.7/vswhere.exe"@,
    {
        "https://github.com/microsoft/vswhere/releases/download/3.1.7/vswhere.exe"
    }

    /// The well-known cache directory that holds the downloaded locator
    /// tool.
    pub fn vswhere_cache_dir(&self) -> (r: &'static str)
        ensures
            r@ == "target/msvc-env-cache"@,
    {
        "target/msvc-env-cache"
    }

    /// The locator tool's filename inside the cache directory.
    pub fn vswhere_exe_name(&self) -> (r: &'static str)
        ensures
            r@ == "vswhere.exe"@,
    {
        "vswhere.exe"
    }

    /// The arguments the locator tool is invoked with: latest installation,
    /// any product, installation-root property.
    pub fn vswhere_args(&self) -> (args: Vec<&'static str>)
        ensures
            args.deep_view() == seq![
                "-latest"@,
                "-products"@,
                "*"@,
                "-property"@,
                "installationPath"@,
            ],
    {
        let mut args: Vec<&'static str> = Vec::new();
        args.push("-latest");
        args.push("-products");
        args.push("*");
        args.push("-property");
        args.push("installationPath");
        proof {
            assert(args.deep_view() =~= seq![
                "-latest"@,
                "-products"@,
                "*"@,
                "-property"@,
                "installationPath"@,
            ]);
        }
        args
    }

    /// Whether the locator tool must be fetched before it can run: only
    /// when the cached executable is not already present.  A caller that
    /// finds the file in place makes no network call at all.
    pub fn vswhere_download_needed(&self, tool_file_exists: bool) -> (r: bool)
        ensures
            r == !tool_file_exists,
    {
        !tool_file_exists
    }

    /// Interprets a finished run of the locator tool.  A run that exited
    /// abnormally is a locator failure carrying its error output; a clean
    /// run that printed only whitespace means no installation is present;
    /// otherwise the trimmed output is the installation root.
    pub fn find_visual_studio(&self, exit_success: bool, stdout: &str, stderr: &str) -> (r:
        Result<String, MsvcEnvError>)
        ensures
            !exit_success ==> (r matches Err(MsvcEnvError::VswhereError(m)) && m@ == stderr@),
            exit_success && trim_ws(stdout@).len() == 0 ==> r == Err::<String, MsvcEnvError>(
                MsvcEnvError::NoVisualStudio,
            ),
            exit_success && trim_ws(stdout@).len() > 0 ==> (r matches Ok(p) && p@ == trim_ws(
                stdout@,
            )),
    {
        if !exit_success {
            return Err(MsvcEnvError::VswhereError(stderr.to_owned()));
        }
        let path = trim_str(stdout);
        if path.as_str().is_empty() {
            return Err(MsvcEnvError::NoVisualStudio);
        }
        Ok(path)
    }

    /// The full path of the setup script for `arch` under an installation
    /// root, for the caller to probe.
    pub fn bat_path(&self, vs_path: &str, arch: MsvcArch) -> (r: String)
        ensures
            r@ == spec_bat_path(vs_path@, arch),
    {
        let mut p = vs_path.to_owned();
        p.append("\\VC");
        p.append("\\Auxiliary\\Build");
        p.append("\\");
        p.append(arch.bat_filename());
        p
    }

    /// The toolchain directory under an installation root, provided the
    /// setup script for `arch` is present; a missing script is the
    /// architecture-not-supported failure, distinct from a missing
    /// installation.
    pub fn vc_path(&self, vs_path: &str, arch: MsvcArch, bat_file_exists: bool) -> (r: Result<
        String,
        MsvcEnvError,
    >)
        ensures
            bat_file_exists ==> (r matches Ok(p) && p@ == spec_vc_dir(vs_path@)),
            !bat_file_exists ==> (r matches Err(MsvcEnvError::ArchNotSupported(a, f)) && a == arch
                && f@ == spec_bat_filename(arch)),
    {
        if !bat_file_exists {
            return Err(MsvcEnvError::ArchNotSupported(arch, arch.bat_filename().to_owned()));
        }
        let mut p = vs_path.to_owned();
        p.append("\\VC");
        Ok(p)
    }

    /// The full path of the setup script for `arch`, provided it is
    /// present; a missing script is the architecture-not-supported failure.
    pub fn vcvars_path(&self, vs_path: &str, arch: MsvcArch, bat_file_exists: bool) -> (r: Result<
        String,
        MsvcEnvError,
    >)
        ensures
            bat_file_exists ==> (r matches Ok(p) && p@ == spec_bat_path(vs_path@, arch)),
            !bat_file_exists ==> (r matches Err(MsvcEnvError::ArchNotSupported(a, f)) && a == arch
                && f@ == spec_bat_filename(arch)),
    {
        if !bat_file_exists {
            return Err(MsvcEnvError::ArchNotSupported(arch, arch.bat_filename().to_owned()));
        }
        Ok(self.bat_path(vs_path, arch))
    }

    /// The full path of the developer-command script under an installation
    /// root, provided it is present; a root without it does not count as an
    /// installation.
    pub fn vsdevcmd_path(&self, vs_path: &str, vsdevcmd_exists: bool) -> (r: Result<
        String,
        MsvcEnvError,
    >)
        ensures
            vsdevcmd_exists ==> (r matches Ok(p) && p@ == spec_vsdevcmd_path(vs_path@)),
            !vsdevcmd_exists ==> r == Err::<String, MsvcEnvError>(MsvcEnvError::NoVisualStudio),
    {
        if !vsdevcmd_exists {
            return Err(MsvcEnvError::NoVisualStudio);
        }
        let mut p = vs_path.to_owned();
        p.append("\\Common7\\Tools\\VsDevCmd.bat");
        Ok(p)
    }

    /// Keeps, in order, the filenames that name setup scripts.
    pub fn list_bat_files(&self, names: &Vec<String>) -> (r: Vec<String>)
        ensures
            r.deep_view() == bat_files_of(names.deep_view()),
    {
        let mut r: Vec<String> = Vec::new();
        let mut i: usize = 0;
        proof {
            assert(names.deep_view().take(0) =~= Seq::<Seq<char>>::empty());
            assert(r.deep_view() =~= bat_files_of(names.deep_view().take(0)));
        }
        while i < names.len()
            invariant
                i <= names.len(),
                r.deep_view() == bat_files_of(names.deep_view().take(i as int)),
            decreases names.len() - i,
        {
            let ghost prev = r.deep_view();
            let keep = is_bat_file(names[i].as_str());
            if keep {
                r.push(names[i].clone());
            }
            proof {
                let dv = names.deep_view();
                assert(dv[i as int] == names[i as int]@);
                assert(dv.take(i + 1).drop_last() =~= dv.take(i as int));
                assert(dv.take(i + 1).last() == dv[i as int]);
                if keep {
                    assert(r.deep_view() =~= prev.push(dv[i as int]));
                }
                assert(r.deep_view() == bat_files_of(dv.take(i + 1)));
            }
            i = i + 1;
        }
        proof {
            assert(names.deep_view().take(names.deep_view().len() as int) =~= names.deep_view());
        }
        r
    }

    /// The command-line arguments for the shell that runs the
    /// developer-command script for `arch` and then dumps the environment:
    /// keep the shell running the given script, no start directory, the
    /// requested target architecture, a fixed x64 host.
    pub fn vcvars_command_args(&self, vsdevcmd_path: &str, arch: MsvcArch) -> (args: Vec<String>)
        ensures
            args.deep_view() == seq![
                "/k"@,
                vsdevcmd_path@,
                "-startdir=none"@,
                "-arch="@ + spec_arch_token(arch),
                "-host_arch=x64"@,
            ],
    {
        let mut arch_arg = String::from_str("-arch=");
        arch_arg.append(arch.as_str());
        let mut args: Vec<String> = Vec::new();
        args.push(String::from_str("/k"));
        args.push(vsdevcmd_path.to_owned());
        args.push(String::from_str("-startdir=none"));
        args.push(arch_arg);
        args.push(String::from_str("-host_arch=x64"));
        proof {
            assert(args.deep_view() =~= seq![
                "/k"@,
                vsdevcmd_path@,
                "-startdir=none"@,
                "-arch="@ + spec_arch_token(arch),
                "-host_arch=x64"@,
            ]);
        }
        args
    }

    /// Interprets a finished extraction run.  An abnormal exit is an
    /// extraction failure carrying the captured error output; output whose
    /// dump holds no assignment at all cannot be an environment dump; any
    /// other output parses into a snapshot.
    pub fn vcvars_environment(&self, exit_success: bool, stdout: &str, stderr: &str) -> (r: Result<
        MsvcEnvironment,
        MsvcEnvError,
    >)
        ensures
            !exit_success ==> (r matches Err(MsvcEnvError::VcvarsError(m)) && m@ == stderr@),
            exit_success && parse_dump(stdout@).len() == 0 ==> (r matches Err(
                MsvcEnvError::ParseError(m),
            ) && m@ == stdout@),
            exit_success && parse_dump(stdout@).len() > 0 ==> (r matches Ok(env) && env.entries()
                == parse_dump(stdout@) && env.wf()),
    {
        if !exit_success {
            return Err(MsvcEnvError::VcvarsError(stderr.to_owned()));
        }
        let env = MsvcEnvironment::from_dump(stdout);
        if env.len() == 0 {
            return Err(MsvcEnvError::ParseError(stdout.to_owned()));
        }
        Ok(env)
    }
}

} // verus!
