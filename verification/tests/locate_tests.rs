//! Behaviour of toolchain location: the fixed naming tables, the path
//! layout, and the interpretation of the locator tool's output.

use msvc_env::{MsvcArch, MsvcEnv, MsvcEnvError};

const ALL_ARCHES: [MsvcArch; 5] = [
    MsvcArch::X86,
    MsvcArch::X64,
    MsvcArch::Arm,
    MsvcArch::Arm64,
    MsvcArch::All,
];

#[test]
fn arch_tokens_are_exact() {
    assert_eq!(MsvcArch::X86.as_str(), "x86");
    assert_eq!(MsvcArch::X64.as_str(), "x64");
    assert_eq!(MsvcArch::Arm.as_str(), "arm");
    assert_eq!(MsvcArch::Arm64.as_str(), "arm64");
    assert_eq!(MsvcArch::All.as_str(), "all");
}

#[test]
fn bat_filenames_are_exact() {
    assert_eq!(MsvcArch::X86.bat_filename(), "vcvarsamd64_x86.bat");
    assert_eq!(MsvcArch::X64.bat_filename(), "vcvars64.bat");
    assert_eq!(MsvcArch::Arm.bat_filename(), "vcvarsamd64_arm.bat");
    assert_eq!(MsvcArch::Arm64.bat_filename(), "vcvarsamd64_arm64.bat");
    assert_eq!(MsvcArch::All.bat_filename(), "vcvarsall.bat");
}

#[test]
fn locator_failure_carries_error_output() {
    let msvc = MsvcEnv::new();
    let r = msvc.find_visual_studio(false, "ignored", "spawn failed");
    assert!(matches!(r, Err(MsvcEnvError::VswhereError(m)) if m == "spawn failed"));
}

#[test]
fn empty_locator_output_means_no_installation() {
    let msvc = MsvcEnv::new();
    // The tool itself was downloaded and ran cleanly; it simply found
    // nothing.  That must surface as the no-installation case for every
    // architecture's request.
    for _arch in ALL_ARCHES {
        let r = msvc.find_visual_studio(true, "", "");
        assert!(matches!(r, Err(MsvcEnvError::NoVisualStudio)));
        let r = msvc.find_visual_studio(true, "  \r\n", "");
        assert!(matches!(r, Err(MsvcEnvError::NoVisualStudio)));
    }
}

#[test]
fn locator_output_is_trimmed() {
    let msvc = MsvcEnv::new();
    let r = msvc.find_visual_studio(true, "C:\\VS\\2022\r\n", "");
    assert_eq!(r.unwrap(), "C:\\VS\\2022");
}

#[test]
fn missing_bat_is_arch_not_supported_not_no_installation() {
    let msvc = MsvcEnv::new();
    let r = msvc.vc_path("C:\\VS", MsvcArch::Arm64, false);
    match r {
        Err(MsvcEnvError::ArchNotSupported(arch, file)) => {
            assert_eq!(arch, MsvcArch::Arm64);
            assert_eq!(file, "vcvarsamd64_arm64.bat");
        }
        other => panic!("expected ArchNotSupported, got {:?}", other),
    }
    let r = msvc.vcvars_path("C:\\VS", MsvcArch::Arm, false);
    assert!(matches!(
        r,
        Err(MsvcEnvError::ArchNotSupported(MsvcArch::Arm, _))
    ));
}

#[test]
fn present_bat_yields_expected_paths() {
    let msvc = MsvcEnv::new();
    assert_eq!(msvc.vc_path("C:\\VS", MsvcArch::X64, true).unwrap(), "C:\\VS\\VC");
    assert_eq!(
        msvc.vcvars_path("C:\\VS", MsvcArch::X64, true).unwrap(),
        "C:\\VS\\VC\\Auxiliary\\Build\\vcvars64.bat"
    );
    assert_eq!(
        msvc.bat_path("C:\\VS", MsvcArch::Arm),
        "C:\\VS\\VC\\Auxiliary\\Build\\vcvarsamd64_arm.bat"
    );
}

#[test]
fn vsdevcmd_path_layout_and_absence() {
    let msvc = MsvcEnv::new();
    assert_eq!(
        msvc.vsdevcmd_path("C:\\VS", true).unwrap(),
        "C:\\VS\\Common7\\Tools\\VsDevCmd.bat"
    );
    assert!(matches!(
        msvc.vsdevcmd_path("C:\\VS", false),
        Err(MsvcEnvError::NoVisualStudio)
    ));
}

#[test]
fn list_bat_files_keeps_only_bat_names() {
    let msvc = MsvcEnv::new();
    let names = vec![
        "vcvars64.bat".to_string(),
        "readme.txt".to_string(),
        ".bat".to_string(),
        "vcvarsall.bat".to_string(),
        "".to_string(),
    ];
    let kept = msvc.list_bat_files(&names);
    assert_eq!(kept, vec!["vcvars64.bat".to_string(), "vcvarsall.bat".to_string()]);
}

#[test]
fn vswhere_invocation_is_fixed() {
    let msvc = MsvcEnv::new();
    assert_eq!(
        msvc.vswhere_args(),
        vec!["-latest", "-products", "*", "-property", "installationPath"]
    );
    assert_eq!(msvc.vswhere_exe_name(), "vswhere.exe");
    assert_eq!(msvc.vswhere_cache_dir(), "target/msvc-env-cache");
    assert!(msvc.vswhere_url().ends_with("/vswhere.exe"));
}

#[test]
fn vcvars_command_args_template() {
    let msvc = MsvcEnv::new();
    let args = msvc.vcvars_command_args("C:\\VS\\Common7\\Tools\\VsDevCmd.bat", MsvcArch::Arm64);
    assert_eq!(
        args,
        vec![
            "/k".to_string(),
            "C:\\VS\\Common7\\Tools\\VsDevCmd.bat".to_string(),
            "-startdir=none".to_string(),
            "-arch=arm64".to_string(),
            "-host_arch=x64".to_string(),
        ]
    );
}

#[test]
fn extraction_failure_carries_error_output() {
    let msvc = MsvcEnv::new();
    let r = msvc.vcvars_environment(false, "", "bad host/target");
    assert!(matches!(r, Err(MsvcEnvError::VcvarsError(m)) if m == "bad host/target"));
}

#[test]
fn extraction_with_no_assignments_is_a_parse_failure() {
    let msvc = MsvcEnv::new();
    let r = msvc.vcvars_environment(true, "banner only, nothing else\n", "");
    assert!(matches!(r, Err(MsvcEnvError::ParseError(_))));
    let r = msvc.vcvars_environment(true, "", "");
    assert!(matches!(r, Err(MsvcEnvError::ParseError(_))));
}

#[test]
fn successful_extraction_parses_dump() {
    let msvc = MsvcEnv::new();
    let env = msvc
        .vcvars_environment(true, "banner\nPATH=C:\\bin\nPlatform=arm64\n", "")
        .unwrap();
    assert_eq!(env.len(), 2);
    assert_eq!(env.get("PATH").unwrap(), "C:\\bin");
    assert_eq!(env.get("Platform").unwrap(), "arm64");
}
