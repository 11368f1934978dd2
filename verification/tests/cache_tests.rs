//! Behaviour of the per-process cache: at-most-once extraction, content
//! identity across repeated requests, isolation between architectures, and
//! the never-cache-a-failure rule.

use msvc_env::{EnvLookup, EnvironmentCache, MsvcArch, MsvcEnv, MsvcEnvError, MsvcEnvironment};

fn pairs(env: &MsvcEnvironment) -> Vec<(String, String)> {
    let mut out = Vec::new();
    let mut i = 0;
    while let Some((k, v)) = env.get_index(i) {
        out.push((k.clone(), v.clone()));
        i += 1;
    }
    out
}

/// A stand-in for the extraction subprocess that counts how often it runs.
fn extract_counted(counter: &mut u32) -> Result<MsvcEnvironment, MsvcEnvError> {
    *counter += 1;
    Ok(MsvcEnvironment::from_dump("PATH=C:\\bin\nINCLUDE=C:\\inc"))
}

#[test]
fn second_request_is_served_from_cache_with_identical_content() {
    let msvc = MsvcEnv::new();
    let mut cache = EnvironmentCache::new();
    let mut extractions: u32 = 0;

    let first = match msvc.environment(&cache, MsvcArch::X64) {
        EnvLookup::NeedsExtraction => {
            let outcome = extract_counted(&mut extractions);
            msvc.environment_extracted(&mut cache, MsvcArch::X64, outcome).unwrap()
        }
        EnvLookup::Hit(env) => env,
    };
    let second = match msvc.environment(&cache, MsvcArch::X64) {
        EnvLookup::NeedsExtraction => {
            let outcome = extract_counted(&mut extractions);
            msvc.environment_extracted(&mut cache, MsvcArch::X64, outcome).unwrap()
        }
        EnvLookup::Hit(env) => env,
    };

    assert_eq!(extractions, 1);
    assert_eq!(pairs(&first), pairs(&second));
}

#[test]
fn architectures_do_not_share_cache_slots() {
    let msvc = MsvcEnv::new();
    let mut cache = EnvironmentCache::new();
    let outcome = Ok(MsvcEnvironment::from_dump("A=1"));
    msvc.environment_extracted(&mut cache, MsvcArch::X64, outcome).unwrap();

    assert!(matches!(
        msvc.environment(&cache, MsvcArch::Arm64),
        EnvLookup::NeedsExtraction
    ));
    assert!(matches!(
        msvc.environment(&cache, MsvcArch::All),
        EnvLookup::NeedsExtraction
    ));
    assert!(matches!(msvc.environment(&cache, MsvcArch::X64), EnvLookup::Hit(_)));
}

#[test]
fn a_failed_extraction_is_not_cached() {
    let msvc = MsvcEnv::new();
    let mut cache = EnvironmentCache::new();

    let failed: Result<MsvcEnvironment, MsvcEnvError> =
        Err(MsvcEnvError::VcvarsError("transient".to_string()));
    let r = msvc.environment_extracted(&mut cache, MsvcArch::Arm, failed);
    assert!(matches!(r, Err(MsvcEnvError::VcvarsError(m)) if m == "transient"));

    // The failure left no trace: a later request still asks to extract,
    // and a later success is then served.
    assert!(matches!(
        msvc.environment(&cache, MsvcArch::Arm),
        EnvLookup::NeedsExtraction
    ));
    let ok = Ok(MsvcEnvironment::from_dump("LIB=C:\\lib"));
    msvc.environment_extracted(&mut cache, MsvcArch::Arm, ok).unwrap();
    match msvc.environment(&cache, MsvcArch::Arm) {
        EnvLookup::Hit(env) => assert_eq!(env.get("LIB").unwrap(), "C:\\lib"),
        EnvLookup::NeedsExtraction => panic!("expected a cache hit"),
    }
}

#[test]
fn cached_snapshot_is_an_independent_copy() {
    let msvc = MsvcEnv::new();
    let mut cache = EnvironmentCache::new();
    let stored = msvc
        .environment_extracted(&mut cache, MsvcArch::X86, Ok(MsvcEnvironment::from_dump("A=1")))
        .unwrap();
    drop(stored);
    match msvc.environment(&cache, MsvcArch::X86) {
        EnvLookup::Hit(env) => assert_eq!(env.get("A").unwrap(), "1"),
        EnvLookup::NeedsExtraction => panic!("expected a cache hit"),
    }
}

#[test]
fn cache_lookup_and_store_round_trip() {
    let mut cache = EnvironmentCache::new();
    for arch in [
        MsvcArch::X86,
        MsvcArch::X64,
        MsvcArch::Arm,
        MsvcArch::Arm64,
        MsvcArch::All,
    ] {
        assert!(cache.lookup(arch).is_none());
    }
    cache.store(MsvcArch::All, MsvcEnvironment::from_dump("K=v"));
    let got = cache.lookup(MsvcArch::All).unwrap();
    assert_eq!(got.get("K").unwrap(), "v");
    assert!(cache.lookup(MsvcArch::X86).is_none());
}

#[test]
fn existing_tool_file_means_no_download() {
    let msvc = MsvcEnv::new();
    let mut network_calls: u32 = 0;
    // The cached executable is present: the decision must be to skip the
    // fetch entirely.
    if msvc.vswhere_download_needed(true) {
        network_calls += 1;
    }
    assert_eq!(network_calls, 0);
    // Absent, it must be fetched once.
    if msvc.vswhere_download_needed(false) {
        network_calls += 1;
    }
    assert_eq!(network_calls, 1);
}
