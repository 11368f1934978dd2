//! Per-process memoization of extracted environments, one slot per
//! architecture, and the provider steps that consult and fill it.
//!
//! Extraction is slow — it runs a shell that sources a setup script — so it
//! must happen at most once per architecture per process.  The caller holds
//! one `EnvironmentCache` behind its process-wide lock and drives each
//! request in two steps: `environment` answers from the cache or asks for an
//! extraction, and `environment_extracted` records the extraction's outcome.
//! Both steps hand out independent copies, so no caller can disturb a cached
//! snapshot, and a failed extraction is never recorded, so a later attempt
//! can still succeed.

use crate::arch::MsvcArch;
use crate::error::MsvcEnvError;
use crate::locate::MsvcEnv;
use crate::snapshot::MsvcEnvironment;
use vstd::prelude::*;

verus! {

/// The memoized snapshots of one process, one slot per architecture.
pub struct EnvironmentCache {
    x86: Option<MsvcEnvironment>,
    x64: Option<MsvcEnvironment>,
    arm: Option<MsvcEnvironment>,
    arm64: Option<MsvcEnvironment>,
    all: Option<MsvcEnvironment>,
}

impl EnvironmentCache {
    /// The snapshot stored for `arch`, if one has been stored.
    pub closed spec fn cached(self, arch: MsvcArch) -> Option<MsvcEnvironment> {
        match arch {
            MsvcArch::X86 => self.x86,
            MsvcArch::X64 => self.x64,
            MsvcArch::Arm => self.arm,
            MsvcArch::Arm64 => self.arm64,
            MsvcArch::All => self.all,
        }
    }

    /// An empty cache: nothing has been extracted yet.
    pub fn new() -> (r: Self)
        ensures
            forall|a: MsvcArch| r.cached(a) is None,
    {
        EnvironmentCache { x86: None, x64: None, arm: None, arm64: None, all: None }
    }

    /// A copy of the snapshot stored for `arch`, if one has been stored.
    pub fn lookup(&self, arch: MsvcArch) -> (r: Option<MsvcEnvironment>)
        ensures
            r is Some <==> self.cached(arch) is Some,
            r matches Some(e) ==> e.entries() == self.cached(arch)->0.entries(),
    {
        let slot = match arch {
            MsvcArch::X86 => &self.x86,
            MsvcArch::X64 => &self.x64,
            MsvcArch::Arm => &self.arm,
            MsvcArch::Arm64 => &self.arm64,
            MsvcArch::All => &self.all,
        };
        match slot {
            Some(env) => Some(env.clone()),
            None => None,
        }
    }

    /// Stores the snapshot extracted for `arch`; every other architecture's
    /// slot is left untouched.
    pub fn store(&mut self, arch: MsvcArch, env: MsvcEnvironment)
        ensures
            final(self).cached(arch) matches Some(c) && c.entries() == env.entries(),
            forall|a: MsvcArch| a != arch ==> final(self).cached(a) == old(self).cached(a),
    {
        match arch {
            MsvcArch::X86 => self.x86 = Some(env),
            MsvcArch::X64 => self.x64 = Some(env),
            MsvcArch::Arm => self.arm = Some(env),
            MsvcArch::Arm64 => self.arm64 = Some(env),
            MsvcArch::All => self.all = Some(env),
        }
    }
}

/// The answer the provider gives before any extraction work: either a copy
/// of the memoized snapshot, or the instruction to extract once and report
/// back.
pub enum EnvLookup {
    /// The environment for the requested architecture, served from the
    /// cache.
    Hit(MsvcEnvironment),
    /// Nothing is cached for the requested architecture; the caller must
    /// run one extraction and hand its outcome to `environment_extracted`.
    NeedsExtraction,
}

impl MsvcEnv {
    /// Answers a request for `arch` from the cache alone.  A stored
    /// snapshot is returned as an independent copy with identical content —
    /// so a second request for the same architecture never extracts again —
    /// and only an architecture with no stored snapshot asks for
    /// extraction.
    pub fn environment(&self, cache: &EnvironmentCache, arch: MsvcArch) -> (r: EnvLookup)
        ensures
            match cache.cached(arch) {
                Some(c) => r matches EnvLookup::Hit(e) && e.entries() == c.entries(),
                None => r is NeedsExtraction,
            },
    {
        match cache.lookup(arch) {
            Some(env) => EnvLookup::Hit(env),
            None => EnvLookup::NeedsExtraction,
        }
    }

    /// Records the outcome of the one extraction run for `arch`.  A
    /// successful extraction is stored and returned as an independent copy;
    /// a failure is returned unchanged and leaves the whole cache as it
    /// was, so a later request may try again.
    pub fn environment_extracted(
        &self,
        cache: &mut EnvironmentCache,
        arch: MsvcArch,
        outcome: Result<MsvcEnvironment, MsvcEnvError>,
    ) -> (r: Result<MsvcEnvironment, MsvcEnvError>)
        ensures
            outcome matches Ok(env) ==> (final(cache).cached(arch) matches Some(c) && c.entries()
                == env.entries()) && (r matches Ok(re) && re.entries() == env.entries()),
            outcome matches Err(e) ==> r == Err::<MsvcEnvironment, MsvcEnvError>(e)
                && *final(cache) == *old(cache),
            forall|a: MsvcArch| a != arch ==> final(cache).cached(a) == old(cache).cached(a),
    {
        match outcome {
            Ok(env) => {
                let copy = env.clone();
                cache.store(arch, env);
                Ok(copy)
            },
            Err(e) => Err(e),
        }
    }
}

} // verus!
