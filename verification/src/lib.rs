//! Discovery of a Microsoft Visual C++ toolchain and extraction of the
//! environment variables its setup scripts provide, for a requested target
//! architecture.
//!
//! The crate holds the decision and parsing logic: locating the
//! per-architecture setup script under an installation root, interpreting the
//! output of the locator tool and of the setup script, parsing an environment
//! dump into an ordered key/value snapshot, and memoizing snapshots per
//! architecture.  The subprocess and filesystem work that feeds these
//! functions lives outside the library and hands in plain values.

use vstd::prelude::*;

mod arch;
mod cache;
mod envmap;
mod error;
mod locate;
mod parse;
mod pathconv;
mod snapshot;
mod strutil;

pub use arch::{spec_arch_token, spec_bat_filename, MsvcArch};
pub use cache::{EnvLookup, EnvironmentCache};
pub use envmap::{
    env_entries, has_key, key_index, keys_unique, lemma_key_index, lemma_key_index_at,
    lemma_upsert_existing_keeps_order, lemma_upsert_keys_unique, lookup, upsert,
};
pub use error::MsvcEnvError;
pub use locate::{
    bat_files_of, has_bat_ext, spec_bat_path, spec_build_dir, spec_vc_dir, spec_vsdevcmd_path,
    MsvcEnv,
};
pub use parse::{
    apply_line, fold_lines, lemma_fold_lines_keys_unique, lemma_parse_distinct_keys,
    lemma_parse_dump_keys_unique, lemma_unparsable_line_skipped, line_key, line_pair,
    parse_dump, parse_env_dump, parse_line, split_lines, strip_cr,
};
pub use pathconv::{
    escape_spaces, is_ascii_letter, is_drive_seg, join_with, keep_segments, lower_char,
    normalize_seps, spec_unixify, spec_unixify_env, unixify_all, unixify_parts, unixify_path,
    unixify_path_env,
};
pub use snapshot::MsvcEnvironment;
pub use strutil::{
    contains_char, find_char, is_ws, lemma_find_char, lemma_find_char_at, lemma_split_on_len,
    split_on, split_str, trim_end, trim_start, trim_str, trim_ws,
};

verus! {

} // verus!
