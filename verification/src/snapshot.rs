//! An environment snapshot: the ordered set of variables a toolchain setup
//! script provides, as parsed from an environment dump.

use crate::envmap::{
    env_entries, env_map_clone, env_map_get, env_map_get_index, env_map_len, has_key,
    keys_unique, lookup,
};
use crate::parse::{parse_dump, parse_env_dump};
use indexmap::IndexMap;
use vstd::prelude::*;

verus! {

/// The environment variables a setup script provides, in the order the dump
/// first named them, each name held once with its last assigned value.
#[derive(Debug)]
pub struct MsvcEnvironment {
    /// All environment variables from the setup script's dump.
    pub vars: IndexMap<String, String>,
}

impl MsvcEnvironment {
    /// The name/value pairs this snapshot holds, in order.
    pub open spec fn entries(self) -> Seq<(Seq<char>, Seq<char>)> {
        env_entries(self.vars)
    }

    /// No variable name occurs twice.
    pub open spec fn wf(self) -> bool {
        keys_unique(self.entries())
    }

    /// Parses an environment dump into a snapshot.
    pub fn from_dump(dump: &str) -> (r: Self)
        ensures
            r.entries() == parse_dump(dump@),
            r.wf(),
    {
        MsvcEnvironment { vars: parse_env_dump(dump) }
    }

    /// The number of variables held.
    pub fn len(&self) -> (n: usize)
        ensures
            n == self.entries().len(),
    {
        env_map_len(&self.vars)
    }

    /// The value of the variable named `key`, if it is held.
    pub fn get<'a>(&'a self, key: &str) -> (r: Option<&'a String>)
        ensures
            match r {
                Some(v) => has_key(self.entries(), key@) && v@ == lookup(self.entries(), key@),
                None => !has_key(self.entries(), key@),
            },
    {
        env_map_get(&self.vars, key)
    }

    /// The name/value pair at a position in the order, if the position is in
    /// range.
    pub fn get_index<'a>(&'a self, index: usize) -> (r: Option<(&'a String, &'a String)>)
        ensures
            match r {
                Some(p) => index < self.entries().len() && p.0@ == self.entries()[
                    index as int
                ].0 && p.1@ == self.entries()[index as int].1,
                None => index >= self.entries().len(),
            },
    {
        env_map_get_index(&self.vars, index)
    }
}

impl Clone for MsvcEnvironment {
    /// The copy holds the same pairs in the same order; callers may keep it
    /// without being able to disturb the original.
    fn clone(&self) -> (r: Self)
        ensures
            r.entries() == self.entries(),
    {
        MsvcEnvironment { vars: env_map_clone(&self.vars) }
    }
}

} // verus!
