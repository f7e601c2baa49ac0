use vstd::prelude::*;

use crate::files::FileStore;
use crate::sources::config_source::{
    convert_property_to_environment_name, ConfigSource, FileError,
};
use crate::table::StringMap;
use crate::text::map_env;

verus! {

/// A source backed by a snapshot of the process environment.
///
/// The library itself never reads the environment: the caller captures the
/// variables it wants visible — usually all of them — into a `StringMap`
/// and builds the source from that snapshot.
pub struct EnvironmentConfigSource {
    vars: StringMap,
}

/// The priority of environment sources: the lowest ordinal of the built-in
/// sources, so environment variables always win overrides.
pub const ENVIRONMENT_ORDINAL: usize = 100;

impl EnvironmentConfigSource {
    /// A source that sees no environment variables at all.
    pub fn new() -> (r: EnvironmentConfigSource)
        ensures
            r.vars_map() == Map::<Seq<char>, Seq<char>>::empty(),
    {
        EnvironmentConfigSource { vars: StringMap::new() }
    }

    /// A source over the given snapshot of environment variables, keyed by
    /// the variable names exactly as the environment spells them.
    pub fn from_snapshot(vars: StringMap) -> (r: EnvironmentConfigSource)
        ensures
            r.vars_map() == vars@,
    {
        EnvironmentConfigSource { vars }
    }

    /// The environment variables this source sees.
    pub closed spec fn vars_map(&self) -> Map<Seq<char>, Seq<char>> {
        self.vars@
    }
}

impl ConfigSource for EnvironmentConfigSource {
    open spec fn spec_ordinal(&self) -> int {
        ENVIRONMENT_ORDINAL as int
    }

    open spec fn spec_name(&self) -> Seq<char> {
        "EnvironmentConfigSource"@
    }

    /// The variable named by the normalized property name, if set.
    open spec fn spec_value(&self, property_name: Seq<char>) -> Option<Seq<char>> {
        if self.vars_map().contains_key(map_env(property_name)) {
            Some(self.vars_map()[map_env(property_name)])
        } else {
            None
        }
    }

    fn get_ordinal(&self) -> (r: usize)
        ensures
            r as int == self.spec_ordinal(),
    {
        ENVIRONMENT_ORDINAL
    }

    fn get_value(&self, property_name: &str) -> (r: Option<String>)
        ensures
            match r {
                Some(v) => self.spec_value(property_name@) == Some(v@),
                None => self.spec_value(property_name@) is None,
            },
    {
        let name = convert_property_to_environment_name(property_name);
        self.vars.get(&name)
    }

    fn get_name(&self) -> (r: &str)
        ensures
            r@ == self.spec_name(),
    {
        "EnvironmentConfigSource"
    }

    /// The environment has no file form: the path is ignored and an empty
    /// snapshot is returned.
    fn from_file(_file_path: &str, _files: &FileStore) -> (r: Result<Self, FileError>)
        ensures
            r matches Ok(src) && src.vars_map() == Map::<Seq<char>, Seq<char>>::empty(),
    {
        Ok(EnvironmentConfigSource::new())
    }
}

impl Clone for EnvironmentConfigSource {
    /// A clone sees the same snapshot.
    fn clone(&self) -> (r: Self)
        ensures
            r.vars_map() == self.vars_map(),
    {
        EnvironmentConfigSource { vars: self.vars.clone() }
    }
}

} // verus!
