use vstd::prelude::*;

use crate::files::FileStore;
use crate::sources::config_source::{ConfigSource, FileError};
use crate::table::StringMap;

verus! {

/// A user-defined source: a table of property values under a caller-chosen
/// ordinal and name, with an optional fallback answer for every property
/// the table does not list.
///
/// Property names are looked up exactly as given, without normalization:
/// the caller decides the spelling of its own keys.
pub struct CustomConfigSource {
    ordinal: usize,
    name: String,
    values: StringMap,
    fallback: Option<String>,
}

impl CustomConfigSource {
    pub fn new(ordinal: usize, name: String, values: StringMap, fallback: Option<String>) -> (r:
        CustomConfigSource)
        ensures
            r.spec_ordinal() == ordinal as int,
            r.spec_name() == name@,
            r.values_map() == values@,
            r.spec_fallback() == match fallback {
                Some(s) => Some(s@),
                None => None::<Seq<char>>,
            },
    {
        CustomConfigSource { ordinal, name, values, fallback }
    }

    /// The table of property values.
    pub closed spec fn values_map(&self) -> Map<Seq<char>, Seq<char>> {
        self.values@
    }

    /// The answer given when the table has no entry for a property.
    pub closed spec fn spec_fallback(&self) -> Option<Seq<char>> {
        match self.fallback {
            Some(s) => Some(s@),
            None => None,
        }
    }
}

impl ConfigSource for CustomConfigSource {
    closed spec fn spec_ordinal(&self) -> int {
        self.ordinal as int
    }

    closed spec fn spec_name(&self) -> Seq<char> {
        self.name@
    }

    open spec fn spec_value(&self, property_name: Seq<char>) -> Option<Seq<char>> {
        if self.values_map().contains_key(property_name) {
            Some(self.values_map()[property_name])
        } else {
            self.spec_fallback()
        }
    }

    fn get_ordinal(&self) -> (r: usize)
        ensures
            r as int == self.spec_ordinal(),
    {
        self.ordinal
    }

    fn get_value(&self, property_name: &str) -> (r: Option<String>)
        ensures
            match r {
                Some(v) => self.spec_value(property_name@) == Some(v@),
                None => self.spec_value(property_name@) is None,
            },
    {
        let key = String::from_str(property_name);
        match self.values.get(&key) {
            Some(v) => Some(v),
            None => match &self.fallback {
                Some(s) => Some(s.clone()),
                None => None,
            },
        }
    }

    fn get_name(&self) -> (r: &str)
        ensures
            r@ == self.spec_name(),
    {
        self.name.as_str()
    }

    /// A custom source has no file form: the path is ignored and an empty
    /// source of ordinal 0 is returned.
    fn from_file(_file_path: &str, _files: &FileStore) -> (r: Result<Self, FileError>)
        ensures
            r matches Ok(src) && src.values_map() == Map::<Seq<char>, Seq<char>>::empty()
                && src.spec_fallback() is None,
    {
        Ok(
            CustomConfigSource {
                ordinal: 0,
                name: String::new(),
                values: StringMap::new(),
                fallback: None,
            },
        )
    }
}

impl Clone for CustomConfigSource {
    /// A clone answers every lookup as the original does.
    fn clone(&self) -> (r: Self)
        ensures
            r.spec_ordinal() == self.spec_ordinal(),
            r.spec_name() == self.spec_name(),
            r.values_map() == self.values_map(),
            r.spec_fallback() == self.spec_fallback(),
    {
        CustomConfigSource {
            ordinal: self.ordinal,
            name: self.name.clone(),
            values: self.values.clone(),
            fallback: match &self.fallback {
                Some(s) => Some(s.clone()),
                None => None,
            },
        }
    }
}

} // verus!
