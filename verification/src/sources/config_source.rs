use vstd::prelude::*;

use crate::files::FileStore;
use crate::sources::custom::CustomConfigSource;
use crate::sources::dot_env::{DotEnvLineParseErrors, DotEnvironmentConfigSource};
use crate::sources::environment::EnvironmentConfigSource;
use crate::sources::yaml::YamlConfigSource;
use crate::text::{chars_to_string, env_chars, map_env, str_to_chars};
use vstd::string::*;

verus! {

/// The normalized environment-variable form of a dotted property name:
/// upper-cased (ASCII), with every `.` replaced by `_`.
pub fn convert_property_to_environment_name(property_name: &str) -> (r: String)
    ensures
        r@ == map_env(property_name@),
{
    let chars = str_to_chars(property_name);
    let mapped = env_chars(&chars);
    chars_to_string(&mapped)
}

/// Why a source could not be built from a file.
#[derive(Debug, Clone, PartialEq)]
pub enum FileError {
    /// One or more malformed dotenv lines; every line error is listed.
    DotEnvLineParseErrors(DotEnvLineParseErrors),
    /// The YAML text could not be scanned; holds the scanner's message.
    YamlScanError(String),
    /// The YAML text holds more than one document, which would make key
    /// resolution ambiguous.
    YamlUnsupportedMultiDoc,
    /// The file was missing or unreadable; holds the path that was asked for.
    IoError(String),
}

/// What a file error reads as: the dotenv report, the YAML scanner's
/// message, or the path that could not be read.
pub open spec fn spec_file_error_message(e: FileError) -> Seq<char> {
    match e {
        FileError::DotEnvLineParseErrors(le) => crate::sources::dot_env::spec_errors_message(
            le@,
        ),
        FileError::YamlScanError(m) => m@,
        FileError::YamlUnsupportedMultiDoc => "YAML text holds more than one document"@,
        FileError::IoError(p) => "unable to read file: "@ + p@,
    }
}

impl FileError {
    /// A human-readable description of the failure.
    pub fn message(&self) -> (r: String)
        ensures
            r@ == spec_file_error_message(*self),
    {
        match self {
            FileError::DotEnvLineParseErrors(le) => le.message(),
            FileError::YamlScanError(m) => m.clone(),
            FileError::YamlUnsupportedMultiDoc => String::from_str(
                "YAML text holds more than one document",
            ),
            FileError::IoError(p) => String::from_str("unable to read file: ").concat(
                p.as_str(),
            ),
        }
    }
}

/// The capability every configuration source offers: a priority ordinal
/// (lower is consulted first), a diagnostic name, and a property lookup.
pub trait ConfigSource: Sized {
    /// The priority of this source; a lower ordinal is consulted first.
    spec fn spec_ordinal(&self) -> int;

    /// The diagnostic name of this source.
    spec fn spec_name(&self) -> Seq<char>;

    /// The answer this source gives for a dotted property name.
    spec fn spec_value(&self, property_name: Seq<char>) -> Option<Seq<char>>;

    fn get_ordinal(&self) -> (r: usize)
        ensures
            r as int == self.spec_ordinal(),
    ;

    fn get_value(&self, property_name: &str) -> (r: Option<String>)
        ensures
            match r {
                Some(v) => self.spec_value(property_name@) == Some(v@),
                None => self.spec_value(property_name@) is None,
            },
    ;

    fn get_name(&self) -> (r: &str)
        ensures
            r@ == self.spec_name(),
    ;

    /// Builds the source from the text of the file at `file_path` in
    /// `files`. Sources with no natural file form ignore the path and
    /// return an instance unconditionally.
    fn from_file(file_path: &str, files: &FileStore) -> (r: Result<Self, FileError>);
}

/// One configuration source of any kind, ready to be stored next to
/// sources of other kinds: the built-in sources plus the caller-defined
/// table source.
pub enum Source {
    Environment(EnvironmentConfigSource),
    DotEnvironment(DotEnvironmentConfigSource),
    Yaml(YamlConfigSource),
    Custom(CustomConfigSource),
}

impl Source {
    /// The priority of the underlying source; a lower ordinal is
    /// consulted first.
    pub open spec fn spec_ordinal(&self) -> int {
        match self {
            Source::Environment(s) => s.spec_ordinal(),
            Source::DotEnvironment(s) => s.spec_ordinal(),
            Source::Yaml(s) => s.spec_ordinal(),
            Source::Custom(s) => s.spec_ordinal(),
        }
    }

    pub open spec fn spec_name(&self) -> Seq<char> {
        match self {
            Source::Environment(s) => s.spec_name(),
            Source::DotEnvironment(s) => s.spec_name(),
            Source::Yaml(s) => s.spec_name(),
            Source::Custom(s) => s.spec_name(),
        }
    }

    /// The answer the underlying source gives for a property name.
    pub open spec fn spec_value(&self, property_name: Seq<char>) -> Option<Seq<char>> {
        match self {
            Source::Environment(s) => s.spec_value(property_name),
            Source::DotEnvironment(s) => s.spec_value(property_name),
            Source::Yaml(s) => s.spec_value(property_name),
            Source::Custom(s) => s.spec_value(property_name),
        }
    }

    pub fn get_ordinal(&self) -> (r: usize)
        ensures
            r as int == self.spec_ordinal(),
    {
        match self {
            Source::Environment(s) => s.get_ordinal(),
            Source::DotEnvironment(s) => s.get_ordinal(),
            Source::Yaml(s) => s.get_ordinal(),
            Source::Custom(s) => s.get_ordinal(),
        }
    }

    pub fn get_value(&self, property_name: &str) -> (r: Option<String>)
        ensures
            match r {
                Some(v) => self.spec_value(property_name@) == Some(v@),
                None => self.spec_value(property_name@) is None,
            },
    {
        match self {
            Source::Environment(s) => s.get_value(property_name),
            Source::DotEnvironment(s) => s.get_value(property_name),
            Source::Yaml(s) => s.get_value(property_name),
            Source::Custom(s) => s.get_value(property_name),
        }
    }

    pub fn get_name(&self) -> (r: &str)
        ensures
            r@ == self.spec_name(),
    {
        match self {
            Source::Environment(s) => s.get_name(),
            Source::DotEnvironment(s) => s.get_name(),
            Source::Yaml(s) => s.get_name(),
            Source::Custom(s) => s.get_name(),
        }
    }
}

/// Two sources that cannot be told apart: same priority, same name, and
/// the same answer for every property.
pub open spec fn src_equiv(a: Source, b: Source) -> bool {
    &&& a.spec_ordinal() == b.spec_ordinal()
    &&& a.spec_name() == b.spec_name()
    &&& forall|p: Seq<char>| a.spec_value(p) == b.spec_value(p)
}

impl Clone for Source {
    /// A clone has the same priority, name and answers as the original.
    fn clone(&self) -> (r: Self)
        ensures
            src_equiv(r, *self),
    {
        match self {
            Source::Environment(s) => Source::Environment(s.clone()),
            Source::DotEnvironment(s) => Source::DotEnvironment(s.clone()),
            Source::Yaml(s) => Source::Yaml(s.clone()),
            Source::Custom(s) => Source::Custom(s.clone()),
        }
    }
}

} // verus!
