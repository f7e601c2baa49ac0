//! A layered configuration library: process-environment, dotenv-file,
//! YAML-file and custom sources behind one typed lookup, resolved by a
//! deterministic priority order. The library itself performs no I/O:
//! callers hand it snapshots of the environment and of file contents,
//! and every algorithm over them — the dotenv parser above all — is
//! verified against the specifications in this crate.

use vstd::prelude::*;

pub mod data_converters;
pub mod files;
pub mod sources;
pub mod table;
pub mod text;

use crate::data_converters::FromConfigValue;
use crate::files::FileStore;
use crate::sources::config_source::{src_equiv, ConfigSource, FileError, Source};
use crate::sources::dot_env::{spec_parse, DotEnvironmentConfigSource, LineParseError};
use crate::sources::environment::EnvironmentConfigSource;
use crate::sources::yaml::{yaml_scan_of, YamlConfigSource};
use crate::text::{spec_udec, str_to_chars, usize_to_string};

verus! {

/// Renders the sum of two numbers in decimal.
pub fn sum_as_string(a: usize, b: usize) -> (r: String)
    requires
        a + b <= usize::MAX,
    ensures
        r@ == spec_udec((a + b) as nat),
{
    usize_to_string(a + b)
}

// =========================================================================
// Config: the immutable, queryable result of a build
// =========================================================================

/// The sources are kept sorted ascending by ordinal.
pub open spec fn sorted_by_ordinal(sources: Seq<Source>) -> bool {
    forall|i: int, j: int|
        0 <= i < j < sources.len() ==> sources[i].spec_ordinal() <= sources[j].spec_ordinal()
}

/// The answer of the first source, in stored order, that has one.
pub open spec fn spec_lookup(sources: Seq<Source>, property_name: Seq<char>) -> Option<Seq<char>>
    decreases sources.len(),
{
    if sources.len() == 0 {
        None
    } else {
        match sources[0].spec_value(property_name) {
            Some(v) => Some(v),
            None => spec_lookup(sources.skip(1), property_name),
        }
    }
}

/// An immutable snapshot of configuration: an ordered list of sources,
/// queried first-match-wins in ascending ordinal order.
pub struct Config {
    sources: Vec<Source>,
}

impl View for Config {
    type V = Seq<Source>;

    closed spec fn view(&self) -> Seq<Source> {
        self.sources@
    }
}

impl Config {
    /// The stored sources are sorted ascending by ordinal.
    pub open spec fn wf(&self) -> bool {
        sorted_by_ordinal(self@)
    }

    /// The answer this snapshot gives for a property name.
    pub open spec fn spec_value(&self, property_name: Seq<char>) -> Option<Seq<char>> {
        spec_lookup(self@, property_name)
    }

    /// The value of the property from the highest-priority source that
    /// defines it, or `None` if no source does.
    pub fn get_value_string(&self, property_name: &str) -> (r: Option<String>)
        ensures
            match r {
                Some(v) => self.spec_value(property_name@) == Some(v@),
                None => self.spec_value(property_name@) is None,
            },
    {
        let n = self.sources.len();
        let mut i: usize = 0;
        proof {
            assert(self@.skip(0) =~= self@);
        }
        while i < n
            invariant
                i <= n,
                n == self@.len(),
                self@ == self.sources@,
                spec_lookup(self@, property_name@) == spec_lookup(
                    self@.skip(i as int),
                    property_name@,
                ),
            decreases n - i,
        {
            proof {
                assert(self@.skip(i as int)[0] == self@[i as int]);
                assert(self@.skip(i as int).skip(1) =~= self@.skip(i + 1));
            }
            let value = self.sources[i].get_value(property_name);
            if value.is_some() {
                return value;
            }
            i = i + 1;
        }
        proof {
            assert(self@.skip(n as int) =~= Seq::<Source>::empty());
        }
        None
    }

    /// The value of the property read as `T`: `Ok(None)` when no source
    /// defines it, the converted value when the text denotes one, and the
    /// conversion error — a `TypeError` for the built-in scalar types —
    /// when it does not.
    pub fn get_value<T: FromConfigValue>(&self, property_name: &str) -> (r: Result<
        Option<T>,
        ConfigValueError,
    >)
        ensures
            match r {
                Ok(None) => self.spec_value(property_name@) is None,
                Ok(Some(v)) => match self.spec_value(property_name@) {
                    Some(s) => T::spec_from(s) == Some(v),
                    None => false,
                },
                Err(_) => match self.spec_value(property_name@) {
                    Some(s) => T::spec_from(s) is None,
                    None => false,
                },
            },
    {
        match self.get_value_string(property_name) {
            None => Ok(None),
            Some(s) => match T::from_config_str(s.as_str()) {
                Ok(v) => Ok(Some(v)),
                Err(e) => Err(e),
            },
        }
    }

    /// The value of the property, or `default` if no source defines it.
    pub fn get_value_or_default(&self, property_name: &str, default: String) -> (r: String)
        ensures
            r@ == match self.spec_value(property_name@) {
                Some(v) => v,
                None => default@,
            },
    {
        match self.get_value_string(property_name) {
            Some(value) => value,
            None => default,
        }
    }
}

// =========================================================================
// The builder
// =========================================================================

/// A source to be instantiated only at build time.
#[derive(Debug, Clone, Copy, PartialEq, Eq, Structural)]
pub enum SourceName {
    Environment,
    DotEnvironmentFile,
    YamlFile,
}

/// Collects custom sources and lazy source descriptors, then builds a
/// `Config` from them together with a snapshot of the environment and of
/// the files of interest.
pub struct ConfigBuilder {
    instantiated_sources: Vec<Source>,
    lazy_sources: Vec<SourceName>,
    config_directory: Option<String>,
}

/// A directory normalized to end in a path separator.
pub open spec fn spec_normalize_dir(d: Seq<char>) -> Seq<char> {
    if d.len() > 0 && d[d.len() - 1] == '/' {
        d
    } else {
        d + "/"@
    }
}

/// The dotenv file the builder will ask for: the override variable if the
/// environment sets it, else `.env` under the configured directory, else
/// plain `.env`.
pub open spec fn spec_dot_env_path(
    dir: Option<Seq<char>>,
    env: EnvironmentConfigSource,
) -> Seq<char> {
    match env.spec_value("CONFIGLER_DOT_ENVIRONMENT_FILE"@) {
        Some(p) => p,
        None => match dir {
            Some(d) => d + ".env"@,
            None => ".env"@,
        },
    }
}

/// The YAML file the builder will ask for, resolved like the dotenv file
/// with its own override variable and default name `config.yaml`.
pub open spec fn spec_yaml_path(dir: Option<Seq<char>>, env: EnvironmentConfigSource) -> Seq<
    char,
> {
    match env.spec_value("CONFIGLER_YAML_FILE"@) {
        Some(p) => p,
        None => match dir {
            Some(d) => d + "config.yaml"@,
            None => "config.yaml"@,
        },
    }
}

/// Whether resolving this lazy source fails against the given snapshots.
pub open spec fn spec_lazy_fails(
    name: SourceName,
    dir: Option<Seq<char>>,
    env: EnvironmentConfigSource,
    files: Map<Seq<char>, Seq<char>>,
) -> bool {
    match name {
        SourceName::Environment => false,
        SourceName::DotEnvironmentFile => {
            let path = spec_dot_env_path(dir, env);
            !files.contains_key(path) || spec_parse(files[path]) is Err
        },
        SourceName::YamlFile => {
            let path = spec_yaml_path(dir, env);
            !files.contains_key(path) || yaml_scan_of(files[path]) is Err || (yaml_scan_of(
                files[path],
            ) matches Ok(n) && n > 1)
        },
    }
}

/// The error that resolving this lazy source reports.
pub open spec fn spec_lazy_error_matches(
    name: SourceName,
    dir: Option<Seq<char>>,
    env: EnvironmentConfigSource,
    files: Map<Seq<char>, Seq<char>>,
    e: FileError,
) -> bool {
    match name {
        SourceName::Environment => false,
        SourceName::DotEnvironmentFile => {
            let path = spec_dot_env_path(dir, env);
            match e {
                FileError::IoError(p) => p@ == path && !files.contains_key(path),
                FileError::DotEnvLineParseErrors(le) => files.contains_key(path) && spec_parse(
                    files[path],
                ) == Err::<Map<Seq<char>, Seq<char>>, Seq<(nat, LineParseError)>>(le@),
                _ => false,
            }
        },
        SourceName::YamlFile => {
            let path = spec_yaml_path(dir, env);
            match e {
                FileError::IoError(p) => p@ == path && !files.contains_key(path),
                FileError::YamlScanError(m) => files.contains_key(path) && yaml_scan_of(
                    files[path],
                ) == Err::<int, Seq<char>>(m@),
                FileError::YamlUnsupportedMultiDoc => files.contains_key(path) && (yaml_scan_of(
                    files[path],
                ) matches Ok(n) && n > 1),
                _ => false,
            }
        },
    }
}

/// The source that resolving this lazy source yields on success.
pub open spec fn spec_lazy_matches(
    name: SourceName,
    dir: Option<Seq<char>>,
    env: EnvironmentConfigSource,
    files: Map<Seq<char>, Seq<char>>,
    src: Source,
) -> bool {
    match name {
        SourceName::Environment => src matches Source::Environment(e) && e.vars_map()
            == env.vars_map(),
        SourceName::DotEnvironmentFile => {
            let path = spec_dot_env_path(dir, env);
            src matches Source::DotEnvironment(d) && files.contains_key(path) && spec_parse(
                files[path],
            ) == Ok::<Map<Seq<char>, Seq<char>>, Seq<(nat, LineParseError)>>(d.values_map())
        },
        SourceName::YamlFile => {
            let path = spec_yaml_path(dir, env);
            src matches Source::Yaml(_) && files.contains_key(path) && (yaml_scan_of(files[path])
                matches Ok(n) && n <= 1)
        },
    }
}

/// The position of the first lazy source whose resolution fails.
pub open spec fn spec_first_failing(
    lazy: Seq<SourceName>,
    dir: Option<Seq<char>>,
    env: EnvironmentConfigSource,
    files: Map<Seq<char>, Seq<char>>,
) -> Option<int>
    decreases lazy.len(),
{
    if lazy.len() == 0 {
        None
    } else if spec_lazy_fails(lazy[0], dir, env, files) {
        Some(0)
    } else {
        match spec_first_failing(lazy.skip(1), dir, env, files) {
            Some(k) => Some(k + 1),
            None => None,
        }
    }
}

// --- The stable ordinal sort ---------------------------------------------

/// Where an insertion sort puts `x`: after every element whose ordinal is
/// not larger, so that equal ordinals keep their insertion order.
pub open spec fn spec_insert_sorted(sorted: Seq<Source>, x: Source) -> Seq<Source>
    decreases sorted.len(),
{
    if sorted.len() == 0 {
        seq![x]
    } else if sorted.last().spec_ordinal() <= x.spec_ordinal() {
        sorted.push(x)
    } else {
        spec_insert_sorted(sorted.drop_last(), x).push(sorted.last())
    }
}

/// The stable ascending-by-ordinal sort of a source list.
pub open spec fn spec_stable_sort(s: Seq<Source>) -> Seq<Source>
    decreases s.len(),
{
    if s.len() == 0 {
        Seq::empty()
    } else {
        spec_insert_sorted(spec_stable_sort(s.drop_last()), s.last())
    }
}

proof fn lemma_insert_sorted(sorted: Seq<Source>, x: Source)
    requires
        sorted_by_ordinal(sorted),
    ensures
        sorted_by_ordinal(spec_insert_sorted(sorted, x)),
        spec_insert_sorted(sorted, x).len() == sorted.len() + 1,
        forall|i: int|
            0 <= i < spec_insert_sorted(sorted, x).len() ==> (#[trigger] spec_insert_sorted(
                sorted,
                x,
            )[i] == x || sorted.contains(spec_insert_sorted(sorted, x)[i])),
    decreases sorted.len(),
{
    let out = spec_insert_sorted(sorted, x);
    if sorted.len() == 0 {
    } else if sorted.last().spec_ordinal() <= x.spec_ordinal() {
        assert(forall|i: int| 0 <= i < sorted.len() ==> sorted.contains(#[trigger] sorted[i]));
    } else {
        let prefix = sorted.drop_last();
        assert(sorted_by_ordinal(prefix));
        lemma_insert_sorted(prefix, x);
        let inner = spec_insert_sorted(prefix, x);
        assert(out == inner.push(sorted.last()));
        assert(forall|i: int| 0 <= i < prefix.len() ==> prefix[i] == sorted[i]);
        assert(forall|i: int|
            0 <= i < prefix.len() ==> (#[trigger] prefix[i]).spec_ordinal()
                <= sorted.last().spec_ordinal());
        assert(forall|i: int|
            0 <= i < inner.len() ==> (#[trigger] inner[i]).spec_ordinal()
                <= sorted.last().spec_ordinal());
        assert(sorted_by_ordinal(out)) by {
            assert(forall|i: int| 0 <= i < inner.len() ==> out[i] == #[trigger] inner[i]);
            assert(out[out.len() - 1] == sorted.last());
        }
        assert(forall|i: int|
            0 <= i < prefix.len() ==> sorted.contains(#[trigger] prefix[i]));
        assert(sorted.contains(sorted.last()));
    }
}

proof fn lemma_insert_sorted_at(s: Seq<Source>, x: Source, p: int)
    requires
        0 <= p <= s.len(),
        forall|i: int| 0 <= i < p ==> (#[trigger] s[i]).spec_ordinal() <= x.spec_ordinal(),
        forall|i: int| p <= i < s.len() ==> (#[trigger] s[i]).spec_ordinal() > x.spec_ordinal(),
    ensures
        spec_insert_sorted(s, x) == s.insert(p, x),
    decreases s.len(),
{
    if s.len() == 0 {
        assert(s.insert(0, x) =~= seq![x]);
    } else if s.last().spec_ordinal() <= x.spec_ordinal() {
        assert(p == s.len());
        assert(s.insert(p, x) =~= s.push(x));
    } else {
        assert(p < s.len());
        lemma_insert_sorted_at(s.drop_last(), x, p);
        assert(s.drop_last().insert(p, x).push(s.last()) =~= s.insert(p, x));
    }
}

/// Inserts `x` into the ordinal-sorted `out`, after every element whose
/// ordinal is not larger.
fn insert_sorted_vec(out: &mut Vec<Source>, x: Source)
    requires
        sorted_by_ordinal(old(out)@),
    ensures
        final(out)@ == spec_insert_sorted(old(out)@, x),
        sorted_by_ordinal(final(out)@),
{
    proof {
        lemma_insert_sorted(old(out)@, x);
    }
    let x_ord = x.get_ordinal();
    let mut p = out.len();
    while p > 0 && out[p - 1].get_ordinal() > x_ord
        invariant
            p <= out@.len(),
            out@ == old(out)@,
            x_ord as int == x.spec_ordinal(),
            forall|i: int|
                p <= i < out@.len() ==> (#[trigger] out@[i]).spec_ordinal() > x.spec_ordinal(),
        decreases p,
    {
        p = p - 1;
    }
    proof {
        if p > 0 {
            assert(out@[p - 1].spec_ordinal() <= x.spec_ordinal());
            assert(forall|i: int|
                0 <= i < p ==> (#[trigger] out@[i]).spec_ordinal() <= out@[p - 1].spec_ordinal());
        }
        lemma_insert_sorted_at(out@, x, p as int);
    }
    out.insert(p, x);
}

impl ConfigBuilder {
    /// What the builder will duplicate into the final source list.
    pub closed spec fn spec_customs(&self) -> Seq<Source> {
        self.instantiated_sources@
    }

    /// The lazy source descriptors, in the order added.
    pub closed spec fn spec_lazy(&self) -> Seq<SourceName> {
        self.lazy_sources@
    }

    /// The configured base directory, already normalized.
    pub closed spec fn spec_dir(&self) -> Option<Seq<char>> {
        match self.config_directory {
            Some(d) => Some(d@),
            None => None,
        }
    }

    pub fn new() -> (r: ConfigBuilder)
        ensures
            r.spec_customs() == Seq::<Source>::empty(),
            r.spec_lazy() == Seq::<SourceName>::empty(),
            r.spec_dir() is None,
    {
        ConfigBuilder {
            instantiated_sources: Vec::new(),
            lazy_sources: Vec::new(),
            config_directory: None,
        }
    }

    /// Sets the directory under which default file names are resolved;
    /// a missing trailing separator is added.
    pub fn set_config_directory(self, config_directory: &str) -> (r: ConfigBuilder)
        ensures
            r.spec_dir() == Some(spec_normalize_dir(config_directory@)),
            r.spec_customs() == self.spec_customs(),
            r.spec_lazy() == self.spec_lazy(),
    {
        let chars = str_to_chars(config_directory);
        let n = chars.len();
        let directory = if n > 0 && chars[n - 1] == '/' {
            String::from_str(config_directory)
        } else {
            String::from_str(config_directory).concat("/")
        };
        ConfigBuilder { config_directory: Some(directory), ..self }
    }

    /// Adds a lazy source, to be instantiated at build time.
    pub fn add_source(self, name: SourceName) -> (r: ConfigBuilder)
        ensures
            r.spec_lazy() == self.spec_lazy().push(name),
            r.spec_customs() == self.spec_customs(),
            r.spec_dir() == self.spec_dir(),
    {
        let mut lazy_sources = self.lazy_sources;
        lazy_sources.push(name);
        ConfigBuilder { lazy_sources, ..self }
    }

    /// Adds an already-instantiated source.
    pub fn add_custom_source(self, source: Source) -> (r: ConfigBuilder)
        ensures
            r.spec_customs() == self.spec_customs().push(source),
            r.spec_lazy() == self.spec_lazy(),
            r.spec_dir() == self.spec_dir(),
    {
        let mut instantiated_sources = self.instantiated_sources;
        instantiated_sources.push(source);
        ConfigBuilder { instantiated_sources, ..self }
    }

    /// Adds the default source set: the environment.
    pub fn add_default_sources(self) -> (r: ConfigBuilder)
        ensures
            r.spec_lazy() == self.spec_lazy().push(SourceName::Environment),
            r.spec_customs() == self.spec_customs(),
            r.spec_dir() == self.spec_dir(),
    {
        self.add_source(SourceName::Environment)
    }

    /// The dotenv file path that `build` will look up.
    pub fn resolved_dot_env_path(&self, env: &EnvironmentConfigSource) -> (r: String)
        ensures
            r@ == spec_dot_env_path(self.spec_dir(), *env),
    {
        match env.get_value("CONFIGLER_DOT_ENVIRONMENT_FILE") {
            Some(p) => p,
            None => match &self.config_directory {
                Some(d) => d.clone().concat(".env"),
                None => String::from_str(".env"),
            },
        }
    }

    /// The YAML file path that `build` will look up.
    pub fn resolved_yaml_path(&self, env: &EnvironmentConfigSource) -> (r: String)
        ensures
            r@ == spec_yaml_path(self.spec_dir(), *env),
    {
        match env.get_value("CONFIGLER_YAML_FILE") {
            Some(p) => p,
            None => match &self.config_directory {
                Some(d) => d.clone().concat("config.yaml"),
                None => String::from_str("config.yaml"),
            },
        }
    }
}

/// How a built `Config` relates to what went into the build: `all` are
/// the sources before sorting — first duplicates of the custom sources,
/// then the resolved lazy sources in order — and the snapshot holds their
/// stable sort.
pub open spec fn build_sources_witness(
    customs: Seq<Source>,
    lazy: Seq<SourceName>,
    dir: Option<Seq<char>>,
    env: EnvironmentConfigSource,
    files: Map<Seq<char>, Seq<char>>,
    config: Seq<Source>,
    all: Seq<Source>,
) -> bool {
    &&& all.len() == customs.len() + lazy.len()
    &&& forall|k: int| 0 <= k < customs.len() ==> src_equiv(#[trigger] all[k], customs[k])
    &&& forall|k: int|
        0 <= k < lazy.len() ==> spec_lazy_matches(
            #[trigger] lazy[k],
            dir,
            env,
            files,
            all[customs.len() + k],
        )
    &&& config == spec_stable_sort(all)
}

impl ConfigBuilder {
    /// Builds the snapshot: duplicates the custom sources, resolves each
    /// lazy source against the environment and file snapshots — the first
    /// failure aborts the whole build — and sorts the result ascending by
    /// ordinal, ties keeping their insertion order.
    pub fn build(&self, env: &EnvironmentConfigSource, files: &FileStore) -> (r: Result<
        Config,
        FileError,
    >)
        ensures
            match r {
                Ok(config) => {
                    &&& spec_first_failing(self.spec_lazy(), self.spec_dir(), *env, files@)
                        is None
                    &&& config.wf()
                    &&& exists|all: Seq<Source>|
                        build_sources_witness(
                            self.spec_customs(),
                            self.spec_lazy(),
                            self.spec_dir(),
                            *env,
                            files@,
                            config@,
                            all,
                        )
                },
                Err(e) => {
                    &&& spec_first_failing(self.spec_lazy(), self.spec_dir(), *env, files@)
                        matches Some(k) && spec_lazy_error_matches(
                        self.spec_lazy()[k],
                        self.spec_dir(),
                        *env,
                        files@,
                        e,
                    )
                },
            },
    {
        let ghost dir = self.spec_dir();
        let ghost lazy = self.spec_lazy();
        let mut all_sources: Vec<Source> = Vec::new();
        let nc = self.instantiated_sources.len();
        let mut i: usize = 0;
        while i < nc
            invariant
                i <= nc,
                nc == self.spec_customs().len(),
                self.spec_customs() == self.instantiated_sources@,
                all_sources@.len() == i,
                forall|k: int|
                    0 <= k < i ==> src_equiv(
                        #[trigger] all_sources@[k],
                        self.spec_customs()[k],
                    ),
            decreases nc - i,
        {
            all_sources.push(self.instantiated_sources[i].clone());
            i = i + 1;
        }
        let nl = self.lazy_sources.len();
        let mut j: usize = 0;
        proof {
            assert(lazy.skip(0) =~= lazy);
        }
        while j < nl
            invariant
                j <= nl,
                nl == lazy.len(),
                lazy == self.lazy_sources@,
                dir == self.spec_dir(),
                all_sources@.len() == nc + j,
                nc == self.spec_customs().len(),
                self.spec_customs() == self.instantiated_sources@,
                forall|k: int|
                    0 <= k < nc ==> src_equiv(
                        #[trigger] all_sources@[k],
                        self.spec_customs()[k],
                    ),
                forall|k: int|
                    0 <= k < j ==> spec_lazy_matches(
                        #[trigger] lazy[k],
                        dir,
                        *env,
                        files@,
                        all_sources@[nc + k],
                    ),
                match spec_first_failing(lazy.skip(j as int), dir, *env, files@) {
                    Some(k) => spec_first_failing(lazy, dir, *env, files@) == Some(
                        k + j as int,
                    ),
                    None => spec_first_failing(lazy, dir, *env, files@) is None,
                },
            decreases nl - j,
        {
            proof {
                assert(lazy.skip(j as int)[0] == lazy[j as int]);
                assert(lazy.skip(j as int).skip(1) =~= lazy.skip(j + 1));
            }
            let resolved: Source = match self.lazy_sources[j] {
                SourceName::Environment => Source::Environment(env.clone()),
                SourceName::DotEnvironmentFile => {
                    let file_path = self.resolved_dot_env_path(env);
                    match DotEnvironmentConfigSource::from_file(file_path.as_str(), files) {
                        Ok(source) => Source::DotEnvironment(source),
                        Err(error) => {
                            return Err(error);
                        },
                    }
                },
                SourceName::YamlFile => {
                    let file_path = self.resolved_yaml_path(env);
                    match YamlConfigSource::from_file(file_path.as_str(), files) {
                        Ok(source) => Source::Yaml(source),
                        Err(error) => {
                            return Err(error);
                        },
                    }
                },
            };
            all_sources.push(resolved);
            j = j + 1;
        }
        proof {
            assert(lazy.skip(nl as int) =~= Seq::<SourceName>::empty());
        }
        let ghost all = all_sources@;
        let mut sorted: Vec<Source> = Vec::new();
        let mut input = all_sources;
        let total = input.len();
        let mut k: usize = 0;
        proof {
            assert(all.skip(0) =~= all);
            assert(all.take(0) =~= Seq::<Source>::empty());
            assert(sorted_by_ordinal(sorted@));
        }
        while k < total
            invariant
                k <= total,
                total == all.len(),
                input@ == all.skip(k as int),
                sorted@ == spec_stable_sort(all.take(k as int)),
                sorted_by_ordinal(sorted@),
            decreases total - k,
        {
            let x = input.remove(0);
            proof {
                assert(all.skip(k as int)[0] == all[k as int]);
                assert(x == all[k as int]);
                assert(all.skip(k as int).skip(1) =~= all.skip(k + 1));
                assert(all.take(k + 1).drop_last() =~= all.take(k as int));
                assert(all.take(k + 1).last() == all[k as int]);
            }
            insert_sorted_vec(&mut sorted, x);
            k = k + 1;
        }
        proof {
            assert(all.take(all.len() as int) =~= all);
            let config_view = sorted@;
            assert(build_sources_witness(
                self.spec_customs(),
                lazy,
                dir,
                *env,
                files@,
                config_view,
                all,
            ));
        }
        Ok(Config { sources: sorted })
    }
}

impl Default for ConfigBuilder {
    /// The default builder is the empty one.
    fn default() -> (r: Self)
        ensures
            r.spec_customs() == Seq::<Source>::empty(),
            r.spec_lazy() == Seq::<SourceName>::empty(),
            r.spec_dir() is None,
    {
        ConfigBuilder::new()
    }
}

// =========================================================================
// The override law
// =========================================================================

/// The position of the first source that answers for the property, or
/// the length of the list if none does.
pub open spec fn first_hit(sources: Seq<Source>, property_name: Seq<char>) -> int
    decreases sources.len(),
{
    if sources.len() == 0 {
        0
    } else if sources[0].spec_value(property_name) is Some {
        0
    } else {
        1 + first_hit(sources.skip(1), property_name)
    }
}

proof fn lemma_first_hit(sources: Seq<Source>, property_name: Seq<char>)
    requires
        exists|i: int|
            0 <= i < sources.len() && (#[trigger] sources[i]).spec_value(property_name) is Some,
    ensures
        0 <= first_hit(sources, property_name) < sources.len(),
        sources[first_hit(sources, property_name)].spec_value(property_name) is Some,
        spec_lookup(sources, property_name) == sources[first_hit(
            sources,
            property_name,
        )].spec_value(property_name),
        forall|j: int|
            0 <= j < first_hit(sources, property_name) ==> (#[trigger] sources[j]).spec_value(
                property_name,
            ) is None,
    decreases sources.len(),
{
    if sources[0].spec_value(property_name) is Some {
    } else {
        let i = choose|i: int|
            0 <= i < sources.len() && (#[trigger] sources[i]).spec_value(property_name) is Some;
        assert(sources.skip(1)[i - 1] == sources[i]);
        lemma_first_hit(sources.skip(1), property_name);
        let w = first_hit(sources.skip(1), property_name);
        assert forall|j: int| 0 <= j < 1 + w implies (#[trigger] sources[j]).spec_value(
            property_name,
        ) is None by {
            if j > 0 {
                assert(sources[j] == sources.skip(1)[j - 1]);
                assert(sources.skip(1)[j - 1].spec_value(property_name) is None);
            }
        }
    }
}

/// The override law: whenever any source defines a property, the lookup
/// answers with the value of the first answering source in stored order,
/// and — the sources being sorted — no source of a lower ordinal defines
/// the property at all, however many later sources also define it.
pub proof fn lemma_lowest_ordinal_wins(c: Config, property_name: Seq<char>)
    requires
        c.wf(),
        exists|i: int|
            0 <= i < c@.len() && (#[trigger] c@[i]).spec_value(property_name) is Some,
    ensures
        ({
            let w = first_hit(c@, property_name);
            &&& 0 <= w < c@.len()
            &&& c@[w].spec_value(property_name) is Some
            &&& c.spec_value(property_name) == c@[w].spec_value(property_name)
            &&& forall|i: int|
                0 <= i < c@.len() && (#[trigger] c@[i]).spec_value(property_name) is Some
                    ==> c@[w].spec_ordinal() <= c@[i].spec_ordinal()
        }),
{
    lemma_first_hit(c@, property_name);
    let w = first_hit(c@, property_name);
    assert forall|i: int|
        0 <= i < c@.len() && (#[trigger] c@[i]).spec_value(property_name) is Some implies c@[
        w
    ].spec_ordinal() <= c@[i].spec_ordinal() by {
        if i < w {
            assert(c@[i].spec_value(property_name) is None);
        }
    }
}

// =========================================================================
// Property groups
// =========================================================================

/// A typed view over a `Config`: maps a bundle of related property names
/// into a structured value map. Implementations borrow the `Config` they
/// are built from and never outlive it.
pub trait ConfigPropertyGroup<'a>: Sized {
    fn get_value_map(&self) -> Result<
        std::collections::HashMap<String, Option<String>>,
        ConfigValueError,
    >;

    fn from_config(config: &'a Config) -> Self;
}

/// Why a typed property-group read failed.
#[derive(Debug, Clone, PartialEq)]
pub enum ConfigValueError {
    TypeError,
    NullError,
}

} // verus!
