use vstd::prelude::*;

use std::sync::Arc;

use crate::files::FileStore;
use crate::sources::config_source::{ConfigSource, FileError};
use crate::text::{chars_to_string, first_index_of, str_to_chars, subvec};

verus! {

// =========================================================================
// The document model
//
// The library reads two things from a YAML tree: mappings, to follow the
// segments of a dotted property name, and string scalars, the only values
// a lookup can return. `YamlNode` holds exactly that; every other node —
// numbers, booleans, arrays, null — is `Other`, which no lookup can
// enter or return. The external YAML parser produces the tree; all logic
// over it is verified.
// =========================================================================

/// A YAML document, reduced to what property lookups can observe.
#[derive(Debug)]
pub enum YamlNode {
    /// A string scalar.
    Str(String),
    /// A mapping, as key/value entries in document order. A key that is
    /// not a string scalar is kept as its reduced node; lookups, which
    /// key by strings, never match it.
    Mapping(Vec<(YamlNode, YamlNode)>),
    /// Any other node: a number, boolean, array, null or alias.
    Other,
}

/// The first entry of a mapping whose key is the string `key`.
pub open spec fn map_find(entries: Seq<(YamlNode, YamlNode)>, key: Seq<char>) -> Option<YamlNode>
    decreases entries.len(),
{
    if entries.len() == 0 {
        None
    } else {
        match entries[0].0 {
            YamlNode::Str(s) => if s@ == key {
                Some(entries[0].1)
            } else {
                map_find(entries.skip(1), key)
            },
            _ => map_find(entries.skip(1), key),
        }
    }
}

/// Walks the tree along `segments`: each segment must name an entry of a
/// mapping, and the terminal node must be a string scalar.
pub open spec fn spec_lookup_node(node: YamlNode, segments: Seq<Seq<char>>) -> Option<Seq<char>>
    decreases segments.len(),
{
    if segments.len() == 0 {
        match node {
            YamlNode::Str(s) => Some(s@),
            _ => None,
        }
    } else {
        match node {
            YamlNode::Mapping(entries) => match map_find(entries@, segments[0]) {
                Some(child) => spec_lookup_node(child, segments.skip(1)),
                None => None,
            },
            _ => None,
        }
    }
}

/// The segments of a dotted property name: `a.b` splits into `a` and `b`;
/// empty segments are kept as empty strings.
pub open spec fn spec_split_dots(s: Seq<char>) -> Seq<Seq<char>>
    decreases s.len(),
{
    let i = first_index_of(s, '.');
    if i >= s.len() {
        seq![s]
    } else {
        seq![s.take(i as int)] + spec_split_dots(s.skip(i + 1int))
    }
}

/// Splits a property name on dots.
fn split_dots(v: &Vec<char>) -> (r: Vec<String>)
    ensures
        r@.map_values(|x: String| x@) == spec_split_dots(v@),
{
    let mut out: Vec<String> = Vec::new();
    let mut pos: usize = 0;
    let n = v.len();
    proof {
        assert(v@.skip(0) =~= v@);
    }
    loop
        invariant_except_break
            pos <= n,
            n == v@.len(),
            spec_split_dots(v@) == out@.map_values(|x: String| x@) + spec_split_dots(
                v@.skip(pos as int),
            ),
        ensures
            out@.map_values(|x: String| x@) == spec_split_dots(v@),
        decreases n - pos,
    {
        let ghost rem = v@.skip(pos as int);
        let mut j = pos;
        proof {
            assert(rem.skip(0) =~= rem);
        }
        while j < n && v[j] != '.'
            invariant
                pos <= j <= n,
                n == v@.len(),
                rem == v@.skip(pos as int),
                first_index_of(rem, '.') == (j - pos) + first_index_of(v@.skip(j as int), '.'),
            decreases n - j,
        {
            proof {
                assert(v@.skip(j as int)[0] == v@[j as int]);
                assert(v@.skip(j as int).skip(1) =~= v@.skip(j + 1));
            }
            j = j + 1;
        }
        let seg = subvec(v, pos, j);
        let seg_str = chars_to_string(&seg);
        proof {
            assert(seg@ =~= rem.take((j - pos) as int));
        }
        out.push(seg_str);
        if j == n {
            proof {
                assert(v@.skip(j as int) =~= Seq::<char>::empty());
                assert(first_index_of(rem, '.') == (j - pos) as nat);
                assert(rem.take((j - pos) as int) =~= rem);
                assert(spec_split_dots(rem) == seq![rem]);
                assert(out@.map_values(|x: String| x@) =~= out@.drop_last().map_values(
                    |x: String| x@,
                ) + seq![rem]);
            }
            break ;
        }
        proof {
            assert(v@.skip(j as int)[0] == '.');
            assert(first_index_of(v@.skip(j as int), '.') == 0);
            assert(first_index_of(rem, '.') == (j - pos) as nat);
            assert(rem.skip((j - pos) + 1int) =~= v@.skip(j + 1));
            assert(spec_split_dots(rem) == seq![rem.take((j - pos) as int)] + spec_split_dots(
                v@.skip(j + 1),
            ));
            assert(out@.map_values(|x: String| x@) =~= out@.drop_last().map_values(
                |x: String| x@,
            ) + seq![rem.take((j - pos) as int)]);
        }
        pos = j + 1;
    }
    out
}

// =========================================================================
// The trusted boundary to the external YAML parser
// =========================================================================

#[verifier::external_type_specification]
#[verifier::external_body]
pub struct ExYaml(yaml_rust2::Yaml);

/// What scanning a YAML text yields: the number of documents, or the
/// scanner's error message. Scanning is a function of the text alone.
pub uninterp spec fn yaml_scan_of(s: Seq<char>) -> Result<int, Seq<char>>;

/// Relies on `yaml_rust2::YamlLoader::load_from_str`: the documents it
/// yields, and the error it reports, depend on the text alone.
#[verifier::external_body]
fn yaml_load(text: &str) -> (r: Result<Vec<yaml_rust2::Yaml>, String>)
    ensures
        match (r, yaml_scan_of(text@)) {
            (Ok(docs), Ok(n)) => docs@.len() == n,
            (Err(m), Err(e)) => m@ == e,
            _ => false,
        },
{
    match yaml_rust2::YamlLoader::load_from_str(text) {
        Ok(docs) => Ok(docs),
        Err(e) => Err(e.to_string()),
    }
}

/// Relies on the variants of `yaml_rust2::Yaml`: string scalars become
/// `Str`, mapping entries keep their order with both key and value
/// reduced, and every other variant becomes `Other`. Nothing is promised
/// of the result; all logic over the reduced tree is verified.
#[verifier::external_body]
fn yaml_to_model(doc: &yaml_rust2::Yaml) -> YamlNode {
    match doc {
        yaml_rust2::Yaml::String(s) => YamlNode::Str(s.clone()),
        yaml_rust2::Yaml::Hash(entries) => YamlNode::Mapping(
            entries.iter().map(|(k, v)| (yaml_to_model(k), yaml_to_model(v))).collect(),
        ),
        _ => YamlNode::Other,
    }
}

/// Relies on `std::sync::Arc::clone`: the clone refers to the same value.
#[verifier::external_body]
fn arc_clone<T>(v: &Arc<T>) -> (r: Arc<T>)
    ensures
        r == *v,
{
    Arc::clone(v)
}

// =========================================================================
// The source
// =========================================================================

/// The priority of YAML-file sources: the last of the built-in sources.
pub const YAML_ORDINAL: usize = 300;

/// A source backed by one parsed YAML document.
pub struct YamlConfigSource {
    yaml_doc: Arc<YamlNode>,
}

impl YamlConfigSource {
    /// The reduced document this source answers from.
    pub closed spec fn spec_doc(&self) -> YamlNode {
        *self.yaml_doc
    }

    /// Builds the source from the reduced documents of one YAML text.
    /// More than one document is rejected: distinct documents may repeat
    /// keys, which would make property resolution ambiguous. A text with
    /// no document at all yields a source with no values.
    pub fn from_documents(docs: Vec<YamlNode>) -> (r: Result<YamlConfigSource, FileError>)
        ensures
            match r {
                Ok(src) => docs@.len() <= 1 && src.spec_doc() == (if docs@.len() == 1 {
                    docs@[0]
                } else {
                    YamlNode::Other
                }),
                Err(e) => e == FileError::YamlUnsupportedMultiDoc && docs@.len() > 1,
            },
    {
        let mut docs = docs;
        if docs.len() > 1 {
            return Err(FileError::YamlUnsupportedMultiDoc);
        }
        match docs.pop() {
            Some(doc) => Ok(YamlConfigSource { yaml_doc: Arc::new(doc) }),
            None => Ok(YamlConfigSource { yaml_doc: Arc::new(YamlNode::Other) }),
        }
    }

    /// Parses a YAML text into a source. The scanner decides whether the
    /// text is well-formed and how many documents it holds; the multi-
    /// document rejection and everything after it are verified. What tree
    /// a well-formed text denotes is up to the external parser and is not
    /// specified here.
    pub fn from_str(yaml_str: &str) -> (r: Result<YamlConfigSource, FileError>)
        ensures
            match r {
                Ok(_) => yaml_scan_of(yaml_str@) matches Ok(n) && n <= 1,
                Err(FileError::YamlScanError(m)) => yaml_scan_of(yaml_str@) == Err::<int, _>(
                    m@,
                ),
                Err(FileError::YamlUnsupportedMultiDoc) => yaml_scan_of(yaml_str@) matches Ok(n)
                    && n > 1,
                Err(_) => false,
            },
    {
        match yaml_load(yaml_str) {
            Err(msg) => Err(FileError::YamlScanError(msg)),
            Ok(docs) => {
                let mut models: Vec<YamlNode> = Vec::new();
                let n = docs.len();
                let mut i: usize = 0;
                while i < n
                    invariant
                        i <= n,
                        n == docs@.len(),
                        models@.len() == i,
                    decreases n - i,
                {
                    models.push(yaml_to_model(&docs[i]));
                    i = i + 1;
                }
                YamlConfigSource::from_documents(models)
            },
        }
    }
}

impl ConfigSource for YamlConfigSource {
    open spec fn spec_ordinal(&self) -> int {
        YAML_ORDINAL as int
    }

    open spec fn spec_name(&self) -> Seq<char> {
        "YamlConfigSource"@
    }

    /// The string scalar at the path named by the dotted property name.
    open spec fn spec_value(&self, property_name: Seq<char>) -> Option<Seq<char>> {
        spec_lookup_node(self.spec_doc(), spec_split_dots(property_name))
    }

    fn get_ordinal(&self) -> (r: usize)
        ensures
            r as int == self.spec_ordinal(),
    {
        YAML_ORDINAL
    }

    fn get_value(&self, property_name: &str) -> (r: Option<String>)
        ensures
            match r {
                Some(v) => self.spec_value(property_name@) == Some(v@),
                None => self.spec_value(property_name@) is None,
            },
    {
        let chars = str_to_chars(property_name);
        let segments = split_dots(&chars);
        let ghost segs = segments@.map_values(|x: String| x@);
        let mut current: &YamlNode = &*self.yaml_doc;
        let count = segments.len();
        let mut i: usize = 0;
        proof {
            assert(segs.skip(0) =~= segs);
        }
        while i < count
            invariant
                i <= count,
                count == segments@.len(),
                count == segs.len(),
                segs == segments@.map_values(|x: String| x@),
                self.spec_value(property_name@) == spec_lookup_node(
                    *current,
                    segs.skip(i as int),
                ),
            decreases count - i,
        {
            let segment = &segments[i];
            proof {
                assert(segs.skip(i as int)[0] == segs[i as int]);
                assert(segs[i as int] == segment@);
                assert(segs.skip(i as int).skip(1) =~= segs.skip(i + 1));
            }
            match current {
                YamlNode::Mapping(entries) => {
                    let m = entries.len();
                    let mut j: usize = 0;
                    let mut found: Option<&YamlNode> = None;
                    proof {
                        assert(entries@.skip(0) =~= entries@);
                        assert(entries@.skip(m as int) =~= Seq::<(YamlNode, YamlNode)>::empty());
                    }
                    while j < m
                        invariant_except_break
                            j <= m,
                            m == entries@.len(),
                            found is None,
                            map_find(entries@, segment@) == map_find(
                                entries@.skip(j as int),
                                segment@,
                            ),
                            map_find(entries@.skip(m as int), segment@) is None,
                        ensures
                            match found {
                                Some(child) => map_find(entries@, segment@) == Some(*child),
                                None => map_find(entries@, segment@) is None,
                            },
                        decreases m - j,
                    {
                        proof {
                            assert(entries@.skip(j as int)[0] == entries@[j as int]);
                            assert(entries@.skip(j as int).skip(1) =~= entries@.skip(j + 1));
                        }
                        match &entries[j].0 {
                            YamlNode::Str(s) => {
                                if *s == *segment {
                                    found = Some(&entries[j].1);
                                    break ;
                                }
                            },
                            _ => {},
                        }
                        j = j + 1;
                    }
                    match found {
                        Some(child) => {
                            current = child;
                        },
                        None => {
                            proof {
                                assert(spec_lookup_node(
                                    YamlNode::Mapping(*entries),
                                    segs.skip(i as int),
                                ) is None);
                            }
                            return None;
                        },
                    }
                },
                _ => {
                    proof {
                        assert(spec_lookup_node(*current, segs.skip(i as int)) is None);
                    }
                    return None;
                },
            }
            i = i + 1;
        }
        proof {
            assert(segs.skip(count as int) =~= Seq::<Seq<char>>::empty());
        }
        match current {
            YamlNode::Str(s) => Some(s.clone()),
            _ => None,
        }
    }

    fn get_name(&self) -> (r: &str)
        ensures
            r@ == self.spec_name(),
    {
        "YamlConfigSource"
    }

    /// Parses the YAML file at `file_path` in the store. A missing file
    /// is an `IoError`; the other outcomes are those of parsing the text.
    fn from_file(file_path: &str, files: &FileStore) -> (r: Result<Self, FileError>)
        ensures
            match r {
                Ok(_) => files@.contains_key(file_path@) && (yaml_scan_of(
                    files@[file_path@],
                ) matches Ok(n) && n <= 1),
                Err(FileError::IoError(p)) => p@ == file_path@ && !files@.contains_key(
                    file_path@,
                ),
                Err(FileError::YamlScanError(m)) => files@.contains_key(file_path@)
                    && yaml_scan_of(files@[file_path@]) == Err::<int, _>(m@),
                Err(FileError::YamlUnsupportedMultiDoc) => files@.contains_key(file_path@) && (
                yaml_scan_of(files@[file_path@]) matches Ok(n) && n > 1),
                Err(_) => false,
            },
    {
        let path = String::from_str(file_path);
        match files.read(&path) {
            None => Err(FileError::IoError(path)),
            Some(content) => YamlConfigSource::from_str(content.as_str()),
        }
    }
}

impl Clone for YamlConfigSource {
    /// A clone answers every lookup from the same document.
    fn clone(&self) -> (r: Self)
        ensures
            r.spec_doc() == self.spec_doc(),
    {
        YamlConfigSource { yaml_doc: arc_clone(&self.yaml_doc) }
    }
}

} // verus!
