use vstd::prelude::*;

use crate::table::StringMap;

verus! {

// --- A snapshot of file contents -----------------------------------------
//
// The library never touches the disk itself. Callers that load sources
// from files first read whatever files are of interest — the paths that
// `ConfigBuilder` resolves — and hand the contents over as a `FileStore`:
// a map from path to file text. A path that could not be read is simply
// left out and surfaces as an I/O error when a source asks for it.

pub struct FileStore {
    files: StringMap,
}

impl View for FileStore {
    type V = Map<Seq<char>, Seq<char>>;

    closed spec fn view(&self) -> Map<Seq<char>, Seq<char>> {
        self.files@
    }
}

impl FileStore {
    /// A store with no files at all.
    pub fn new() -> (r: FileStore)
        ensures
            r@ == Map::<Seq<char>, Seq<char>>::empty(),
    {
        FileStore { files: StringMap::new() }
    }

    /// Records `content` as the text of the file at `path`.
    pub fn add(self, path: String, content: String) -> (r: FileStore)
        ensures
            r@ == self@.insert(path@, content@),
    {
        FileStore { files: self.files.insert(path, content) }
    }

    /// The text of the file at `path`, if the store holds it.
    pub fn read(&self, path: &String) -> (r: Option<String>)
        ensures
            match r {
                Some(content) => self@.contains_key(path@) && content@ == self@[path@],
                None => !self@.contains_key(path@),
            },
    {
        self.files.get(path)
    }
}

impl Clone for FileStore {
    /// A clone holds the same files.
    fn clone(&self) -> (r: Self)
        ensures
            r@ == self@,
    {
        FileStore { files: self.files.clone() }
    }
}

} // verus!
