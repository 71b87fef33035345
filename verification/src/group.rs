use vstd::prelude::*;
use std::path::PathBuf;

verus! {

/// A filesystem path, carried through as an opaque value.
#[verifier::external_type_specification]
#[verifier::external_body]
pub struct ExPathBuf(std::path::PathBuf);

/// Paths whose files were found to have the same content, in the order in
/// which they were added. The set itself checks nothing: whoever adds a path
/// has compared its file with one already in the set.
#[derive(Debug, Clone)]
pub struct FileSet {
    pub paths: Vec<PathBuf>,
}

impl View for FileSet {
    type V = Seq<PathBuf>;

    open spec fn view(&self) -> Seq<PathBuf> {
        self.paths@
    }
}

impl FileSet {
    /// A set that holds one path.
    pub fn new(path: PathBuf) -> (set: FileSet)
        ensures
            set@ == seq![path],
    {
        let mut paths: Vec<PathBuf> = Vec::new();
        paths.push(path);
        FileSet { paths }
    }

    /// Adds a path at the end.
    pub fn push(&mut self, path: PathBuf)
        ensures
            final(self)@ == old(self)@.push(path),
    {
        self.paths.push(path);
    }
}

} // verus!
