use std::path::PathBuf;
use vstd::prelude::*;

verus! {

/// Relies on std's `PathBuf` only as an opaque value: the directory is carried
/// through unchanged and never inspected.
#[verifier::external_type_specification]
#[verifier::external_body]
pub struct ExPathBuf(PathBuf);

/// A named file and its text.
#[derive(Debug)]
pub struct File {
    name: String,
    content: String,
}

impl File {
    pub closed spec fn spec_name(&self) -> Seq<char> {
        self.name@
    }

    pub closed spec fn spec_content(&self) -> Seq<char> {
        self.content@
    }

    /// The file name, relative to the collection's directory.
    pub fn name(&self) -> (r: &String)
        ensures
            r@ == self.spec_name(),
    {
        &self.name
    }

    /// The text to be written, unchanged from what was added.
    pub fn content(&self) -> (r: &String)
        ensures
            r@ == self.spec_content(),
    {
        &self.content
    }
}

/// Files to be written into one directory, in the order in which they were added.
#[derive(Debug)]
pub struct Files {
    path: PathBuf,
    files: Vec<File>,
}

impl Files {
    /// The directory the files go to.
    pub closed spec fn spec_path(&self) -> PathBuf {
        self.path
    }

    /// The (name, content) pairs, in order of addition.
    pub closed spec fn view_entries(&self) -> Seq<(Seq<char>, Seq<char>)> {
        self.files@.map_values(|f: File| (f.spec_name(), f.spec_content()))
    }

    /// Creates an empty collection of files for the directory `path`.
    pub fn new(path: PathBuf) -> (r: Self)
        ensures
            r.spec_path() == path,
            r.view_entries() == Seq::<(Seq<char>, Seq<char>)>::empty(),
    {
        let r = Files { path, files: Vec::new() };
        assert(r.view_entries() =~= Seq::<(Seq<char>, Seq<char>)>::empty());
        r
    }

    /// Adds a file, after those already there; the content is kept as given.
    pub fn add_file(&mut self, name: String, content: String)
        ensures
            final(self).spec_path() == old(self).spec_path(),
            final(self).view_entries() == old(self).view_entries().push((name@, content@)),
    {
        self.files.push(File { name, content });
        assert(self.view_entries() =~= old(self).view_entries().push((name@, content@)));
    }

    /// The directory the files go to.
    pub fn path(&self) -> (r: &PathBuf)
        ensures
            *r == self.spec_path(),
    {
        &self.path
    }

    /// The files, in order of addition.
    pub fn files(&self) -> (r: &Vec<File>)
        ensures
            r@.map_values(|f: File| (f.spec_name(), f.spec_content())) == self.view_entries(),
    {
        &self.files
    }
}

} // verus!
