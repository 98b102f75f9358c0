//! An in-memory picture of the parts of `/sys`, `/dev` and `/proc` that the
//! resolver reads. The daemon and the CLI collect the picture from the
//! running kernel; fixtures build it directly. Every lookup is a pure
//! first-match search, so the resolver on top is a total function of the
//! picture.

use vstd::prelude::*;

use crate::error::PeripetyError;
use crate::strutil::str_eq;

verus! {

/// A snapshot of the host's device tree.
///
/// - `files`: attribute path to its text, with the trailing newline already
///   stripped, as `read` hands it out.
/// - `dirs`: directory path to its entry names, in directory order.
/// - `links`: symlink path to the raw link target.
/// - `canon`: every existing path to its canonical absolute path; a path
///   exists exactly when it has an entry here.
pub struct Sysfs {
    pub files: Vec<(String, String)>,
    pub dirs: Vec<(String, Vec<String>)>,
    pub links: Vec<(String, String)>,
    pub canon: Vec<(String, String)>,
}

/// First-match lookup in an association list of strings.
pub open spec fn assoc(m: Seq<(String, String)>, k: Seq<char>) -> Option<Seq<char>>
    decreases m.len(),
{
    if m.len() == 0 {
        None
    } else if m[0].0@ == k {
        Some(m[0].1@)
    } else {
        assoc(m.skip(1), k)
    }
}

/// First-match lookup in an association list of name lists.
pub open spec fn assoc_dir(m: Seq<(String, Vec<String>)>, k: Seq<char>) -> Option<
    Seq<Seq<char>>,
>
    decreases m.len(),
{
    if m.len() == 0 {
        None
    } else if m[0].0@ == k {
        Some(m[0].1@.map_values(|e: String| e@))
    } else {
        assoc_dir(m.skip(1), k)
    }
}

impl Sysfs {
    /// The text of the attribute file at `p`, if the snapshot has it.
    pub open spec fn file_at(&self, p: Seq<char>) -> Option<Seq<char>> {
        assoc(self.files@, p)
    }

    /// The entry names of the directory at `p`, if the snapshot has it.
    pub open spec fn dir_at(&self, p: Seq<char>) -> Option<Seq<Seq<char>>> {
        assoc_dir(self.dirs@, p)
    }

    /// The raw target of the symlink at `p`, if the snapshot has it.
    pub open spec fn link_at(&self, p: Seq<char>) -> Option<Seq<char>> {
        assoc(self.links@, p)
    }

    /// The canonical path of `p`, if `p` exists in the snapshot.
    pub open spec fn canon_at(&self, p: Seq<char>) -> Option<Seq<char>> {
        assoc(self.canon@, p)
    }

    pub open spec fn spec_exists(&self, p: Seq<char>) -> bool {
        self.canon_at(p) is Some
    }

    pub fn new() -> (r: Sysfs)
        ensures
            r.files@ =~= Seq::<(String, String)>::empty(),
            r.dirs@ =~= Seq::<(String, Vec<String>)>::empty(),
            r.links@ =~= Seq::<(String, String)>::empty(),
            r.canon@ =~= Seq::<(String, String)>::empty(),
    {
        Sysfs { files: Vec::new(), dirs: Vec::new(), links: Vec::new(), canon: Vec::new() }
    }

    /// Read an attribute file, as `InternalBug` when it is absent.
    pub fn read(&self, path: &str) -> (r: Result<String, PeripetyError>)
        ensures
            match r {
                Ok(c) => self.file_at(path@) == Some(c@),
                Err(e) => self.file_at(path@) is None && e is InternalBug,
            },
    {
        match lookup(&self.files, path) {
            Some(c) => Ok(c.clone()),
            None => Err(
                PeripetyError::InternalBug(
                    crate::strutil::concat2("Sysfs::read(): Failed to read file ", path),
                ),
            ),
        }
    }

    /// List a directory, as `InternalBug` when it is absent.
    pub fn read_dir<'a>(&'a self, path: &str) -> (r: Result<
        &'a Vec<String>,
        PeripetyError,
    >)
        ensures
            match r {
                Ok(es) => self.dir_at(path@) == Some(
                    es@.map_values(|e: String| e@),
                ),
                Err(e) => self.dir_at(path@) is None && e is InternalBug,
            },
    {
        match lookup_dir(&self.dirs, path) {
            Some(es) => Ok(es),
            None => Err(
                PeripetyError::InternalBug(
                    crate::strutil::concat2("Failed to read dir ", path),
                ),
            ),
        }
    }

    /// The raw target of a symlink, as `InternalBug` when it is absent.
    pub fn read_link(&self, path: &str) -> (r: Result<String, PeripetyError>)
        ensures
            match r {
                Ok(t) => self.link_at(path@) == Some(t@),
                Err(e) => self.link_at(path@) is None && e is InternalBug,
            },
    {
        match lookup(&self.links, path) {
            Some(t) => Ok(t.clone()),
            None => Err(
                PeripetyError::InternalBug(
                    crate::strutil::concat2("Failed to read link ", path),
                ),
            ),
        }
    }

    /// The canonical absolute path of `path`, if it exists.
    pub fn canonicalize(&self, path: &str) -> (r: Option<String>)
        ensures
            match r {
                Some(c) => self.canon_at(path@) == Some(c@),
                None => self.canon_at(path@) is None,
            },
    {
        match lookup(&self.canon, path) {
            Some(c) => Some(c.clone()),
            None => None,
        }
    }

    /// Whether `path` exists in the snapshot.
    pub fn path_exists(&self, path: &str) -> (r: bool)
        ensures
            r == self.spec_exists(path@),
    {
        lookup(&self.canon, path).is_some()
    }

    /// Grow the snapshot; builders in tests and around the daemon use these.
    pub fn add_file(&mut self, path: String, content: String)
        ensures
            final(self).files@ == old(self).files@.push((path, content)),
            final(self).dirs@ == old(self).dirs@,
            final(self).links@ == old(self).links@,
            final(self).canon@ == old(self).canon@,
    {
        self.files.push((path, content));
    }

    pub fn add_dir(&mut self, path: String, entries: Vec<String>)
        ensures
            final(self).dirs@ == old(self).dirs@.push((path, entries)),
            final(self).files@ == old(self).files@,
            final(self).links@ == old(self).links@,
            final(self).canon@ == old(self).canon@,
    {
        self.dirs.push((path, entries));
    }

    pub fn add_link(&mut self, path: String, target: String)
        ensures
            final(self).links@ == old(self).links@.push((path, target)),
            final(self).files@ == old(self).files@,
            final(self).dirs@ == old(self).dirs@,
            final(self).canon@ == old(self).canon@,
    {
        self.links.push((path, target));
    }

    pub fn add_canon(&mut self, path: String, target: String)
        ensures
            final(self).canon@ == old(self).canon@.push((path, target)),
            final(self).files@ == old(self).files@,
            final(self).dirs@ == old(self).dirs@,
            final(self).links@ == old(self).links@,
    {
        self.canon.push((path, target));
    }
}

fn lookup<'a>(m: &'a Vec<(String, String)>, k: &str) -> (r: Option<&'a String>)
    ensures
        match r {
            Some(v) => assoc(m@, k@) == Some(v@),
            None => assoc(m@, k@) is None,
        },
{
    let n: usize = m.len();
    let mut i: usize = 0;
    proof {
        assert(m@.skip(0) =~= m@);
    }
    while i < n
        invariant
            0 <= i <= n,
            n == m@.len(),
            assoc(m@, k@) == assoc(m@.skip(i as int), k@),
        decreases n - i,
    {
        proof {
            assert(m@.skip(i as int)[0] == m@[i as int]);
            assert(m@.skip(i as int).skip(1) =~= m@.skip(i as int + 1));
        }
        if str_eq(m[i].0.as_str(), k) {
            return Some(&m[i].1);
        }
        i += 1;
    }
    proof {
        assert(m@.skip(n as int) =~= Seq::<(String, String)>::empty());
    }
    None
}

fn lookup_dir<'a>(m: &'a Vec<(String, Vec<String>)>, k: &str) -> (r: Option<
    &'a Vec<String>,
>)
    ensures
        match r {
            Some(v) => assoc_dir(m@, k@) == Some(v@.map_values(|e: String| e@)),
            None => assoc_dir(m@, k@) is None,
        },
{
    let n: usize = m.len();
    let mut i: usize = 0;
    proof {
        assert(m@.skip(0) =~= m@);
    }
    while i < n
        invariant
            0 <= i <= n,
            n == m@.len(),
            assoc_dir(m@, k@) == assoc_dir(m@.skip(i as int), k@),
        decreases n - i,
    {
        proof {
            assert(m@.skip(i as int)[0] == m@[i as int]);
            assert(m@.skip(i as int).skip(1) =~= m@.skip(i as int + 1));
        }
        if str_eq(m[i].0.as_str(), k) {
            return Some(&m[i].1);
        }
        i += 1;
    }
    proof {
        assert(m@.skip(n as int) =~= Seq::<(String, Vec<String>)>::empty());
    }
    None
}

} // verus!
