//! Finding the nearest file of a name above a directory.

use crate::paths::{dirname, join, joined, normalize, parent_path, normal_path};
use crate::text::{chars_of, same};
use vstd::prelude::*;

verus! {

/// What was found, or not found, above one directory.
#[derive(Debug, PartialEq, Eq)]
pub struct Found {
    pub start: String,
    pub file: Option<String>,
}

/// Finds the nearest file of one name above a directory, and remembers what
/// it found.
#[derive(Debug, PartialEq, Eq)]
pub struct FileFinder {
    pub filename: String,
    pub cache: Vec<Found>,
}

/// The paths at which the file may be, the nearest first: in the directory,
/// in the directory that holds it, and so on up to the root. The walk also
/// ends at a directory that has no parent, or whose parent is not written
/// shorter than itself.
pub open spec fn candidates_from(folder: Seq<char>, filename: Seq<char>) -> Seq<Seq<char>>
    decreases folder.len(),
{
    let here = seq![joined(folder, filename)];
    if folder == "/"@ {
        here
    } else {
        match parent_path(folder) {
            Some(parent) => if parent.len() < folder.len() {
                here + candidates_from(parent, filename)
            } else {
                here
            },
            None => here,
        }
    }
}

/// What is remembered for a directory: the answer that was recorded last
/// for it, if one was.
pub open spec fn remembered(cache: Seq<Found>, start: Seq<char>) -> Option<Option<String>>
    decreases cache.len(),
{
    if cache.len() == 0 {
        None
    } else if cache.last().start@ == start {
        Some(cache.last().file)
    } else {
        remembered(cache.drop_last(), start)
    }
}

/// The first of the paths that is a file, where `existing` says of each
/// path, by its position, whether it is one. A path without an answer counts
/// as no file.
pub open spec fn first_existing(paths: Seq<String>, existing: Seq<bool>) -> Option<String>
    decreases paths.len(),
{
    if paths.len() == 0 {
        None
    } else if existing.len() > 0 && existing[0] {
        Some(paths[0])
    } else {
        first_existing(
            paths.drop_first(),
            if existing.len() > 0 {
                existing.drop_first()
            } else {
                existing
            },
        )
    }
}

/// The texts of a list of strings.
pub open spec fn paths_view(paths: Seq<String>) -> Seq<Seq<char>> {
    paths.map_values(|p: String| p@)
}

impl FileFinder {
    /// A finder of files of this name, which remembers nothing yet.
    pub fn new(filename: &str) -> (out: Self)
        ensures
            out.filename@ == filename@,
            out.cache@.len() == 0,
    {
        FileFinder { filename: filename.to_owned(), cache: Vec::new() }
    }

    /// What is remembered for a directory.
    pub fn cached(&self, starting_directory: &str) -> (out: Option<Option<String>>)
        ensures
            out == remembered(self.cache@, starting_directory@),
    {
        let mut n: usize = self.cache.len();
        assert(self.cache@.take(n as int) =~= self.cache@);
        while n > 0
            invariant
                n <= self.cache.len(),
                remembered(self.cache@, starting_directory@) == remembered(
                    self.cache@.take(n as int),
                    starting_directory@,
                ),
            decreases n,
        {
            assert(self.cache@.take(n as int).last() == self.cache@[n - 1]);
            if same(self.cache[n - 1].start.as_str(), starting_directory) {
                return Some(self.cache[n - 1].file.clone());
            }
            assert(self.cache@.take(n as int).drop_last() =~= self.cache@.take(n - 1));
            n -= 1;
        }
        None
    }

    /// The paths at which the file may be, seen from the normal form of a
    /// directory, the nearest first.
    pub fn candidates(&self, starting_directory: &str) -> (out: Vec<String>)
        ensures
            paths_view(out@) == candidates_from(
                normal_path(starting_directory@),
                self.filename@,
            ),
    {
        let mut out: Vec<String> = Vec::new();
        let mut folder = normalize(starting_directory);
        assert(paths_view(out@) =~= Seq::empty());
        loop
            invariant_except_break
                paths_view(out@) + candidates_from(folder@, self.filename@) == candidates_from(
                    normal_path(starting_directory@),
                    self.filename@,
                ),
            ensures
                paths_view(out@) == candidates_from(
                    normal_path(starting_directory@),
                    self.filename@,
                ),
            decreases folder@.len(),
        {
            let here = join(folder.as_str(), self.filename.as_str());
            let ghost before_push = paths_view(out@);
            proof {
                assert(paths_view(out@.push(here)) =~= paths_view(out@).push(here@));
                assert(paths_view(out@).push(here@) =~= paths_view(out@) + seq![here@]);
            }
            out.push(here);
            if same(folder.as_str(), "/") {
                break ;
            }
            let next = match dirname(folder.as_str()) {
                Some(parent) => {
                    if chars_of(parent.as_str()).len() < chars_of(folder.as_str()).len() {
                        parent
                    } else {
                        break ;
                    }
                },
                None => {
                    break ;
                },
            };
            proof {
                let rest = candidates_from(next@, self.filename@);
                assert(paths_view(out@) + rest =~= before_push + (seq![here@] + rest));
            }
            folder = next;
        }
        out
    }

    /// Remembers what was found above a directory.
    pub fn remember(&mut self, starting_directory: &str, file: Option<String>)
        ensures
            final(self).filename == old(self).filename,
            final(self).cache@ == old(self).cache@.push(
                Found { start: final(self).cache@.last().start, file },
            ),
            final(self).cache@.last().start@ == starting_directory@,
            remembered(final(self).cache@, starting_directory@) == Some(file),
    {
        let entry = Found { start: starting_directory.to_owned(), file };
        proof {
            assert(self.cache@.push(entry).drop_last() =~= self.cache@);
        }
        self.cache.push(entry);
    }

    /// The nearest file above a directory: what is remembered for the
    /// directory where something is; else the first of the paths that is a
    /// file, which is then remembered. `paths` are the candidates of the
    /// directory, and `existing` says of each, by its position, whether it is
    /// a file.
    pub fn find_file(
        &mut self,
        starting_directory: &str,
        paths: &Vec<String>,
        existing: &Vec<bool>,
    ) -> (out: Option<String>)
        ensures
            final(self).filename == old(self).filename,
            match remembered(old(self).cache@, starting_directory@) {
                Some(file) => out == file && final(self).cache == old(self).cache,
                None => out == first_existing(paths@, existing@) && remembered(
                    final(self).cache@,
                    starting_directory@,
                ) == Some(out),
            },
    {
        match self.cached(starting_directory) {
            Some(file) => {
                return file;
            },
            None => {},
        }
        let mut found: Option<String> = None;
        let mut i: usize = 0;
        assert(paths@.skip(0) =~= paths@);
        assert(existing@.skip(0) =~= existing@);
        while i < paths.len()
            invariant_except_break
                i <= paths.len(),
                found is None,
                first_existing(paths@, existing@) == first_existing(
                    paths@.skip(i as int),
                    if i <= existing@.len() {
                        existing@.skip(i as int)
                    } else {
                        Seq::empty()
                    },
                ),
            ensures
                found == first_existing(paths@, existing@),
            decreases paths.len() - i,
        {
            assert(paths@.skip(i as int)[0] == paths@[i as int]);
            if i < existing.len() && existing[i] {
                assert(existing@.skip(i as int)[0] == existing@[i as int]);
                found = Some(paths[i].clone());
                break ;
            }
            proof {
                assert(paths@.skip(i as int).drop_first() =~= paths@.skip(i + 1));
                if i < existing@.len() {
                    assert(existing@.skip(i as int)[0] == existing@[i as int]);
                    assert(existing@.skip(i as int).drop_first() =~= existing@.skip(i + 1));
                } else if i == existing@.len() {
                    assert(existing@.skip(i as int) =~= Seq::empty());
                }
            }
            i += 1;
        }
        let answer = found.clone();
        self.remember(starting_directory, found);
        answer
    }
}

} // verus!
