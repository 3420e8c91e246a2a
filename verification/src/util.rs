//! Where a command may be found on a search path.

use vstd::prelude::*;
use crate::text::join3;
use crate::text::split;
use crate::text::split_on;
use crate::text::texts;

verus! {

/// The name of the tool that dumps a Postgres database.
pub const PG_DUMP: &'static str = "pg_dump";

/// The name of the tool that dumps a MySQL database.
pub const MYSQLDUMP: &'static str = "mysqldump";

/// The files that stand for a command on a search path: the command's
/// name below each directory of the path, in the path's order.
pub open spec fn candidates_of(path: Seq<char>, name: Seq<char>) -> Seq<Seq<char>> {
    Seq::new(split_on(path, ':').len(), |i: int| split_on(path, ':')[i] + "/"@ + name)
}

/// Lists the files to look for to learn whether a command exists: the
/// command is there where one of them is.
pub fn command_candidates(path: &str, name: &str) -> (files: Vec<String>)
    ensures
        texts(files@) == candidates_of(path@, name@),
{
    let dirs: Vec<String> = split(path, ':');
    let mut files: Vec<String> = Vec::new();
    let mut i: usize = 0;
    while i < dirs.len()
        invariant
            i <= dirs@.len(),
            texts(dirs@) == split_on(path@, ':'),
            files@.len() == i,
            forall|j: int| 0 <= j < i ==> (#[trigger] files@[j])@ == texts(dirs@)[j] + "/"@ + name@,
        decreases dirs@.len() - i,
    {
        files.push(join3(dirs[i].as_str(), "/", name));
        i += 1;
    }
    assert(texts(files@) =~= candidates_of(path@, name@));
    files
}

} // verus!
