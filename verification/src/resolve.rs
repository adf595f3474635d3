//! The path resolver: classifying a filesystem path candidate as missing,
//! a file, a directory with an index page, or a plain directory, and turning
//! a directory's entry names into the (href, label) pairs of its listing.
//!
//! The filesystem itself is consulted outside the library; this module works
//! on the plain values those probes return: whether the path exists, whether
//! it is a directory, and the names of a directory's immediate entries in
//! the order the filesystem handed them out (which is not sorted).

use vstd::prelude::*;
use crate::ascii::ascii_bytes;
use crate::ascii::ascii_to_vec;
use crate::ascii::append_bytes;
use crate::ascii::bytes_eq;

verus! {

/// A directory entry with this name serves as the directory's index page.
pub open spec fn is_index_name(name: Seq<u8>) -> bool {
    name == ascii_bytes("index.html"@) || name == ascii_bytes("index.htm"@)
}

/// Whether one entry name is an index-page name.
pub fn is_index_entry(name: &Vec<u8>) -> (r: bool)
    ensures
        r == is_index_name(name@),
{
    proof {
        reveal_strlit("index.html");
        reveal_strlit("index.htm");
        assert("index.html".is_ascii());
        assert("index.htm".is_ascii());
    }
    let html = ascii_to_vec("index.html");
    let htm = ascii_to_vec("index.htm");
    bytes_eq(name, &html) || bytes_eq(name, &htm)
}

/// Finds the first entry, in the given order, named `index.html` or
/// `index.htm`, and returns its position.
pub fn find_index_file(entries: &Vec<Vec<u8>>) -> (r: Option<usize>)
    ensures
        match r {
            Some(i) => i < entries@.len() && is_index_name(entries@[i as int]@) && forall|j: int|
                0 <= j < i ==> !is_index_name(entries@[j]@),
            None => forall|j: int| 0 <= j < entries@.len() ==> !is_index_name(entries@[j]@),
        },
{
    let mut i: usize = 0;
    while i < entries.len()
        invariant
            i <= entries@.len(),
            forall|j: int| 0 <= j < i ==> !is_index_name(entries@[j]@),
        decreases entries@.len() - i,
    {
        if is_index_entry(&entries[i]) {
            return Some(i);
        }
        i = i + 1;
    }
    None
}

/// The classification of a filesystem path candidate.
#[derive(PartialEq, Eq, Structural, Clone, Copy, Debug)]
pub enum TargetClass {
    /// No such path.
    Missing,
    /// A regular file (anything that exists and is not a directory).
    File,
    /// A directory whose entry at this position is its index page.
    DirectoryWithIndex { index: usize },
    /// A directory with no index page.
    Directory,
}

/// Classifies a path candidate from what the filesystem showed of it:
/// whether it exists, whether it is a directory, and (for a directory)
/// its immediate entry names in filesystem order.
pub fn classify(exists: bool, is_dir: bool, entries: &Vec<Vec<u8>>) -> (r: TargetClass)
    ensures
        !exists ==> r == TargetClass::Missing,
        exists && !is_dir ==> r == TargetClass::File,
        exists && is_dir ==> match r {
            TargetClass::DirectoryWithIndex { index } => index < entries@.len()
                && is_index_name(entries@[index as int]@) && forall|j: int|
                0 <= j < index ==> !is_index_name(entries@[j]@),
            TargetClass::Directory => forall|j: int|
                0 <= j < entries@.len() ==> !is_index_name(entries@[j]@),
            _ => false,
        },
{
    if !exists {
        TargetClass::Missing
    } else if !is_dir {
        TargetClass::File
    } else {
        match find_index_file(entries) {
            Some(index) => TargetClass::DirectoryWithIndex { index },
            None => TargetClass::Directory,
        }
    }
}

/// A `..` path segment begins at position `i` of `p`: two dots bounded by
/// `/` separators (or by an end of the path) on both sides.
pub open spec fn is_parent_segment_at(p: Seq<u8>, i: int) -> bool {
    &&& 0 <= i
    &&& i + 2 <= p.len()
    &&& p[i] == 46
    &&& p[i + 1] == 46
    &&& (i == 0 || p[i - 1] == 47)
    &&& (i + 2 == p.len() || p[i + 2] == 47)
}

/// A path candidate with a `..` segment resolves above the directory that
/// precedes it, so it may escape the server root.
pub open spec fn escapes_root(p: Seq<u8>) -> bool {
    exists|i: int| is_parent_segment_at(p, i)
}

/// Whether the path candidate holds a `..` segment. Such a candidate must
/// be refused before the filesystem is probed: resolution must never
/// escape the server root. A name that merely contains dots (`..x`,
/// `a..b`) is not a `..` segment and passes.
pub fn path_escapes_root(p: &Vec<u8>) -> (r: bool)
    ensures
        r == escapes_root(p@),
{
    let mut i: usize = 0;
    while i < p.len()
        invariant
            i <= p@.len(),
            forall|j: int| 0 <= j < i ==> !is_parent_segment_at(p@, j),
        decreases p@.len() - i,
    {
        if p.len() - i >= 2 && p[i] == 46 && p[i + 1] == 46 && (i == 0 || p[i - 1] == 47) && (
        p.len() - i == 2 || p[i + 2] == 47) {
            assert(is_parent_segment_at(p@, i as int));
            return true;
        }
        i = i + 1;
    }
    proof {
        assert forall|j: int| !is_parent_segment_at(p@, j) by {
            if 0 <= j < p@.len() {
                assert(!is_parent_segment_at(p@, j));
            }
        }
    }
    false
}

/// A path candidate that names the server root or something beneath it:
/// the root marker `.` alone, or `.` followed by a `/`-led target.
pub open spec fn root_relative(p: Seq<u8>) -> bool {
    p.len() >= 1 && p[0] == 46 && (p.len() == 1 || p[1] == 47)
}

/// A directory path joined with one of its entry names, with a `/` between
/// them unless the path already ends in one.
pub open spec fn joined(dir: Seq<u8>, name: Seq<u8>) -> Seq<u8> {
    if dir.len() > 0 && dir[dir.len() - 1] == 47 {
        dir + name
    } else {
        dir + ascii_bytes("/"@) + name
    }
}

/// The link target for one entry of a directory listing: the entry's full
/// path with the leading root marker stripped, so it is relative to root.
pub open spec fn href_of(dir: Seq<u8>, name: Seq<u8>) -> Seq<u8> {
    joined(dir, name).skip(2)
}

/// The (href, label) pair for one directory entry.
fn entry_link(dir_path: &Vec<u8>, name: &Vec<u8>) -> (r: (Vec<u8>, Vec<u8>))
    requires
        root_relative(dir_path@),
    ensures
        r.0@ == href_of(dir_path@, name@),
        r.1@ == name@,
{
    proof {
        reveal_strlit("/");
        assert(ascii_bytes("/"@) =~= seq![47u8]);
    }
    let mut full: Vec<u8> = Vec::new();
    append_bytes(&mut full, dir_path);
    if dir_path[dir_path.len() - 1] != 47 {
        full.push(47);
        assert(full@ =~= dir_path@ + ascii_bytes("/"@));
    }
    append_bytes(&mut full, name);
    assert(full@ == joined(dir_path@, name@));
    let mut href: Vec<u8> = Vec::new();
    let mut i: usize = 2;
    while i < full.len()
        invariant
            2 <= i <= full@.len() || (full@.len() < 2 && i == 2),
            href@ == full@.skip(2).take(i - 2),
        decreases full@.len() - i,
    {
        proof {
            assert(full@.skip(2).take(i - 2 + 1) =~= full@.skip(2).take(i - 2).push(
                full@[i as int],
            ));
        }
        href.push(full[i]);
        i = i + 1;
    }
    proof {
        assert(joined(dir_path@, name@).len() >= 2);
        assert(href@ =~= full@.skip(2));
    }
    let label = name.clone();
    assert(label@ == name@);
    (href, label)
}

/// The (href, label) pairs of a directory's listing, one per entry name,
/// in the given order.
pub fn listing_entries(dir_path: &Vec<u8>, names: &Vec<Vec<u8>>) -> (r: Vec<(Vec<u8>, Vec<u8>)>)
    requires
        root_relative(dir_path@),
    ensures
        r@.len() == names@.len(),
        forall|i: int|
            0 <= i < names@.len() ==> #[trigger] r@[i].0@ == href_of(dir_path@, names@[i]@)
                && r@[i].1@ == names@[i]@,
{
    let mut r: Vec<(Vec<u8>, Vec<u8>)> = Vec::new();
    let mut i: usize = 0;
    while i < names.len()
        invariant
            root_relative(dir_path@),
            i <= names@.len(),
            r@.len() == i,
            forall|j: int|
                0 <= j < i ==> #[trigger] r@[j].0@ == href_of(dir_path@, names@[j]@)
                    && r@[j].1@ == names@[j]@,
        decreases names@.len() - i,
    {
        let link = entry_link(dir_path, &names[i]);
        r.push(link);
        i = i + 1;
    }
    r
}

} // verus!
