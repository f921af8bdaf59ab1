//! Which entries of a directory listing are files to work on.
//!
//! The listing itself is read elsewhere. The shallow rule takes the regular
//! files whose path ends in the recognized extension; the recursive rule takes
//! the regular files whose name has exactly that extension. Both keep the order
//! of the listing.

use vstd::prelude::*;
use crate::path::ends_in_dicom_extension;
use crate::path::file_name;
use crate::path::has_dicom_extension;
use crate::path::has_dicom_suffix;
use crate::path::lemma_extension_is_suffix;
use crate::path::lemma_suffix_is_in_name;
use crate::path::name_has_dicom_extension;
use crate::path::SEPARATOR;
use crate::text::texts;

verus! {

/// What a directory entry turned out to be.
#[derive(Clone, Copy, Debug, PartialEq, Eq, Structural)]
pub enum EntryKind {
    /// A regular file.
    File,
    /// A directory, or anything else that is no regular file.
    Other,
    /// An entry that could not be read.
    Unreadable,
}

/// One entry of a directory listing.
#[derive(Clone, Debug, PartialEq, Eq)]
pub struct Entry {
    pub path: String,
    pub kind: EntryKind,
}

/// Why the files of a directory cannot be listed.
#[derive(Clone, Copy, Debug, PartialEq, Eq, Structural)]
pub enum DiscoveryError {
    /// The source directory does not exist or is no directory.
    NotFound,
    /// The source directory, or an entry of it, cannot be read.
    PermissionDenied,
}

/// Whether a rule takes the entry: the recursive rule, or else the shallow one.
/// Both take regular files only.
pub open spec fn takes(e: Entry, recursive: bool) -> bool {
    e.kind == EntryKind::File && if recursive {
        has_dicom_extension(e.path@)
    } else {
        has_dicom_suffix(e.path@)
    }
}

/// The path of `e` where the rule takes it.
pub open spec fn pick(e: Entry, recursive: bool) -> Option<Seq<char>> {
    if takes(e, recursive) {
        Some(e.path@)
    } else {
        None
    }
}

/// The paths that a rule takes from a listing, in the order of the listing.
pub open spec fn candidates(entries: Seq<Entry>, recursive: bool) -> Seq<Seq<char>> {
    entries.filter_map(|e: Entry| pick(e, recursive))
}

/// Whether a listing holds an entry that could not be read.
pub open spec fn has_unreadable(entries: Seq<Entry>) -> bool {
    exists|i: int| 0 <= i < entries.len() && (#[trigger] entries[i]).kind == EntryKind::Unreadable
}

/// What discovery makes of a listing. A listing that failed fails the
/// discovery with the same error. The recursive rule passes over the entries
/// that could not be read; the shallow rule fails on one.
pub open spec fn discovered(
    listing: Result<Seq<Entry>, DiscoveryError>,
    recursive: bool,
) -> Result<Seq<Seq<char>>, DiscoveryError> {
    match listing {
        Err(e) => Err(e),
        Ok(entries) => if !recursive && has_unreadable(entries) {
            Err(DiscoveryError::PermissionDenied)
        } else {
            Ok(candidates(entries, recursive))
        },
    }
}

/// What a listing stands for.
pub open spec fn listing_view(listing: Result<Vec<Entry>, DiscoveryError>) -> Result<
    Seq<Entry>,
    DiscoveryError,
> {
    match listing {
        Ok(entries) => Ok(entries@),
        Err(e) => Err(e),
    }
}

/// What an outcome of discovery stands for.
pub open spec fn found_view(found: Result<Vec<String>, DiscoveryError>) -> Result<
    Seq<Seq<char>>,
    DiscoveryError,
> {
    match found {
        Ok(list_of_dicoms) => Ok(texts(list_of_dicoms@)),
        Err(e) => Err(e),
    }
}

/// Every path that discovery finds is the path of an entry of the listing that
/// the rule in use takes, and it has a name.
pub proof fn lemma_found_in_listing(entries: Seq<Entry>, recursive: bool, p: Seq<char>)
    requires
        discovered(Ok(entries), recursive) matches Ok(found) && found.contains(p),
    ensures
        exists|e: Entry| #[trigger] entries.contains(e) && e.path@ == p && takes(e, recursive),
        file_name(p).len() > 0,
{
    let f = |e: Entry| pick(e, recursive);
    entries.lemma_filter_map_contains(f, p);
    let e = choose|e: Entry| #[trigger] entries.contains(e) && f(e) == Some(p);
    assert(entries.contains(e) && e.path@ == p && takes(e, recursive));
    if recursive {
        lemma_extension_is_suffix(p);
    } else {
        lemma_suffix_is_in_name(p);
    }
}

/// What the recursive rule takes the shallow rule takes too, where the path
/// does not end in a separator.
pub proof fn lemma_recursive_rule_is_narrower(e: Entry)
    requires
        takes(e, true),
        e.path@.len() == 0 || e.path@.last() != SEPARATOR,
    ensures
        takes(e, false),
{
    lemma_extension_is_suffix(e.path@);
}

/// The files to work on among the entries of the source directory itself: the
/// regular files whose path ends in the recognized extension, in the order of
/// the listing. An entry that could not be read fails the whole listing.
pub fn get_list_of_dicoms(entries: &Vec<Entry>) -> (r: Result<Vec<String>, DiscoveryError>)
    ensures
        found_view(r) == discovered(Ok(entries@), false),
{
    let mut list_of_dicoms: Vec<String> = Vec::new();
    let n: usize = entries.len();
    let mut i: usize = 0;
    while i < n
        invariant
            n == entries.len(),
            i <= n,
            forall|j: int| 0 <= j < i ==> (#[trigger] entries@[j]).kind != EntryKind::Unreadable,
            texts(list_of_dicoms@) == candidates(entries@.take(i as int), false),
        decreases n - i,
    {
        let entry = &entries[i];
        proof {
            entries@.lemma_filter_map_take_succ(|e: Entry| pick(e, false), i as int);
        }
        match entry.kind {
            EntryKind::Unreadable => {
                return Err(DiscoveryError::PermissionDenied);
            },
            EntryKind::File => {
                if ends_in_dicom_extension(entry.path.as_str()) {
                    let ghost before = list_of_dicoms@;
                    list_of_dicoms.push(entry.path.clone());
                    proof {
                        assert(texts(list_of_dicoms@) == texts(before) + seq![entry.path@]);
                    }
                }
            },
            EntryKind::Other => {},
        }
        i += 1;
    }
    proof {
        assert(entries@.take(n as int) == entries@);
    }
    Ok(list_of_dicoms)
}

/// The files to work on among the entries of the source directory and of all
/// directories below it: the regular files whose name has the recognized
/// extension, in the order of the listing. Entries that could not be read are
/// passed over.
pub fn get_list_of_all_dicoms_in_directory_and_subdirectories(entries: &Vec<Entry>) -> (list_of_dicoms:
    Vec<String>)
    ensures
        texts(list_of_dicoms@) == candidates(entries@, true),
{
    let mut list_of_dicoms: Vec<String> = Vec::new();
    let n: usize = entries.len();
    let mut i: usize = 0;
    while i < n
        invariant
            n == entries.len(),
            i <= n,
            texts(list_of_dicoms@) == candidates(entries@.take(i as int), true),
        decreases n - i,
    {
        let entry = &entries[i];
        proof {
            entries@.lemma_filter_map_take_succ(|e: Entry| pick(e, true), i as int);
        }
        match entry.kind {
            EntryKind::File => {
                if name_has_dicom_extension(entry.path.as_str()) {
                    let ghost before = list_of_dicoms@;
                    list_of_dicoms.push(entry.path.clone());
                    proof {
                        assert(texts(list_of_dicoms@) == texts(before) + seq![entry.path@]);
                    }
                }
            },
            _ => {},
        }
        i += 1;
    }
    proof {
        assert(entries@.take(n as int) == entries@);
    }
    list_of_dicoms
}

/// The files to work on, from the listing of the source directory: of the
/// directory itself, or, where `recursive` is set, of everything below it too.
/// A listing that failed fails the discovery with the same error.
pub fn discover(listing: &Result<Vec<Entry>, DiscoveryError>, recursive: bool) -> (r: Result<
    Vec<String>,
    DiscoveryError,
>)
    ensures
        found_view(r) == discovered(listing_view(*listing), recursive),
{
    match listing {
        Err(e) => Err(*e),
        Ok(entries) => {
            if recursive {
                Ok(get_list_of_all_dicoms_in_directory_and_subdirectories(entries))
            } else {
                get_list_of_dicoms(entries)
            }
        },
    }
}

} // verus!
