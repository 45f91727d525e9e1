use vstd::prelude::*;
use vstd::string::*;

use crate::file_attr::{FileAttributes, FileKind};
use crate::filer_utils::{convert_entry_to_swfsfile, entry_attributes, entry_times_ok, Entry};
use crate::paths::{calc_file_name_from_path, calc_parent_from_path, path_file_name, path_parent};

verus! {

/// The last component and the parent directory of a mounted path.
pub fn extract_name_parent_from_path(path: &str) -> (r: (String, String))
    ensures
        r.0@ == path_file_name(path@),
        r.1@ == path_parent(path@),
{
    let name = calc_file_name_from_path(String::from_str(path));
    let parent = calc_parent_from_path(String::from_str(path));
    (name, parent)
}

/// The attributes an entry of the filer gives, if it carries any.
pub open spec fn entry_attributes_of(entry: &Entry) -> Option<FileAttributes> {
    match entry.attributes {
        Some(a) => Some(entry_attributes(entry.is_directory, entry.hard_link_counter, a)),
        None => None,
    }
}

/// What `getattr` answers once the filer has been asked for the entry at
/// `path`: the entry's attributes, or `None` (the remote I/O error) when the
/// filer gave no entry or an entry without attributes.
pub fn getattr_attributes(path: &str, entry: Option<Entry>) -> (r: Option<FileAttributes>)
    requires
        entry matches Some(e) ==> entry_times_ok(&e),
    ensures
        r == match entry {
            Some(e) => entry_attributes_of(&e),
            None => None,
        },
{
    let entry = match entry {
        Some(entry) => entry,
        None => return None,
    };
    match convert_entry_to_swfsfile(String::from_str(path), entry) {
        Some(swfs_file) => Some(swfs_file.file_attr),
        None => None,
    }
}

/// An entry of a directory listing handed to FUSE.
pub struct DirEntry {
    pub name: String,
    pub kind: FileKind,
}

/// The listing made of the filer's entries: one item per entry that carries
/// attributes, with its name and kind, in order.
pub open spec fn dir_entries(entries: Seq<Entry>) -> Seq<(Seq<char>, FileKind)>
    decreases entries.len(),
{
    if entries.len() == 0 {
        Seq::empty()
    } else {
        let e = entries.last();
        match entry_attributes_of(&e) {
            Some(a) => dir_entries(entries.drop_last()).push((e.name@, a.kind)),
            None => dir_entries(entries.drop_last()),
        }
    }
}

/// Names and kinds of a listing.
pub open spec fn dir_entries_view(v: Seq<DirEntry>) -> Seq<(Seq<char>, FileKind)> {
    v.map_values(|d: DirEntry| (d.name@, d.kind))
}

fn duplicate_entry(e: &Entry) -> (c: Entry)
    ensures
        c.name@ == e.name@,
        c.is_directory == e.is_directory,
        c.attributes == e.attributes,
        c.hard_link_counter == e.hard_link_counter,
{
    Entry {
        name: e.name.clone(),
        is_directory: e.is_directory,
        attributes: e.attributes,
        hard_link_counter: e.hard_link_counter,
    }
}

/// What `readdir` lists once the filer has streamed the entries under `path`:
/// each entry that carries attributes, by name and kind; the others are skipped.
pub fn readdir_entries(path: &str, entries: Vec<Entry>) -> (listing: Vec<DirEntry>)
    requires
        forall|i: int| 0 <= i < entries.len() ==> entry_times_ok(&#[trigger] entries[i]),
    ensures
        dir_entries_view(listing@) == dir_entries(entries@),
{
    let mut listing: Vec<DirEntry> = Vec::new();
    let n = entries.len();
    assert(entries@.take(0) =~= Seq::<Entry>::empty());
    assert(dir_entries_view(listing@) =~= Seq::<(Seq<char>, FileKind)>::empty());
    for i in 0..n
        invariant
            n == entries.len(),
            forall|j: int| 0 <= j < entries.len() ==> entry_times_ok(&#[trigger] entries[j]),
            dir_entries_view(listing@) == dir_entries(entries@.take(i as int)),
    {
        let item = &entries[i];
        assert(entries@.take(i + 1).drop_last() =~= entries@.take(i as int));
        assert(entries@.take(i + 1).last() == *item);
        match convert_entry_to_swfsfile(String::from_str(path), duplicate_entry(item)) {
            Some(swfs_file) => {
                let kind = swfs_file.file_attr.kind;
                let ghost before = dir_entries_view(listing@);
                listing.push(DirEntry { name: item.name.clone(), kind });
                assert(dir_entries_view(listing@) =~= before.push((item.name@, kind)));
            },
            None => {},
        }
    }
    assert(entries@.take(n as int) =~= entries@);
    listing
}


/// A directory listing keeps exactly the entries that carry attributes, in
/// order and whatever their names: one item per such entry, with that entry's
/// name, a directory for a directory entry and a regular file otherwise.
pub proof fn lemma_listing_keeps_every_entry_with_attributes(entries: Seq<Entry>)
    ensures
        dir_entries(entries) == entries.filter(|e: Entry| e.attributes is Some).map_values(
            |e: Entry|
                (
                    e.name@,
                    if e.is_directory {
                        FileKind::Directory
                    } else {
                        FileKind::RegularFile
                    },
                ),
        ),
    decreases entries.len(),
{
    reveal(Seq::filter);
    let f = |e: Entry|
        (
            e.name@,
            if e.is_directory {
                FileKind::Directory
            } else {
                FileKind::RegularFile
            },
        );
    let pred = |e: Entry| e.attributes is Some;
    if entries.len() == 0 {
        assert(entries.filter(pred).map_values(f) =~= Seq::<(Seq<char>, FileKind)>::empty());
    } else {
        lemma_listing_keeps_every_entry_with_attributes(entries.drop_last());
        let sub = entries.drop_last().filter(pred);
        if pred(entries.last()) {
            assert(sub.push(entries.last()).map_values(f) =~= sub.map_values(f).push(
                f(entries.last()),
            ));
        }
    }
}


/// What `getattr` answers for an entry is the attributes of the file that
/// `convert_entry_to_swfsfile` makes of it, at whatever path; an entry without
/// attributes gets no answer.
pub proof fn lemma_getattr_agrees_with_conversion(path: Seq<char>, entry: Entry)
    ensures
        entry.attributes is Some ==> entry_attributes_of(&entry) == Some(
            crate::filer_utils::entry_file(path, &entry).file_attr,
        ),
        entry.attributes is None ==> entry_attributes_of(&entry) is None,
{
}

} // verus!
