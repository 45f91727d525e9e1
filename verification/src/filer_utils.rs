use vstd::prelude::*;
use vstd::string::*;

use crate::file_attr::{blocks_for_size, blocks_of_size, FileAttributes, FileKind, Timestamp};
use crate::inode::InodeTable;
use crate::paths::{
    calc_file_name_from_path, calc_parent_from_path, path_file_name, path_parent,
};

verus! {

/// A file of the filer together with the attributes that FUSE is given for it.
pub struct SwfsFile {
    pub full_path: String,
    pub name: String,
    pub parent: String,
    pub file_attr: FileAttributes,
}

/// What a `SwfsFile` holds, its strings taken by their characters.
pub ghost struct SwfsFileView {
    pub full_path: Seq<char>,
    pub name: Seq<char>,
    pub parent: Seq<char>,
    pub file_attr: FileAttributes,
}

impl View for SwfsFile {
    type V = SwfsFileView;

    open spec fn view(&self) -> SwfsFileView {
        SwfsFileView {
            full_path: self.full_path@,
            name: self.name@,
            parent: self.parent@,
            file_attr: self.file_attr,
        }
    }
}

/// The attributes of an entry of the filer's gRPC interface that files are made from.
#[derive(Clone, Copy, Debug)]
pub struct FuseAttributes {
    pub file_size: u64,
    pub mtime: i64,
    pub file_mode: u32,
    pub uid: u32,
    pub gid: u32,
    pub crtime: i64,
    pub rdev: u32,
}

/// An entry of the filer's gRPC interface, with the fields that files are made from.
#[derive(Debug)]
pub struct Entry {
    pub name: String,
    pub is_directory: bool,
    pub attributes: Option<FuseAttributes>,
    pub hard_link_counter: i32,
}

/// The epoch plus `seconds` whole seconds.
pub open spec fn unix_seconds(seconds: u64) -> Timestamp {
    Timestamp { secs: seconds, nanos: 0 }
}

/// `UNIX_EPOCH + Duration::from_secs(seconds)`; the addition is a fault past `i64::MAX` seconds.
pub fn convert_unix_sec_to_system_time(seconds: u64) -> (t: Timestamp)
    requires
        seconds <= i64::MAX,
    ensures
        t == unix_seconds(seconds),
        t.wf(),
{
    Timestamp { secs: seconds, nanos: 0 }
}

/// The time stamps of a gRPC entry lie at or after the epoch (earlier ones
/// would overflow the conversion to `SystemTime`).
pub open spec fn entry_times_ok(entry: &Entry) -> bool {
    match entry.attributes {
        Some(a) => a.mtime >= 0 && a.crtime >= 0,
        None => true,
    }
}

/// The attributes made of a gRPC entry's attributes: access, modification
/// and change time from `mtime` and `crtime`, directory or regular file by
/// the entry's flag, the mode cut to 16 bits, the link count as `u32`.
pub open spec fn entry_attributes(is_directory: bool, hard_link_counter: i32, a: FuseAttributes) -> FileAttributes {
    FileAttributes {
        size: a.file_size,
        blocks: 0,
        atime: unix_seconds(a.mtime as u64),
        mtime: unix_seconds(a.mtime as u64),
        ctime: unix_seconds(a.crtime as u64),
        crtime: unix_seconds(a.crtime as u64),
        kind: if is_directory {
            FileKind::Directory
        } else {
            FileKind::RegularFile
        },
        perm: a.file_mode as u16,
        nlink: hard_link_counter as u32,
        uid: a.uid,
        gid: a.gid,
        rdev: a.rdev,
        flags: 0,
    }
}

/// The file that `convert_entry_to_swfsfile` makes of an entry with attributes.
pub open spec fn entry_file(path: Seq<char>, entry: &Entry) -> SwfsFileView {
    SwfsFileView {
        full_path: path,
        name: Seq::empty(),
        parent: Seq::empty(),
        file_attr: entry_attributes(entry.is_directory, entry.hard_link_counter, entry.attributes.unwrap()),
    }
}

/// The file for a gRPC entry at `path`, or `None` when the entry carries no attributes.
pub fn convert_entry_to_swfsfile(path: String, entry: Entry) -> (f: Option<SwfsFile>)
    requires
        entry_times_ok(&entry),
    ensures
        f is Some <==> entry.attributes is Some,
        f matches Some(file) ==> file@ == entry_file(path@, &entry),
{
    let attributes = match entry.attributes {
        Some(attr) => attr,
        None => return None,
    };
    let file_type = if !entry.is_directory {
        FileKind::RegularFile
    } else {
        FileKind::Directory
    };
    let nlink = entry.hard_link_counter;
    let attr = FileAttributes {
        size: attributes.file_size,
        blocks: 0,
        atime: convert_unix_sec_to_system_time(attributes.mtime as u64),
        mtime: convert_unix_sec_to_system_time(attributes.mtime as u64),
        ctime: convert_unix_sec_to_system_time(attributes.crtime as u64),
        crtime: convert_unix_sec_to_system_time(attributes.crtime as u64),
        kind: file_type,
        perm: attributes.file_mode as u16,
        nlink: nlink as u32,
        uid: attributes.uid,
        gid: attributes.gid,
        rdev: attributes.rdev,
        flags: 0,
    };
    Some(SwfsFile { full_path: path, name: String::new(), parent: String::new(), file_attr: attr })
}

/// What chrono's `DateTime::parse_from_rfc3339` followed by `timestamp_millis`
/// gives for a string: milliseconds since the epoch, or `None` when the string
/// is no RFC 3339 date and time.
pub uninterp spec fn rfc3339_millis(s: Seq<char>) -> Option<i64>;

/// Calls `chrono::DateTime::parse_from_rfc3339` and, on success, `timestamp_millis`.
/// Claimed: the result is `rfc3339_millis` of the text; nothing is claimed of
/// which texts parse or of the value.
#[verifier::external_body]
fn parse_rfc3339_millis(s: &str) -> (r: Option<i64>)
    ensures
        r == rfc3339_millis(s@),
{
    match chrono::DateTime::parse_from_rfc3339(s) {
        Ok(t) => Some(t.timestamp_millis()),
        Err(_) => None,
    }
}

/// `UNIX_EPOCH + Duration::from_millis(millis as u64)`.
pub open spec fn timestamp_of_millis(millis: i64) -> Timestamp {
    Timestamp {
        secs: ((millis as u64) / 1000) as u64,
        nanos: (((millis as u64) % 1000) * 1_000_000) as u32,
    }
}

fn timestamp_from_millis(millis: i64) -> (t: Timestamp)
    ensures
        t == timestamp_of_millis(millis),
        t.wf(),
{
    let ms = millis as u64;
    Timestamp { secs: ms / 1000, nanos: ((ms % 1000) * 1_000_000) as u32 }
}

/// The point in time that an RFC 3339 text names. A text that does not parse
/// is a fault.
pub fn convert_rc3339_to_system_time(time: String) -> (t: Timestamp)
    requires
        rfc3339_millis(time@) is Some,
    ensures
        t == timestamp_of_millis(rfc3339_millis(time@).unwrap()),
        t.wf(),
{
    let millis = parse_rfc3339_millis(time.as_str());
    timestamp_from_millis(millis.unwrap())
}

/// The point in time that an RFC 3339 text names, or `None` when it does not parse.
pub fn try_convert_rc3339_to_system_time(time: String) -> (t: Option<Timestamp>)
    ensures
        match rfc3339_millis(time@) {
            Some(ms) => t == Some(timestamp_of_millis(ms)),
            None => t is None,
        },
{
    match parse_rfc3339_millis(time.as_str()) {
        Some(_) => Some(convert_rc3339_to_system_time(time)),
        None => None,
    }
}

/// One entry of a filer's JSON directory listing, with the fields that files are made from.
#[derive(Debug)]
pub struct ListingEntry {
    pub full_path: String,
    pub inode: u64,
    pub file_size: u64,
    pub crtime: String,
    pub mtime: String,
    pub mode: u64,
    pub hard_link_counter: u64,
    pub uid: u64,
    pub gid: u64,
}

/// Both time stamps of a listing entry are RFC 3339 texts.
pub open spec fn listing_times_ok(e: &ListingEntry) -> bool {
    rfc3339_millis(e.crtime@) is Some && rfc3339_millis(e.mtime@) is Some
}

/// The attributes made of a listing entry: a zero inode marks a directory;
/// the block count is taken from the size; a mode above `u16::MAX` becomes 0;
/// a link count that is 0 once cut to 32 bits becomes 1; access, modification
/// and change time are the modification time.
pub open spec fn listing_attributes(e: &ListingEntry) -> FileAttributes {
    let mtime = timestamp_of_millis(rfc3339_millis(e.mtime@).unwrap());
    let crtime = timestamp_of_millis(rfc3339_millis(e.crtime@).unwrap());
    let links = e.hard_link_counter as u32;
    FileAttributes {
        size: e.file_size,
        blocks: blocks_for_size(e.file_size),
        atime: mtime,
        mtime: mtime,
        ctime: mtime,
        crtime: crtime,
        kind: if e.inode == 0 {
            FileKind::Directory
        } else {
            FileKind::RegularFile
        },
        perm: if e.mode > u16::MAX {
            0
        } else {
            e.mode as u16
        },
        nlink: if links == 0 {
            1
        } else {
            links
        },
        uid: e.uid as u32,
        gid: e.gid as u32,
        rdev: 0,
        flags: 0,
    }
}

/// The file made of a listing entry: its path, last component and parent directory, and attributes.
pub open spec fn listing_file(e: &ListingEntry) -> SwfsFileView {
    SwfsFileView {
        full_path: e.full_path@,
        name: path_file_name(e.full_path@),
        parent: path_parent(e.full_path@),
        file_attr: listing_attributes(e),
    }
}

fn convert_listing_entry(entry: &ListingEntry) -> (f: SwfsFile)
    requires
        listing_times_ok(entry),
    ensures
        f@ == listing_file(entry),
{
    let file_type = if entry.inode == 0 {
        FileKind::Directory
    } else {
        FileKind::RegularFile
    };
    let _inode = InodeTable::generate_inode();
    let file_size = entry.file_size;
    let blocks = blocks_of_size(file_size);
    let crtime = convert_rc3339_to_system_time(entry.crtime.clone());
    let mtime = convert_rc3339_to_system_time(entry.mtime.clone());
    let mut mode = entry.mode;
    if mode > u16::MAX as u64 {
        mode = 0;
    }
    let mode = mode as u16;
    let mut hard_link_counter = entry.hard_link_counter as u32;
    if hard_link_counter == 0 {
        hard_link_counter = 1;
    }
    let file_attr = FileAttributes {
        size: file_size,
        blocks,
        atime: mtime,
        mtime,
        ctime: mtime,
        crtime,
        kind: file_type,
        perm: mode,
        nlink: hard_link_counter,
        uid: entry.uid as u32,
        gid: entry.gid as u32,
        rdev: 0,
        flags: 0,
    };
    SwfsFile {
        full_path: entry.full_path.clone(),
        name: calc_file_name_from_path(entry.full_path.clone()),
        parent: calc_parent_from_path(entry.full_path.clone()),
        file_attr,
    }
}

/// The files of a JSON directory listing, one per entry and in its order.
/// Entries whose time stamps do not parse are faults.
pub fn convert_json_swfsfile_vec(entries: Vec<ListingEntry>) -> (files: Vec<SwfsFile>)
    requires
        forall|i: int| 0 <= i < entries.len() ==> listing_times_ok(&#[trigger] entries[i]),
    ensures
        files.len() == entries.len(),
        forall|i: int| 0 <= i < entries.len() ==> #[trigger] files[i]@ == listing_file(&entries[i]),
{
    let mut swfs_files: Vec<SwfsFile> = Vec::new();
    let n = entries.len();
    for i in 0..n
        invariant
            n == entries.len(),
            forall|j: int| 0 <= j < entries.len() ==> listing_times_ok(&#[trigger] entries[j]),
            swfs_files.len() == i,
            forall|j: int| 0 <= j < i ==> #[trigger] swfs_files[j]@ == listing_file(&entries[j]),
    {
        let f = convert_listing_entry(&entries[i]);
        swfs_files.push(f);
    }
    swfs_files
}

/// The files of a JSON directory listing, or `None` when the time stamps of
/// some entry do not parse.
pub fn try_convert_json_swfsfile_vec(entries: Vec<ListingEntry>) -> (files: Option<Vec<SwfsFile>>)
    ensures
        files is Some <==> forall|i: int| 0 <= i < entries.len() ==> listing_times_ok(&#[trigger] entries[i]),
        files matches Some(fs) ==> fs.len() == entries.len() && forall|i: int|
            0 <= i < entries.len() ==> #[trigger] fs[i]@ == listing_file(&entries[i]),
{
    let n = entries.len();
    for i in 0..n
        invariant
            n == entries.len(),
            forall|j: int| 0 <= j < i ==> listing_times_ok(&#[trigger] entries[j]),
    {
        let crtime = parse_rfc3339_millis(entries[i].crtime.as_str());
        let mtime = parse_rfc3339_millis(entries[i].mtime.as_str());
        if crtime.is_none() || mtime.is_none() {
            return None;
        }
    }
    Some(convert_json_swfsfile_vec(entries))
}


/// The parent of a listed file is its full path with only the last
/// component removed: for a full path with at least two slashes that does not
/// end in one, parent, a slash and name give back the full path, and the name
/// holds no slash (so the parent ends just before the last slash).
pub proof fn lemma_listing_parent_drops_last_component(e: ListingEntry)
    requires
        crate::paths::count_char(e.full_path@, '/') >= 2,
        e.full_path@.last() != '/',
    ensures
        listing_file(&e).parent + seq!['/'] + listing_file(&e).name == e.full_path@,
        forall|j: int|
            0 <= j < listing_file(&e).name.len() ==> listing_file(&e).name[j] != '/',
        listing_file(&e).full_path == e.full_path@,
{
    let p = e.full_path@;
    assert(crate::paths::strip_trailing_slash(p) == p);
    crate::paths::lemma_parent_and_file_name_rebuild_path(p);
    crate::paths::lemma_file_name_has_no_slash(p);
}

/// The times of a converted gRPC entry come from its attributes whatever
/// kind it is: access and modification time are the epoch plus `mtime`
/// seconds, change and creation time the epoch plus `crtime` seconds. The
/// directory flag decides the kind and nothing else.
pub proof fn lemma_entry_times_from_attributes(path: Seq<char>, entry: Entry)
    requires
        entry.attributes is Some,
    ensures
        ({
            let a = entry.attributes.unwrap();
            let f = entry_file(path, &entry).file_attr;
            &&& f.mtime == (Timestamp { secs: a.mtime as u64, nanos: 0 })
            &&& f.atime == (Timestamp { secs: a.mtime as u64, nanos: 0 })
            &&& f.ctime == (Timestamp { secs: a.crtime as u64, nanos: 0 })
            &&& f.crtime == (Timestamp { secs: a.crtime as u64, nanos: 0 })
            &&& (f.kind == FileKind::Directory) == entry.is_directory
            &&& (f.kind == FileKind::RegularFile) == !entry.is_directory
            &&& f.size == a.file_size && f.blocks == 0 && f.flags == 0
            &&& f.perm == a.file_mode % 0x1_0000
            &&& entry.hard_link_counter >= 0 ==> f.nlink == entry.hard_link_counter
            &&& f.uid == a.uid && f.gid == a.gid && f.rdev == a.rdev
            &&& entry_file(path, &entry).full_path == path
        }),
        ({
            let a = entry.attributes.unwrap();
            let d = entry_attributes(true, entry.hard_link_counter, a);
            let r = entry_attributes(false, entry.hard_link_counter, a);
            &&& d.size == r.size && d.blocks == r.blocks
            &&& d.atime == r.atime && d.mtime == r.mtime
            &&& d.ctime == r.ctime && d.crtime == r.crtime
            &&& d.perm == r.perm && d.nlink == r.nlink
            &&& d.uid == r.uid && d.gid == r.gid
            &&& d.rdev == r.rdev && d.flags == r.flags
        }),
{
    let mode = entry.attributes.unwrap().file_mode;
    assert(mode as u16 == mode % 0x1_0000) by (bit_vector);
}


/// A file right under the root ("/name") has "/" as its parent and the rest
/// of the path as its name.
pub proof fn lemma_listing_top_level_parent_is_root(e: ListingEntry)
    requires
        e.full_path@.len() >= 2,
        e.full_path@[0] == '/',
        forall|j: int| 1 <= j < e.full_path@.len() ==> e.full_path@[j] != '/',
    ensures
        listing_file(&e).parent == seq!['/'],
        listing_file(&e).name == e.full_path@.drop_first(),
{
    let p = e.full_path@;
    assert(crate::paths::strip_trailing_slash(p) == p);
    crate::paths::lemma_last_index_of_bounds(p, '/');
    let i = crate::paths::last_index_of(p, '/');
    assert(i == 0);
    lemma_one_slash(p);
    assert(p.take(1) =~= seq!['/']);
    assert(p.skip(1) =~= p.drop_first());
}

proof fn lemma_one_slash(p: Seq<char>)
    requires
        p.len() >= 1,
        p[0] == '/',
        forall|j: int| 1 <= j < p.len() ==> p[j] != '/',
    ensures
        crate::paths::count_char(p, '/') == 1,
    decreases p.len(),
{
    if p.len() > 1 {
        lemma_one_slash(p.drop_last());
        assert(p.last() == p[p.len() - 1]);
    } else {
        assert(p.drop_last().len() == 0);
        assert(crate::paths::count_char(p.drop_last(), '/') == 0);
        assert(p.last() == '/');
    }
}

/// The attributes of a listed file, read off the listing entry: access,
/// modification and change time are the `Mtime` text's milliseconds after the
/// epoch, creation time the `Crtime` text's; a zero inode marks a directory and
/// any other a regular file; the mode is kept when it fits 16 bits and is 0
/// otherwise; the link count is never 0 and equals the listed count whenever
/// that lies in 1..=u32::MAX; up to 2^53 bytes the block count is the size in
/// 512-byte blocks rounded up.
pub proof fn lemma_listing_attributes_from_entry(e: ListingEntry)
    requires
        listing_times_ok(&e),
    ensures
        ({
            let f = listing_file(&e).file_attr;
            let m = rfc3339_millis(e.mtime@).unwrap() as u64;
            let c = rfc3339_millis(e.crtime@).unwrap() as u64;
            &&& f.mtime.secs == m / 1000 && f.mtime.nanos == (m % 1000) * 1_000_000
            &&& f.atime == f.mtime && f.ctime == f.mtime
            &&& f.crtime.secs == c / 1000 && f.crtime.nanos == (c % 1000) * 1_000_000
            &&& (f.kind == FileKind::Directory) == (e.inode == 0)
            &&& (f.kind == FileKind::RegularFile) == (e.inode != 0)
            &&& e.mode <= u16::MAX ==> f.perm == e.mode
            &&& e.mode > u16::MAX ==> f.perm == 0
            &&& f.nlink >= 1
            &&& 1 <= e.hard_link_counter <= u32::MAX ==> f.nlink == e.hard_link_counter
            &&& f.size == e.file_size
            &&& e.file_size <= 0x20_0000_0000_0000 ==> f.blocks == (e.file_size + 511) / 512
            &&& f.uid == e.uid as u32 && f.gid == e.gid as u32
        }),
{
    if e.file_size <= 0x20_0000_0000_0000 {
        crate::file_attr::lemma_blocks_exact_below_2_pow_53(e.file_size);
    }
    let m = rfc3339_millis(e.mtime@).unwrap() as u64;
    let c = rfc3339_millis(e.crtime@).unwrap() as u64;
    assert((m % 1000) * 1_000_000 < 0x1_0000_0000);
    assert((c % 1000) * 1_000_000 < 0x1_0000_0000);
}

} // verus!
