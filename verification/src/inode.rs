use std::collections::HashMap;
use vstd::prelude::*;

use crate::filer_utils::{SwfsFile, SwfsFileView};

verus! {

broadcast use vstd::std_specs::hash::group_hash_axioms;

/// Calls `uuid::Uuid::new_v4` and reads the result with `as_u128`. Claimed:
/// the version nibble is 4 and the variant bits are `10`, as uuid's source
/// sets them; the other bits are random and nothing is claimed of them.
#[verifier::external_body]
fn random_uuid_v4() -> (u: u128)
    ensures
        (u >> 76u128) & 0xfu128 == 4,
        (u >> 62u128) & 0x3u128 == 2,
{
    uuid::Uuid::new_v4().as_u128()
}

/// The inode an entry list gives a name: that of the first entry with the name.
pub open spec fn find_name(entries: Seq<(Seq<char>, u64)>, name: Seq<char>) -> Option<u64>
    decreases entries.len(),
{
    if entries.len() == 0 {
        None
    } else if entries[0].0 == name {
        Some(entries[0].1)
    } else {
        find_name(entries.drop_first(), name)
    }
}

/// No name occurs twice in an entry list.
pub open spec fn names_unique(entries: Seq<(Seq<char>, u64)>) -> bool {
    forall|i: int, j: int|
        0 <= i < j < entries.len() ==> #[trigger] entries[i].0 != #[trigger] entries[j].0
}

/// The entries of a directory, by name, as characters.
pub open spec fn entries_view(v: Seq<(String, u64)>) -> Seq<(Seq<char>, u64)> {
    v.map_values(|p: (String, u64)| (p.0@, p.1))
}

/// The inode number drawn from a UUID: its 64 most significant bits, as
/// `Uuid::as_u64_pair().0` gives them.
pub fn inode_of_uuid(uuid: u128) -> (inode: u64)
    ensures
        inode == (uuid >> 64u128) as u64,
{
    (uuid >> 64u128) as u64
}

/// Two lookup tables of the files known to the mount: the file by its inode,
/// and for each parent inode the inodes of its children by name (a name
/// occurs at most once per parent). The children of a parent are held as a
/// list of (name, inode) pairs whose names are distinct (see `wf`); a name
/// is looked up by scanning the list.
pub struct InodeTable {
    inode_table: HashMap<u64, SwfsFile>,
    parent_table: HashMap<u64, Vec<(String, u64)>>,
}

impl InodeTable {
    /// The files by inode.
    pub closed spec fn files(&self) -> Map<u64, SwfsFileView> {
        self.inode_table@.map_values(|f: SwfsFile| f@)
    }

    /// The children of each parent inode, by name.
    pub closed spec fn children(&self) -> Map<u64, Seq<(Seq<char>, u64)>> {
        self.parent_table@.map_values(|v: Vec<(String, u64)>| entries_view(v@))
    }

    /// Well-formed: under each parent, no name occurs twice.
    pub closed spec fn wf(&self) -> bool {
        forall|p: u64| #[trigger] self.parent_table@.contains_key(p) ==> names_unique(
            entries_view(self.parent_table@[p]@),
        )
    }

    /// The inode that `name` has under `parent`, if any.
    pub open spec fn name_lookup(&self, parent: u64, name: Seq<char>) -> Option<u64> {
        if self.children().contains_key(parent) {
            find_name(self.children()[parent], name)
        } else {
            None
        }
    }

    /// Empty tables.
    pub fn new() -> (t: InodeTable)
        ensures
            t.wf(),
            t.files() == Map::<u64, SwfsFileView>::empty(),
            t.children() == Map::<u64, Seq<(Seq<char>, u64)>>::empty(),
    {
        let t = InodeTable { inode_table: HashMap::new(), parent_table: HashMap::new() };
        assert(t.files() =~= Map::<u64, SwfsFileView>::empty());
        assert(t.children() =~= Map::<u64, Seq<(Seq<char>, u64)>>::empty());
        t
    }

    /// A fresh inode number: the 64 most significant bits of a random
    /// version-4 UUID, so its bits 12 to 15 read 4.
    pub fn generate_inode() -> (inode: u64)
        ensures
            (inode >> 12u64) & 0xfu64 == 4,
    {
        let uuid = random_uuid_v4();
        let inode = inode_of_uuid(uuid);
        assert((inode >> 12u64) & 0xfu64 == 4) by (bit_vector)
            requires
                inode == (uuid >> 64u128) as u64,
                (uuid >> 76u128) & 0xfu128 == 4,
        ;
        inode
    }

    /// The file with inode `inode`, if the table holds one.
    pub fn file_attr_from_inode(&mut self, inode: u64) -> (f: Option<&SwfsFile>)
        ensures
            *final(self) == *old(self),
            final(self).files() == old(self).files(),
            final(self).children() == old(self).children(),
            f is Some <==> old(self).files().contains_key(inode),
            f matches Some(file) ==> file@ == old(self).files()[inode],
    {
        self.inode_table.get(&inode)
    }

    /// The file named `name` under the parent inode `parent`, if both tables know it.
    pub fn file_attr_from_name_and_parent(&mut self, parent: u64, name: String) -> (f: Option<
        &SwfsFile,
    >)
        ensures
            *final(self) == *old(self),
            final(self).files() == old(self).files(),
            final(self).children() == old(self).children(),
            f is Some <==> (old(self).name_lookup(parent, name@) matches Some(i)
                && old(self).files().contains_key(i)),
            f matches Some(file) ==> file@ == old(self).files()[old(self).name_lookup(
                parent,
                name@,
            ).unwrap()],
    {
        match self.parent_table.get(&parent) {
            Some(file_names) => {
                let ghost entries = entries_view(file_names@);
                assert(self.children().contains_key(parent));
                assert(self.children()[parent] == entries);
                assert(entries.skip(0) =~= entries);
                let n = file_names.len();
                let mut i: usize = 0;
                while i < n
                    invariant
                        *self == *old(self),
                        self.children().contains_key(parent),
                        self.children()[parent] == entries,
                        n == file_names@.len(),
                        entries == entries_view(file_names@),
                        i <= n,
                        find_name(entries, name@) == find_name(entries.skip(i as int), name@),
                    decreases n - i,
                {
                    assert(entries.skip(i as int)[0] == entries[i as int]);
                    assert(entries[i as int] == (file_names@[i as int].0@, file_names@[i as int].1));
                    if file_names[i].0 == name {
                        let inode = file_names[i].1;
                        assert(self.name_lookup(parent, name@) == Some(inode));
                        let r = self.inode_table.get(&inode);
                        assert(self.files().contains_key(inode) == self.inode_table@.contains_key(inode));
                        proof {
                            if self.inode_table@.contains_key(inode) {
                                assert(self.files()[inode] == self.inode_table@[inode]@);
                            }
                        }
                        return r;
                    }
                    assert(entries.skip(i as int).drop_first() =~= entries.skip(i + 1));
                    i = i + 1;
                }
                None
            },
            None => None,
        }
    }

    /// Empties both tables.
    pub fn clear_tables(&mut self)
        ensures
            final(self).wf(),
            final(self).files() == Map::<u64, SwfsFileView>::empty(),
            final(self).children() == Map::<u64, Seq<(Seq<char>, u64)>>::empty(),
    {
        self.inode_table.clear();
        self.parent_table.clear();
        assert(self.files() =~= Map::<u64, SwfsFileView>::empty());
        assert(self.children() =~= Map::<u64, Seq<(Seq<char>, u64)>>::empty());
    }
}

/// Once the tables are cleared, no inode and no name under any parent finds a file.
pub proof fn lemma_cleared_table_finds_nothing(t: InodeTable)
    requires
        t.files() == Map::<u64, SwfsFileView>::empty(),
        t.children() == Map::<u64, Seq<(Seq<char>, u64)>>::empty(),
    ensures
        forall|inode: u64| !t.files().contains_key(inode),
        forall|parent: u64, name: Seq<char>| #[trigger] t.name_lookup(parent, name) is None,
{
}

} // verus!
