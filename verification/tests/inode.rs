use rfs::InodeTable;

#[test]
fn empty_table_finds_nothing() {
    let mut t = InodeTable::new();
    assert!(t.file_attr_from_inode(1).is_none());
    assert!(t.file_attr_from_name_and_parent(1, "a".to_string()).is_none());
    t.clear_tables();
    assert!(t.file_attr_from_inode(0).is_none());
    assert!(t.file_attr_from_name_and_parent(0, "".to_string()).is_none());
}

#[test]
fn inodes_carry_the_uuid_version() {
    let a = InodeTable::generate_inode();
    let b = InodeTable::generate_inode();
    assert_eq!((a >> 12) & 0xf, 4);
    assert_eq!((b >> 12) & 0xf, 4);
    assert_ne!(a, b);
}

#[test]
fn inode_is_the_high_half_of_the_uuid() {
    assert_eq!(rfs::inode_of_uuid(0xa1a2a3a4b1b2c1c2d1d2d3d4d5d6d7d8), 0xa1a2a3a4b1b2c1c2);
    assert_eq!(rfs::inode_of_uuid(0xffff_ffff), 0);
}
