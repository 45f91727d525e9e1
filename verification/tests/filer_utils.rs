use rfs::{
    calc_file_name_from_path, calc_parent_from_path, calc_parent_num_from_path,
    convert_entry_to_swfsfile, convert_json_swfsfile_vec, convert_rc3339_to_system_time,
    convert_unix_sec_to_system_time, try_convert_json_swfsfile_vec,
    try_convert_rc3339_to_system_time, Entry, FileKind, FuseAttributes, ListingEntry, Timestamp,
};

#[test]
fn calc_parent_num_from_path_multiple_parents() {
    let full_path = "/test1/test2".into();
    assert_eq!(calc_parent_num_from_path(full_path), 2);
}
#[test]
fn calc_parent_num_from_path_extra_slash() {
    let full_path = "/test1/test2/".into();
    assert_eq!(calc_parent_num_from_path(full_path), 2);
}
#[test]
fn calc_parent_num_from_path_single() {
    let full_path = "/test1".into();
    assert_eq!(calc_parent_num_from_path(full_path), 1);
}
#[test]
fn calc_parent_num_from_path_root() {
    let full_path = "/".into();
    assert_eq!(calc_parent_num_from_path(full_path), 1);
}
#[test]
fn calc_parent_num_from_path_empty() {
    let full_path = "".into();
    assert_eq!(calc_parent_num_from_path(full_path), 0);
}

#[test]
fn calc_parent_from_path_multiple_parents() {
    let full_path = "/test1/test2".into();
    assert_eq!(calc_parent_from_path(full_path), "/test1");
}
#[test]
fn calc_parent_from_path_extra_slash() {
    let full_path = "/test1/test2/".into();
    assert_eq!(calc_parent_from_path(full_path), "/test1");
}
#[test]
fn calc_parent_from_path_single() {
    let full_path = "/test1".into();
    assert_eq!(calc_parent_from_path(full_path), "/");
}
#[test]
fn calc_parent_from_path_root() {
    let full_path = "/".into();
    assert_eq!(calc_parent_from_path(full_path), "/");
}
#[test]
fn calc_parent_from_path_empty() {
    let full_path = "".into();
    assert_eq!(calc_parent_from_path(full_path), "");
}

#[test]
fn calc_file_name_from_path_multiple_parents() {
    let full_path = "/test1/test2".into();
    assert_eq!(calc_file_name_from_path(full_path), "test2");
}
#[test]
fn calc_file_name_from_path_extra_slash() {
    let full_path = "/test1/test2/".into();
    assert_eq!(calc_file_name_from_path(full_path), "test2");
}
#[test]
fn calc_file_name_from_path_single() {
    let full_path = "/test1".into();
    assert_eq!(calc_file_name_from_path(full_path), "test1");
}
#[test]
fn calc_file_name_from_path_root() {
    let full_path = "/".into();
    assert_eq!(calc_file_name_from_path(full_path), "");
}
#[test]
fn calc_file_name_from_path_empty() {
    let full_path = "".into();
    assert_eq!(calc_file_name_from_path(full_path), "");
}

#[test]
fn paths_deeper_and_relative() {
    assert_eq!(calc_parent_from_path("/a/b/c/d".to_string()), "/a/b/c");
    assert_eq!(calc_file_name_from_path("/a/b/c/d".to_string()), "d");
    assert_eq!(calc_parent_num_from_path("/a/b/c/d".to_string()), 4);
    assert_eq!(calc_parent_from_path("name".to_string()), "name");
    assert_eq!(calc_file_name_from_path("name".to_string()), "name");
    assert_eq!(calc_parent_num_from_path("name".to_string()), 0);
    assert_eq!(calc_parent_from_path("dir/name".to_string()), "dir/");
}

#[test]
fn paths_with_doubled_slashes() {
    assert_eq!(calc_parent_from_path("//".to_string()), "/");
    assert_eq!(calc_file_name_from_path("/a//".to_string()), "");
    assert_eq!(calc_parent_from_path("/a//".to_string()), "/a/");
    assert_eq!(calc_parent_num_from_path("/a//".to_string()), 2);
}

#[test]
fn paths_non_ascii() {
    assert_eq!(calc_file_name_from_path("/é/ü/".to_string()), "ü");
    assert_eq!(calc_parent_from_path("/é/ü".to_string()), "/é");
}

#[test]
fn trailing_slash_law_on_examples() {
    for p in ["/a", "/a/b", "x", "/a/b/c"] {
        let with = format!("{}/", p);
        assert_eq!(calc_file_name_from_path(with.clone()), calc_file_name_from_path(p.to_string()));
        assert_eq!(calc_parent_from_path(with.clone()), calc_parent_from_path(p.to_string()));
        assert_eq!(calc_parent_num_from_path(with), calc_parent_num_from_path(p.to_string()));
    }
}

#[test]
fn parent_and_name_rebuild_path_on_examples() {
    let p = "/a/b/c";
    let rebuilt = format!(
        "{}/{}",
        calc_parent_from_path(p.to_string()),
        calc_file_name_from_path(p.to_string())
    );
    assert_eq!(rebuilt, p);
    let q = "/top";
    let rebuilt = format!(
        "{}{}",
        calc_parent_from_path(q.to_string()),
        calc_file_name_from_path(q.to_string())
    );
    assert_eq!(rebuilt, q);
}

#[test]
fn unix_seconds_become_timestamps() {
    assert_eq!(convert_unix_sec_to_system_time(0), Timestamp { secs: 0, nanos: 0 });
    assert_eq!(
        convert_unix_sec_to_system_time(1657299286),
        Timestamp { secs: 1657299286, nanos: 0 }
    );
}

#[test]
fn rfc3339_times() {
    assert_eq!(
        convert_rc3339_to_system_time("2022-07-08T16:54:46Z".to_string()),
        Timestamp { secs: 1657299286, nanos: 0 }
    );
    assert_eq!(
        convert_rc3339_to_system_time("2020-04-19T16:08:14-07:00".to_string()),
        Timestamp { secs: 1587337694, nanos: 0 }
    );
    assert_eq!(
        convert_rc3339_to_system_time("2022-07-08T16:54:46.250Z".to_string()),
        Timestamp { secs: 1657299286, nanos: 250_000_000 }
    );
    // Before the epoch the milliseconds wrap around as u64, as the conversion does.
    assert_eq!(
        convert_rc3339_to_system_time("1969-12-31T23:59:59.500Z".to_string()),
        Timestamp { secs: 18446744073709551, nanos: 116_000_000 }
    );
    assert_eq!(try_convert_rc3339_to_system_time("yesterday".to_string()), None);
    assert_eq!(
        try_convert_rc3339_to_system_time("2022-07-08T16:54:46Z".to_string()),
        Some(Timestamp { secs: 1657299286, nanos: 0 })
    );
}

fn attrs() -> FuseAttributes {
    FuseAttributes { file_size: 1992, mtime: 1641726678, file_mode: 0o100660, uid: 1001, gid: 1002, crtime: 1641726000, rdev: 7 }
}

#[test]
fn entry_with_attributes_becomes_file() {
    let entry = Entry { name: "test01.py".to_string(), is_directory: false, attributes: Some(attrs()), hard_link_counter: 3 };
    let file = convert_entry_to_swfsfile("/test01.py".to_string(), entry).unwrap();
    assert_eq!(file.full_path, "/test01.py");
    assert_eq!(file.name, "");
    assert_eq!(file.parent, "");
    let a = file.file_attr;
    assert_eq!(a.size, 1992);
    assert_eq!(a.blocks, 0);
    assert_eq!(a.atime, Timestamp { secs: 1641726678, nanos: 0 });
    assert_eq!(a.mtime, Timestamp { secs: 1641726678, nanos: 0 });
    assert_eq!(a.ctime, Timestamp { secs: 1641726000, nanos: 0 });
    assert_eq!(a.crtime, Timestamp { secs: 1641726000, nanos: 0 });
    assert_eq!(a.kind, FileKind::RegularFile);
    assert_eq!(a.perm, 0o100660);
    assert_eq!(a.nlink, 3);
    assert_eq!((a.uid, a.gid, a.rdev, a.flags), (1001, 1002, 7, 0));
}

#[test]
fn directory_entry_and_missing_attributes() {
    let entry = Entry { name: "d".to_string(), is_directory: true, attributes: Some(attrs()), hard_link_counter: -1 };
    let file = convert_entry_to_swfsfile("/d".to_string(), entry).unwrap();
    assert_eq!(file.file_attr.kind, FileKind::Directory);
    assert_eq!(file.file_attr.nlink, u32::MAX);
    let bare = Entry { name: "x".to_string(), is_directory: false, attributes: None, hard_link_counter: 1 };
    assert!(convert_entry_to_swfsfile("/x".to_string(), bare).is_none());
}

fn listing(path: &str, inode: u64, size: u64, mode: u64, links: u64) -> ListingEntry {
    ListingEntry {
        full_path: path.to_string(),
        inode,
        file_size: size,
        crtime: "2022-07-08T16:54:46Z".to_string(),
        mtime: "2022-07-09T16:54:46Z".to_string(),
        mode,
        hard_link_counter: links,
        uid: 998,
        gid: 4294967297,
    }
}

#[test]
fn listing_entries_become_files() {
    let files = convert_json_swfsfile_vec(vec![
        listing("/topics", 0, 0, 2147484141, 0),
        listing("/javascript/report.js", 77, 1000, 420, 4294967298),
    ]);
    assert_eq!(files.len(), 2);
    let d = &files[0];
    assert_eq!(d.full_path, "/topics");
    assert_eq!(d.name, "topics");
    assert_eq!(d.parent, "/");
    assert_eq!(d.file_attr.kind, FileKind::Directory);
    assert_eq!(d.file_attr.perm, 0);
    assert_eq!(d.file_attr.nlink, 1);
    assert_eq!(d.file_attr.blocks, 0);
    assert_eq!(d.file_attr.crtime, Timestamp { secs: 1657299286, nanos: 0 });
    assert_eq!(d.file_attr.mtime, Timestamp { secs: 1657385686, nanos: 0 });
    assert_eq!(d.file_attr.atime, d.file_attr.mtime);
    assert_eq!(d.file_attr.ctime, d.file_attr.mtime);
    assert_eq!(d.file_attr.gid, 1);
    let f = &files[1];
    assert_eq!(f.name, "report.js");
    assert_eq!(f.parent, "/javascript");
    assert_eq!(f.file_attr.kind, FileKind::RegularFile);
    assert_eq!(f.file_attr.perm, 420);
    assert_eq!(f.file_attr.nlink, 2);
    assert_eq!(f.file_attr.size, 1000);
    assert_eq!(f.file_attr.blocks, 2);
    assert_eq!(f.file_attr.uid, 998);
}

#[test]
fn listing_with_bad_time_is_refused_by_checked_conversion() {
    let mut bad = listing("/x", 1, 1, 1, 1);
    bad.mtime = "not a time".to_string();
    assert!(try_convert_json_swfsfile_vec(vec![listing("/a", 1, 1, 1, 1), bad]).is_none());
    let ok = try_convert_json_swfsfile_vec(vec![listing("/a", 1, 1, 1, 1)]).unwrap();
    assert_eq!(ok.len(), 1);
    assert_eq!(ok[0].name, "a");
}
