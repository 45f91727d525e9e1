use rfs::{
    extract_name_parent_from_path, getattr_attributes, readdir_entries, Cli, Commands, Entry,
    FileKind, FilerParseError, FilerRequestError, FuseAttributes, LogLevel, Mount, Timestamp,
};

fn attrs(mtime: i64) -> FuseAttributes {
    FuseAttributes { file_size: 10, mtime, file_mode: 0o644, uid: 1, gid: 2, crtime: 5, rdev: 0 }
}

fn entry(name: &str, dir: bool, a: Option<FuseAttributes>) -> Entry {
    Entry { name: name.to_string(), is_directory: dir, attributes: a, hard_link_counter: 1 }
}

#[test]
fn name_and_parent_of_mounted_paths() {
    let (n, p) = extract_name_parent_from_path("/dir/file");
    assert_eq!((n.as_str(), p.as_str()), ("file", "/dir"));
    let (n, p) = extract_name_parent_from_path("/");
    assert_eq!((n.as_str(), p.as_str()), ("", "/"));
}

#[test]
fn getattr_answers() {
    let a = getattr_attributes("/f", Some(entry("f", false, Some(attrs(99))))).unwrap();
    assert_eq!(a.mtime, Timestamp { secs: 99, nanos: 0 });
    assert_eq!(a.kind, FileKind::RegularFile);
    assert!(getattr_attributes("/f", Some(entry("f", false, None))).is_none());
    assert!(getattr_attributes("/f", None).is_none());
}

#[test]
fn readdir_lists_entries_with_attributes() {
    let listing = readdir_entries(
        "/",
        vec![entry("a", true, Some(attrs(1))), entry("skip", false, None), entry("b", false, Some(attrs(2)))],
    );
    let got: Vec<(&str, FileKind)> = listing.iter().map(|d| (d.name.as_str(), d.kind)).collect();
    assert_eq!(got, vec![("a", FileKind::Directory), ("b", FileKind::RegularFile)]);
}

fn cli(debug: bool, quiet: bool) -> Cli {
    Cli {
        command: Commands::Mount(Mount {
            filer_addr: "http://localhost:8888".to_string(),
            filer_remote_dir: "/".to_string(),
            mnt_dir: "/mnt".to_string(),
        }),
        debug,
        quiet,
    }
}

#[test]
fn log_levels() {
    assert_eq!(cli(true, true).log_level(), LogLevel::Debug);
    assert_eq!(cli(false, true).log_level(), LogLevel::Off);
    assert_eq!(cli(false, false).log_level(), LogLevel::Info);
}

#[test]
fn error_messages() {
    let e = FilerParseError::new("bad filer");
    assert_eq!(e.to_string(), "bad filer");
    assert_eq!(e.description(), "bad filer");
    let r = FilerRequestError::new("no answer");
    assert_eq!(r.details, "no answer");
    assert_eq!(r.to_string(), "no answer");
    assert_eq!(r.description(), "no answer");
}
