use rfs::{
    blocks_of_size, mode_to_filetype, stat_to_fuse, statfs_to_fuse, system_time_from_duration,
    FileKind, FsStats, Stat, StatfsInfo, Timestamp,
};

#[test]
fn blocks_match_float_rounding() {
    let cases: [(u64, u64); 14] = [
        (0, 0),
        (1, 1),
        (511, 1),
        (512, 1),
        (513, 2),
        (1000, 2),
        (9007199254740992, 17592186044416),
        (9007199254740993, 17592186044416),
        (9007199254740995, 17592186044417),
        (9223372036854775809, 18014398509481984),
        (9223372036854776833, 18014398509481988),
        (18446744073709551615, 36028797018963968),
        (18014398509483521, 35184372088835),
        (9007199254741505, 17592186044417),
    ];
    for (size, blocks) in cases {
        assert_eq!(blocks_of_size(size), blocks, "size {}", size);
        assert_eq!(blocks_of_size(size), ((size as f64) / 512.0).ceil() as u64);
    }
}

#[test]
fn blocks_are_exact_below_2_pow_53() {
    for size in [0u64, 1, 511, 512, 513, 4096, 123456789, 1 << 40, 1 << 53] {
        assert_eq!(blocks_of_size(size), (size + 511) / 512);
    }
}

#[test]
fn modes_give_kinds() {
    assert_eq!(mode_to_filetype(0o040755), FileKind::Directory);
    assert_eq!(mode_to_filetype(0o100644), FileKind::RegularFile);
    assert_eq!(mode_to_filetype(0o120777), FileKind::Symlink);
    assert_eq!(mode_to_filetype(0o060660), FileKind::BlockDevice);
    assert_eq!(mode_to_filetype(0o020620), FileKind::CharDevice);
    assert_eq!(mode_to_filetype(0o010600), FileKind::NamedPipe);
    assert_eq!(mode_to_filetype(0o140755), FileKind::Socket);
}

#[test]
fn durations_carry_nanoseconds() {
    assert_eq!(system_time_from_duration(5, 2_500_000_000), Timestamp { secs: 7, nanos: 500_000_000 });
    assert_eq!(system_time_from_duration(5, 999_999_999), Timestamp { secs: 5, nanos: 999_999_999 });
}

#[test]
fn stat_becomes_attributes() {
    let st = Stat {
        st_mode: 0o100644,
        st_nlink: (1u64 << 32) + 2,
        st_size: 4097,
        st_blocks: 16,
        st_atime: 10,
        st_atime_nsec: 1_500_000_000,
        st_mtime: 20,
        st_mtime_nsec: 7,
        st_ctime: 30,
        st_ctime_nsec: 0,
        st_uid: 1000,
        st_gid: 100,
        st_rdev: (1u64 << 32) + 9,
    };
    let a = stat_to_fuse(st);
    assert_eq!(a.kind, FileKind::RegularFile);
    assert_eq!(a.perm, 0o644);
    assert_eq!(a.size, 4097);
    assert_eq!(a.blocks, 16);
    assert_eq!(a.atime, Timestamp { secs: 11, nanos: 500_000_000 });
    assert_eq!(a.mtime, Timestamp { secs: 20, nanos: 7 });
    assert_eq!(a.ctime, Timestamp { secs: 30, nanos: 0 });
    assert_eq!(a.crtime, Timestamp { secs: 0, nanos: 0 });
    assert_eq!(a.nlink, 2);
    assert_eq!(a.rdev, 9);
    assert_eq!((a.uid, a.gid, a.flags), (1000, 100, 0));
}

#[test]
fn statfs_becomes_stats() {
    let s = statfs_to_fuse(StatfsInfo {
        f_blocks: 1,
        f_bfree: 2,
        f_bavail: 3,
        f_files: 4,
        f_ffree: 5,
        f_bsize: 4096,
        f_namelen: 255,
        f_frsize: (1i64 << 32) + 512,
    });
    assert_eq!(s, FsStats { blocks: 1, bfree: 2, bavail: 3, files: 4, ffree: 5, bsize: 4096, namelen: 255, frsize: 512 });
}
