use vstd::prelude::*;
use vstd::arithmetic::div_mod::{lemma_div_denominator, lemma_fundamental_div_mod};

verus! {

/// The kind of a file, as FUSE reports it.
#[derive(Clone, Copy, Debug, PartialEq, Eq, Structural)]
pub enum FileKind {
    NamedPipe,
    CharDevice,
    BlockDevice,
    Directory,
    RegularFile,
    Symlink,
    Socket,
}

/// A point in time after the Unix epoch, held as `std::time::SystemTime`
/// holds it on Unix: whole seconds (at most `i64::MAX`) and nanoseconds
/// below one second.
#[derive(Clone, Copy, Debug, PartialEq, Eq, Structural)]
pub struct Timestamp {
    pub secs: u64,
    pub nanos: u32,
}

impl Timestamp {
    /// The seconds fit a signed 64-bit count and the nanoseconds stay below a second.
    pub open spec fn wf(self) -> bool {
        self.secs <= i64::MAX && self.nanos < 1_000_000_000
    }

    /// The epoch itself.
    pub fn epoch() -> (t: Timestamp)
        ensures
            t == (Timestamp { secs: 0, nanos: 0 }),
            t.wf(),
    {
        Timestamp { secs: 0, nanos: 0 }
    }
}

/// The epoch plus a duration of `secs` seconds and `nanos` nanoseconds, the
/// nanoseconds beyond a second carried into the seconds, as
/// `UNIX_EPOCH + Duration::new(secs, nanos)` computes it.
pub open spec fn epoch_plus(secs: u64, nanos: u32) -> Timestamp {
    Timestamp {
        secs: (secs + nanos / 1_000_000_000) as u64,
        nanos: (nanos % 1_000_000_000) as u32,
    }
}

/// `UNIX_EPOCH + Duration::new(secs, nanos)`; both `Duration::new` and the
/// addition panic when the carried seconds exceed `i64::MAX`, hence the bound.
pub fn system_time_from_duration(secs: u64, nanos: u32) -> (t: Timestamp)
    requires
        secs + nanos / 1_000_000_000 <= i64::MAX,
    ensures
        t == epoch_plus(secs, nanos),
        t.wf(),
{
    Timestamp { secs: secs + (nanos / 1_000_000_000) as u64, nanos: nanos % 1_000_000_000 }
}

/// Attributes of a file as handed to FUSE.
#[derive(Clone, Copy, Debug, PartialEq, Eq, Structural)]
pub struct FileAttributes {
    pub size: u64,
    pub blocks: u64,
    pub atime: Timestamp,
    pub mtime: Timestamp,
    pub ctime: Timestamp,
    pub crtime: Timestamp,
    pub kind: FileKind,
    pub perm: u16,
    pub nlink: u32,
    pub uid: u32,
    pub gid: u32,
    pub rdev: u32,
    pub flags: u32,
}

/// File-type bits of a Unix mode (Linux values of `libc::S_IF*`).
pub const S_IFMT: u32 = 0o170000;
pub const S_IFSOCK: u32 = 0o140000;
pub const S_IFLNK: u32 = 0o120000;
pub const S_IFREG: u32 = 0o100000;
pub const S_IFBLK: u32 = 0o060000;
pub const S_IFDIR: u32 = 0o040000;
pub const S_IFCHR: u32 = 0o020000;
pub const S_IFIFO: u32 = 0o010000;

/// The kind that the file-type bits of `mode` name, if they name one.
pub open spec fn kind_of_mode(mode: u32) -> Option<FileKind> {
    let t = mode & S_IFMT;
    if t == S_IFDIR {
        Some(FileKind::Directory)
    } else if t == S_IFREG {
        Some(FileKind::RegularFile)
    } else if t == S_IFLNK {
        Some(FileKind::Symlink)
    } else if t == S_IFBLK {
        Some(FileKind::BlockDevice)
    } else if t == S_IFCHR {
        Some(FileKind::CharDevice)
    } else if t == S_IFIFO {
        Some(FileKind::NamedPipe)
    } else if t == S_IFSOCK {
        Some(FileKind::Socket)
    } else {
        None
    }
}

/// The kind of file that a Unix mode describes. A mode whose type bits name
/// no kind is a fault ("unknown file type") and is not accepted.
pub fn mode_to_filetype(mode: u32) -> (k: FileKind)
    requires
        kind_of_mode(mode) is Some,
    ensures
        Some(k) == kind_of_mode(mode),
{
    let t = mode & S_IFMT;
    if t == S_IFDIR {
        FileKind::Directory
    } else if t == S_IFREG {
        FileKind::RegularFile
    } else if t == S_IFLNK {
        FileKind::Symlink
    } else if t == S_IFBLK {
        FileKind::BlockDevice
    } else if t == S_IFCHR {
        FileKind::CharDevice
    } else if t == S_IFIFO {
        FileKind::NamedPipe
    } else {
        FileKind::Socket
    }
}

/// The fields of a Linux `stat64` that file attributes are made from.
#[derive(Clone, Copy, Debug)]
pub struct Stat {
    pub st_mode: u32,
    pub st_nlink: u64,
    pub st_size: i64,
    pub st_blocks: i64,
    pub st_atime: i64,
    pub st_atime_nsec: i64,
    pub st_mtime: i64,
    pub st_mtime_nsec: i64,
    pub st_ctime: i64,
    pub st_ctime_nsec: i64,
    pub st_uid: u32,
    pub st_gid: u32,
    pub st_rdev: u64,
}

/// A time stamp of `stat` converted as `UNIX_EPOCH + Duration::new(secs as u64, nanos as u32)`
/// converts it; the addition must not overflow.
pub open spec fn stat_time_ok(secs: i64, nanos: i64) -> bool {
    (secs as u64) + (nanos as u32) / 1_000_000_000 <= i64::MAX
}

/// The attributes that `stat_to_fuse` makes of a `stat`.
pub open spec fn stat_attributes(stat: Stat) -> FileAttributes {
    FileAttributes {
        size: stat.st_size as u64,
        blocks: stat.st_blocks as u64,
        atime: epoch_plus(stat.st_atime as u64, stat.st_atime_nsec as u32),
        mtime: epoch_plus(stat.st_mtime as u64, stat.st_mtime_nsec as u32),
        ctime: epoch_plus(stat.st_ctime as u64, stat.st_ctime_nsec as u32),
        crtime: Timestamp { secs: 0, nanos: 0 },
        kind: kind_of_mode(stat.st_mode).unwrap(),
        perm: (stat.st_mode & 0o7777) as u16,
        nlink: stat.st_nlink as u32,
        uid: stat.st_uid,
        gid: stat.st_gid,
        rdev: stat.st_rdev as u32,
        flags: 0,
    }
}

fn stat_time(secs: i64, nanos: i64) -> (t: Timestamp)
    requires
        stat_time_ok(secs, nanos),
    ensures
        t == epoch_plus(secs as u64, nanos as u32),
{
    system_time_from_duration(secs as u64, nanos as u32)
}

/// File attributes of a local `stat`: the mode gives the kind and the
/// permission bits, the time stamps count from the epoch, the creation time
/// is the epoch. Modes of no known kind and time stamps that overflow are faults.
pub fn stat_to_fuse(stat: Stat) -> (attr: FileAttributes)
    requires
        kind_of_mode(stat.st_mode) is Some,
        stat_time_ok(stat.st_atime, stat.st_atime_nsec),
        stat_time_ok(stat.st_mtime, stat.st_mtime_nsec),
        stat_time_ok(stat.st_ctime, stat.st_ctime_nsec),
    ensures
        attr == stat_attributes(stat),
{
    let kind = mode_to_filetype(stat.st_mode);
    let perm = (stat.st_mode & 0o7777) as u16;
    FileAttributes {
        size: stat.st_size as u64,
        blocks: stat.st_blocks as u64,
        atime: stat_time(stat.st_atime, stat.st_atime_nsec),
        mtime: stat_time(stat.st_mtime, stat.st_mtime_nsec),
        ctime: stat_time(stat.st_ctime, stat.st_ctime_nsec),
        crtime: Timestamp::epoch(),
        kind,
        perm,
        nlink: stat.st_nlink as u32,
        uid: stat.st_uid,
        gid: stat.st_gid,
        rdev: stat.st_rdev as u32,
        flags: 0,
    }
}

/// The fields of a Linux `statfs` that file-system statistics are made from.
#[derive(Clone, Copy, Debug)]
pub struct StatfsInfo {
    pub f_blocks: u64,
    pub f_bfree: u64,
    pub f_bavail: u64,
    pub f_files: u64,
    pub f_ffree: u64,
    pub f_bsize: i64,
    pub f_namelen: i64,
    pub f_frsize: i64,
}

/// File-system statistics as handed to FUSE.
#[derive(Clone, Copy, Debug, PartialEq, Eq, Structural)]
pub struct FsStats {
    pub blocks: u64,
    pub bfree: u64,
    pub bavail: u64,
    pub files: u64,
    pub ffree: u64,
    pub bsize: u32,
    pub namelen: u32,
    pub frsize: u32,
}

/// File-system statistics of a local `statfs`, the sizes cut to 32 bits.
pub fn statfs_to_fuse(statfs: StatfsInfo) -> (s: FsStats)
    ensures
        s == (FsStats {
            blocks: statfs.f_blocks,
            bfree: statfs.f_bfree,
            bavail: statfs.f_bavail,
            files: statfs.f_files,
            ffree: statfs.f_ffree,
            bsize: statfs.f_bsize as u32,
            namelen: statfs.f_namelen as u32,
            frsize: statfs.f_frsize as u32,
        }),
{
    FsStats {
        blocks: statfs.f_blocks,
        bfree: statfs.f_bfree,
        bavail: statfs.f_bavail,
        files: statfs.f_files,
        ffree: statfs.f_ffree,
        bsize: statfs.f_bsize as u32,
        namelen: statfs.f_namelen as u32,
        frsize: statfs.f_frsize as u32,
    }
}

/// The spacing of `f64` values around `n`: 1 below 2^53, doubling with each
/// binade above.
pub open spec fn f64_ulp(n: nat) -> nat
    decreases n,
{
    if n < 0x20_0000_0000_0000 {
        1
    } else {
        2 * f64_ulp(n / 2)
    }
}

/// `n as f64` for a natural number: `n` rounded to the nearest multiple of
/// its spacing, ties to the even significand.
pub open spec fn f64_nearest(n: nat) -> nat {
    let p = f64_ulp(n);
    let q = n / p;
    let r = n % p;
    if 2 * r > p || (2 * r == p && q % 2 == 1) {
        (q + 1) * p
    } else {
        q * p
    }
}

/// Number of 512-byte blocks of a file of `size` bytes, computed as
/// `((size as f64) / 512.0).ceil() as u64` computes it.
pub open spec fn blocks_for_size(size: u64) -> u64 {
    ((f64_nearest(size as nat) + 511) / 512) as u64
}

/// `size as f64`, held exactly in a `u128`.
fn f64_nearest_of(n: u64) -> (r: u128)
    ensures
        r == f64_nearest(n as nat),
        r <= 2 * n + 2,
{
    let mut p: u128 = 1;
    let mut m: u128 = n as u128;
    while m >= 0x20_0000_0000_0000
        invariant
            p >= 1,
            m == n as nat / p as nat,
            f64_ulp(n as nat) == p * f64_ulp(m as nat),
            p <= n + 1,
            m <= n,
        decreases m,
    {
        proof {
            let ni = n as int;
            let pi = p as int;
            let mi = m as int;
            lemma_div_denominator(ni, pi, 2);
            lemma_fundamental_div_mod(ni, pi);
            vstd::arithmetic::div_mod::lemma_mod_pos_bound(ni, pi);
            assert(pi * mi <= ni);
            assert(pi * 2 <= ni) by (nonlinear_arith)
                requires
                    mi >= 2,
                    pi * mi <= ni,
                    pi >= 1,
            ;
            assert(f64_ulp(m as nat) == 2 * f64_ulp((m / 2) as nat));
            assert(pi * (2 * f64_ulp((m / 2) as nat)) == (pi * 2) * f64_ulp((m / 2) as nat))
                by (nonlinear_arith);
        }
        p = p * 2;
        m = m / 2;
    }
    proof {
        lemma_fundamental_div_mod(n as int, p as int);
        vstd::arithmetic::div_mod::lemma_mod_pos_bound(n as int, p as int);
        assert(f64_ulp(m as nat) == 1);
        let u = f64_ulp(m as nat);
        assert(f64_ulp(n as nat) == p * u);
        assert(p * u == p) by (nonlinear_arith)
            requires
                u == 1,
        ;
        assert((p as int) * (m as int) <= n as int);
    }
    let rem: u128 = n as u128 - p * m;
    if 2 * rem > p || (2 * rem == p && m % 2 == 1) {
        proof {
            assert((m + 1) * p == m * p + p) by (nonlinear_arith);
            assert(m * p == p * m) by (nonlinear_arith);
        }
        (m + 1) * p
    } else {
        proof {
            assert(m * p == p * m) by (nonlinear_arith);
        }
        m * p
    }
}

/// Number of 512-byte blocks of a file of `size` bytes, rounded up, with the
/// size first rounded to the nearest `f64`.
pub fn blocks_of_size(size: u64) -> (b: u64)
    ensures
        b == blocks_for_size(size),
{
    let nearest = f64_nearest_of(size);
    ((nearest + 511) / 512) as u64
}

/// Every size up to 2^53 bytes is an exact `f64`, so there the block count is
/// the size divided by 512, rounded up.
pub proof fn lemma_blocks_exact_below_2_pow_53(size: u64)
    requires
        size <= 0x20_0000_0000_0000,
    ensures
        blocks_for_size(size) == (size + 511) / 512,
{
    if size < 0x20_0000_0000_0000 {
        assert(f64_ulp(size as nat) == 1);
        assert(f64_nearest(size as nat) == size);
    } else {
        assert(f64_ulp((size / 2) as nat) == 1);
        assert(f64_ulp(size as nat) == 2);
        assert(f64_nearest(size as nat) == size);
    }
}

} // verus!
