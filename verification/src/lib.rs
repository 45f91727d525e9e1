//! Verified core of a FUSE client for SeaweedFS filers: path arithmetic,
//! conversion of filer entries into file attributes, the filer URL list and
//! its round-robin selection, request parameters, and the inode lookup tables.

pub mod errors;
pub mod file_attr;
pub mod filer_client;
pub mod filer_requests;
pub mod filer_url;
pub mod filer_utils;
pub mod inode;
pub mod options;
pub mod paths;
pub mod swfs;

pub use errors::{FilerParseError, FilerRequestError};
pub use file_attr::{
    blocks_of_size, mode_to_filetype, stat_to_fuse, statfs_to_fuse, system_time_from_duration,
    FileAttributes, FileKind, FsStats, Stat, StatfsInfo, Timestamp,
};
pub use filer_client::FilerClient;
pub use filer_requests::{
    get_params_as_vec, path_segments, remove_last_path_url, Delete, FilerGetRequest, FilerInfo,
    Get, PostPut, QueryParams,
};
pub use filer_url::{FilerUrl, UrlError};
pub use filer_utils::{
    convert_entry_to_swfsfile, convert_json_swfsfile_vec, convert_rc3339_to_system_time,
    convert_unix_sec_to_system_time, try_convert_json_swfsfile_vec,
    try_convert_rc3339_to_system_time, Entry, FuseAttributes, ListingEntry, SwfsFile,
};
pub use inode::{inode_of_uuid, InodeTable};
pub use options::{Cli, Commands, LogLevel, Mount};
pub use paths::{calc_file_name_from_path, calc_parent_from_path, calc_parent_num_from_path};
pub use swfs::{extract_name_parent_from_path, getattr_attributes, readdir_entries, DirEntry};
