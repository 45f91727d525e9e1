# rfs

A FUSE client for SeaweedFS filers. The library (`src/`, verified with Verus)
holds the logic: filer path arithmetic (file name, parent, depth), conversion
of filer entries and JSON listings into file attributes (including the block
count as the `f64` computation gives it), the filer URL list with its
round-robin choice and gRPC endpoints, query parameters of filer requests, and
the inode lookup tables. Calls into `url`, `chrono` and `uuid` stand behind
small trusted wrappers whose contracts are stated in `src/filer_url.rs`,
`src/filer_utils.rs` and `src/inode.rs`.

`app/` is the program around it: command line (clap), logging, the tokio
runtime, the gRPC and HTTP clients, and the `fuse_mt` file system.
