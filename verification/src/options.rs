use vstd::prelude::*;

verus! {

/// The command line of the mount tool.
pub struct Cli {
    pub command: Commands,
    /// Debug logging; takes precedence over `quiet`.
    pub debug: bool,
    /// Quiet logging.
    pub quiet: bool,
}

/// The subcommands.
pub enum Commands {
    /// Connect a FUSE mount to a SeaweedFS cluster.
    Mount(Mount),
}

/// Arguments of the mount subcommand.
pub struct Mount {
    /// Comma-separated filer URLs.
    pub filer_addr: String,
    /// Remote directory of the filer.
    pub filer_remote_dir: String,
    /// Local mount point.
    pub mnt_dir: String,
}

/// How much the tool logs.
#[derive(Clone, Copy, Debug, PartialEq, Eq, Structural)]
pub enum LogLevel {
    Off,
    Info,
    Debug,
}

impl Cli {
    /// The log level the flags ask for: debug wins over quiet; neither gives info.
    pub fn log_level(&self) -> (l: LogLevel)
        ensures
            l == (if self.debug {
                LogLevel::Debug
            } else if self.quiet {
                LogLevel::Off
            } else {
                LogLevel::Info
            }),
    {
        if self.debug {
            LogLevel::Debug
        } else if self.quiet {
            LogLevel::Off
        } else {
            LogLevel::Info
        }
    }
}

} // verus!
