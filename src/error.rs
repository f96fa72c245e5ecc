use vstd::prelude::*;
use crate::config::ConfigFault;

verus! {

/// Failures reported by the log store. Those that come from the file system
/// carry the system's message.
#[derive(Debug)]
pub enum LogError {
    /// The log directory cannot be created or read.
    Directory(String),
    /// An oversized current file could not be set aside.
    Rotation(String),
    /// The current file cannot be opened or appended to.
    Write(String),
    /// The requested file does not exist.
    NotFound(String),
    /// The requested file exists but cannot be read.
    Read(String),
    /// The requested name would leave the log directory.
    InvalidPath,
    /// The configuration has the wrong shape.
    InvalidConfig(ConfigFault),
}

} // verus!
