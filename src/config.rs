use vstd::prelude::*;
use crate::error::LogError;

verus! {

/// Size threshold unit: millionths of a megabyte.
pub const MICRO_MB_PER_MB: i64 = 1_000_000;

/// Settings that govern rotation and retention of the log stream.
///
/// The size threshold is held as an exact count of millionths of a megabyte
/// (`10_000_000` stands for 10 MB), so that every comparison is exact.
#[derive(Clone, Copy, Debug, PartialEq, Eq, Structural)]
pub struct LogConfig {
    pub max_file_size_micro_mb: i64,
    pub max_files: usize,
    pub enabled: bool,
}

/// Why a configuration was refused.
#[derive(Clone, Copy, Debug, PartialEq, Eq, Structural)]
pub enum ConfigFault {
    NonPositiveSize,
    ZeroFiles,
}

pub open spec fn default_config() -> LogConfig {
    LogConfig { max_file_size_micro_mb: 10_000_000, max_files: 5, enabled: true }
}

/// A configuration is acceptable when its size threshold is positive and
/// it retains at least one file.
pub open spec fn config_is_valid(c: LogConfig) -> bool {
    c.max_file_size_micro_mb > 0 && c.max_files >= 1
}

pub open spec fn config_fault(c: LogConfig) -> Option<ConfigFault> {
    if c.max_file_size_micro_mb <= 0 {
        Some(ConfigFault::NonPositiveSize)
    } else if c.max_files == 0 {
        Some(ConfigFault::ZeroFiles)
    } else {
        None
    }
}

impl Default for LogConfig {
    fn default() -> (r: Self)
        ensures
            r == default_config(),
    {
        LogConfig { max_file_size_micro_mb: 10 * MICRO_MB_PER_MB, max_files: 5, enabled: true }
    }
}

/// The configuration in force: the defaults (10 MB, five files, enabled).
pub fn get_log_config() -> (r: LogConfig)
    ensures
        r == default_config(),
        config_is_valid(r),
{
    LogConfig { max_file_size_micro_mb: 10 * MICRO_MB_PER_MB, max_files: 5, enabled: true }
}

/// Checks the shape of a configuration; nothing is stored.
pub fn update_log_config(config: &LogConfig) -> (r: Result<(), LogError>)
    ensures
        r is Ok <==> config_is_valid(*config),
        r is Err ==> r->Err_0 is InvalidConfig && Some(r->Err_0->InvalidConfig_0) == config_fault(
            *config,
        ),
{
    if config.max_file_size_micro_mb <= 0 {
        return Err(LogError::InvalidConfig(ConfigFault::NonPositiveSize));
    }
    if config.max_files == 0 {
        return Err(LogError::InvalidConfig(ConfigFault::ZeroFiles));
    }
    Ok(())
}

} // verus!
