//! The configuration record and its defaults.

use vstd::prelude::*;

verus! {

/// Seconds between periodic flushes when none, or zero, is configured.
pub const DEFAULT_INTERVAL: u64 = 5;

/// Settings of the sink, fixed after startup.
#[derive(Debug, Clone)]
pub struct Config {
    /// Socket address to listen on, such as `127.0.0.1:4000`.
    pub listen: String,
    /// Seconds between periodic flushes.
    pub interval: u64,
    /// Buffer size at which an insert asks for a flush; `0` turns this off.
    pub batch_size: u64,
}

/// The listen address used when none is configured.
pub open spec fn default_listen_text() -> Seq<char> {
    "127.0.0.1:4000"@
}

/// The interval that a configuration stands for: a configured `0` means the default.
pub open spec fn effective_interval_of(interval: u64) -> u64 {
    if interval == 0 {
        DEFAULT_INTERVAL
    } else {
        interval
    }
}

/// The buffer size that triggers a flush, if any: `None` when `batch_size` is
/// `0` or does not fit the platform's index width.
pub open spec fn batch_threshold_of(batch_size: u64) -> Option<usize> {
    if batch_size == 0 || batch_size > usize::MAX {
        None
    } else {
        Some(batch_size as usize)
    }
}

pub fn default_listen() -> (listen: String)
    ensures
        listen@ == default_listen_text(),
{
    "127.0.0.1:4000".to_string()
}

pub fn default_interval() -> (interval: u64)
    ensures
        interval == DEFAULT_INTERVAL,
{
    DEFAULT_INTERVAL
}

pub fn default_batch_size() -> (batch_size: u64)
    ensures
        batch_size == 0,
{
    0
}

impl Config {
    /// Seconds between two periodic flushes; never zero.
    pub fn effective_interval(&self) -> (seconds: u64)
        ensures
            seconds == effective_interval_of(self.interval),
            seconds > 0,
    {
        if self.interval == 0 {
            DEFAULT_INTERVAL
        } else {
            self.interval
        }
    }

    /// The same configuration with a zero interval replaced by the default.
    pub fn normalized(self) -> (config: Config)
        ensures
            config.listen == self.listen,
            config.batch_size == self.batch_size,
            config.interval == effective_interval_of(self.interval),
    {
        let interval: u64 = self.effective_interval();
        Config { listen: self.listen, interval, batch_size: self.batch_size }
    }

    /// The buffer size at which an insert asks for a flush.
    pub fn batch_threshold(&self) -> (threshold: Option<usize>)
        ensures
            threshold == batch_threshold_of(self.batch_size),
    {
        if self.batch_size == 0 || self.batch_size > usize::MAX as u64 {
            None
        } else {
            Some(self.batch_size as usize)
        }
    }
}

} // verus!
