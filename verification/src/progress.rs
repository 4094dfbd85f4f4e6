//! Progress reporting: cache events fanned out to a pluggable sink.
//!
//! The cache emits one `Fetching` event per test case before any other
//! work, then exactly one of `CacheHit`, `CacheMiss` or
//! `DownloadFailed`.  The monitor forwards each event to a sink the
//! user supplies; the default sink ignores everything.

use vstd::prelude::*;

use crate::discovery::TestCase;
use crate::results::SerializableError;

verus! {

/// Messages emitted by the cache as it resolves a test case's assets.
#[derive(Debug, PartialEq, Eq)]
pub enum CacheStatusMessage {
    /// Work on the case's assets is starting.
    Fetching(TestCase),
    /// The assets were already on disk.
    CacheHit(TestCase),
    /// The assets were downloaded.
    CacheMiss { test_case: TestCase, duration_ms: u64, bytes_downloaded: u64 },
    /// The download failed; the case is reported as a fetch failure.
    DownloadFailed { test_case: TestCase, error: SerializableError },
}

/// A progress sink.  Implementations observe the pipeline; the default
/// hooks do nothing.
pub trait Progress {
    fn downloading(&mut self, test_case: TestCase) {
    }

    fn cache_hit(&mut self, test_case: TestCase) {
    }

    fn cache_miss(&mut self, test_case: TestCase, duration_ms: u64, bytes_downloaded: u64) {
    }

    fn downloading_assets_failed(&mut self, test_case: TestCase, error: SerializableError) {
    }
}

/// The sink used when the caller supplies none.
#[derive(Debug, Clone, Copy, PartialEq, Eq)]
pub struct NoopProgress;

impl Progress for NoopProgress {

}

/// Forwards cache events to the sink, one hook per message kind.
#[derive(Debug)]
pub struct ProgressMonitor<P: Progress> {
    sink: P,
}

impl<P: Progress> ProgressMonitor<P> {
    pub fn new(sink: P) -> ProgressMonitor<P> {
        ProgressMonitor { sink }
    }

    /// Dispatch one cache event to the matching hook.
    pub fn handle(&mut self, msg: CacheStatusMessage) {
        match msg {
            CacheStatusMessage::Fetching(test_case) => self.sink.downloading(test_case),
            CacheStatusMessage::CacheHit(test_case) => self.sink.cache_hit(test_case),
            CacheStatusMessage::CacheMiss { test_case, duration_ms, bytes_downloaded } => self
                .sink
                .cache_miss(test_case, duration_ms, bytes_downloaded),
            CacheStatusMessage::DownloadFailed { test_case, error } => self
                .sink
                .downloading_assets_failed(test_case, error),
        }
    }
}

/// The per-case event protocol: `Fetching` first, then exactly one
/// resolution event.
pub fn cache_events(test_case: &TestCase, resolution: CacheStatusMessage) -> (r: Vec<
    CacheStatusMessage,
>)
    requires
        !(resolution is Fetching),
    ensures
        r@.len() == 2,
        r@[0] matches CacheStatusMessage::Fetching(tc) && tc == *test_case,
        r@[1] == resolution,
        !(r@[1] is Fetching),
{
    let mut events: Vec<CacheStatusMessage> = Vec::new();
    events.push(CacheStatusMessage::Fetching(test_case.clone()));
    events.push(resolution);
    events
}

} // verus!
