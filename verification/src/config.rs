//! Service configuration, as read once at start-up.
use vstd::prelude::*;

verus! {

/// The whole service configuration.
pub struct Config {
    pub api: ApiConfig,
    pub queue: QueueConfig,
}

/// Where the HTTP interface listens, and the token it expects.
pub struct ApiConfig {
    pub url: String,
    pub port: u16,
    pub token: String,
}

/// Limits and timings of the queues and of their workers.
pub struct QueueConfig {
    pub max_queue_amounts: u8,
    pub queue_size_limit: u16,
    pub workers_sleep_time_millis: u32,
    pub workers_kill_timeout_seconds: u16,
    pub dequeue_timeout_wait_seconds: u16,
    pub release: ReleaseConfig,
    pub main_queue_retry: MainQueueRetryConfig,
    pub retry_queue: RetryQueueConfig,
}

/// Automatic release of items.
pub struct ReleaseConfig {
    pub enable_automatic_release: bool,
    pub item_release_sleep_millis: u32,
    pub item_timeout: ItemTimeoutConfig,
}

/// How long an item may wait before it times out.
pub struct ItemTimeoutConfig {
    pub enable: bool,
    pub millis: u32,
}

/// Retries in the main queue of an item that nobody requested.
pub struct MainQueueRetryConfig {
    pub on_item_release_not_requested: u8,
    pub on_item_sleep_millis: u16,
}

/// The secondary retry queue.
pub struct RetryQueueConfig {
    pub enable: bool,
    pub retry_amount: u8,
}

impl ApiConfig {
    /// The address to bind the HTTP server to: the configured url and port.
    pub fn get_bind(&self) -> (bind: (String, u16))
        ensures
            bind.0@ == self.url@,
            bind.1 == self.port,
    {
        (self.url.clone(), self.port)
    }
}

} // verus!
