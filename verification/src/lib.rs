//! A multi-queue job broker: named queues with a configurable limit, per-queue
//! worker decisions (enqueue, release on request, retry, fail), failed-job
//! bookkeeping, request authorization and the text of the service's replies.

pub mod auth;
pub mod config;
pub mod failed_jobs;
pub mod job;
pub mod services;
pub mod shared_queues;
pub mod text;
pub mod worker;
