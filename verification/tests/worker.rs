use not_redis::config::{ItemTimeoutConfig, MainQueueRetryConfig, QueueConfig, ReleaseConfig, RetryQueueConfig};
use not_redis::failed_jobs::FailedJobs;
use not_redis::job::Queue;
use not_redis::shared_queues::{SharedQueues, SharedQueuesResult};
use not_redis::worker::{channel_empty_or_return, ChannelError, JobWorker, Release, WorkerError};

fn queue_config(max_queue_amounts: u8, retries: u8) -> QueueConfig {
    full_config(max_queue_amounts, retries, 100, false, 1)
}

fn full_config(max_queue_amounts: u8, retries: u8, queue_size_limit: u16, retry_enable: bool, retry_amount: u8) -> QueueConfig {
    QueueConfig {
        max_queue_amounts,
        queue_size_limit,
        workers_sleep_time_millis: 10,
        workers_kill_timeout_seconds: 5,
        dequeue_timeout_wait_seconds: 5,
        release: ReleaseConfig {
            enable_automatic_release: false,
            item_release_sleep_millis: 10,
            item_timeout: ItemTimeoutConfig { enable: false, millis: 100 },
        },
        main_queue_retry: MainQueueRetryConfig { on_item_release_not_requested: retries, on_item_sleep_millis: 10 },
        retry_queue: RetryQueueConfig { enable: retry_enable, retry_amount },
    }
}

fn setup(retries: u8) -> (QueueConfig, SharedQueues, FailedJobs, JobWorker<u32>) {
    let config = queue_config(4, retries);
    let mut queues = SharedQueues::init();
    queues.create_queue(&config, "main".to_string());
    (config, queues, FailedJobs::new(), JobWorker::new("main".to_string()))
}

fn status(queues: &SharedQueues) -> Vec<String> {
    match queues.get_queue_status("main".to_string()) {
        SharedQueuesResult::Content(entries) => entries.into_iter().map(|(uuid, _)| uuid).collect(),
        _ => panic!("no status"),
    }
}

fn text(id: u128) -> String {
    uuid::Uuid::from_u128(id).to_string()
}

#[test]
fn empty_channel_is_no_reason_to_stop() {
    assert!(channel_empty_or_return(ChannelError::Empty).is_ok());
    assert!(matches!(channel_empty_or_return(ChannelError::Disconnected), Err(WorkerError::ChannelDisconnected)));
}

#[test]
fn received_jobs_are_queued_in_order() {
    let (_config, mut queues, _failed, mut worker) = setup(2);
    let first = Queue::new("one".to_string(), None);
    let second = Queue::new("two".to_string(), None);
    let (a, b) = (first.uuid(), second.uuid());
    assert!(matches!(worker.receive_job(&mut queues, &queue_config(4, 2), Ok(first)), Ok(None)));
    assert!(worker.receive_job(&mut queues, &queue_config(4, 2), Err(ChannelError::Empty)).is_ok());
    assert!(worker.receive_job(&mut queues, &queue_config(4, 2), Ok(second)).is_ok());
    assert_eq!(status(&queues), vec![text(a), text(b)]);
}

#[test]
fn stop_signal_closes_the_queue_to_new_jobs() {
    let (_config, mut queues, _failed, mut worker) = setup(2);
    assert_eq!(worker.receive_stop(Err(ChannelError::Empty)).ok(), Some(false));
    assert_eq!(worker.receive_stop(Ok(())).ok(), Some(true));
    assert!(worker.receive_job(&mut queues, &queue_config(4, 2), Ok(Queue::new("late".to_string(), None))).is_ok());
    assert!(worker.receive_job(&mut queues, &queue_config(4, 2), Err(ChannelError::Disconnected)).is_ok());
    assert!(status(&queues).is_empty());
}

#[test]
fn disconnected_channels_stop_the_worker() {
    let (_config, mut queues, _failed, mut worker) = setup(2);
    assert!(matches!(worker.receive_stop(Err(ChannelError::Disconnected)), Err(WorkerError::ChannelDisconnected)));
    assert!(matches!(
        worker.receive_job(&mut queues, &queue_config(4, 2), Err(ChannelError::Disconnected)),
        Err(WorkerError::ChannelDisconnected)
    ));
    assert!(matches!(
        worker.receive_dequeue_request(Err(ChannelError::Disconnected)),
        Err(WorkerError::ChannelDisconnected)
    ));
    assert_eq!(WorkerError::ChannelDisconnected.message(), "Channel disconnected, worker has to resign...");
}

#[test]
fn job_for_a_missing_queue_stops_the_worker() {
    let (_config, mut queues, mut failed, mut worker) = setup(2);
    queues.delete_queue("main".to_string());
    match worker.receive_job(&mut queues, &queue_config(4, 2), Ok(Queue::new("x".to_string(), None))) {
        Err(error) => assert_eq!(error.message(), "Could not find the queue named: main. Exiting the worker process"),
        Ok(_) => panic!("missing queue not noticed"),
    }
    worker.receive_dequeue_request(Ok((7, 1))).ok();
    let config = queue_config(4, 2);
    match worker.release_next(&mut queues, &mut failed, &config) {
        Err(error) => assert_eq!(error.message(), "Could not find queue named: main"),
        Ok(_) => panic!("missing queue not noticed"),
    }
}

#[test]
fn nothing_is_released_while_nobody_waits() {
    let (config, mut queues, mut failed, mut worker) = setup(2);
    let job = Queue::new("one".to_string(), None);
    let a = job.uuid();
    worker.receive_job(&mut queues, &queue_config(4, 2), Ok(job)).ok();
    assert!(matches!(worker.release_next(&mut queues, &mut failed, &config), Ok(Release::NothingAwaited)));
    assert_eq!(status(&queues), vec![text(a)]);
}

#[test]
fn awaited_job_is_delivered_to_its_requester() {
    let (config, mut queues, mut failed, mut worker) = setup(2);
    let job = Queue::new("one".to_string(), None);
    let a = job.uuid();
    worker.receive_job(&mut queues, &queue_config(4, 2), Ok(job)).ok();
    assert!(worker.receive_dequeue_request(Ok((a, 99))).is_ok());
    match worker.release_next(&mut queues, &mut failed, &config) {
        Ok(Release::Deliver { confirmation, job }) => {
            assert_eq!(confirmation, 99);
            assert_eq!(job.uuid(), a);
        }
        _ => panic!("not delivered"),
    }
    assert!(status(&queues).is_empty());
    assert!(failed.failed_uuids("main").is_empty());
    // The requester was served: nobody waits any more.
    assert!(matches!(worker.release_next(&mut queues, &mut failed, &config), Ok(Release::NothingAwaited)));
}

#[test]
fn empty_queue_releases_nothing() {
    let (config, mut queues, mut failed, mut worker) = setup(2);
    worker.receive_dequeue_request(Ok((5, 1))).ok();
    assert!(matches!(worker.release_next(&mut queues, &mut failed, &config), Ok(Release::QueueEmpty)));
}

#[test]
fn unrequested_job_is_retried_then_failed() {
    let (config, mut queues, mut failed, mut worker) = setup(2);
    let job = Queue::new("one".to_string(), None);
    let a = job.uuid();
    worker.receive_job(&mut queues, &queue_config(4, 2), Ok(job)).ok();
    // Someone waits, but for another job.
    worker.receive_dequeue_request(Ok((a.wrapping_add(1), 3))).ok();
    for _ in 0..2 {
        match worker.release_next(&mut queues, &mut failed, &config) {
            Ok(Release::Requeued { uuid }) => assert_eq!(uuid, a),
            _ => panic!("not requeued"),
        }
        assert_eq!(status(&queues), vec![text(a)]);
    }
    match worker.release_next(&mut queues, &mut failed, &config) {
        Ok(Release::Failed { uuid, identifier }) => {
            assert_eq!(uuid, a);
            assert_eq!(identifier, "one");
        }
        _ => panic!("not failed"),
    }
    assert!(status(&queues).is_empty());
    assert_eq!(failed.failed_uuids("main"), vec![a]);
}

#[test]
fn requeued_job_goes_behind_the_others() {
    let (config, mut queues, mut failed, mut worker) = setup(3);
    let first = Queue::new("one".to_string(), None);
    let second = Queue::new("two".to_string(), None);
    let (a, b) = (first.uuid(), second.uuid());
    worker.receive_job(&mut queues, &queue_config(4, 2), Ok(first)).ok();
    worker.receive_job(&mut queues, &queue_config(4, 2), Ok(second)).ok();
    worker.receive_dequeue_request(Ok((b, 8))).ok();
    assert!(matches!(worker.release_next(&mut queues, &mut failed, &config), Ok(Release::Requeued { .. })));
    assert_eq!(status(&queues), vec![text(b), text(a)]);
    match worker.release_next(&mut queues, &mut failed, &config) {
        Ok(Release::Deliver { confirmation, job }) => {
            assert_eq!(confirmation, 8);
            assert_eq!(job.uuid(), b);
        }
        _ => panic!("not delivered"),
    }
    assert_eq!(status(&queues), vec![text(a)]);
}

#[test]
fn zero_retries_fail_an_unrequested_job_at_once() {
    let (config, mut queues, mut failed, mut worker) = setup(0);
    let job = Queue::new("one".to_string(), None);
    let a = job.uuid();
    worker.receive_job(&mut queues, &queue_config(4, 2), Ok(job)).ok();
    worker.receive_dequeue_request(Ok((a ^ 1, 1))).ok();
    assert!(matches!(worker.release_next(&mut queues, &mut failed, &config), Ok(Release::Failed { .. })));
    assert_eq!(failed.failed_uuids("main"), vec![a]);
}

#[test]
fn a_later_request_for_the_same_job_replaces_the_earlier() {
    let (config, mut queues, mut failed, mut worker) = setup(2);
    let job = Queue::new("one".to_string(), None);
    let a = job.uuid();
    worker.receive_job(&mut queues, &queue_config(4, 2), Ok(job)).ok();
    worker.receive_dequeue_request(Ok((a, 1))).ok();
    worker.receive_dequeue_request(Ok((a, 2))).ok();
    match worker.release_next(&mut queues, &mut failed, &config) {
        Ok(Release::Deliver { confirmation, .. }) => assert_eq!(confirmation, 2),
        _ => panic!("not delivered"),
    }
}

#[test]
fn every_job_is_accounted_for_after_release_rounds() {
    let (config, mut queues, mut failed, mut worker) = setup(1);
    let jobs: Vec<Queue> = (0..4).map(|i| Queue::new(format!("job-{}", i), None)).collect();
    let ids: Vec<u128> = jobs.iter().map(|job| job.uuid()).collect();
    for job in jobs {
        worker.receive_job(&mut queues, &queue_config(4, 2), Ok(job)).ok();
    }
    worker.receive_dequeue_request(Ok((ids[2], 0))).ok();
    worker.receive_dequeue_request(Ok((u128::MAX, 0))).ok();
    let mut delivered = Vec::new();
    for _ in 0..10 {
        if let Ok(Release::Deliver { job, .. }) = worker.release_next(&mut queues, &mut failed, &config) {
            delivered.push(job.uuid());
        }
    }
    let mut seen: Vec<String> = status(&queues);
    seen.extend(failed.failed_uuids("main").into_iter().map(text));
    seen.extend(delivered.into_iter().map(text));
    seen.sort();
    let mut expected: Vec<String> = ids.into_iter().map(text).collect();
    expected.sort();
    assert_eq!(seen, expected);
}

#[test]
fn a_full_queue_refuses_new_jobs() {
    let config = full_config(4, 2, 2, false, 1);
    let mut queues = SharedQueues::init();
    queues.create_queue(&config, "main".to_string());
    let mut worker: JobWorker<u32> = JobWorker::new("main".to_string());
    let jobs: Vec<Queue> = (0..3).map(|i| Queue::new(format!("job-{}", i), None)).collect();
    let ids: Vec<u128> = jobs.iter().map(|job| job.uuid()).collect();
    let mut answers = Vec::new();
    for job in jobs {
        answers.push(worker.receive_job(&mut queues, &config, Ok(job)));
    }
    assert!(matches!(answers[0], Ok(None)));
    assert!(matches!(answers[1], Ok(None)));
    match &answers[2] {
        Ok(Some(refused)) => assert_eq!(refused.uuid(), ids[2]),
        _ => panic!("full queue took a job"),
    }
    assert_eq!(status(&queues), vec![text(ids[0]), text(ids[1])]);
}

#[test]
fn queue_size_limit_of_zero_refuses_every_job() {
    let config = full_config(4, 2, 0, false, 1);
    let mut queues = SharedQueues::init();
    queues.create_queue(&config, "main".to_string());
    let mut worker: JobWorker<u32> = JobWorker::new("main".to_string());
    assert!(matches!(worker.receive_job(&mut queues, &config, Ok(Queue::new("x".to_string(), None))), Ok(Some(_))));
    assert!(status(&queues).is_empty());
}

#[test]
fn used_up_job_goes_to_the_retry_queue_then_fails() {
    let config = full_config(4, 1, 100, true, 2);
    let mut queues = SharedQueues::init();
    queues.create_queue(&config, "main".to_string());
    let mut failed = FailedJobs::new();
    let mut worker: JobWorker<u32> = JobWorker::new("main".to_string());
    let job = Queue::new("one".to_string(), None);
    let a = job.uuid();
    worker.receive_job(&mut queues, &config, Ok(job)).ok();
    worker.receive_dequeue_request(Ok((a ^ 1, 0))).ok();
    assert!(matches!(worker.release_next(&mut queues, &mut failed, &config), Ok(Release::Requeued { .. })));
    match worker.release_next(&mut queues, &mut failed, &config) {
        Ok(Release::MovedToRetryQueue { uuid }) => assert_eq!(uuid, a),
        _ => panic!("not moved to the retry queue"),
    }
    assert!(status(&queues).is_empty());
    assert!(failed.failed_uuids("main").is_empty());
    for _ in 0..2 {
        match worker.release_next(&mut queues, &mut failed, &config) {
            Ok(Release::Requeued { uuid }) => assert_eq!(uuid, a),
            _ => panic!("not retried in the retry queue"),
        }
    }
    match worker.release_next(&mut queues, &mut failed, &config) {
        Ok(Release::Failed { uuid, identifier }) => {
            assert_eq!(uuid, a);
            assert_eq!(identifier, "one");
        }
        _ => panic!("not failed"),
    }
    assert_eq!(failed.failed_uuids("main"), vec![a]);
    assert!(matches!(worker.release_next(&mut queues, &mut failed, &config), Ok(Release::QueueEmpty)));
}

#[test]
fn retry_queue_waits_while_the_queue_has_jobs() {
    let config = full_config(4, 0, 100, true, 3);
    let mut queues = SharedQueues::init();
    queues.create_queue(&config, "main".to_string());
    let mut failed = FailedJobs::new();
    let mut worker: JobWorker<u32> = JobWorker::new("main".to_string());
    let first = Queue::new("one".to_string(), None);
    let second = Queue::new("two".to_string(), None);
    let (a, b) = (first.uuid(), second.uuid());
    worker.receive_job(&mut queues, &config, Ok(first)).ok();
    worker.receive_dequeue_request(Ok((a, 5))).ok();
    worker.receive_dequeue_request(Ok((u128::MAX, 0))).ok();
    // Nobody waits for `second` yet: it has no retries in the queue, so it moves on.
    worker.receive_job(&mut queues, &config, Ok(second)).ok();
    match worker.release_next(&mut queues, &mut failed, &config) {
        Ok(Release::Deliver { confirmation, job }) => {
            assert_eq!(confirmation, 5);
            assert_eq!(job.uuid(), a);
        }
        _ => panic!("not delivered"),
    }
    assert!(matches!(worker.release_next(&mut queues, &mut failed, &config), Ok(Release::MovedToRetryQueue { .. })));
    // A new job enters the queue: it is served before the retry queue.
    let third = Queue::new("three".to_string(), None);
    let c = third.uuid();
    worker.receive_job(&mut queues, &config, Ok(third)).ok();
    worker.receive_dequeue_request(Ok((c, 6))).ok();
    worker.receive_dequeue_request(Ok((b, 7))).ok();
    match worker.release_next(&mut queues, &mut failed, &config) {
        Ok(Release::Deliver { confirmation, job }) => {
            assert_eq!(confirmation, 6);
            assert_eq!(job.uuid(), c);
        }
        _ => panic!("queue not served first"),
    }
    match worker.release_next(&mut queues, &mut failed, &config) {
        Ok(Release::Deliver { confirmation, job }) => {
            assert_eq!(confirmation, 7);
            assert_eq!(job.uuid(), b);
        }
        _ => panic!("retry queue not served"),
    }
}

#[test]
fn delivered_job_keeps_its_payload() {
    let (config, mut queues, mut failed, mut worker) = setup(2);
    let payload = serde_json::Value::from("the work");
    let job = Queue::new("one".to_string(), Some(payload.clone()));
    let a = job.uuid();
    worker.receive_job(&mut queues, &config, Ok(job)).ok();
    worker.receive_dequeue_request(Ok((a, 1))).ok();
    match worker.release_next(&mut queues, &mut failed, &config) {
        Ok(Release::Deliver { job, .. }) => {
            let external = not_redis::job::QueueExternal::from(job);
            assert_eq!(external.job, Some(payload));
            assert_eq!(external.identifier, "one");
        }
        _ => panic!("not delivered"),
    }
}
