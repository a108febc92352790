use not_redis::config::{ItemTimeoutConfig, MainQueueRetryConfig, QueueConfig, ReleaseConfig, RetryQueueConfig};
use not_redis::failed_jobs::FailedJobs;
use not_redis::job::{Queue, QueueExternal};
use not_redis::services::{create_queue, new_entries_enable, ReplyStatus};
use not_redis::worker::JobWorker;
use not_redis::shared_queues::{DequeueError, DequeueWait, SharedQueues, SharedQueuesResult};

fn queue_config(max_queue_amounts: u8) -> QueueConfig {
    QueueConfig {
        max_queue_amounts,
        queue_size_limit: 100,
        workers_sleep_time_millis: 10,
        workers_kill_timeout_seconds: 5,
        dequeue_timeout_wait_seconds: 5,
        release: ReleaseConfig {
            enable_automatic_release: false,
            item_release_sleep_millis: 10,
            item_timeout: ItemTimeoutConfig { enable: false, millis: 100 },
        },
        main_queue_retry: MainQueueRetryConfig { on_item_release_not_requested: 2, on_item_sleep_millis: 10 },
        retry_queue: RetryQueueConfig { enable: false, retry_amount: 1 },
    }
}

fn is_hyphenated_lower_hex(text: &str) -> bool {
    text.len() == 36
        && text.char_indices().all(|(i, c)| {
            if i == 8 || i == 13 || i == 18 || i == 23 {
                c == '-'
            } else {
                c.is_ascii_digit() || ('a'..='f').contains(&c)
            }
        })
}

#[test]
fn new_job_has_a_version_four_uuid() {
    let job = Queue::new("client-1".to_string(), None);
    let id = job.uuid();
    assert_eq!((id >> 76) & 0xf, 4);
    assert_eq!((id >> 62) & 0x3, 2);
    assert_eq!(job.retry_count(), 0);
    let other = Queue::new("client-1".to_string(), None);
    assert_ne!(id, other.uuid());
}

#[test]
fn external_form_writes_the_uuid_as_hyphenated_text() {
    let payload = serde_json::Value::from(42);
    let job = Queue::new("client-7".to_string(), Some(payload.clone()));
    let id = job.uuid();
    let external = QueueExternal::from(job);
    assert_eq!(external.uuid, uuid::Uuid::from_u128(id).to_string());
    assert!(is_hyphenated_lower_hex(&external.uuid));
    assert_eq!(external.identifier, "client-7");
    assert_eq!(external.job, Some(payload));
}

#[test]
fn create_queue_reports_places_left() {
    let config = queue_config(3);
    let mut queues = SharedQueues::init();
    match queues.create_queue(&config, "alpha".to_string()) {
        SharedQueuesResult::Content(available) => assert_eq!(available, 2),
        _ => panic!("queue not created"),
    }
    match queues.create_queue(&config, "beta".to_string()) {
        SharedQueuesResult::Content(available) => assert_eq!(available, 1),
        _ => panic!("queue not created"),
    }
    assert_eq!(queues.queue_count(), 2);
    assert!(queues.has_queue(&"alpha".to_string()));
}

#[test]
fn create_queue_refuses_a_name_in_use() {
    let config = queue_config(3);
    let mut queues = SharedQueues::init();
    queues.create_queue(&config, "alpha".to_string());
    match queues.create_queue(&config, "alpha".to_string()) {
        SharedQueuesResult::RequestError(msg) => assert_eq!(msg, "Queue name already in use"),
        _ => panic!("duplicate accepted"),
    }
    assert_eq!(queues.queue_count(), 1);
}

#[test]
fn create_queue_refuses_beyond_the_limit() {
    let config = queue_config(1);
    let mut queues = SharedQueues::init();
    queues.create_queue(&config, "alpha".to_string());
    match queues.create_queue(&config, "beta".to_string()) {
        SharedQueuesResult::RequestError(msg) => assert_eq!(msg, "Cannot create any more queues. Limit reached!"),
        _ => panic!("limit not enforced"),
    }
    assert!(!queues.has_queue(&"beta".to_string()));
}

#[test]
fn limit_of_zero_allows_no_queue() {
    let config = queue_config(0);
    let mut queues = SharedQueues::init();
    assert!(matches!(queues.create_queue(&config, "alpha".to_string()), SharedQueuesResult::RequestError(_)));
    assert_eq!(queues.queue_count(), 0);
}

#[test]
fn delete_queue_removes_it() {
    let config = queue_config(3);
    let mut queues = SharedQueues::init();
    queues.create_queue(&config, "alpha".to_string());
    assert!(matches!(queues.delete_queue("alpha".to_string()), SharedQueuesResult::Done));
    assert_eq!(queues.queue_count(), 0);
    match queues.get_queue_status("alpha".to_string()) {
        SharedQueuesResult::RequestError(msg) => assert_eq!(msg, "Queue name not found"),
        _ => panic!("deleted queue still there"),
    }
}

#[test]
fn delete_then_create_again_frees_the_place() {
    let config = queue_config(1);
    let mut queues = SharedQueues::init();
    queues.create_queue(&config, "alpha".to_string());
    queues.delete_queue("alpha".to_string());
    match queues.create_queue(&config, "alpha".to_string()) {
        SharedQueuesResult::Content(available) => assert_eq!(available, 0),
        _ => panic!("place not freed"),
    }
}

#[test]
fn delete_unknown_queue_says_so() {
    let mut queues = SharedQueues::init();
    match queues.delete_queue("ghost".to_string()) {
        SharedQueuesResult::Content(msg) => assert_eq!(msg, "No queue found with the requested name"),
        _ => panic!("unexpected answer"),
    }
}

#[test]
fn new_queue_status_is_empty() {
    let config = queue_config(3);
    let mut queues = SharedQueues::init();
    queues.create_queue(&config, "alpha".to_string());
    match queues.get_queue_status("alpha".to_string()) {
        SharedQueuesResult::Content(entries) => assert!(entries.is_empty()),
        _ => panic!("status missing"),
    }
}

#[test]
fn list_queues_names_every_queue_once() {
    let config = queue_config(5);
    let mut queues = SharedQueues::init();
    for name in ["a", "b", "c"] {
        queues.create_queue(&config, name.to_string());
    }
    match queues.list_queues() {
        SharedQueuesResult::Content(entries) => {
            let mut names: Vec<String> = entries.iter().map(|(name, _)| name.clone()).collect();
            names.sort();
            assert_eq!(names, vec!["a".to_string(), "b".to_string(), "c".to_string()]);
            assert!(entries.iter().all(|(_, jobs)| jobs.is_empty()));
        }
        _ => panic!("list missing"),
    }
}

#[test]
fn new_entries_can_be_switched_off_and_on() {
    let mut queues = SharedQueues::init();
    assert_eq!(queues.validate_new_entries_and_handle(), None);
    queues.new_entries_enable(false);
    assert_eq!(queues.validate_new_entries_and_handle(), Some("New entries are disabled".to_string()));
    queues.new_entries_enable(true);
    assert_eq!(queues.validate_new_entries_and_handle(), None);
}

#[test]
fn create_queue_service_answers_with_places_left() {
    let config = queue_config(12);
    let mut queues = SharedQueues::init();
    let reply = create_queue(&mut queues, &config, "alpha".to_string());
    assert_eq!(reply.status, ReplyStatus::Success);
    assert_eq!(reply.body, "11 queue places remain available");
    let reply = create_queue(&mut queues, &config, "alpha".to_string());
    assert_eq!(reply.status, ReplyStatus::BadRequest);
    assert_eq!(reply.body, "Queue name already in use");
}

#[test]
fn create_queue_service_refuses_while_entries_are_off() {
    let config = queue_config(3);
    let mut queues = SharedQueues::init();
    let reply = new_entries_enable(&mut queues, false);
    assert_eq!(reply.status, ReplyStatus::Success);
    assert_eq!(reply.body, "New entries enabled: false");
    let reply = create_queue(&mut queues, &config, "alpha".to_string());
    assert_eq!(reply.status, ReplyStatus::BadRequest);
    assert_eq!(reply.body, "New entries are disabled");
    assert_eq!(queues.queue_count(), 0);
    let reply = new_entries_enable(&mut queues, true);
    assert_eq!(reply.body, "New entries enabled: true");
}

#[test]
fn failed_jobs_are_kept_per_queue_in_order() {
    let mut failed = FailedJobs::new();
    let first = Queue::new("one".to_string(), None);
    let second = Queue::new("two".to_string(), None);
    let third = Queue::new("three".to_string(), None);
    let (a, b, c) = (first.uuid(), second.uuid(), third.uuid());
    failed.insert_into_failed_jobs("alpha", first);
    failed.insert_into_failed_jobs("beta", second);
    failed.insert_into_failed_jobs("alpha", third);
    assert_eq!(failed.failed_uuids("alpha"), vec![a, c]);
    assert_eq!(failed.failed_uuids("beta"), vec![b]);
    assert!(failed.failed_uuids("gamma").is_empty());
}

#[test]
fn waiting_for_a_job_ends_three_ways() {
    assert!(matches!(SharedQueues::retrieve_from_queue_outcome(DequeueWait::TimedOut), Ok(None)));
    let job = Queue::new("x".to_string(), None);
    let id = job.uuid();
    match SharedQueues::retrieve_from_queue_outcome(DequeueWait::Dequeued(job)) {
        Ok(Some(job)) => assert_eq!(job.uuid(), id),
        _ => panic!("job lost"),
    }
    assert!(matches!(
        SharedQueues::retrieve_from_queue_outcome(DequeueWait::ConfirmationDropped),
        Err(DequeueError::ConfirmationDropped)
    ));
}

#[test]
fn status_gives_uuid_and_identifier_of_each_job() {
    let config = queue_config(3);
    let mut queues = SharedQueues::init();
    queues.create_queue(&config, "alpha".to_string());
    let mut worker: JobWorker<u8> = JobWorker::new("alpha".to_string());
    let first = Queue::new("order-1".to_string(), None);
    let second = Queue::new("order-2".to_string(), Some(serde_json::Value::from("payload")));
    let (a, b) = (first.uuid(), second.uuid());
    worker.receive_job(&mut queues, &config, Ok(first)).ok();
    worker.receive_job(&mut queues, &config, Ok(second)).ok();
    let expected = vec![
        (uuid::Uuid::from_u128(a).to_string(), "order-1".to_string()),
        (uuid::Uuid::from_u128(b).to_string(), "order-2".to_string()),
    ];
    match queues.get_queue_status("alpha".to_string()) {
        SharedQueuesResult::Content(entries) => assert_eq!(entries, expected),
        _ => panic!("status missing"),
    }
    match queues.list_queues() {
        SharedQueuesResult::Content(entries) => assert_eq!(entries, vec![("alpha".to_string(), expected)]),
        _ => panic!("list missing"),
    }
}
