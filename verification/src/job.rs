//! The jobs that the queues hold, and the form in which they are handed out.
use vstd::prelude::*;
use chrono::NaiveDateTime;
use serde_json::Value;

verus! {

/// The JSON payload of a job; the library carries it without looking inside.
#[verifier::external_type_specification]
#[verifier::external_body]
pub struct ExJsonValue(serde_json::Value);

/// A point in time without a time zone; the library carries it without looking inside.
#[verifier::external_type_specification]
#[verifier::external_body]
pub struct ExNaiveDateTime(chrono::NaiveDateTime);

/// A job as the library's contracts see it: its identity, the identifier that
/// the caller gave it, how often its release has been retried, its payload and
/// when it was created.
pub struct JobView {
    pub uuid: u128,
    pub identifier: Seq<char>,
    pub retry_count: u8,
    pub payload: Option<Value>,
    pub created_at: NaiveDateTime,
}

/// One job in a queue.
#[derive(Debug)]
pub struct Queue {
    uuid: u128,
    /// Sent by the user who queued the job, to identify it on their side.
    identifier: String,
    /// Optional, so that the service can also serve as a plain lock handler.
    job: Option<Value>,
    /// Creation time, in UTC.
    job_creation: NaiveDateTime,
    retry_count: u8,
}

/// A job on its way to the queue that it is meant for.
pub struct NewJobInfo {
    queue_name: String,
    job: Queue,
}

/// A job as handed out to the outside world.
pub struct QueueExternal {
    pub uuid: String,
    pub identifier: String,
    pub job: Option<Value>,
    pub job_creation: NaiveDateTime,
}

/// The `k`-th hexadecimal digit (from the most significant one, `0 <= k < 32`) of `id`.
pub open spec fn uuid_nibble(id: u128, k: int) -> u128 {
    (id >> (((31 - k) * 4) as u128)) & 0xfu128
}

/// The lower-case hexadecimal digit of a value below sixteen.
pub open spec fn hex_digit(n: u128) -> char {
    if n < 10 {
        (48 + n) as char
    } else {
        (87 + n) as char
    }
}

/// How many hyphens come before position `i` of a hyphenated uuid.
pub open spec fn hyphens_before(i: int) -> int {
    if i < 9 {
        0
    } else if i < 14 {
        1
    } else if i < 19 {
        2
    } else if i < 24 {
        3
    } else {
        4
    }
}

/// The hyphenated lower-case text of a uuid, such as
/// `67e55044-10b1-426f-9247-bb680e5fe0c8`: its 32 hexadecimal digits, most
/// significant first, in groups of 8, 4, 4, 4 and 12 joined by hyphens.
pub open spec fn hyphenated(id: u128) -> Seq<char> {
    Seq::new(
        36,
        |i: int|
            if i == 8 || i == 13 || i == 18 || i == 23 {
                '-'
            } else {
                hex_digit(uuid_nibble(id, i - hyphens_before(i)))
            },
    )
}

/// Calls `uuid::Uuid::new_v4` and returns the uuid as its 128-bit big-endian value.
/// The crate masks random bits so that the version nibble is 4 and the variant
/// bits are `10`; the other bits are random, so nothing more is stated. The crate
/// panics when the operating system gives no random bytes.
#[verifier::external_body]
fn new_random_uuid() -> (id: u128)
    ensures
        (id >> 76u128) & 0xfu128 == 4,
        (id >> 62u128) & 0x3u128 == 2,
{
    uuid::Uuid::new_v4().as_u128()
}

/// Calls `uuid::Uuid::from_u128` and formats the uuid with `Display`, which the
/// crate writes as the hyphenated lower-case text.
#[verifier::external_body]
pub(crate) fn uuid_text(id: u128) -> (text: String)
    ensures
        text@ == hyphenated(id),
{
    uuid::Uuid::from_u128(id).to_string()
}

/// Calls `chrono::Utc::now` and takes its `naive_utc` value. The result is the
/// clock's reading, so nothing is stated of it. The crate panics when the system
/// clock stands before the Unix epoch.
#[verifier::external_body]
fn utc_now() -> NaiveDateTime {
    chrono::Utc::now().naive_utc()
}

impl View for Queue {
    type V = JobView;

    closed spec fn view(&self) -> JobView {
        JobView {
            uuid: self.uuid,
            identifier: self.identifier@,
            retry_count: self.retry_count,
            payload: self.job,
            created_at: self.job_creation,
        }
    }
}

impl Queue {
    /// The payload of the job.
    pub open spec fn payload(&self) -> Option<Value> {
        self@.payload
    }

    /// When the job was created.
    pub open spec fn created_at(&self) -> NaiveDateTime {
        self@.created_at
    }

    /// A fresh job: a random version-4 uuid, the caller's identifier and payload,
    /// the current UTC time, and no retry yet.
    pub fn new(identifier: String, job: Option<Value>) -> (item: Queue)
        ensures
            item@.identifier == identifier@,
            item@.retry_count == 0,
            (item@.uuid >> 76u128) & 0xfu128 == 4,
            (item@.uuid >> 62u128) & 0x3u128 == 2,
            item.payload() == job,
    {
        Queue {
            uuid: new_random_uuid(),
            identifier,
            job,
            job_creation: utc_now(),
            retry_count: 0,
        }
    }

    /// The job's uuid, as a 128-bit value.
    pub fn uuid(&self) -> (id: u128)
        ensures
            id == self@.uuid,
    {
        self.uuid
    }

    /// How often the job's release has been retried.
    pub fn retry_count(&self) -> (count: u8)
        ensures
            count == self@.retry_count,
    {
        self.retry_count
    }

    /// What a queue's status shows of the job: its uuid and its identifier.
    pub fn status_entry(&self) -> (entry: (u128, String))
        ensures
            entry.0 == self@.uuid,
            entry.1@ == self@.identifier,
    {
        (self.uuid, self.identifier.clone())
    }

    /// The same job with its retries counted from zero again.
    pub(crate) fn with_retries_reset(self) -> (item: Queue)
        ensures
            item@ == (JobView { retry_count: 0, ..self@ }),
    {
        Queue { retry_count: 0, ..self }
    }

    /// The same job with one more retry counted.
    pub(crate) fn with_retry(self) -> (item: Queue)
        requires
            self@.retry_count < u8::MAX,
        ensures
            item@ == (JobView { retry_count: (self@.retry_count + 1) as u8, ..self@ }),
    {
        Queue { retry_count: self.retry_count + 1, ..self }
    }
}

impl QueueExternal {
    /// The outside form of a job: its uuid as hyphenated text, and its identifier,
    /// payload and creation time unchanged.
    pub fn from(value: Queue) -> (external: QueueExternal)
        ensures
            external.uuid@ == hyphenated(value@.uuid),
            external.identifier@ == value@.identifier,
            external.job == value.payload(),
            external.job_creation == value.created_at(),
    {
        QueueExternal {
            uuid: uuid_text(value.uuid),
            identifier: value.identifier,
            job: value.job,
            job_creation: value.job_creation,
        }
    }
}

} // verus!
