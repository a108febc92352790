//! What the service answers to its queue requests.
use vstd::prelude::*;
use crate::config::QueueConfig;
use crate::shared_queues::{after_create, lemma_create_respects_limit, create_outcome, CreateOutcome, SharedQueues, SharedQueuesResult};
use crate::text::{decimal, decimal_text, decimal_value, lemma_decimal_reads_back};

verus! {

/// The status of an answer.
#[derive(Debug, PartialEq, Eq, Structural)]
pub enum ReplyStatus {
    Success,
    BadRequest,
    Unauthorized,
    InternalServerError,
}

/// An answer: its status and its body (empty where there is none).
pub struct Reply {
    pub status: ReplyStatus,
    pub body: String,
}

/// The body of a successful creation, where `available` more queues may be created.
pub open spec fn places_remaining_text(available: nat) -> Seq<char> {
    decimal(available) + " queue places remain available"@
}

/// The body of a successful creation is the number of places left, written in
/// decimal digits, most significant first, followed by the fixed sentence: the
/// text before the sentence reads back as that number.
pub proof fn lemma_places_remaining_text_reads_back(available: nat)
    ensures
        places_remaining_text(available) == decimal(available) + " queue places remain available"@,
        decimal_value(
            places_remaining_text(available).subrange(
                0,
                places_remaining_text(available).len() - " queue places remain available"@.len(),
            ),
        ) == available,
{
    let text = places_remaining_text(available);
    let suffix = " queue places remain available"@;
    assert(text.subrange(0, text.len() - suffix.len()) =~= decimal(available));
    lemma_decimal_reads_back(available);
}

/// Answers a request to create the queue `queue_name`: refused while new entries
/// are kept out; otherwise the queue is created as `SharedQueues::create_queue`
/// does, and the answer tells how many more queues may be created, or why none was.
pub fn create_queue(queues: &mut SharedQueues, config: &QueueConfig, queue_name: String) -> (reply: Reply)
    requires
        old(queues).wf(),
        old(queues).accepts_new_entries() ==> old(queues).queues().dom().len() <= config.max_queue_amounts
            || old(queues).queues().dom().contains(queue_name@),
    ensures
        final(queues).wf(),
        final(queues).accepts_new_entries() == old(queues).accepts_new_entries(),
        !old(queues).accepts_new_entries() ==> final(queues).queues() == old(queues).queues()
            && reply.status == ReplyStatus::BadRequest && reply.body@ == "New entries are disabled"@,
        old(queues).accepts_new_entries() ==> {
            &&& final(queues).queues() == after_create(old(queues).queues(), config.max_queue_amounts, queue_name@)
            &&& match create_outcome(old(queues).queues(), config.max_queue_amounts, queue_name@) {
                CreateOutcome::Created => reply.status == ReplyStatus::Success && reply.body@
                    == places_remaining_text((config.max_queue_amounts - final(queues).queues().dom().len()) as nat)
                    && reply.body@ == decimal((config.max_queue_amounts - final(queues).queues().dom().len()) as nat)
                    + " queue places remain available"@,
                CreateOutcome::LimitReached => reply.status == ReplyStatus::BadRequest
                    && reply.body@ == "Cannot create any more queues. Limit reached!"@,
                CreateOutcome::NameInUse => reply.status == ReplyStatus::BadRequest
                    && reply.body@ == "Queue name already in use"@,
            }
        },
{
    if let Some(result) = queues.validate_new_entries_and_handle() {
        return Reply { status: ReplyStatus::BadRequest, body: result };
    }
    let ghost before = queues.queues();
    proof {
        if create_outcome(before, config.max_queue_amounts, queue_name@) == CreateOutcome::Created {
            lemma_create_respects_limit(before, config.max_queue_amounts, queue_name@);
        }
    }
    match queues.create_queue(config, queue_name) {
        SharedQueuesResult::Content(available) => {
            let mut body = decimal_text(available as u128);
            body.append(" queue places remain available");
            proof {
                assert(body@ == places_remaining_text(available as nat));
            }
            Reply { status: ReplyStatus::Success, body }
        },
        SharedQueuesResult::RequestError(msg) => Reply { status: ReplyStatus::BadRequest, body: msg },
        SharedQueuesResult::Done => Reply { status: ReplyStatus::InternalServerError, body: String::new() },
    }
}

/// The body of the answer to switching new entries on or off.
pub open spec fn entries_enabled_text(enable: bool) -> Seq<char> {
    "New entries enabled: "@ + if enable {
        "true"@
    } else {
        "false"@
    }
}

/// Answers a request to let new entries in, or keep them out.
pub fn new_entries_enable(queues: &mut SharedQueues, enable: bool) -> (reply: Reply)
    requires
        old(queues).wf(),
    ensures
        final(queues).wf(),
        final(queues).accepts_new_entries() == enable,
        final(queues).queues() == old(queues).queues(),
        reply.status == ReplyStatus::Success,
        reply.body@ == entries_enabled_text(enable),
{
    queues.new_entries_enable(enable);
    let mut body = "New entries enabled: ".to_owned();
    if enable {
        body.append("true");
    } else {
        body.append("false");
    }
    Reply { status: ReplyStatus::Success, body }
}

} // verus!
