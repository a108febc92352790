//! The named queues of the service, held in a concurrent map, and the switch
//! that lets new entries in.
use vstd::prelude::*;
use std::collections::VecDeque;
use dashmap::DashMap;
use crate::config::QueueConfig;
use crate::job::{hyphenated, uuid_text, JobView, Queue};

verus! {

/// A concurrent hash map; the library sees what it holds only through
/// `queued_jobs` and the functions below. Those that change it take it by
/// `&mut`, though the crate's methods take `&self`, so that nothing else changes
/// it meanwhile.
#[verifier::external_type_specification]
#[verifier::external_body]
#[verifier::reject_recursive_types(K)]
#[verifier::reject_recursive_types(V)]
#[verifier::reject_recursive_types(S)]
pub struct ExDashMap<K, V, S>(DashMap<K, V, S>);

/// What a map of queues holds: for each queue name, the jobs of that queue,
/// front first.
pub uninterp spec fn queued_jobs(map: DashMap<String, VecDeque<Queue>>) -> Map<Seq<char>, Seq<JobView>>;

/// The views of a sequence of jobs.
pub open spec fn job_views(items: Seq<Queue>) -> Seq<JobView> {
    items.map_values(|item: Queue| item@)
}

/// The uuids of a sequence of job views, in the same order.
pub open spec fn uuids_of(jobs: Seq<JobView>) -> Seq<u128> {
    jobs.map_values(|job: JobView| job.uuid)
}

/// The uuid and identifier of each job, in the same order.
pub open spec fn status_keys(jobs: Seq<JobView>) -> Seq<(u128, Seq<char>)> {
    jobs.map_values(|job: JobView| (job.uuid, job.identifier))
}

/// What a queue's status shows of each job, in the same order: its uuid as
/// hyphenated text, and its identifier.
pub open spec fn status_texts(jobs: Seq<JobView>) -> Seq<(Seq<char>, Seq<char>)> {
    jobs.map_values(|job: JobView| (hyphenated(job.uuid), job.identifier))
}

/// The view of status entries handed out as (uuid, identifier).
pub open spec fn entry_views(entries: Seq<(u128, String)>) -> Seq<(u128, Seq<char>)> {
    entries.map_values(|entry: (u128, String)| (entry.0, entry.1@))
}

/// The view of status entries handed out as text.
pub open spec fn text_views(entries: Seq<(String, String)>) -> Seq<(Seq<char>, Seq<char>)> {
    entries.map_values(|entry: (String, String)| (entry.0@, entry.1@))
}

/// Calls `DashMap::new`: an empty map.
#[verifier::external_body]
fn new_map() -> (created: DashMap<String, VecDeque<Queue>>)
    ensures
        queued_jobs(created).dom() == Set::<Seq<char>>::empty(),
{
    DashMap::new()
}

/// Calls `DashMap::len`: the number of queues.
#[verifier::external_body]
fn map_len(map: &DashMap<String, VecDeque<Queue>>) -> (len: usize)
    ensures
        len == queued_jobs(*map).dom().len(),
{
    map.len()
}

/// Calls `DashMap::contains_key`: whether a queue of that name exists.
#[verifier::external_body]
fn map_contains(map: &DashMap<String, VecDeque<Queue>>, name: &String) -> (found: bool)
    ensures
        found == queued_jobs(*map).dom().contains(name@),
{
    map.contains_key(name)
}

/// Calls `DashMap::insert`: the queue `name` now holds `items`, whether or not it
/// existed.
#[verifier::external_body]
fn map_insert(map: &mut DashMap<String, VecDeque<Queue>>, name: String, items: VecDeque<Queue>)
    ensures
        queued_jobs(*final(map)) == queued_jobs(*old(map)).insert(name@, job_views(items@)),
{
    map.insert(name, items);
}

/// Calls `DashMap::remove` and hands out the jobs of the removed queue; `None`
/// where no queue has that name.
#[verifier::external_body]
fn map_remove(map: &mut DashMap<String, VecDeque<Queue>>, name: &String) -> (removed: Option<VecDeque<Queue>>)
    ensures
        match removed {
            None => !queued_jobs(*old(map)).dom().contains(name@),
            Some(items) => queued_jobs(*old(map)).dom().contains(name@)
                && job_views(items@) == queued_jobs(*old(map))[name@],
        },
        queued_jobs(*final(map)) == queued_jobs(*old(map)).remove(name@),
{
    map.remove(name).map(|(_, items)| items)
}

/// Calls `DashMap::get` and hands out the uuid and identifier of each of the
/// queue's jobs, front first; `None` where no queue has that name.
#[verifier::external_body]
fn map_entries(map: &DashMap<String, VecDeque<Queue>>, name: &String) -> (entries: Option<Vec<(u128, String)>>)
    ensures
        match entries {
            None => !queued_jobs(*map).dom().contains(name@),
            Some(found) => queued_jobs(*map).dom().contains(name@)
                && entry_views(found@) == status_keys(queued_jobs(*map)[name@]),
        },
{
    map.get(name).map(|queue| queue.iter().map(|item| item.status_entry()).collect())
}

/// Calls `DashMap::iter` and hands out each queue's name with the uuid and
/// identifier of each of its jobs, front first. The order of the queues follows
/// the map's hashing, which is seeded anew in each process, so only this is
/// stated: every queue comes exactly once.
#[verifier::external_body]
fn map_snapshot(map: &DashMap<String, VecDeque<Queue>>) -> (entries: Vec<(String, Vec<(u128, String)>)>)
    ensures
        entries@.len() == queued_jobs(*map).dom().len(),
        forall|i: int|
            0 <= i < entries@.len() ==> #[trigger] queued_jobs(*map).dom().contains(entries@[i].0@)
                && entry_views(entries@[i].1@) == status_keys(queued_jobs(*map)[entries@[i].0@]),
        forall|name: Seq<char>|
            #[trigger] queued_jobs(*map).dom().contains(name) ==> exists|i: int|
                0 <= i < entries@.len() && #[trigger] entries@[i].0@ == name,
        forall|i: int, j: int|
            0 <= i < j < entries@.len() ==> #[trigger] entries@[i].0@ != #[trigger] entries@[j].0@,
{
    map.iter().map(|entry| (entry.key().clone(), entry.value().iter().map(|item| item.status_entry()).collect())).collect()
}

/// The answer of a queue operation: done, done with some content, or refused
/// with a reason.
pub enum SharedQueuesResult<S> {
    Done,
    Content(S),
    RequestError(String),
}

/// How waiting for a requested job ended.
pub enum DequeueWait {
    /// The wait timed out first.
    TimedOut,
    /// The worker sent the job.
    Dequeued(Queue),
    /// The worker dropped the channel without sending anything.
    ConfirmationDropped,
}

/// Why a requested job could not be had.
pub enum DequeueError {
    /// The worker dropped the channel without sending anything.
    ConfirmationDropped,
}

/// What became of a job offered to a queue.
pub enum Enqueue {
    /// It went to the end of the queue.
    Queued,
    /// The queue holds as many jobs as it may: the job is handed back.
    QueueFull(Queue),
    /// No queue has that name: the job is dropped.
    MissingQueue,
}

/// What creating a queue does to the queues that exist.
pub enum CreateOutcome {
    Created,
    LimitReached,
    NameInUse,
}

/// Which way creating the queue `name` goes, where `max` queues may exist.
pub open spec fn create_outcome(queues: Map<Seq<char>, Seq<JobView>>, max: u8, name: Seq<char>) -> CreateOutcome {
    if queues.dom().len() == max as nat {
        CreateOutcome::LimitReached
    } else if queues.dom().contains(name) {
        CreateOutcome::NameInUse
    } else {
        CreateOutcome::Created
    }
}

/// The queues after creating the queue `name`, where `max` queues may exist: a
/// new empty queue, unless the limit is reached or the name is in use.
pub open spec fn after_create(queues: Map<Seq<char>, Seq<JobView>>, max: u8, name: Seq<char>) -> Map<Seq<char>, Seq<JobView>> {
    match create_outcome(queues, max, name) {
        CreateOutcome::Created => queues.insert(name, Seq::empty()),
        _ => queues,
    }
}

/// The limit on queues holds: where at most `max` queues exist, at most `max`
/// exist after creating one more, and a creation that succeeds adds exactly one.
pub proof fn lemma_create_respects_limit(queues: Map<Seq<char>, Seq<JobView>>, max: u8, name: Seq<char>)
    requires
        queues.dom().finite(),
        queues.dom().len() <= max,
    ensures
        after_create(queues, max, name).dom().finite(),
        after_create(queues, max, name).dom().len() <= max,
        create_outcome(queues, max, name) == CreateOutcome::Created ==> after_create(queues, max, name).dom().len()
            == queues.dom().len() + 1,
{
}

/// Deleting a queue undoes its creation: a new queue is empty, and once it is
/// deleted again the queues are as they were before.
pub proof fn lemma_delete_undoes_create(queues: Map<Seq<char>, Seq<JobView>>, max: u8, name: Seq<char>)
    requires
        create_outcome(queues, max, name) == CreateOutcome::Created,
    ensures
        after_create(queues, max, name)[name] == Seq::<JobView>::empty(),
        after_create(queues, max, name).remove(name) == queues,
{
    assert(after_create(queues, max, name).remove(name) =~= queues);
}

/// A queue's status lists what was queued: after a job goes to the end of a
/// queue, the queue's status is the status before with that job's uuid and
/// identifier after it.
pub proof fn lemma_status_after_enqueue(jobs: Seq<JobView>, job: JobView)
    ensures
        status_texts(jobs.push(job)) == status_texts(jobs).push((hyphenated(job.uuid), job.identifier)),
{
    assert(status_texts(jobs.push(job)) =~= status_texts(jobs).push((hyphenated(job.uuid), job.identifier)));
}

/// The queues of the service, and whether new entries are let in.
pub struct SharedQueues {
    queues: DashMap<String, VecDeque<Queue>>,
    new_entries_enabled: bool,
}

impl SharedQueues {
    /// For each queue name, the jobs of that queue, front first.
    pub closed spec fn queues(&self) -> Map<Seq<char>, Seq<JobView>> {
        queued_jobs(self.queues)
    }

    /// The map holds finitely many queues.
    pub open spec fn wf(&self) -> bool {
        self.queues().dom().finite()
    }

    /// Whether new entries are let in.
    pub closed spec fn accepts_new_entries(&self) -> bool {
        self.new_entries_enabled
    }

    /// No queue yet, and new entries let in.
    pub fn init() -> (shared: SharedQueues)
        ensures
            shared.wf(),
            shared.queues() == Map::<Seq<char>, Seq<JobView>>::empty(),
            shared.accepts_new_entries(),
    {
        let queues = new_map();
        proof {
            assert(queued_jobs(queues) =~= Map::<Seq<char>, Seq<JobView>>::empty());
        }
        SharedQueues { queues, new_entries_enabled: true }
    }

    /// Creates an empty queue named `queue_name`, unless `max_queue_amounts`
    /// queues exist already or the name is in use; on success, tells how many
    /// more queues may be created.
    pub fn create_queue(&mut self, config: &QueueConfig, queue_name: String) -> (result: SharedQueuesResult<usize>)
        requires
            old(self).wf(),
            old(self).queues().dom().len() <= config.max_queue_amounts
                || old(self).queues().dom().contains(queue_name@),
        ensures
            final(self).wf(),
            final(self).queues() == after_create(old(self).queues(), config.max_queue_amounts, queue_name@),
            final(self).accepts_new_entries() == old(self).accepts_new_entries(),
            match create_outcome(old(self).queues(), config.max_queue_amounts, queue_name@) {
                CreateOutcome::Created => result == SharedQueuesResult::<usize>::Content(
                    (config.max_queue_amounts - final(self).queues().dom().len()) as usize,
                ),
                CreateOutcome::LimitReached => match result {
                    SharedQueuesResult::RequestError(msg) => msg@ == "Cannot create any more queues. Limit reached!"@,
                    _ => false,
                },
                CreateOutcome::NameInUse => match result {
                    SharedQueuesResult::RequestError(msg) => msg@ == "Queue name already in use"@,
                    _ => false,
                },
            },
    {
        let len = map_len(&self.queues);
        if config.max_queue_amounts as usize == len {
            return SharedQueuesResult::RequestError("Cannot create any more queues. Limit reached!".to_owned());
        }
        if map_contains(&self.queues, &queue_name) {
            return SharedQueuesResult::RequestError("Queue name already in use".to_owned());
        }
        map_insert(&mut self.queues, queue_name, VecDeque::new());
        proof {
            assert(job_views(Seq::<Queue>::empty()) =~= Seq::<JobView>::empty());
        }
        let len = map_len(&self.queues);
        SharedQueuesResult::Content(config.max_queue_amounts as usize - len)
    }

    /// Removes the queue `queue_name` with its jobs; where there is none, says so.
    pub fn delete_queue(&mut self, queue_name: String) -> (result: SharedQueuesResult<String>)
        requires
            old(self).wf(),
        ensures
            final(self).wf(),
            final(self).queues() == old(self).queues().remove(queue_name@),
            final(self).accepts_new_entries() == old(self).accepts_new_entries(),
            old(self).queues().dom().contains(queue_name@) ==> result == SharedQueuesResult::<String>::Done,
            !old(self).queues().dom().contains(queue_name@) ==> match result {
                SharedQueuesResult::Content(msg) => msg@ == "No queue found with the requested name"@,
                _ => false,
            },
    {
        if map_remove(&mut self.queues, &queue_name).is_none() {
            return SharedQueuesResult::Content("No queue found with the requested name".to_owned());
        }
        SharedQueuesResult::Done
    }

    /// For each job of the queue `queue_name`, front first, its uuid as
    /// hyphenated text and its identifier.
    pub fn get_queue_status(&self, queue_name: String) -> (result: SharedQueuesResult<Vec<(String, String)>>)
        ensures
            match result {
                SharedQueuesResult::Content(entries) => self.queues().dom().contains(queue_name@)
                    && text_views(entries@) == status_texts(self.queues()[queue_name@]),
                SharedQueuesResult::RequestError(msg) => !self.queues().dom().contains(queue_name@)
                    && msg@ == "Queue name not found"@,
                SharedQueuesResult::Done => false,
            },
    {
        match map_entries(&self.queues, &queue_name) {
            None => SharedQueuesResult::RequestError("Queue name not found".to_owned()),
            Some(found) => {
                let texts = status_texts_of(&found);
                proof {
                    lemma_status_texts_from_keys(found@, texts@, self.queues()[queue_name@]);
                }
                SharedQueuesResult::Content(texts)
            },
        }
    }

    /// Every queue with, for each of its jobs, front first, the job's uuid as
    /// hyphenated text and its identifier; each queue comes once, in no stated order.
    pub fn list_queues(&self) -> (result: SharedQueuesResult<Vec<(String, Vec<(String, String)>)>>)
        requires
            self.wf(),
        ensures
            match result {
                SharedQueuesResult::Content(entries) => {
                    &&& entries@.len() == self.queues().dom().len()
                    &&& forall|i: int| 0 <= i < entries@.len() ==>
                        #[trigger] self.queues().dom().contains(entries@[i].0@)
                        && text_views(entries@[i].1@) == status_texts(self.queues()[entries@[i].0@])
                    &&& forall|name: Seq<char>| #[trigger] self.queues().dom().contains(name) ==>
                        exists|i: int| 0 <= i < entries@.len() && #[trigger] entries@[i].0@ == name
                    &&& forall|i: int, j: int| 0 <= i < j < entries@.len() ==>
                        #[trigger] entries@[i].0@ != #[trigger] entries@[j].0@
                },
                _ => false,
            },
    {
        let snapshot = map_snapshot(&self.queues);
        proof {
            assert forall|k: int| 0 <= k < snapshot@.len() implies self.queues().dom().contains(#[trigger] snapshot@[k].0@)
                && entry_views(snapshot@[k].1@) == status_keys(self.queues()[snapshot@[k].0@]) by {
                assert(queued_jobs(self.queues).dom().contains(snapshot@[k].0@));
            }
        }
        let mut entries: Vec<(String, Vec<(String, String)>)> = Vec::new();
        let mut i: usize = 0;
        while i < snapshot.len()
            invariant
                i <= snapshot@.len(),
                entries@.len() == i,
                forall|k: int| #![trigger entries@[k]] 0 <= k < i ==> entries@[k].0@ == snapshot@[k].0@
                    && text_views(entries@[k].1@) == status_texts(self.queues()[snapshot@[k].0@]),
                forall|k: int| 0 <= k < snapshot@.len() ==> self.queues().dom().contains(#[trigger] snapshot@[k].0@)
                    && entry_views(snapshot@[k].1@) == status_keys(self.queues()[snapshot@[k].0@]),
            decreases snapshot@.len() - i,
        {
            let texts = status_texts_of(&snapshot[i].1);
            proof {
                lemma_status_texts_from_keys(snapshot@[i as int].1@, texts@, self.queues()[snapshot@[i as int].0@]);
            }
            entries.push((snapshot[i].0.clone(), texts));
            i = i + 1;
        }
        proof {
            assert forall|name: Seq<char>| #[trigger] self.queues().dom().contains(name) implies
                exists|k: int| 0 <= k < entries@.len() && #[trigger] entries@[k].0@ == name by {
                let k = choose|k: int| 0 <= k < snapshot@.len() && #[trigger] snapshot@[k].0@ == name;
                assert(entries@[k].0@ == name);
            }
            assert forall|a: int, b: int| 0 <= a < b < entries@.len() implies
                #[trigger] entries@[a].0@ != #[trigger] entries@[b].0@ by {
                assert(snapshot@[a].0@ != snapshot@[b].0@);
            }
        }
        SharedQueuesResult::Content(entries)
    }

    /// How many queues exist.
    pub fn queue_count(&self) -> (count: usize)
        ensures
            count == self.queues().dom().len(),
    {
        map_len(&self.queues)
    }

    /// Whether a queue named `queue_name` exists.
    pub fn has_queue(&self, queue_name: &String) -> (found: bool)
        ensures
            found == self.queues().dom().contains(queue_name@),
    {
        map_contains(&self.queues, queue_name)
    }

    /// Lets new entries in, or keeps them out.
    pub fn new_entries_enable(&mut self, enable: bool)
        requires
            old(self).wf(),
        ensures
            final(self).wf(),
            final(self).accepts_new_entries() == enable,
            final(self).queues() == old(self).queues(),
    {
        self.new_entries_enabled = enable;
    }

    /// `None` where new entries are let in; otherwise the reason they are not.
    pub fn validate_new_entries_and_handle(&self) -> (refusal: Option<String>)
        ensures
            match refusal {
                None => self.accepts_new_entries(),
                Some(msg) => !self.accepts_new_entries() && msg@ == "New entries are disabled"@,
            },
    {
        if !self.new_entries_enabled {
            return Some("New entries are disabled".to_owned());
        }
        None
    }

    /// What the requester of a job gets once waiting for it ended: nothing after a
    /// timeout, the job once it was sent, and an error where the worker dropped
    /// the channel.
    pub fn retrieve_from_queue_outcome(waited: DequeueWait) -> (result: Result<Option<Queue>, DequeueError>)
        ensures
            match waited {
                DequeueWait::TimedOut => result matches Ok(None),
                DequeueWait::Dequeued(job) => result == Ok::<Option<Queue>, DequeueError>(Some(job)),
                DequeueWait::ConfirmationDropped => result matches Err(DequeueError::ConfirmationDropped),
            },
    {
        match waited {
            DequeueWait::TimedOut => Ok(None),
            DequeueWait::Dequeued(job) => Ok(Some(job)),
            DequeueWait::ConfirmationDropped => Err(DequeueError::ConfirmationDropped),
        }
    }

    /// Offers `job` to the queue `queue_name`, which may hold at most
    /// `size_limit` jobs: it goes to the end of the queue unless the queue is full
    /// or missing.
    pub(crate) fn enqueue_job(&mut self, queue_name: &String, job: Queue, size_limit: u16) -> (outcome: Enqueue)
        requires
            old(self).wf(),
        ensures
            final(self).wf(),
            final(self).accepts_new_entries() == old(self).accepts_new_entries(),
            match outcome {
                Enqueue::Queued => old(self).queues().dom().contains(queue_name@)
                    && old(self).queues()[queue_name@].len() < size_limit
                    && final(self).queues() == old(self).queues().insert(
                        queue_name@,
                        old(self).queues()[queue_name@].push(job@),
                    ),
                Enqueue::QueueFull(refused) => old(self).queues().dom().contains(queue_name@)
                    && old(self).queues()[queue_name@].len() >= size_limit
                    && refused == job
                    && final(self).queues() == old(self).queues(),
                Enqueue::MissingQueue => !old(self).queues().dom().contains(queue_name@)
                    && final(self).queues() == old(self).queues(),
            },
    {
        match map_remove(&mut self.queues, queue_name) {
            None => Enqueue::MissingQueue,
            Some(mut items) => {
                if items.len() >= size_limit as usize {
                    proof {
                        assert(job_views(items@).len() == items@.len());
                    }
                    map_insert(&mut self.queues, queue_name.clone(), items);
                    proof {
                        assert(self.queues() =~= old(self).queues());
                    }
                    return Enqueue::QueueFull(job);
                }
                let ghost view = job@;
                items.push_back(job);
                proof {
                    assert(job_views(items@) =~= old(self).queues()[queue_name@].push(view));
                }
                map_insert(&mut self.queues, queue_name.clone(), items);
                proof {
                    assert(self.queues() =~= old(self).queues().insert(
                        queue_name@,
                        old(self).queues()[queue_name@].push(view),
                    ));
                }
                Enqueue::Queued
            },
        }
    }

    /// Pushes `job` at the back of the queue `queue_name`; tells whether that
    /// queue exists (where it does not, the job is dropped).
    pub(crate) fn push_job(&mut self, queue_name: &String, job: Queue) -> (found: bool)
        requires
            old(self).wf(),
        ensures
            final(self).wf(),
            found == old(self).queues().dom().contains(queue_name@),
            final(self).queues() == if found {
                old(self).queues().insert(queue_name@, old(self).queues()[queue_name@].push(job@))
            } else {
                old(self).queues()
            },
            final(self).accepts_new_entries() == old(self).accepts_new_entries(),
    {
        match map_remove(&mut self.queues, queue_name) {
            None => false,
            Some(mut items) => {
                let ghost view = job@;
                items.push_back(job);
                proof {
                    assert(job_views(items@) =~= old(self).queues()[queue_name@].push(view));
                }
                map_insert(&mut self.queues, queue_name.clone(), items);
                proof {
                    assert(self.queues() =~= old(self).queues().insert(
                        queue_name@,
                        old(self).queues()[queue_name@].push(view),
                    ));
                }
                true
            },
        }
    }

    /// Pops the front job of the queue `queue_name`: `None` where no queue has that
    /// name, `Some(None)` where it is empty.
    pub(crate) fn pop_job(&mut self, queue_name: &String) -> (popped: Option<Option<Queue>>)
        requires
            old(self).wf(),
        ensures
            final(self).wf(),
            final(self).accepts_new_entries() == old(self).accepts_new_entries(),
            match popped {
                None => !old(self).queues().dom().contains(queue_name@)
                    && final(self).queues() == old(self).queues(),
                Some(None) => old(self).queues().dom().contains(queue_name@)
                    && old(self).queues()[queue_name@].len() == 0
                    && final(self).queues() == old(self).queues(),
                Some(Some(job)) => old(self).queues().dom().contains(queue_name@)
                    && old(self).queues()[queue_name@].len() > 0
                    && job@ == old(self).queues()[queue_name@][0]
                    && final(self).queues() == old(self).queues().insert(
                        queue_name@,
                        old(self).queues()[queue_name@].drop_first(),
                    ),
            },
    {
        match map_remove(&mut self.queues, queue_name) {
            None => None,
            Some(mut items) => {
                let ghost before = items@;
                let popped = items.pop_front();
                proof {
                    if popped.is_some() {
                        assert(job_views(items@) =~= job_views(before).drop_first());
                    } else {
                        assert(job_views(items@) =~= job_views(before));
                    }
                }
                map_insert(&mut self.queues, queue_name.clone(), items);
                proof {
                    if popped.is_none() {
                        assert(self.queues() =~= old(self).queues());
                    } else {
                        assert(self.queues() =~= old(self).queues().insert(
                            queue_name@,
                            old(self).queues()[queue_name@].drop_first(),
                        ));
                    }
                }
                Some(popped)
            },
        }
    }
}

/// Status entries written as text: each uuid as hyphenated text, each
/// identifier as it is, in the same order.
fn status_texts_of(entries: &Vec<(u128, String)>) -> (texts: Vec<(String, String)>)
    ensures
        texts@.len() == entries@.len(),
        forall|i: int| #![trigger texts@[i]] 0 <= i < entries@.len() ==> texts@[i].0@ == hyphenated(entries@[i].0)
            && texts@[i].1@ == entries@[i].1@,
{
    let mut texts: Vec<(String, String)> = Vec::new();
    let mut i: usize = 0;
    while i < entries.len()
        invariant
            i <= entries@.len(),
            texts@.len() == i,
            forall|k: int| #![trigger texts@[k]] 0 <= k < i ==> texts@[k].0@ == hyphenated(entries@[k].0)
                && texts@[k].1@ == entries@[k].1@,
        decreases entries@.len() - i,
    {
        let id_text = uuid_text(entries[i].0);
        let identifier = entries[i].1.clone();
        proof {
            assert(identifier@ == entries@[i as int].1@);
        }
        texts.push((id_text, identifier));
        i = i + 1;
    }
    texts
}

/// Writing the uuids of status entries as text gives the status texts of the
/// jobs that the entries came from.
proof fn lemma_status_texts_from_keys(
    entries: Seq<(u128, String)>,
    texts: Seq<(String, String)>,
    jobs: Seq<JobView>,
)
    requires
        entry_views(entries) == status_keys(jobs),
        texts.len() == entries.len(),
        forall|i: int| #![trigger texts[i]] 0 <= i < entries.len() ==> texts[i].0@ == hyphenated(entries[i].0)
            && texts[i].1@ == entries[i].1@,
    ensures
        text_views(texts) == status_texts(jobs),
{
    assert(entry_views(entries).len() == entries.len());
    assert(status_keys(jobs).len() == jobs.len());
    assert forall|i: int| 0 <= i < texts.len() implies #[trigger] text_views(texts)[i] == status_texts(jobs)[i] by {
        assert(entry_views(entries)[i] == status_keys(jobs)[i]);
    }
    assert(text_views(texts) =~= status_texts(jobs));
}

} // verus!
