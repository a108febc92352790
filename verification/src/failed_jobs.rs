//! The jobs that could not be released, kept per queue so that they can be
//! recovered by their uuid and identifier.
use vstd::prelude::*;
use crate::job::{JobView, Queue};

verus! {

/// The failed jobs of the queue `name`, oldest first, out of a log of
/// (queue name, job) records.
pub open spec fn failed_of(records: Seq<(Seq<char>, JobView)>, name: Seq<char>) -> Seq<JobView> {
    records.filter(|record: (Seq<char>, JobView)| record.0 == name).map_values(
        |record: (Seq<char>, JobView)| record.1,
    )
}

/// Appending a record for one queue appends its job to that queue's failed jobs
/// and leaves every other queue's as they were.
proof fn lemma_failed_of_push(records: Seq<(Seq<char>, JobView)>, record: (Seq<char>, JobView), name: Seq<char>)
    ensures
        failed_of(records.push(record), name) == if record.0 == name {
            failed_of(records, name).push(record.1)
        } else {
            failed_of(records, name)
        },
{
    let pred = |r: (Seq<char>, JobView)| r.0 == name;
    assert(records.push(record).drop_last() =~= records);
    reveal_with_fuel(Seq::filter, 2);
    if record.0 == name {
        assert(records.push(record).filter(pred) == records.filter(pred).push(record));
        assert(failed_of(records.push(record), name) =~= failed_of(records, name).push(record.1));
    } else {
        assert(records.push(record).filter(pred) == records.filter(pred));
    }
}

/// Filtering whole records by queue name and then taking the job views gives the
/// same as taking the views first.
proof fn lemma_filter_of_views(records: Seq<(Seq<char>, Queue)>, name: Seq<char>)
    ensures
        failed_of(records.map_values(|record: (Seq<char>, Queue)| (record.0, record.1@)), name)
            == records.filter(|record: (Seq<char>, Queue)| record.0 == name).map_values(
            |record: (Seq<char>, Queue)| record.1@,
        ),
    decreases records.len(),
{
    let views = records.map_values(|record: (Seq<char>, Queue)| (record.0, record.1@));
    let pred_whole = |record: (Seq<char>, Queue)| record.0 == name;
    if records.len() == 0 {
        assert(views =~= Seq::<(Seq<char>, JobView)>::empty());
        assert(failed_of(views, name) =~= Seq::<JobView>::empty());
        assert(records.filter(pred_whole) =~= Seq::<(Seq<char>, Queue)>::empty());
        assert(records.filter(pred_whole).map_values(|record: (Seq<char>, Queue)| record.1@) =~= Seq::<JobView>::empty());
    } else {
        let rest = records.drop_last();
        let last = records.last();
        lemma_filter_of_views(rest, name);
        let rest_views = rest.map_values(|record: (Seq<char>, Queue)| (record.0, record.1@));
        assert(views =~= rest_views.push((last.0, last.1@)));
        lemma_failed_of_push(rest_views, (last.0, last.1@), name);
        assert(records =~= rest.push(last));
        reveal_with_fuel(Seq::filter, 2);
        assert(records.drop_last() == rest);
        if last.0 == name {
            assert(records.filter(pred_whole) == rest.filter(pred_whole).push(last));
            assert(records.filter(pred_whole).map_values(|record: (Seq<char>, Queue)| record.1@) =~= rest.filter(
                pred_whole,
            ).map_values(|record: (Seq<char>, Queue)| record.1@).push(last.1@));
        } else {
            assert(records.filter(pred_whole) == rest.filter(pred_whole));
        }
    }
}

/// The failed jobs of every queue.
pub struct FailedJobs {
    records: Vec<(String, Queue)>,
}

impl FailedJobs {
    /// The failed jobs, whole, oldest first, each with the name of its queue.
    pub closed spec fn records(&self) -> Seq<(Seq<char>, Queue)> {
        self.records@.map_values(|record: (String, Queue)| (record.0@, record.1))
    }

    /// The log of failed jobs, oldest first, each with the name of its queue.
    closed spec fn record_views(&self) -> Seq<(Seq<char>, JobView)> {
        self.records@.map_values(|record: (String, Queue)| (record.0@, record.1@))
    }

    /// For each queue with failed jobs, those jobs, oldest first.
    pub closed spec fn failed(&self) -> Map<Seq<char>, Seq<JobView>> {
        Map::new(
            |name: Seq<char>| failed_of(self.record_views(), name).len() > 0,
            |name: Seq<char>| failed_of(self.record_views(), name),
        )
    }

    /// The failed jobs of the queue `name`, oldest first; empty where there is none.
    pub closed spec fn failed_jobs_of(&self, name: Seq<char>) -> Seq<JobView> {
        failed_of(self.record_views(), name)
    }

    /// How the three readings of the failed jobs agree: a queue has failed jobs
    /// exactly where its list of failed jobs is not empty, that list is what
    /// `failed()` holds for it, and it is the whole records of that queue, oldest
    /// first, seen as job views.
    pub proof fn lemma_failed_readings_agree(&self, name: Seq<char>)
        ensures
            self.failed().dom().contains(name) == (self.failed_jobs_of(name).len() > 0),
            self.failed().dom().contains(name) ==> self.failed()[name] == self.failed_jobs_of(name),
            self.failed_jobs_of(name) == self.records().filter(
                |record: (Seq<char>, Queue)| record.0 == name,
            ).map_values(|record: (Seq<char>, Queue)| record.1@),
    {
        let whole = self.records();
        let views = self.record_views();
        assert(views =~= whole.map_values(|record: (Seq<char>, Queue)| (record.0, record.1@)));
        lemma_filter_of_views(whole, name);
    }

    /// No failed job yet.
    pub fn new() -> (failed: FailedJobs)
        ensures
            failed.records() == Seq::<(Seq<char>, Queue)>::empty(),
            failed.failed() == Map::<Seq<char>, Seq<JobView>>::empty(),
            forall|name: Seq<char>| #[trigger] failed.failed_jobs_of(name) == Seq::<JobView>::empty(),
    {
        let failed = FailedJobs { records: Vec::new() };
        proof {
            assert forall|name: Seq<char>| #[trigger] failed.failed_jobs_of(name) == Seq::<JobView>::empty() by {
                assert(failed.record_views() =~= Seq::<(Seq<char>, JobView)>::empty());
                assert(failed_of(failed.record_views(), name) =~= Seq::<JobView>::empty());
            }
            assert(failed.failed() =~= Map::<Seq<char>, Seq<JobView>>::empty());
            assert(failed.records() =~= Seq::<(Seq<char>, Queue)>::empty());
        }
        failed
    }

    /// Keeps `job` as failed in the queue `queue_name`, after the ones already
    /// there; the job is kept whole, payload and creation time included, so that
    /// it can be recovered.
    pub fn insert_into_failed_jobs(&mut self, queue_name: &str, job: Queue)
        ensures
            final(self).records() == old(self).records().push((queue_name@, job)),
            final(self).failed_jobs_of(queue_name@) == old(self).failed_jobs_of(queue_name@).push(job@),
            forall|name: Seq<char>| name != queue_name@ ==> #[trigger] final(self).failed_jobs_of(name)
                == old(self).failed_jobs_of(name),
            final(self).failed() == old(self).failed().insert(
                queue_name@,
                old(self).failed_jobs_of(queue_name@).push(job@),
            ),
    {
        let ghost before = self.record_views();
        let ghost whole_before = self.records();
        let ghost kept = job;
        let ghost view = job@;
        self.records.push((queue_name.to_owned(), job));
        proof {
            let record = (queue_name@, view);
            assert(self.record_views() =~= before.push(record));
            assert(self.records() =~= whole_before.push((queue_name@, kept)));
            assert forall|name: Seq<char>| #[trigger] self.failed_jobs_of(name) == if name == queue_name@ {
                failed_of(before, name).push(view)
            } else {
                failed_of(before, name)
            } by {
                lemma_failed_of_push(before, record, name);
            }
            assert(before == old(self).record_views());
            let expected = old(self).failed().insert(queue_name@, old(self).failed_jobs_of(queue_name@).push(view));
            assert forall|name: Seq<char>| #[trigger] self.failed().dom().contains(name) == expected.dom().contains(name)
                && (self.failed().dom().contains(name) ==> self.failed()[name] == expected[name]) by {
                assert(self.failed_jobs_of(name) == failed_of(self.record_views(), name));
                assert(old(self).failed_jobs_of(name) == failed_of(before, name));
            }
            assert(self.failed() =~= old(self).failed().insert(
                queue_name@,
                old(self).failed_jobs_of(queue_name@).push(view),
            ));
        }
    }

    /// The uuids of the failed jobs of the queue `queue_name`, oldest first.
    pub fn failed_uuids(&self, queue_name: &str) -> (uuids: Vec<u128>)
        ensures
            uuids@ == self.failed_jobs_of(queue_name@).map_values(|job: JobView| job.uuid),
    {
        let mut uuids: Vec<u128> = Vec::new();
        let name = queue_name.to_owned();
        let mut i: usize = 0;
        while i < self.records.len()
            invariant
                i <= self.records@.len(),
                name@ == queue_name@,
                uuids@ == failed_of(self.record_views().take(i as int), queue_name@).map_values(
                    |job: JobView| job.uuid,
                ),
            decreases self.records@.len() - i,
        {
            proof {
                assert(self.record_views().take(i + 1) =~= self.record_views().take(i as int).push(
                    self.record_views()[i as int],
                ));
                lemma_failed_of_push(self.record_views().take(i as int), self.record_views()[i as int], queue_name@);
            }
            if self.records[i].0 == name {
                uuids.push(self.records[i].1.uuid());
            }
            proof {
                assert(uuids@ =~= failed_of(self.record_views().take(i + 1), queue_name@).map_values(
                    |job: JobView| job.uuid,
                ));
            }
            i = i + 1;
        }
        proof {
            assert(self.record_views().take(i as int) =~= self.record_views());
        }
        uuids
    }
}

} // verus!
