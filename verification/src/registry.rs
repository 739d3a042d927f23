//! Job registry: the single owner of every build-job record. All mutation
//! goes through the operations here, each of which appends exactly one log
//! entry, extends the recorded history, and preserves every job's
//! well-formedness — in particular, progress never decreases and terminal
//! jobs are never touched again.

use vstd::prelude::*;

use crate::model::{
    is_terminal, rank_of_status, status_rank, terminal, BuildConfig, BuildJob, BuildLog,
    BuildStatus, LogLevel,
};
use crate::text::{format_job_id, job_id_text};

verus! {

/// Concurrency-safe store of jobs keyed by identifier. The container is
/// never exposed; callers go through the accessors below.
pub struct JobRegistry {
    jobs: Vec<BuildJob>,
}

/// The jobs of `s` holding `status`, in order.
pub open spec fn filter_status(s: Seq<BuildJob>, status: BuildStatus) -> Seq<BuildJob>
    decreases s.len(),
{
    if s.len() == 0 {
        s
    } else {
        let rest = filter_status(s.drop_last(), status);
        if s.last().status == status {
            rest.push(s.last())
        } else {
            rest
        }
    }
}

/// The jobs a list of references points at, in order.
pub open spec fn derefs(s: Seq<&BuildJob>) -> Seq<BuildJob> {
    s.map_values(|j: &BuildJob| *j)
}

/// The filtered list holds exactly the jobs of `s` with the status:
/// every element carries it and comes from `s`, and every such job of
/// `s` appears.
proof fn lemma_filter_status_members(s: Seq<BuildJob>, status: BuildStatus)
    ensures
        forall|k: int|
            0 <= k < filter_status(s, status).len() ==> (#[trigger] filter_status(s, status)[k]).status
                == status && s.contains(filter_status(s, status)[k]),
        forall|i: int|
            0 <= i < s.len() && (#[trigger] s[i]).status == status ==> filter_status(
                s,
                status,
            ).contains(s[i]),
    decreases s.len(),
{
    if s.len() > 0 {
        lemma_filter_status_members(s.drop_last(), status);
        let f = filter_status(s, status);
        let fr = filter_status(s.drop_last(), status);
        assert forall|k: int| 0 <= k < f.len() implies (#[trigger] f[k]).status == status
            && s.contains(f[k]) by {
            if s.last().status == status && k == f.len() - 1 {
                assert(f[k] == s.last());
                assert(s[s.len() - 1] == s.last());
            } else {
                assert(f[k] == fr[k]);
                assert(s.drop_last().contains(fr[k]));
                let i = choose|i: int|
                    0 <= i < s.drop_last().len() && s.drop_last()[i] == fr[k];
                assert(s[i] == fr[k]);
            }
        }
        assert forall|i: int| 0 <= i < s.len() && (#[trigger] s[i]).status == status implies
            f.contains(s[i]) by {
            if i == s.len() - 1 {
                assert(f[f.len() - 1] == s[i]);
            } else {
                assert(s.drop_last()[i] == s[i]);
                assert(fr.contains(s[i]));
                let k = choose|k: int| 0 <= k < fr.len() && fr[k] == s[i];
                assert(f[k] == s[i]);
            }
        }
    }
}

impl JobRegistry {
    /// Ids are unique and every stored job is well-formed.
    pub closed spec fn wf(self) -> bool {
        &&& forall|i: int, j: int|
            0 <= i < j < self.jobs@.len() ==> (#[trigger] self.jobs@[i]).id != (
            #[trigger] self.jobs@[j]).id
        &&& forall|i: int| 0 <= i < self.jobs@.len() ==> (#[trigger] self.jobs@[i]).wellformed()
    }

    /// Whether a job with this identifier exists.
    pub closed spec fn contains_job(self, id: u128) -> bool {
        exists|k: int| 0 <= k < self.jobs@.len() && (#[trigger] self.jobs@[k]).id == id
    }

    /// Index of the job with this identifier, if it exists.
    pub closed spec fn job_index(self, id: u128) -> int {
        choose|k: int| 0 <= k < self.jobs@.len() && (#[trigger] self.jobs@[k]).id == id
    }

    /// The stored job with this identifier.
    pub closed spec fn spec_get(self, id: u128) -> BuildJob {
        self.jobs@[self.job_index(id)]
    }

    /// The stored jobs holding a given status, in storage order.
    pub closed spec fn jobs_with_status(self, status: BuildStatus) -> Seq<BuildJob> {
        filter_status(self.jobs@, status)
    }

    proof fn lemma_index_unique(self, id: u128, k: int)
        requires
            self.wf(),
            0 <= k < self.jobs@.len(),
            self.jobs@[k].id == id,
        ensures
            self.contains_job(id),
            self.job_index(id) == k,
    {
        assert(self.contains_job(id));
        let w = self.job_index(id);
        if w != k {
            assert(self.jobs@[w].id != self.jobs@[k].id);
        }
    }

    /// An empty registry.
    pub fn new() -> (r: JobRegistry)
        ensures
            r.wf(),
            forall|id: u128| !r.contains_job(id),
    {
        JobRegistry { jobs: Vec::new() }
    }

    fn find_index(&self, id: u128) -> (r: Option<usize>)
        requires
            self.wf(),
        ensures
            match r {
                Some(k) => k < self.jobs@.len() && self.jobs@[k as int].id == id
                    && self.contains_job(id) && self.job_index(id) == k as int,
                None => !self.contains_job(id),
            },
    {
        let mut k: usize = 0;
        while k < self.jobs.len()
            invariant
                k <= self.jobs@.len(),
                self.wf(),
                forall|t: int| 0 <= t < k ==> (#[trigger] self.jobs@[t]).id != id,
            decreases self.jobs@.len() - k,
        {
            if self.jobs[k].id == id {
                proof {
                    self.lemma_index_unique(id, k as int);
                }
                return Some(k);
            }
            k += 1;
        }
        None
    }

    /// Register a fresh job for `config` under `id`, state `Queued`,
    /// progress 0, with one creation log entry naming the id. Returns
    /// false, changing nothing, if the id is already taken.
    pub fn create_build(&mut self, config: BuildConfig, id: u128, now: i64) -> (created: bool)
        requires
            old(self).wf(),
        ensures
            final(self).wf(),
            created == !old(self).contains_job(id),
            !created ==> *final(self) == *old(self),
            created ==> final(self).contains_job(id),
            created ==> ({
                let j = final(self).spec_get(id);
                &&& j.id == id
                &&& j.config == config
                &&& j.status == BuildStatus::Queued
                &&& j.progress == 0
                &&& j.started_at == now
                &&& j.completed_at is None
                &&& j.download_url is None
                &&& j.error is None
                &&& j.logs@.len() == 1
                &&& j.logs@[0].timestamp == now
                &&& j.logs@[0].level == LogLevel::Info
                &&& j.logs@[0].message@ == "Build "@ + job_id_text(id) + " created"@
                &&& j.history@ == seq![(BuildStatus::Queued, 0int)]
            }),
            forall|other: u128|
                other != id ==> #[trigger] final(self).contains_job(other) == old(
                    self,
                ).contains_job(other),
            forall|other: u128|
                other != id && old(self).contains_job(other) ==> #[trigger] final(self).spec_get(
                    other,
                ) == old(self).spec_get(other),
    {
        match self.find_index(id) {
            Some(_) => false,
            None => {
                let message = String::from_str("Build ").concat(
                    format_job_id(id).as_str(),
                ).concat(" created");
                let ghost h: Seq<(BuildStatus, int)> = seq![(BuildStatus::Queued, 0int)];
                let job = BuildJob {
                    id,
                    config,
                    status: BuildStatus::Queued,
                    progress: 0,
                    started_at: now,
                    completed_at: None,
                    download_url: None,
                    error: None,
                    logs: vec![BuildLog { timestamp: now, level: LogLevel::Info, message }],
                    history: Ghost(h),
                };
                let ghost prior = self.jobs@;
                self.jobs.push(job);
                proof {
                    let n = prior.len() as int;
                    assert(self.jobs@[n].id == id);
                    assert(forall|t: int| 0 <= t < n ==> self.jobs@[t] == prior[t]);
                    assert(self.wf());
                    self.lemma_index_unique(id, n);
                    assert forall|other: u128| other != id implies #[trigger] self.contains_job(
                        other,
                    ) == old(self).contains_job(other) by {
                        if old(self).contains_job(other) {
                            let k = old(self).job_index(other);
                            assert(self.jobs@[k].id == other);
                            self.lemma_index_unique(other, k);
                        }
                        if self.contains_job(other) {
                            let k = self.job_index(other);
                            assert(k != n);
                            assert(prior[k].id == other);
                        }
                    }
                    assert forall|other: u128| other != id && old(self).contains_job(other)
                        implies #[trigger] self.spec_get(other) == old(self).spec_get(other) by {
                        let k = old(self).job_index(other);
                        assert(self.jobs@[k].id == other);
                        self.lemma_index_unique(other, k);
                    }
                }
                true
            },
        }
    }

    /// Snapshot read: the job stored under `id`, if any.
    pub fn get_build(&self, id: u128) -> (r: Option<&BuildJob>)
        requires
            self.wf(),
        ensures
            match r {
                Some(j) => self.contains_job(id) && *j == self.spec_get(id) && j.wellformed(),
                None => !self.contains_job(id),
            },
    {
        match self.find_index(id) {
            Some(k) => Some(&self.jobs[k]),
            None => None,
        }
    }

    proof fn lemma_update_frame(pre: Self, post: Self, k: int, id: u128)
        requires
            pre.wf(),
            0 <= k < pre.jobs@.len(),
            pre.jobs@[k].id == id,
            post.jobs@ == pre.jobs@.update(k, post.jobs@[k]),
            post.jobs@[k].id == id,
            post.jobs@[k].wellformed(),
        ensures
            post.wf(),
            post.contains_job(id),
            post.job_index(id) == k,
            post.spec_get(id) == post.jobs@[k],
            forall|other: u128|
                other != id ==> #[trigger] post.contains_job(other) == pre.contains_job(other),
            forall|other: u128|
                other != id && pre.contains_job(other) ==> #[trigger] post.spec_get(other)
                    == pre.spec_get(other),
    {
        assert(post.wf());
        post.lemma_index_unique(id, k);
        assert forall|other: u128| other != id implies #[trigger] post.contains_job(other)
            == pre.contains_job(other) by {
            if pre.contains_job(other) {
                let w = pre.job_index(other);
                assert(pre.jobs@[w].id == other);
                assert(w != k);
                assert(post.jobs@[w].id == other);
                post.lemma_index_unique(other, w);
            }
            if post.contains_job(other) {
                let w = post.job_index(other);
                assert(post.jobs@[w].id == other);
                assert(w != k);
                assert(pre.jobs@[w].id == other);
                pre.lemma_index_unique(other, w);
            }
        }
        assert forall|other: u128| other != id && pre.contains_job(other) implies #[trigger]
        post.spec_get(other) == pre.spec_get(other) by {
            let w = pre.job_index(other);
            assert(pre.jobs@[w].id == other);
            assert(w != k);
            assert(post.jobs@[w].id == other);
            post.lemma_index_unique(other, w);
        }
    }

    /// Move an active job forward to a non-terminal `status` and `progress`,
    /// appending exactly one log entry. Refuses, changing nothing, if the
    /// job is missing or terminal or the move would go backwards.
    pub fn advance(
        &mut self,
        id: u128,
        status: BuildStatus,
        progress: u8,
        message: String,
        now: i64,
    ) -> (updated: bool)
        requires
            old(self).wf(),
            progress <= 100,
            !is_terminal(status),
        ensures
            final(self).wf(),
            updated == (old(self).contains_job(id) && !is_terminal(
                old(self).spec_get(id).status,
            ) && status_rank(old(self).spec_get(id).status) <= status_rank(status) && old(
                self,
            ).spec_get(id).progress <= progress),
            !updated ==> *final(self) == *old(self),
            updated ==> ({
                let pre = old(self).spec_get(id);
                let j = final(self).spec_get(id);
                &&& final(self).contains_job(id)
                &&& j.id == pre.id
                &&& j.config == pre.config
                &&& j.started_at == pre.started_at
                &&& j.status == status
                &&& j.progress == progress
                &&& j.completed_at == pre.completed_at
                &&& j.download_url == pre.download_url
                &&& j.error == pre.error
                &&& j.logs@ == pre.logs@.push(
                    BuildLog { timestamp: now, level: LogLevel::Info, message },
                )
                &&& j.history@ == pre.history@.push((status, progress as int))
            }),
            forall|other: u128|
                other != id ==> #[trigger] final(self).contains_job(other) == old(
                    self,
                ).contains_job(other),
            forall|other: u128|
                other != id && old(self).contains_job(other) ==> #[trigger] final(self).spec_get(
                    other,
                ) == old(self).spec_get(other),
    {
        match self.find_index(id) {
            None => false,
            Some(k) => {
                if terminal(self.jobs[k].status) || rank_of_status(status) < rank_of_status(
                    self.jobs[k].status,
                ) || progress < self.jobs[k].progress {
                    false
                } else {
                    let mut job = self.jobs.remove(k);
                    let ghost pre_jobs = old(self).jobs@;
                    job.status = status;
                    job.progress = progress;
                    job.logs.push(BuildLog { timestamp: now, level: LogLevel::Info, message });
                    let ghost h2 = job.history@.push((status, progress as int));
                    job.history = Ghost(h2);
                    self.jobs.insert(k, job);
                    proof {
                        assert(self.jobs@ =~= pre_jobs.update(k as int, self.jobs@[k as int]));
                        assert(self.jobs@[k as int].wellformed());
                        Self::lemma_update_frame(*old(self), *self, k as int, id);
                    }
                    true
                }
            },
        }
    }

    /// Append one log entry to an active job without touching its state.
    pub fn append_log(&mut self, id: u128, level: LogLevel, message: String, now: i64) -> (updated:
        bool)
        requires
            old(self).wf(),
        ensures
            final(self).wf(),
            updated == (old(self).contains_job(id) && !is_terminal(
                old(self).spec_get(id).status,
            )),
            !updated ==> *final(self) == *old(self),
            updated ==> ({
                let pre = old(self).spec_get(id);
                let j = final(self).spec_get(id);
                &&& final(self).contains_job(id)
                &&& j == BuildJob {
                    logs: j.logs,
                    ..pre
                }
                &&& j.logs@ == pre.logs@.push(BuildLog { timestamp: now, level, message })
            }),
            forall|other: u128|
                other != id ==> #[trigger] final(self).contains_job(other) == old(
                    self,
                ).contains_job(other),
            forall|other: u128|
                other != id && old(self).contains_job(other) ==> #[trigger] final(self).spec_get(
                    other,
                ) == old(self).spec_get(other),
    {
        match self.find_index(id) {
            None => false,
            Some(k) => {
                if terminal(self.jobs[k].status) {
                    false
                } else {
                    let mut job = self.jobs.remove(k);
                    let ghost pre_jobs = old(self).jobs@;
                    job.logs.push(BuildLog { timestamp: now, level, message });
                    self.jobs.insert(k, job);
                    proof {
                        assert(self.jobs@ =~= pre_jobs.update(k as int, self.jobs@[k as int]));
                        assert(self.jobs@[k as int].wellformed());
                        Self::lemma_update_frame(*old(self), *self, k as int, id);
                    }
                    true
                }
            },
        }
    }

    /// Mark an active job failed: the message is captured in the error
    /// field and appended to the logs; progress stays where it was.
    pub fn fail(&mut self, id: u128, message: String, now: i64) -> (updated: bool)
        requires
            old(self).wf(),
        ensures
            final(self).wf(),
            updated == (old(self).contains_job(id) && !is_terminal(
                old(self).spec_get(id).status,
            )),
            !updated ==> *final(self) == *old(self),
            updated ==> ({
                let pre = old(self).spec_get(id);
                let j = final(self).spec_get(id);
                &&& final(self).contains_job(id)
                &&& j.id == pre.id
                &&& j.config == pre.config
                &&& j.started_at == pre.started_at
                &&& j.status == BuildStatus::Failed
                &&& j.progress == pre.progress
                &&& j.completed_at == Some(now)
                &&& j.download_url == pre.download_url
                &&& j.error == Some(message)
                &&& j.logs@.len() == pre.logs@.len() + 1
                &&& j.logs@.subrange(0, pre.logs@.len() as int) == pre.logs@
                &&& j.logs@.last().timestamp == now
                &&& j.logs@.last().level == LogLevel::Error
                &&& j.logs@.last().message@ == "Build failed: "@ + message@
                &&& j.history@ == pre.history@.push((BuildStatus::Failed, pre.progress as int))
            }),
            forall|other: u128|
                other != id ==> #[trigger] final(self).contains_job(other) == old(
                    self,
                ).contains_job(other),
            forall|other: u128|
                other != id && old(self).contains_job(other) ==> #[trigger] final(self).spec_get(
                    other,
                ) == old(self).spec_get(other),
    {
        match self.find_index(id) {
            None => false,
            Some(k) => {
                if terminal(self.jobs[k].status) {
                    false
                } else {
                    let mut job = self.jobs.remove(k);
                    let ghost pre_jobs = old(self).jobs@;
                    let entry = String::from_str("Build failed: ").concat(message.as_str());
                    job.status = BuildStatus::Failed;
                    job.completed_at = Some(now);
                    job.error = Some(message);
                    job.logs.push(
                        BuildLog { timestamp: now, level: LogLevel::Error, message: entry },
                    );
                    let ghost h2 = job.history@.push(
                        (BuildStatus::Failed, job.progress as int),
                    );
                    job.history = Ghost(h2);
                    self.jobs.insert(k, job);
                    proof {
                        assert(self.jobs@ =~= pre_jobs.update(k as int, self.jobs@[k as int]));
                        let pre = old(self).spec_get(id);
                        assert(self.jobs@[k as int].logs@.subrange(0, pre.logs@.len() as int)
                            =~= pre.logs@);
                        assert(self.jobs@[k as int].wellformed());
                        Self::lemma_update_frame(*old(self), *self, k as int, id);
                    }
                    true
                }
            },
        }
    }

    /// Mark an active job completed: progress 100, the download URL
    /// attached, one closing log entry appended.
    pub fn complete(&mut self, id: u128, url: String, now: i64) -> (updated: bool)
        requires
            old(self).wf(),
            url@.len() > 0,
        ensures
            final(self).wf(),
            updated == (old(self).contains_job(id) && !is_terminal(
                old(self).spec_get(id).status,
            )),
            !updated ==> *final(self) == *old(self),
            updated ==> ({
                let pre = old(self).spec_get(id);
                let j = final(self).spec_get(id);
                &&& final(self).contains_job(id)
                &&& j.id == pre.id
                &&& j.config == pre.config
                &&& j.started_at == pre.started_at
                &&& j.status == BuildStatus::Completed
                &&& j.progress == 100
                &&& j.completed_at == Some(now)
                &&& j.download_url == Some(url)
                &&& j.error == pre.error
                &&& j.logs@.len() == pre.logs@.len() + 1
                &&& j.logs@.subrange(0, pre.logs@.len() as int) == pre.logs@
                &&& j.logs@.last().timestamp == now
                &&& j.logs@.last().level == LogLevel::Info
                &&& j.logs@.last().message@ == "Build completed successfully"@
                &&& j.history@ == pre.history@.push((BuildStatus::Completed, 100int))
            }),
            forall|other: u128|
                other != id ==> #[trigger] final(self).contains_job(other) == old(
                    self,
                ).contains_job(other),
            forall|other: u128|
                other != id && old(self).contains_job(other) ==> #[trigger] final(self).spec_get(
                    other,
                ) == old(self).spec_get(other),
    {
        match self.find_index(id) {
            None => false,
            Some(k) => {
                if terminal(self.jobs[k].status) {
                    false
                } else {
                    let mut job = self.jobs.remove(k);
                    let ghost pre_jobs = old(self).jobs@;
                    job.status = BuildStatus::Completed;
                    job.progress = 100;
                    job.completed_at = Some(now);
                    job.download_url = Some(url);
                    job.logs.push(
                        BuildLog {
                            timestamp: now,
                            level: LogLevel::Info,
                            message: String::from_str("Build completed successfully"),
                        },
                    );
                    let ghost h2 = job.history@.push((BuildStatus::Completed, 100int));
                    job.history = Ghost(h2);
                    self.jobs.insert(k, job);
                    proof {
                        assert(self.jobs@ =~= pre_jobs.update(k as int, self.jobs@[k as int]));
                        let pre = old(self).spec_get(id);
                        assert(self.jobs@[k as int].logs@.subrange(0, pre.logs@.len() as int)
                            =~= pre.logs@);
                        assert(self.jobs@[k as int].wellformed());
                        Self::lemma_update_frame(*old(self), *self, k as int, id);
                    }
                    true
                }
            },
        }
    }

    /// All jobs currently holding `status`, in storage order: every entry
    /// is a well-formed stored job with that status, and every stored job
    /// with that status appears.
    pub fn list_with_status(&self, status: BuildStatus) -> (r: Vec<&BuildJob>)
        requires
            self.wf(),
        ensures
            derefs(r@) == self.jobs_with_status(status),
            forall|k: int|
                0 <= k < r@.len() ==> (#[trigger] r@[k]).wellformed() && r@[k].status == status
                    && self.contains_job(r@[k].id) && self.spec_get(r@[k].id) == *r@[k],
            forall|id: u128|
                self.contains_job(id) && (#[trigger] self.spec_get(id)).status == status
                    ==> derefs(r@).contains(self.spec_get(id)),
    {
        let mut r: Vec<&BuildJob> = Vec::new();
        proof {
            assert(self.jobs@.subrange(0, 0) =~= Seq::<BuildJob>::empty());
            assert(derefs(r@) =~= filter_status(self.jobs@.subrange(0, 0), status));
        }
        let mut k: usize = 0;
        while k < self.jobs.len()
            invariant
                k <= self.jobs@.len(),
                self.wf(),
                derefs(r@) == filter_status(self.jobs@.subrange(0, k as int), status),
            decreases self.jobs@.len() - k,
        {
            let ghost prefix = self.jobs@.subrange(0, k as int);
            if rank_of_status(self.jobs[k].status) == rank_of_status(status) {
                proof {
                    assert(self.jobs@[k as int].status == status);
                }
                r.push(&self.jobs[k]);
            }
            proof {
                let next = self.jobs@.subrange(0, k + 1);
                assert(next.drop_last() =~= prefix);
                assert(next.last() == self.jobs@[k as int]);
                assert(derefs(r@) =~= filter_status(next, status));
            }
            k += 1;
        }
        proof {
            assert(self.jobs@.subrange(0, self.jobs@.len() as int) =~= self.jobs@);
            lemma_filter_status_members(self.jobs@, status);
            assert forall|k: int| 0 <= k < r@.len() implies (#[trigger] r@[k]).wellformed()
                && r@[k].status == status && self.contains_job(r@[k].id) && self.spec_get(
                r@[k].id,
            ) == *r@[k] by {
                let x = derefs(r@)[k];
                assert(x == *r@[k]);
                assert(x == filter_status(self.jobs@, status)[k]);
                assert(self.jobs@.contains(x));
                let i = choose|i: int| 0 <= i < self.jobs@.len() && self.jobs@[i] == x;
                self.lemma_index_unique(x.id, i);
            }
            assert forall|id: u128| self.contains_job(id) && (#[trigger] self.spec_get(
                id,
            )).status == status implies derefs(r@).contains(self.spec_get(id)) by {
                let i = self.job_index(id);
                assert(self.jobs@[i] == self.spec_get(id));
                assert(filter_status(self.jobs@, status).contains(self.jobs@[i]));
            }
        }
        r
    }

    /// The completed jobs, for a gallery view: exactly the stored jobs in
    /// `Completed`, each well-formed.
    pub fn list_completed_builds(&self) -> (r: Vec<&BuildJob>)
        requires
            self.wf(),
        ensures
            derefs(r@) == self.jobs_with_status(BuildStatus::Completed),
            forall|k: int|
                0 <= k < r@.len() ==> (#[trigger] r@[k]).wellformed() && r@[k].status
                    == BuildStatus::Completed && self.contains_job(r@[k].id) && self.spec_get(
                    r@[k].id,
                ) == *r@[k],
            forall|id: u128|
                self.contains_job(id) && (#[trigger] self.spec_get(id)).status
                    == BuildStatus::Completed ==> derefs(r@).contains(self.spec_get(id)),
    {
        self.list_with_status(BuildStatus::Completed)
    }

    /// Register a new job for `config` under a freshly drawn identifier,
    /// stamped with the current time, and return the id. Returns `None`,
    /// changing nothing, only when the drawn identifier collided with an
    /// existing job — never on an empty registry — and the caller may
    /// simply submit again.
    pub fn submit_build(&mut self, config: BuildConfig) -> (r: Option<u128>)
        requires
            old(self).wf(),
        ensures
            final(self).wf(),
            r is None ==> exists|taken: u128| #[trigger] old(self).contains_job(taken),
            match r {
                Some(id) => {
                    &&& !old(self).contains_job(id)
                    &&& final(self).contains_job(id)
                    &&& final(self).spec_get(id).id == id
                    &&& final(self).spec_get(id).config == config
                    &&& final(self).spec_get(id).status == BuildStatus::Queued
                    &&& final(self).spec_get(id).progress == 0
                    &&& forall|other: u128|
                        other != id ==> #[trigger] final(self).contains_job(other)
                            == old(self).contains_job(other) && (old(self).contains_job(other)
                            ==> final(self).spec_get(other) == old(self).spec_get(other))
                },
                None => *final(self) == *old(self),
            },
    {
        let id = fresh_job_id();
        let now = now_millis();
        if self.create_build(config, id, now) {
            Some(id)
        } else {
            proof {
                assert(old(self).contains_job(id));
            }
            None
        }
    }
}

/// Relies on `uuid::Uuid::new_v4` and `Uuid::as_u128`: a randomly drawn
/// 128-bit identifier. Nothing is assumed about its value; callers handle
/// a collision with an existing id explicitly.
#[verifier::external_body]
pub fn fresh_job_id() -> u128 {
    uuid::Uuid::new_v4().as_u128()
}

/// Relies on `chrono::Utc::now` and `DateTime::timestamp_millis`: the
/// wall-clock time in milliseconds since the epoch. Nothing is assumed
/// about its value; contracts carry timestamps through unexamined.
#[verifier::external_body]
pub fn now_millis() -> i64 {
    chrono::Utc::now().timestamp_millis()
}

/// Law: within one well-formed job, the recorded progress values never
/// decrease and the recorded statuses never move backwards.
pub proof fn lemma_progress_monotone(j: BuildJob, i: int, k: int)
    requires
        j.wellformed(),
        0 <= i <= k < j.history@.len(),
    ensures
        j.history@[i].1 <= j.history@[k].1,
        status_rank(j.history@[i].0) <= status_rank(j.history@[k].0),
{
}

/// Law: a later snapshot of a job whose history extends an earlier
/// snapshot's history reports at least the earlier progress and an
/// equal-or-later status — successive reads of one job are monotone.
pub proof fn lemma_snapshots_monotone(before: BuildJob, after: BuildJob)
    requires
        before.wellformed(),
        after.wellformed(),
        before.history@.is_prefix_of(after.history@),
    ensures
        before.progress <= after.progress,
        status_rank(before.status) <= status_rank(after.status),
{
    let hb = before.history@;
    let ha = after.history@;
    assert(ha.subrange(0, hb.len() as int) == hb);
    assert(hb[hb.len() - 1] == ha.subrange(0, hb.len() as int)[hb.len() - 1]);
    assert(hb.last() == ha[hb.len() - 1]);
    assert(ha[hb.len() - 1].1 <= ha[ha.len() - 1].1);
}

/// Law: once a snapshot shows a terminal status, every later snapshot of
/// the same job is identical in status, progress and history.
pub proof fn lemma_terminal_is_final(before: BuildJob, after: BuildJob)
    requires
        before.wellformed(),
        after.wellformed(),
        is_terminal(before.status),
        before.history@.is_prefix_of(after.history@),
    ensures
        after.history@ == before.history@,
        after.status == before.status,
        after.progress == before.progress,
{
    let hb = before.history@;
    let ha = after.history@;
    assert(ha.subrange(0, hb.len() as int) == hb);
    assert(hb[hb.len() - 1] == ha.subrange(0, hb.len() as int)[hb.len() - 1]);
    if ha.len() > hb.len() {
        assert(is_terminal(ha[hb.len() - 1].0));
        assert(!is_terminal(ha[hb.len() - 1].0));
    }
    assert(ha =~= hb);
}

} // verus!
