//! Content-addressed blob storage with single-flight fetch coalescing.
//!
//! A request for a missing file either joins the in-flight download of the
//! same file or becomes its leader.  The jobs table below is the state the
//! storage consults under its lock: every decision it makes — wait, serve
//! the cached copy, or lead a fetch — is a transition here, so at any
//! instant at most one requester per filename holds leadership, and a
//! failed fetch hands leadership to exactly one waiter when one exists.
//! The surrounding program performs the waiting, the notifications and the
//! file I/O; it calls one transition per lock-held section.

use vstd::prelude::*;

use crate::config::Config;
use crate::fetcher::Fetcher;
use crate::strutil::concat_str;
use crate::strutil::str_eq;
use crate::utils::spec_digest_dir;
use crate::utils::filename_hash_dir_blake2b;

verus! {

/// One in-flight download: how many requesters wait on its notifier, and
/// (as ghost bookkeeping) how many fetch attempts were started for it and
/// how many failure elections handed leadership on.
#[derive(Clone, Copy)]
pub struct FetchJob {
    /// requesters waiting for this download to finish
    pub waiters: u64,
    /// fetch attempts started since this job was created
    pub fetches: Ghost<nat>,
    /// failed attempts whose leadership was handed to a waiter
    pub elections: Ghost<nat>,
}

/// The table of in-flight downloads, keyed by filename.
pub struct FetchJobs {
    jobs: Vec<(String, FetchJob)>,
}

/// The jobs table as a map from filename to job.
pub open spec fn jobs_map(s: Seq<(String, FetchJob)>) -> Map<Seq<char>, FetchJob>
    decreases s.len(),
{
    if s.len() == 0 {
        Map::empty()
    } else {
        jobs_map(s.drop_last()).insert(s.last().0@, s.last().1)
    }
}

/// No filename occurs twice in the table.
pub open spec fn jobs_keys_unique(s: Seq<(String, FetchJob)>) -> bool {
    forall|i: int, j: int| 0 <= i < j < s.len() ==> (#[trigger] s[i]).0@ != (#[trigger] s[j]).0@
}

proof fn lemma_jobs_map_contains(s: Seq<(String, FetchJob)>, k: Seq<char>)
    ensures
        jobs_map(s).contains_key(k) <==> exists|i: int| 0 <= i < s.len() && (#[trigger] s[i]).0@
            == k,
    decreases s.len(),
{
    if s.len() > 0 {
        lemma_jobs_map_contains(s.drop_last(), k);
        if s.last().0@ == k {
            assert(s[s.len() - 1].0@ == k);
        } else {
            if jobs_map(s).contains_key(k) {
                let i = choose|i: int| 0 <= i < s.drop_last().len() && (#[trigger] s.drop_last()[
                    i
                ]).0@ == k;
                assert(s[i].0@ == k);
            }
            if exists|i: int| 0 <= i < s.len() && (#[trigger] s[i]).0@ == k {
                let i = choose|i: int| 0 <= i < s.len() && (#[trigger] s[i]).0@ == k;
                assert(i < s.len() - 1);
                assert(s.drop_last()[i].0@ == k);
            }
        }
    }
}

proof fn lemma_jobs_map_index(s: Seq<(String, FetchJob)>, i: int)
    requires
        jobs_keys_unique(s),
        0 <= i < s.len(),
    ensures
        jobs_map(s).contains_key(s[i].0@),
        jobs_map(s)[s[i].0@] == s[i].1,
    decreases s.len(),
{
    if i == s.len() - 1 {
    } else {
        assert(jobs_keys_unique(s.drop_last()));
        lemma_jobs_map_index(s.drop_last(), i);
        assert(s.drop_last()[i] == s[i]);
        assert(s.last().0@ != s[i].0@);
    }
}

proof fn lemma_jobs_map_take_push(s: Seq<(String, FetchJob)>, i: int)
    requires
        0 <= i < s.len(),
    ensures
        jobs_map(s.take(i + 1)) == jobs_map(s.take(i)).insert(s[i].0@, s[i].1),
{
    assert(s.take(i + 1).drop_last() =~= s.take(i));
    assert(s.take(i + 1).last() == s[i]);
}

proof fn lemma_jobs_map_push(s: Seq<(String, FetchJob)>, p: (String, FetchJob))
    ensures
        jobs_map(s.push(p)) == jobs_map(s).insert(p.0@, p.1),
{
    assert(s.push(p).drop_last() =~= s);
    assert(s.push(p).last() == p);
}

/// What a requester is told to do, decided under the jobs lock.
#[derive(PartialEq, Eq, Structural, Clone, Copy, Debug)]
pub enum Decision {
    /// a complete copy exists and no download is in flight: serve it
    Hit,
    /// the same file is being downloaded: wait on its notifier
    Wait,
    /// nobody is downloading it: this requester fetches
    Lead,
}

/// The decision for a requester, from the jobs table and whether a
/// complete copy is on disk.
pub open spec fn arrive_decision(
    m: Map<Seq<char>, FetchJob>,
    file: Seq<char>,
    file_present: bool,
) -> Decision {
    if m.contains_key(file) {
        Decision::Wait
    } else if file_present {
        Decision::Hit
    } else {
        Decision::Lead
    }
}

impl FetchJobs {
    /// The table as a map from filename to job.
    pub closed spec fn view(&self) -> Map<Seq<char>, FetchJob> {
        jobs_map(self.jobs@)
    }

    /// Well-formedness: filenames are unique, and for every live job the
    /// fetch attempts started are exactly one (the initial leader) plus
    /// the failure elections — the single-flight bookkeeping.
    pub closed spec fn wf(&self) -> bool {
        &&& jobs_keys_unique(self.jobs@)
        &&& forall|k: Seq<char>|
            self.view().contains_key(k) ==> (#[trigger] self.view()[k]).fetches@ == 1
                + self.view()[k].elections@
    }

    /// An empty jobs table.
    pub fn new() -> (r: FetchJobs)
        ensures
            r@ == Map::<Seq<char>, FetchJob>::empty(),
            r.wf(),
    {
        let r = FetchJobs { jobs: Vec::new() };
        proof {
            assert(r@ =~= Map::<Seq<char>, FetchJob>::empty());
        }
        r
    }

    /// The index of a filename's entry, when it has one.
    fn find(&self, file: &str) -> (r: Option<usize>)
        ensures
            match r {
                Some(i) => i < self.jobs@.len() && self.jobs@[i as int].0@ == file@,
                None => forall|j: int| 0 <= j < self.jobs@.len() ==> (#[trigger] self.jobs@[
                    j
                ]).0@ != file@,
            },
    {
        let mut i: usize = 0;
        while i < self.jobs.len()
            invariant
                i <= self.jobs@.len(),
                forall|j: int| 0 <= j < i ==> (#[trigger] self.jobs@[j]).0@ != file@,
            decreases self.jobs@.len() - i,
        {
            if str_eq(self.jobs[i].0.as_str(), file) {
                return Some(i);
            }
            i = i + 1;
        }
        None
    }

    /// Removes a filename's entry by rebuilding the table without it.
    fn remove_key(&mut self, file: &str)
        requires
            jobs_keys_unique(old(self).jobs@),
        ensures
            jobs_keys_unique(final(self).jobs@),
            jobs_map(final(self).jobs@) == jobs_map(old(self).jobs@).remove(file@),
            forall|j: int| 0 <= j < final(self).jobs@.len() ==> (#[trigger] final(self).jobs@[
                j
            ]).0@ != file@,
    {
        let ghost s = self.jobs@;
        let mut out: Vec<(String, FetchJob)> = Vec::new();
        let mut i: usize = 0;
        proof {
            assert(s.take(0) =~= Seq::<(String, FetchJob)>::empty());
            assert(jobs_map(out@) =~= jobs_map(s.take(0)).remove(file@));
        }
        while i < self.jobs.len()
            invariant
                self.jobs@ == s,
                jobs_keys_unique(s),
                i <= s.len(),
                jobs_keys_unique(out@),
                jobs_map(out@) == jobs_map(s.take(i as int)).remove(file@),
                forall|j: int| 0 <= j < out@.len() ==> (#[trigger] out@[j]).0@ != file@,
                forall|j: int|
                    0 <= j < out@.len() ==> exists|l: int|
                        0 <= l < i && (#[trigger] out@[j]).0@ == s[l].0@,
            decreases s.len() - i,
        {
            let ghost out0 = out@;
            proof {
                lemma_jobs_map_take_push(s, i as int);
            }
            if !str_eq(self.jobs[i].0.as_str(), file) {
                let key = self.jobs[i].0.clone();
                let job = self.jobs[i].1;
                proof {
                    assert forall|j: int| 0 <= j < out0.len() implies (#[trigger] out0[j]).0@ != s[
                        i as int
                    ].0@ by {
                        let l = choose|l: int| 0 <= l < i && out0[j].0@ == s[l].0@;
                        assert(s[l].0@ != s[i as int].0@);
                    }
                }
                out.push((key, job));
                proof {
                    lemma_jobs_map_push(out0, (key, job));
                    assert(jobs_map(out@) =~= jobs_map(s.take(i + 1)).remove(file@));
                    assert forall|j: int| 0 <= j < out@.len() implies exists|l: int|
                        0 <= l < i + 1 && (#[trigger] out@[j]).0@ == s[l].0@ by {
                        if j < out0.len() {
                            let l = choose|l: int| 0 <= l < i && out0[j].0@ == s[l].0@;
                            assert(0 <= l < i + 1 && out@[j].0@ == s[l].0@);
                        } else {
                            assert(out@[j].0@ == s[i as int].0@);
                        }
                    }
                }
            } else {
                proof {
                    assert(jobs_map(out@) =~= jobs_map(s.take(i + 1)).remove(file@));
                }
            }
            i = i + 1;
        }
        proof {
            assert(s.take(s.len() as int) =~= s);
        }
        self.jobs = out;
    }

    /// One requester arrives for a file, with the lock held and the blob
    /// path already checked.  It is told to wait when a download is in
    /// flight, to take the cached copy when one exists, and to lead the
    /// download otherwise, in which case its job is recorded.
    pub fn arrive(&mut self, file: &str, file_present: bool) -> (d: Decision)
        requires
            old(self).wf(),
            old(self)@.contains_key(file@) ==> old(self)@[file@].waiters < u64::MAX,
        ensures
            final(self).wf(),
            d == arrive_decision(old(self)@, file@, file_present),
            d == Decision::Hit ==> final(self)@ == old(self)@,
            d == Decision::Wait ==> {
                &&& final(self)@.contains_key(file@)
                &&& final(self)@[file@].waiters == old(self)@[file@].waiters + 1
                &&& final(self)@[file@].fetches == old(self)@[file@].fetches
                &&& final(self)@[file@].elections == old(self)@[file@].elections
                &&& final(self)@.remove(file@) == old(self)@.remove(file@)
            },
            d == Decision::Lead ==> {
                &&& final(self)@.contains_key(file@)
                &&& final(self)@[file@].waiters == 0
                &&& final(self)@[file@].fetches@ == 1
                &&& final(self)@[file@].elections@ == 0
                &&& final(self)@.remove(file@) == old(self)@
            },
    {
        proof {
            lemma_jobs_map_contains(self.jobs@, file@);
        }
        match self.find(file) {
            Some(i) => {
                proof {
                    lemma_jobs_map_index(self.jobs@, i as int);
                }
                let job = self.jobs[i].1;
                let newjob = FetchJob {
                    waiters: job.waiters + 1,
                    fetches: job.fetches,
                    elections: job.elections,
                };
                self.replace(file, newjob);
                Decision::Wait
            },
            None => {
                if file_present {
                    Decision::Hit
                } else {
                    let newjob = FetchJob { waiters: 0, fetches: Ghost(1nat), elections: Ghost(0nat) };
                    let ghost s0 = self.jobs@;
                    let key = file.to_owned();
                    self.jobs.push((key, newjob));
                    proof {
                        lemma_jobs_map_push(s0, (key, newjob));
                        assert(jobs_map(self.jobs@).remove(file@) =~= jobs_map(old(self).jobs@));
                        assert(jobs_keys_unique(self.jobs@));
                    }
                    Decision::Lead
                }
            },
        }
    }

    /// Replaces a filename's entry, keeping the table well formed.
    fn replace(&mut self, file: &str, job: FetchJob)
        requires
            jobs_keys_unique(old(self).jobs@),
        ensures
            jobs_keys_unique(final(self).jobs@),
            jobs_map(final(self).jobs@) == jobs_map(old(self).jobs@).insert(file@, job),
    {
        self.remove_key(file);
        let ghost s1 = self.jobs@;
        let key = file.to_owned();
        self.jobs.push((key, job));
        proof {
            lemma_jobs_map_push(s1, (key, job));
            assert(jobs_map(self.jobs@) =~= jobs_map(old(self).jobs@).insert(file@, job));
            assert(jobs_keys_unique(self.jobs@));
        }
    }

    /// The waiters recorded for a file's in-flight download, when one is
    /// in the table.
    pub fn waiter_count(&self, file: &str) -> (r: Option<u64>)
        requires
            self.wf(),
        ensures
            match r {
                Some(w) => self@.contains_key(file@) && self@[file@].waiters == w,
                None => !self@.contains_key(file@),
            },
    {
        proof {
            lemma_jobs_map_contains(self.jobs@, file@);
        }
        match self.find(file) {
            Some(i) => {
                proof {
                    lemma_jobs_map_index(self.jobs@, i as int);
                }
                Some(self.jobs[i].1.waiters)
            },
            None => None,
        }
    }

    /// The leader's download completed: the job is dropped and every
    /// waiter is woken to take the cached copy.
    pub fn on_success(&mut self, file: &str)
        requires
            old(self).wf(),
        ensures
            final(self).wf(),
            final(self)@ == old(self)@.remove(file@),
    {
        self.remove_key(file);
        proof {
            assert forall|k: Seq<char>| self.view().contains_key(k) implies (
            #[trigger] self.view()[k]).fetches@ == 1 + self.view()[k].elections@ by {
                assert(old(self).view().contains_key(k));
                assert(old(self).view()[k].fetches@ == 1 + old(self).view()[k].elections@);
                assert(self.view()[k] == old(self).view()[k]);
            }
        }
    }

    /// The leader's download failed, with any partial file already
    /// removed.  When waiters remain, exactly one is elected: it inherits
    /// leadership and retries, and the job stays in the table.  With no
    /// waiter left the job is dropped.
    pub fn on_failure(&mut self, file: &str) -> (elected: bool)
        requires
            old(self).wf(),
            old(self)@.contains_key(file@),
        ensures
            final(self).wf(),
            elected == (old(self)@[file@].waiters > 0),
            elected ==> {
                &&& final(self)@.contains_key(file@)
                &&& final(self)@[file@].waiters == old(self)@[file@].waiters - 1
                &&& final(self)@[file@].fetches@ == old(self)@[file@].fetches@ + 1
                &&& final(self)@[file@].elections@ == old(self)@[file@].elections@ + 1
                &&& final(self)@.remove(file@) == old(self)@.remove(file@)
            },
            !elected ==> final(self)@ == old(self)@.remove(file@),
    {
        proof {
            lemma_jobs_map_contains(self.jobs@, file@);
        }
        match self.find(file) {
            Some(i) => {
                proof {
                    lemma_jobs_map_index(self.jobs@, i as int);
                }
                let job = self.jobs[i].1;
                if job.waiters > 0 {
                    let newjob = FetchJob {
                        waiters: job.waiters - 1,
                        fetches: Ghost(job.fetches@ + 1),
                        elections: Ghost(job.elections@ + 1),
                    };
                    self.replace(file, newjob);
                    true
                } else {
                    self.remove_key(file);
                    false
                }
            },
            None => {
                proof {
                    let i = choose|i: int|
                        0 <= i < self.jobs@.len() && (#[trigger] self.jobs@[i]).0@ == file@;
                    assert(false);
                }
                false
            },
        }
    }
}

/// Law: for every live fetch job, the fetch attempts started are exactly
/// one plus the failure elections — so the completed downloads for a file
/// never exceed one more than the number of elections, and a file that was
/// absent when its first requester arrived is fetched at least once.
pub proof fn lemma_single_flight_bound(jobs: FetchJobs, file: Seq<char>)
    requires
        jobs.wf(),
        jobs@.contains_key(file),
    ensures
        jobs@[file].fetches@ == 1 + jobs@[file].elections@,
        jobs@[file].fetches@ >= 1,
{
}

/// Law: after a successful download removed its job, a further request
/// for the now-present file is a cache hit: it neither waits nor starts a
/// new fetch.
pub proof fn lemma_second_request_hits(m: Map<Seq<char>, FetchJob>, file: Seq<char>)
    requires
        !m.contains_key(file),
    ensures
        arrive_decision(m, file, true) == Decision::Hit,
{
}

/// The on-disk path of a blob: the storage location, the two-character
/// digest directory, then the filename.
pub open spec fn spec_blob_path(location: Seq<char>, name: Seq<char>) -> Seq<char> {
    location + "/"@ + spec_digest_dir(name) + "/"@ + name
}

/// Storage for downloaded blobs.
pub struct BlobStorage {
    /// root of the blob storage: the distfiles directory under the
    /// configured storage location
    pub location: String,
    /// fetcher used for missing files
    pub fetcher: Fetcher,
    /// the in-flight downloads, consulted under the storage lock
    pub jobs: FetchJobs,
}

impl BlobStorage {
    /// Builds the storage from the configuration.  Fails exactly when the
    /// mirror list is empty.  Creating the directory on disk is the
    /// caller's part.
    pub fn new(config: &Config) -> (r: Result<BlobStorage, String>)
        ensures
            r is Err <==> config.fetcher.mirrors@.len() == 0,
            r matches Ok(b) ==> {
                &&& b.location@ == config.storage.location@ + "/distfiles"@
                &&& b.fetcher.wf()
                &&& b.fetcher.next_mirror == 0
                &&& b.fetcher.mirrors_view().len() == config.fetcher.mirrors@.len()
                &&& b.jobs@ == Map::<Seq<char>, FetchJob>::empty()
                &&& b.jobs.wf()
            },
    {
        let fetcher = match Fetcher::new(config) {
            Ok(f) => f,
            Err(e) => {
                return Err(e);
            },
        };
        let location = concat_str(config.storage.location.as_str(), "/distfiles");
        Ok(BlobStorage { location, fetcher, jobs: FetchJobs::new() })
    }

    /// The storage location for a blob.
    pub fn blob_location(&self, name: &str) -> (r: String)
        ensures
            r@ == spec_blob_path(self.location@, name@),
    {
        let digest = filename_hash_dir_blake2b(name);
        let a = concat_str(self.location.as_str(), "/");
        let b = a.concat(digest.as_str());
        let c = b.concat("/");
        c.concat(name)
    }
}

} // verus!
