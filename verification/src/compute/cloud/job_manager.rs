//! Job management for cloud backends: a cache of job results that expire
//! after a time to live, the decisions of the retry loop, and a queue in
//! which jobs move from pending to running to completed.
//!
//! Times are nanoseconds since the Unix epoch.

use std::collections::HashMap;
use vstd::prelude::*;
use crate::clock::now_nanos;
pub use crate::clock::{DURATION_NANOS_LIMIT, NANOS_PER_SECOND};
use crate::error::{is_circuit_error, MyQuatError, Result};
use crate::text::{decimal, decimal_spec, first_position, is_first, lemma_first_position};

verus! {

/// The texts of a list of strings.
pub open spec fn texts(s: Seq<String>) -> Seq<Seq<char>> {
    s.map_values(|x: String| x@)
}

/// Mathematical model of a job queue: job identifiers in each stage, in order of arrival.
pub struct QueueView {
    pub pending: Seq<Seq<char>>,
    pub running: Seq<Seq<char>>,
    pub completed: Seq<Seq<char>>,
}

/// Moving the first occurrence of `id` from list `from` to the end of list `to`.
pub open spec fn move_first(from: Seq<Seq<char>>, to: Seq<Seq<char>>, id: Seq<char>) -> (Seq<Seq<char>>, Seq<Seq<char>>) {
    (from.remove(first_position(from, id)), to.push(id))
}

/// Queue status
#[derive(Debug, Clone, Copy, PartialEq, Eq, Structural)]
pub struct QueueStatus {
    pub pending_count: usize,
    pub running_count: usize,
    pub completed_count: usize,
}

/// Job queue for managing multiple pending jobs
pub struct JobQueue {
    /// Pending jobs
    pending: Vec<String>,
    /// Running jobs
    running: Vec<String>,
    /// Completed jobs
    completed: Vec<String>,
}

impl View for JobQueue {
    type V = QueueView;

    closed spec fn view(&self) -> QueueView {
        QueueView { pending: texts(self.pending@), running: texts(self.running@), completed: texts(self.completed@) }
    }
}

/// First position of `id` in `list`, if any.
fn position(list: &Vec<String>, id: &String) -> (r: Option<usize>)
    ensures
        match r {
            Some(i) => is_first(texts(list@), id@, i as int),
            None => !texts(list@).contains(id@),
        },
{
    let ghost names = texts(list@);
    let mut i: usize = 0;
    while i < list.len()
        invariant
            i <= list@.len(),
            names == texts(list@),
            forall|j: int| 0 <= j < i ==> names[j] != id@,
        decreases list.len() - i,
    {
        if list[i] == *id {
            return Some(i);
        }
        i = i + 1;
    }
    None
}

/// Move the first `id` of `from` to the end of `to`.
fn transfer(from: &mut Vec<String>, to: &mut Vec<String>, pos: usize)
    requires
        pos < old(from)@.len(),
    ensures
        texts(final(from)@) == texts(old(from)@).remove(pos as int),
        texts(final(to)@) == texts(old(to)@).push(old(from)@[pos as int]@),
{
    let ghost f = from@;
    let ghost t = to@;
    let job = from.remove(pos);
    to.push(job);
    assert(texts(from@) =~= texts(f).remove(pos as int));
    assert(texts(to@) =~= texts(t).push(f[pos as int]@));
}

impl JobQueue {
    /// Create a new job queue
    pub fn new() -> (r: Self)
        ensures
            r@.pending == Seq::<Seq<char>>::empty(),
            r@.running == Seq::<Seq<char>>::empty(),
            r@.completed == Seq::<Seq<char>>::empty(),
    {
        let r = JobQueue { pending: Vec::new(), running: Vec::new(), completed: Vec::new() };
        assert(r@.pending =~= Seq::<Seq<char>>::empty());
        assert(r@.running =~= Seq::<Seq<char>>::empty());
        assert(r@.completed =~= Seq::<Seq<char>>::empty());
        r
    }

    /// Add a job to the queue
    pub fn add_job(&mut self, job_id: String)
        ensures
            final(self)@.pending == old(self)@.pending.push(job_id@),
            final(self)@.running == old(self)@.running,
            final(self)@.completed == old(self)@.completed,
    {
        let ghost before = self.pending@;
        let ghost id = job_id@;
        self.pending.push(job_id);
        assert(texts(self.pending@) =~= texts(before).push(id));
    }

    /// Mark job as running: its first pending entry moves to the running list
    pub fn mark_running(&mut self, job_id: &str) -> (r: Result<()>)
        ensures
            old(self)@.pending.contains(job_id@) ==> r is Ok
                && (final(self)@.pending, final(self)@.running) == move_first(old(self)@.pending, old(self)@.running, job_id@)
                && final(self)@.completed == old(self)@.completed,
            !old(self)@.pending.contains(job_id@) ==> final(self)@ == old(self)@
                && (r matches Err(e) && is_circuit_error(e, "Job not found in pending queue"@)),
    {
        let id = String::from_str(job_id);
        match position(&self.pending, &id) {
            Some(pos) => {
                proof {
                    lemma_first_position(texts(self.pending@), job_id@, pos as int);
                }
                transfer(&mut self.pending, &mut self.running, pos);
                Ok(())
            },
            None => Err(MyQuatError::circuit_error("Job not found in pending queue")),
        }
    }

    /// Mark job as completed: its first running entry moves to the completed list
    pub fn mark_completed(&mut self, job_id: &str) -> (r: Result<()>)
        ensures
            old(self)@.running.contains(job_id@) ==> r is Ok
                && (final(self)@.running, final(self)@.completed) == move_first(old(self)@.running, old(self)@.completed, job_id@)
                && final(self)@.pending == old(self)@.pending,
            !old(self)@.running.contains(job_id@) ==> final(self)@ == old(self)@
                && (r matches Err(e) && is_circuit_error(e, "Job not found in running queue"@)),
    {
        let id = String::from_str(job_id);
        match position(&self.running, &id) {
            Some(pos) => {
                proof {
                    lemma_first_position(texts(self.running@), job_id@, pos as int);
                }
                transfer(&mut self.running, &mut self.completed, pos);
                Ok(())
            },
            None => Err(MyQuatError::circuit_error("Job not found in running queue")),
        }
    }

    /// Get queue status
    pub fn status(&self) -> (r: QueueStatus)
        ensures
            r.pending_count == self@.pending.len(),
            r.running_count == self@.running.len(),
            r.completed_count == self@.completed.len(),
    {
        QueueStatus {
            pending_count: self.pending.len(),
            running_count: self.running.len(),
            completed_count: self.completed.len(),
        }
    }

    /// Get next pending job
    pub fn next_pending(&self) -> (r: Option<&String>)
        ensures
            match r {
                Some(s) => self@.pending.len() > 0 && s@ == self@.pending[0],
                None => self@.pending.len() == 0,
            },
    {
        if self.pending.len() > 0 {
            Some(&self.pending[0])
        } else {
            None
        }
    }
}

/// Moving a job between stages keeps the number of jobs in the queue.
pub proof fn law_transfer_keeps_job_count(from: Seq<Seq<char>>, to: Seq<Seq<char>>, id: Seq<char>)
    requires
        from.contains(id),
    ensures
        move_first(from, to, id).0.len() + move_first(from, to, id).1.len() == from.len() + to.len(),
        move_first(from, to, id).1.last() == id,
{
    let j = choose|j: int| 0 <= j < from.len() && from[j] == id;
    crate::text::lemma_first_exists(from, id, j);
    let f = choose|f: int| is_first(from, id, f);
    lemma_first_position(from, id, f);
}


impl Default for JobQueue {
    fn default() -> (r: Self)
        ensures
            r@.pending == Seq::<Seq<char>>::empty(),
            r@.running == Seq::<Seq<char>>::empty(),
            r@.completed == Seq::<Seq<char>>::empty(),
    {
        JobQueue::new()
    }
}

/// Text of a queue status, one count per line.
pub open spec fn queue_status_text(s: QueueStatus) -> Seq<char> {
    "Queue Status:\n  Pending: "@ + decimal_spec(s.pending_count as nat) + "\n  Running: "@
        + decimal_spec(s.running_count as nat) + "\n  Completed: "@ + decimal_spec(s.completed_count as nat)
        + "\n"@
}

/// `title`, then three labelled numbers, then a line break.
fn three_counts(title: &str, a: usize, second: &str, b: usize, third: &str, c: usize) -> (r: String)
    ensures
        r@ == title@ + decimal_spec(a as nat) + second@ + decimal_spec(b as nat) + third@ + decimal_spec(c as nat)
            + "\n"@,
{
    let mut s = String::from_str(title);
    let da = decimal(a);
    s.append(da.as_str());
    s.append(second);
    let db = decimal(b);
    s.append(db.as_str());
    s.append(third);
    let dc = decimal(c);
    s.append(dc.as_str());
    s.append("\n");
    s
}

impl QueueStatus {
    /// Human-readable text of the status
    pub fn to_string(&self) -> (r: String)
        ensures
            r@ == queue_status_text(*self),
    {
        three_counts(
            "Queue Status:\n  Pending: ",
            self.pending_count,
            "\n  Running: ",
            self.running_count,
            "\n  Completed: ",
            self.completed_count,
        )
    }
}

/// Job cache entry
#[derive(Debug, Clone)]
pub struct CachedJob {
    /// Job ID
    pub job_id: String,
    /// Job result (if completed)
    pub result: Option<HashMap<String, usize>>,
    /// When the entry was cached
    pub cached_at: u128,
    /// When the entry expires
    pub expires_at: u128,
    /// Job metadata
    pub metadata: HashMap<String, String>,
}

/// Mathematical model of a cache entry.
pub struct CacheEntryView {
    pub job_id: Seq<char>,
    pub result: Option<Map<String, usize>>,
    pub cached_at: u128,
    pub expires_at: u128,
    pub metadata: Map<String, String>,
}

impl View for CachedJob {
    type V = CacheEntryView;

    open spec fn view(&self) -> CacheEntryView {
        CacheEntryView {
            job_id: self.job_id@,
            result: match self.result {
                Some(m) => Some(m@),
                None => None,
            },
            cached_at: self.cached_at,
            expires_at: self.expires_at,
            metadata: self.metadata@,
        }
    }
}

/// The models of a list of cache entries.
pub open spec fn entry_views(s: Seq<CachedJob>) -> Seq<CacheEntryView> {
    s.map_values(|e: CachedJob| e@)
}

/// The entries of `s` by job identifier; a later entry for an identifier
/// replaces an earlier one.
pub open spec fn cache_map(s: Seq<CacheEntryView>) -> Map<Seq<char>, CacheEntryView>
    decreases s.len(),
{
    if s.len() == 0 {
        Map::empty()
    } else {
        cache_map(s.drop_last()).insert(s.last().job_id, s.last())
    }
}

/// No job identifier occurs twice in `s`.
pub open spec fn distinct_ids(s: Seq<CacheEntryView>) -> bool {
    forall|i: int, j: int| 0 <= i < j < s.len() ==> s[i].job_id != s[j].job_id
}

/// The identifiers of the entries of `m` that are still valid at `now`.
pub open spec fn live_keys(m: Map<Seq<char>, CacheEntryView>, now: u128) -> Set<Seq<char>> {
    m.dom().filter(|k: Seq<char>| now < m[k].expires_at)
}

/// The entries of `m` that are still valid at `now`.
pub open spec fn live_entries(m: Map<Seq<char>, CacheEntryView>, now: u128) -> Map<Seq<char>, CacheEntryView> {
    m.restrict(live_keys(m, now))
}

/// Number of entries of `s` valid at `now`.
pub open spec fn count_live(s: Seq<CacheEntryView>, now: u128) -> nat
    decreases s.len(),
{
    if s.len() == 0 {
        0
    } else {
        count_live(s.drop_last(), now) + if now < s.last().expires_at { 1nat } else { 0nat }
    }
}

/// The entry cached for `id` at `now` under a time to live of `ttl` seconds.
pub open spec fn fresh_entry(
    id: Seq<char>,
    result: Map<String, usize>,
    metadata: Map<String, String>,
    now: u128,
    ttl: u64,
) -> CacheEntryView {
    CacheEntryView {
        job_id: id,
        result: Some(result),
        cached_at: now,
        expires_at: (now + ttl * NANOS_PER_SECOND) as u128,
        metadata,
    }
}

/// Adding an entry with a new identifier adds it to the model.
proof fn lemma_map_push(s: Seq<CacheEntryView>, e: CacheEntryView)
    ensures
        cache_map(s.push(e)) == cache_map(s).insert(e.job_id, e),
{
    assert(s.push(e).drop_last() =~= s);
}

/// An identifier that no entry has is not in the model.
proof fn lemma_map_absent(s: Seq<CacheEntryView>, k: Seq<char>)
    requires
        forall|i: int| 0 <= i < s.len() ==> s[i].job_id != k,
    ensures
        !cache_map(s).dom().contains(k),
    decreases s.len(),
{
    if s.len() > 0 {
        lemma_map_absent(s.drop_last(), k);
    }
}

/// With distinct identifiers, each entry is the model's entry for its identifier.
proof fn lemma_map_at(s: Seq<CacheEntryView>, i: int)
    requires
        distinct_ids(s),
        0 <= i < s.len(),
    ensures
        cache_map(s).dom().contains(s[i].job_id),
        cache_map(s)[s[i].job_id] == s[i],
    decreases s.len(),
{
    if i < s.len() - 1 {
        lemma_map_at(s.drop_last(), i);
        assert(s.last().job_id != s[i].job_id);
    }
}

/// Replacing an entry by one with the same identifier replaces it in the model.
proof fn lemma_map_update(s: Seq<CacheEntryView>, i: int, e: CacheEntryView)
    requires
        distinct_ids(s),
        0 <= i < s.len(),
        e.job_id == s[i].job_id,
    ensures
        cache_map(s.update(i, e)) == cache_map(s).insert(e.job_id, e),
        distinct_ids(s.update(i, e)),
    decreases s.len(),
{
    if i == s.len() - 1 {
        assert(s.update(i, e).drop_last() =~= s.drop_last());
        assert(cache_map(s.update(i, e)) =~= cache_map(s).insert(e.job_id, e));
    } else {
        assert(s.update(i, e).drop_last() =~= s.drop_last().update(i, e));
        lemma_map_update(s.drop_last(), i, e);
        assert(s.last().job_id != e.job_id);
        assert(cache_map(s.update(i, e)) =~= cache_map(s).insert(e.job_id, e));
    }
}

/// Removing an entry removes its identifier from the model.
proof fn lemma_map_remove(s: Seq<CacheEntryView>, i: int)
    requires
        distinct_ids(s),
        0 <= i < s.len(),
    ensures
        cache_map(s.remove(i)) == cache_map(s).remove(s[i].job_id),
        distinct_ids(s.remove(i)),
    decreases s.len(),
{
    let k = s[i].job_id;
    if i == s.len() - 1 {
        assert(s.remove(i) =~= s.drop_last());
        lemma_map_absent(s.drop_last(), k);
        assert(cache_map(s.remove(i)) =~= cache_map(s).remove(k));
    } else {
        assert(s.remove(i) =~= s.drop_last().remove(i).push(s.last()));
        lemma_map_remove(s.drop_last(), i);
        lemma_map_push(s.drop_last().remove(i), s.last());
        assert(s.last().job_id != k);
        assert(cache_map(s.remove(i)) =~= cache_map(s).remove(k));
    }
    assert forall|a: int, b: int| 0 <= a < b < s.remove(i).len() implies s.remove(i)[a].job_id
        != s.remove(i)[b].job_id by {
        let a0 = if a < i { a } else { a + 1 };
        let b0 = if b < i { b } else { b + 1 };
        assert(s.remove(i)[a] == s[a0]);
        assert(s.remove(i)[b] == s[b0]);
    }
}

/// The model has one identifier per entry, and counts the valid ones.
proof fn lemma_map_counts(s: Seq<CacheEntryView>, now: u128)
    requires
        distinct_ids(s),
    ensures
        cache_map(s).dom().finite(),
        cache_map(s).dom().len() == s.len(),
        live_keys(cache_map(s), now).len() == count_live(s, now),
    decreases s.len(),
{
    if s.len() == 0 {
        assert(live_keys(cache_map(s), now) =~= Set::<Seq<char>>::empty());
    } else {
        let d = s.drop_last();
        let e = s.last();
        lemma_map_counts(d, now);
        lemma_map_absent(d, e.job_id);
        let m = cache_map(d);
        m.dom().lemma_len_filter(|k: Seq<char>| now < m[k].expires_at);
        if now < e.expires_at {
            assert(live_keys(cache_map(s), now) =~= live_keys(m, now).insert(e.job_id));
        } else {
            assert(live_keys(cache_map(s), now) =~= live_keys(m, now));
        }
    }
}

/// Mathematical model of a job manager.
pub struct JobManagerView {
    pub cache: Map<Seq<char>, CacheEntryView>,
    pub max_retries: usize,
    pub retry_delay: u64,
    pub cache_ttl: u64,
}

/// Job manager with caching and retry logic
pub struct JobManager {
    /// Cached jobs, no identifier twice
    cache: Vec<CachedJob>,
    /// Maximum retry attempts
    max_retries: usize,
    /// Retry delay in seconds
    retry_delay: u64,
    /// Cache time to live in seconds
    cache_ttl: u64,
}

impl View for JobManager {
    type V = JobManagerView;

    closed spec fn view(&self) -> JobManagerView {
        JobManagerView {
            cache: cache_map(entry_views(self.cache@)),
            max_retries: self.max_retries,
            retry_delay: self.retry_delay,
            cache_ttl: self.cache_ttl,
        }
    }
}

/// Cache statistics
#[derive(Debug, Clone, Copy, PartialEq, Eq, Structural)]
pub struct CacheStats {
    pub total_entries: usize,
    pub valid_entries: usize,
    pub expired_entries: usize,
}

/// Text of cache statistics, one count per line.
pub open spec fn cache_stats_text(s: CacheStats) -> Seq<char> {
    "Cache Statistics:\n  Total entries: "@ + decimal_spec(s.total_entries as nat) + "\n  Valid entries: "@
        + decimal_spec(s.valid_entries as nat) + "\n  Expired entries: "@ + decimal_spec(s.expired_entries as nat)
        + "\n"@
}

impl CacheStats {
    /// Human-readable text of the statistics
    pub fn to_string(&self) -> (r: String)
        ensures
            r@ == cache_stats_text(*self),
    {
        three_counts(
            "Cache Statistics:\n  Total entries: ",
            self.total_entries,
            "\n  Valid entries: ",
            self.valid_entries,
            "\n  Expired entries: ",
            self.expired_entries,
        )
    }
}

/// Retry configuration
#[derive(Debug, Clone, Copy, PartialEq, Eq, Structural)]
pub struct RetryConfig {
    pub max_retries: usize,
    pub retry_delay: u64,
    pub cache_ttl: u64,
}

/// The error of a retry loop in which no attempt succeeded: that of the last
/// failure, or a circuit error when no attempt was made.
pub fn retry_failure(last: Option<MyQuatError>) -> (e: MyQuatError)
    ensures
        match last {
            Some(x) => e == x,
            None => is_circuit_error(e, "All retry attempts failed"@),
        },
{
    match last {
        Some(x) => x,
        None => MyQuatError::circuit_error("All retry attempts failed"),
    }
}

/// Reading the cache for `job_id` at time `now` turns `before` into
/// `after` and gives `r`: a valid entry gives its result and stays; an
/// expired one is removed and gives nothing; a missing one gives nothing.
pub open spec fn read_at(
    before: JobManagerView,
    after: JobManagerView,
    r: Option<HashMap<String, usize>>,
    now: u128,
    job_id: Seq<char>,
) -> bool {
    match before.cache.get(job_id) {
        Some(e) => if now < e.expires_at {
            &&& after == before
            &&& match r {
                Some(m) => e.result == Some(m@),
                None => e.result is None,
            }
        } else {
            &&& r is None
            &&& after == (JobManagerView { cache: before.cache.remove(job_id), ..before })
        },
        None => r is None && after == before,
    }
}

/// The cache holds an entry for `job_id` that is valid at time `now`.
pub open spec fn valid_at(m: JobManagerView, job_id: Seq<char>, now: u128) -> bool {
    m.cache.dom().contains(job_id) && now < m.cache[job_id].expires_at
}

impl JobManager {
    /// The cache's entries are well formed: no job identifier twice.
    pub closed spec fn wf(&self) -> bool {
        distinct_ids(entry_views(self.cache@))
    }

    /// Create a new job manager: three attempts, five seconds between
    /// them, cached results kept for an hour
    pub fn new() -> (r: Self)
        ensures
            r.wf(),
            r@.cache == Map::<Seq<char>, CacheEntryView>::empty(),
            r@.max_retries == 3,
            r@.retry_delay == 5,
            r@.cache_ttl == 3600,
    {
        JobManager::with_config(3, 5, 3600)
    }

    /// Create with custom configuration
    pub fn with_config(max_retries: usize, retry_delay: u64, cache_ttl: u64) -> (r: Self)
        ensures
            r.wf(),
            r@.cache == Map::<Seq<char>, CacheEntryView>::empty(),
            r@.max_retries == max_retries,
            r@.retry_delay == retry_delay,
            r@.cache_ttl == cache_ttl,
    {
        let r = JobManager { cache: Vec::new(), max_retries, retry_delay, cache_ttl };
        assert(entry_views(r.cache@) =~= Seq::<CacheEntryView>::empty());
        r
    }

    /// Position of the entry for `job_id`, if any.
    fn find(&self, job_id: &str) -> (r: Option<usize>)
        ensures
            match r {
                Some(i) => i < self.cache@.len() && self.cache@[i as int].job_id@ == job_id@,
                None => forall|i: int| 0 <= i < self.cache@.len() ==> self.cache@[i].job_id@ != job_id@,
            },
    {
        let id = String::from_str(job_id);
        let mut i: usize = 0;
        while i < self.cache.len()
            invariant
                i <= self.cache@.len(),
                id@ == job_id@,
                forall|j: int| 0 <= j < i ==> self.cache@[j].job_id@ != job_id@,
            decreases self.cache.len() - i,
        {
            if self.cache[i].job_id == id {
                return Some(i);
            }
            i = i + 1;
        }
        None
    }

    /// Cache a job result at time `now`: the entry for `job_id` becomes the
    /// result and metadata, cached at `now` and expiring one time to live later
    pub fn cache_job_at(
        &mut self,
        now: u128,
        job_id: String,
        result: HashMap<String, usize>,
        metadata: HashMap<String, String>,
    )
        requires
            old(self).wf(),
            now < DURATION_NANOS_LIMIT,
        ensures
            final(self).wf(),
            final(self)@ == (JobManagerView {
                cache: old(self)@.cache.insert(
                    job_id@,
                    fresh_entry(job_id@, result@, metadata@, now, old(self)@.cache_ttl),
                ),
                ..old(self)@
            }),
    {
        let expires_at = now + (self.cache_ttl as u128) * NANOS_PER_SECOND;
        let ghost e = fresh_entry(job_id@, result@, metadata@, now, self.cache_ttl);
        let ghost before = entry_views(self.cache@);
        let pos = self.find(job_id.as_str());
        let cached = CachedJob { job_id, result: Some(result), cached_at: now, expires_at, metadata };
        assert(cached@ == e);
        match pos {
            Some(i) => {
                self.cache.set(i, cached);
                proof {
                    assert(entry_views(self.cache@) =~= before.update(i as int, e));
                    lemma_map_update(before, i as int, e);
                }
            },
            None => {
                self.cache.push(cached);
                proof {
                    assert(entry_views(self.cache@) =~= before.push(e));
                    lemma_map_push(before, e);
                    assert forall|a: int, b: int| 0 <= a < b < before.push(e).len() implies before.push(e)[a].job_id
                        != before.push(e)[b].job_id by {
                        if b == before.len() {
                            assert(before[a] == self.cache@[a]@);
                        }
                    }
                }
            },
        }
    }

    /// Cache a job result, timed by the system clock
    pub fn cache_job(&mut self, job_id: String, result: HashMap<String, usize>, metadata: HashMap<String, String>)
        requires
            old(self).wf(),
        ensures
            final(self).wf(),
            final(self)@.cache.dom() == old(self)@.cache.dom().insert(job_id@),
            final(self)@.cache[job_id@].job_id == job_id@,
            final(self)@.cache[job_id@].result == Some(result@),
            final(self)@.cache[job_id@].metadata == metadata@,
            final(self)@.cache[job_id@].expires_at == final(self)@.cache[job_id@].cached_at
                + old(self)@.cache_ttl * NANOS_PER_SECOND,
            forall|k: Seq<char>| k != job_id@ && #[trigger] old(self)@.cache.dom().contains(k)
                ==> final(self)@.cache[k] == old(self)@.cache[k],
            final(self)@.max_retries == old(self)@.max_retries,
            final(self)@.retry_delay == old(self)@.retry_delay,
            final(self)@.cache_ttl == old(self)@.cache_ttl,
    {
        let now = now_nanos();
        self.cache_job_at(now, job_id, result, metadata);
    }

    /// The cached result for `job_id` at time `now`: the entry's result while
    /// it is valid; an expired entry is removed and gives nothing
    pub fn get_cached_at(&mut self, now: u128, job_id: &str) -> (r: Option<HashMap<String, usize>>)
        requires
            old(self).wf(),
        ensures
            final(self).wf(),
            match old(self)@.cache.get(job_id@) {
                Some(e) => if now < e.expires_at {
                    &&& final(self)@ == old(self)@
                    &&& match r {
                        Some(m) => e.result == Some(m@),
                        None => e.result is None,
                    }
                } else {
                    &&& r is None
                    &&& final(self)@ == (JobManagerView { cache: old(self)@.cache.remove(job_id@), ..old(self)@ })
                },
                None => r is None && final(self)@ == old(self)@,
            },
    {
        let ghost before = entry_views(self.cache@);
        match self.find(job_id) {
            Some(i) => {
                proof {
                    lemma_map_at(before, i as int);
                }
                if now < self.cache[i].expires_at {
                    match &self.cache[i].result {
                        Some(m) => Some(m.clone()),
                        None => None,
                    }
                } else {
                    self.cache.remove(i);
                    proof {
                        assert(entry_views(self.cache@) =~= before.remove(i as int));
                        lemma_map_remove(before, i as int);
                    }
                    None
                }
            },
            None => {
                proof {
                    lemma_map_absent(before, job_id@);
                }
                None
            },
        }
    }

    /// The cached result for `job_id`, timed by the system clock: what
    /// reading the cache gives at the time the clock reads
    pub fn get_cached(&mut self, job_id: &str) -> (r: Option<HashMap<String, usize>>)
        requires
            old(self).wf(),
        ensures
            final(self).wf(),
            exists|now: u128|
                now < DURATION_NANOS_LIMIT && #[trigger] read_at(old(self)@, final(self)@, r, now, job_id@),
    {
        let now = now_nanos();
        let ghost before = self@;
        let r = self.get_cached_at(now, job_id);
        assert(read_at(before, self@, r, now, job_id@));
        r
    }

    /// Whether `job_id` has an entry that is valid at time `now`
    pub fn is_cached_at(&self, now: u128, job_id: &str) -> (r: bool)
        requires
            self.wf(),
        ensures
            r == (self@.cache.dom().contains(job_id@) && now < self@.cache[job_id@].expires_at),
    {
        let ghost s = entry_views(self.cache@);
        match self.find(job_id) {
            Some(i) => {
                proof {
                    lemma_map_at(s, i as int);
                }
                now < self.cache[i].expires_at
            },
            None => {
                proof {
                    lemma_map_absent(s, job_id@);
                }
                false
            },
        }
    }

    /// Whether `job_id` has a valid entry by the system clock: whether it
    /// has one at the time the clock reads
    pub fn is_cached(&self, job_id: &str) -> (r: bool)
        requires
            self.wf(),
        ensures
            exists|now: u128| now < DURATION_NANOS_LIMIT && r == #[trigger] valid_at(self@, job_id@, now),
    {
        let now = now_nanos();
        let r = self.is_cached_at(now, job_id);
        assert(r == valid_at(self@, job_id@, now));
        r
    }

    /// Drop the entries that are no longer valid at time `now`
    pub fn clear_expired_at(&mut self, now: u128)
        requires
            old(self).wf(),
        ensures
            final(self).wf(),
            final(self)@ == (JobManagerView { cache: live_entries(old(self)@.cache, now), ..old(self)@ }),
    {
        let ghost s = entry_views(self.cache@);
        let ghost m = cache_map(s);
        let mut kept: Vec<CachedJob> = Vec::new();
        let mut i: usize = 0;
        while i < self.cache.len()
            invariant
                i <= self.cache@.len(),
                s == entry_views(self.cache@),
                m == cache_map(s),
                distinct_ids(s),
                distinct_ids(entry_views(kept@)),
                forall|a: int| #![trigger kept@[a]] 0 <= a < kept@.len() ==> exists|b: int| 0 <= b < i && #[trigger] s[b] == kept@[a]@,
                cache_map(entry_views(kept@)) == live_entries(cache_map(s.take(i as int)), now),
            decreases self.cache.len() - i,
        {
            let ghost e = s[i as int];
            let ghost k0 = entry_views(kept@);
            proof {
                assert(s.take(i + 1) =~= s.take(i as int).push(e));
                lemma_map_push(s.take(i as int), e);
                assert forall|b: int| 0 <= b < s.take(i as int).len() implies s.take(i as int)[b].job_id
                    != e.job_id by {
                    assert(s.take(i as int)[b] == s[b]);
                }
                lemma_map_absent(s.take(i as int), e.job_id);
            }
            if now < self.cache[i].expires_at {
                kept.push(self.cache[i].clone_exact());
                proof {
                    assert(entry_views(kept@) =~= k0.push(e));
                    lemma_map_push(k0, e);
                    assert forall|a: int| 0 <= a < k0.len() implies k0[a].job_id != e.job_id by {
                        let b = choose|b: int| 0 <= b < i && #[trigger] s[b] == kept@[a]@;
                        assert(s[b] == k0[a]);
                    }
                    assert(cache_map(entry_views(kept@)) =~= live_entries(cache_map(s.take(i + 1)), now));
                }
            } else {
                proof {
                    assert(cache_map(entry_views(kept@)) =~= live_entries(cache_map(s.take(i + 1)), now));
                }
            }
            i = i + 1;
        }
        proof {
            assert(s.take(i as int) =~= s);
        }
        self.cache = kept;
    }

    /// Drop the entries that are no longer valid by the system clock: those
    /// expired at the time the clock reads
    pub fn clear_expired(&mut self)
        requires
            old(self).wf(),
        ensures
            final(self).wf(),
            exists|now: u128|
                now < DURATION_NANOS_LIMIT && final(self)@ == (JobManagerView {
                    cache: #[trigger] live_entries(old(self)@.cache, now),
                    ..old(self)@
                }),
    {
        let now = now_nanos();
        self.clear_expired_at(now);
        assert(self@ == (JobManagerView { cache: live_entries(old(self)@.cache, now), ..old(self)@ }));
    }

    /// Cache statistics at time `now`: all entries, those still valid, and
    /// the expired rest
    pub fn cache_stats_at(&self, now: u128) -> (r: CacheStats)
        requires
            self.wf(),
        ensures
            r.total_entries == self@.cache.len(),
            r.valid_entries == live_keys(self@.cache, now).len(),
            r.expired_entries == r.total_entries - r.valid_entries,
    {
        let ghost s = entry_views(self.cache@);
        let mut valid: usize = 0;
        let mut i: usize = 0;
        while i < self.cache.len()
            invariant
                i <= self.cache@.len(),
                s == entry_views(self.cache@),
                valid == count_live(s.take(i as int), now),
                valid <= i,
            decreases self.cache.len() - i,
        {
            proof {
                assert(s.take(i + 1).drop_last() =~= s.take(i as int));
            }
            if now < self.cache[i].expires_at {
                valid = valid + 1;
            }
            i = i + 1;
        }
        proof {
            assert(s.take(i as int) =~= s);
            lemma_map_counts(s, now);
        }
        CacheStats { total_entries: self.cache.len(), valid_entries: valid, expired_entries: self.cache.len() - valid }
    }

    /// Cache statistics by the system clock
    pub fn cache_stats(&self) -> (r: CacheStats)
        requires
            self.wf(),
        ensures
            r.total_entries == self@.cache.len(),
            r.valid_entries + r.expired_entries == r.total_entries,
            exists|now: u128| now < DURATION_NANOS_LIMIT && r.valid_entries == #[trigger] live_keys(self@.cache, now).len(),
    {
        let now = now_nanos();
        let r = self.cache_stats_at(now);
        assert(r.valid_entries == live_keys(self@.cache, now).len());
        r
    }

    /// Whether the retry loop makes another attempt after `attempts` failed ones
    pub fn may_attempt(&self, attempts: usize) -> (r: bool)
        ensures
            r == (attempts < self@.max_retries),
    {
        attempts < self.max_retries
    }

    /// Seconds that the retry loop waits after its `failures`-th failure:
    /// the retry delay when another attempt follows, none otherwise
    pub fn wait_after_failure(&self, failures: usize) -> (r: Option<u64>)
        ensures
            r == (if failures < self@.max_retries { Some(self@.retry_delay) } else { None::<u64> }),
    {
        if failures < self.max_retries {
            Some(self.retry_delay)
        } else {
            None
        }
    }

    /// Get retry configuration
    pub fn retry_config(&self) -> (r: RetryConfig)
        ensures
            r.max_retries == self@.max_retries,
            r.retry_delay == self@.retry_delay,
            r.cache_ttl == self@.cache_ttl,
    {
        RetryConfig { max_retries: self.max_retries, retry_delay: self.retry_delay, cache_ttl: self.cache_ttl }
    }
}

impl Default for JobManager {
    fn default() -> (r: Self)
        ensures
            r.wf(),
            r@.cache == Map::<Seq<char>, CacheEntryView>::empty(),
            r@.max_retries == 3,
            r@.retry_delay == 5,
            r@.cache_ttl == 3600,
    {
        JobManager::new()
    }
}

impl CachedJob {
    /// An exact copy of the entry.
    pub fn clone_exact(&self) -> (r: Self)
        ensures
            r@ == self@,
    {
        CachedJob {
            job_id: self.job_id.clone(),
            result: match &self.result {
                Some(m) => Some(m.clone()),
                None => None,
            },
            cached_at: self.cached_at,
            expires_at: self.expires_at,
            metadata: self.metadata.clone(),
        }
    }
}

/// What a read gives back of a write: right after a job is cached at `now`,
/// reading it at any time before it expires gives its result, and it counts
/// as cached.
pub proof fn law_cache_read_after_write(
    m: Map<Seq<char>, CacheEntryView>,
    id: Seq<char>,
    result: Map<String, usize>,
    metadata: Map<String, String>,
    now: u128,
    ttl: u64,
    later: u128,
)
    requires
        now < DURATION_NANOS_LIMIT,
        later < now + ttl * NANOS_PER_SECOND,
    ensures
        ({
            let c = m.insert(id, fresh_entry(id, result, metadata, now, ttl));
            &&& c.get(id) == Some(fresh_entry(id, result, metadata, now, ttl))
            &&& later < c[id].expires_at
            &&& c[id].result == Some(result)
            &&& live_keys(c, later).contains(id)
        }),
{
    assert(now + ttl * NANOS_PER_SECOND < DURATION_NANOS_LIMIT + 18_446_744_073_709_551_616u128 * NANOS_PER_SECOND);
}

} // verus!
