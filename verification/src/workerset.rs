//! A set of worker processes: its builder, the pool that jobs draw workers
//! from, and what becomes of a worker once its job is over.

use std::marker::PhantomData;
use std::path::PathBuf;
use vstd::prelude::*;
use vstd::std_specs::convert::IntoSpec;

use crate::external::logical_cpus;
use crate::manager::WorkerMessageError;

verus! {

/// The settings a worker set is built with.
pub struct BuilderSettings {
    /// The worker binary, once one is set.
    pub path: Option<PathBuf>,
    /// How many workers the set runs.
    pub worker_count: u32,
}

/// A builder for a worker set. `S` is the kind of server the host listens
/// with, `R` what the workers send and `W` what is sent to them.
pub struct WorkerSetBuilder<S, R, W> {
    path: Option<PathBuf>,
    worker_count: u32,
    _g: PhantomData<(S, R, W)>,
}

impl<S, R, W> View for WorkerSetBuilder<S, R, W> {
    type V = BuilderSettings;

    closed spec fn view(&self) -> BuilderSettings {
        BuilderSettings { path: self.path, worker_count: self.worker_count }
    }
}

/// The default worker count on a machine with `cpus` logical cores: one
/// worker per core, capped at `u32::MAX` (where a count that large would not
/// fit, there is no `u32` count to give).
pub open spec fn default_worker_count(cpus: usize) -> u32 {
    if cpus <= u32::MAX {
        cpus as u32
    } else {
        u32::MAX
    }
}

impl<S, R, W> WorkerSetBuilder<S, R, W> {
    /// A builder with no worker binary yet and the default worker count for
    /// a machine with `cpus` logical cores.
    pub fn for_cpus(cpus: usize) -> (b: Self)
        ensures
            b@.path is None,
            b@.worker_count == default_worker_count(cpus),
            cpus <= 0xFFFF_FFFF ==> b@.worker_count == cpus,
    {
        let worker_count = if cpus <= u32::MAX as usize {
            cpus as u32
        } else {
            u32::MAX
        };
        WorkerSetBuilder { path: None, worker_count, _g: PhantomData }
    }
}

impl<S, R, W> Default for WorkerSetBuilder<S, R, W> {
    /// No worker binary yet, and one worker per logical core of this
    /// machine. The number of cores is the machine's, so the count is only
    /// known to be at least 1.
    fn default() -> (b: Self)
        ensures
            b@.path is None,
            b@.worker_count >= 1,
    {
        Self::for_cpus(logical_cpus())
    }
}

impl<S, R, W> WorkerSetBuilder<S, R, W> {
    /// Sets the worker count.
    pub fn worker_count(self, count: u32) -> (b: Self)
        ensures
            b@.path == self@.path,
            b@.worker_count == count,
    {
        let mut this = self;
        this.worker_count = count;
        this
    }

    /// Sets the path to the worker binary. What `path` converts to is up to
    /// its `Into<PathBuf>`; where that conversion has a specification, the
    /// path set is the one it gives.
    pub fn worker_path<P: Into<PathBuf>>(self, path: P) -> (b: Self)
        ensures
            b@.path is Some,
            b@.worker_count == self@.worker_count,
            P::obeys_into_spec() ==> b@.path == Some(IntoSpec::<PathBuf>::into_spec(path)),
    {
        let mut this = self;
        this.path = Some(path.into());
        this
    }

    /// The settings, to build the worker set with.
    pub fn into_settings(self) -> (s: BuilderSettings)
        ensures
            s == self@,
    {
        BuilderSettings { path: self.path, worker_count: self.worker_count }
    }

    /// Whether a worker binary is set; a set cannot be built without one.
    pub fn has_worker_path(&self) -> (b: bool)
        ensures
            b == self@.path is Some,
    {
        self.path.is_some()
    }

    /// The worker binary and the worker count to build the set with. A
    /// builder without a worker binary cannot be built.
    pub fn build_settings(self) -> (r: (PathBuf, u32))
        requires
            self@.path is Some,
        ensures
            Some(r.0) == self@.path,
            r.1 == self@.worker_count,
    {
        (self.path.unwrap(), self.worker_count)
    }
}

/// Errors of a job sent to a worker set.
pub enum WorkerSetJobError {
    /// No worker in the set is free.
    NoWorker,
    /// The worker could not be reached.
    WorkerMessageError(WorkerMessageError),
    /// Starting a replacement worker failed.
    Io(std::io::Error),
    /// No response came in time.
    Timeout,
}

/// What to do when a job gets no response in time.
pub enum TimeoutAction {
    /// Consider this a fatal error and restart the process.
    Restart,
    /// Just return an error.
    Error,
}

/// The free workers of a set, the most recently added on top.
pub struct WorkerPool<H> {
    workers: Vec<H>,
}

impl<H> View for WorkerPool<H> {
    type V = Seq<H>;

    closed spec fn view(&self) -> Seq<H> {
        self.workers@
    }
}

impl<H> WorkerPool<H> {
    /// A pool of `workers`, the last of them on top.
    pub fn new(workers: Vec<H>) -> (p: Self)
        ensures
            p@ == workers@,
    {
        WorkerPool { workers }
    }

    /// The number of free workers.
    pub fn len(&self) -> (n: usize)
        ensures
            n == self@.len(),
    {
        self.workers.len()
    }

    /// Takes out the worker that was added last; `None` when none is free.
    pub fn pop_worker(&mut self) -> (w: Option<H>)
        ensures
            old(self)@.len() == 0 ==> w is None && final(self)@ == old(self)@,
            old(self)@.len() > 0 ==> w == Some(old(self)@.last()) && final(self)@ == old(self)@.drop_last(),
    {
        self.workers.pop()
    }

    /// Adds a worker on top.
    pub fn add_worker(&mut self, worker: H)
        ensures
            final(self)@ == old(self)@.push(worker),
    {
        self.workers.push(worker);
    }

    /// Puts `workers` in place of the free workers, and hands back the ones
    /// they replace.
    pub fn replace_workers(&mut self, workers: Vec<H>) -> (old_workers: Vec<H>)
        ensures
            final(self)@ == workers@,
            old_workers@ == old(self)@,
    {
        let mut workers = workers;
        std::mem::swap(&mut self.workers, &mut workers);
        workers
    }

    /// Takes out a worker for a job: the one that was added last, or
    /// `NoWorker` when none is free.
    pub fn checkout(&mut self) -> (r: Result<H, WorkerSetJobError>)
        ensures
            old(self)@.len() == 0 ==> (r matches Err(e) && e is NoWorker) && final(self)@ == old(self)@,
            old(self)@.len() > 0 ==> r == Ok::<H, WorkerSetJobError>(old(self)@.last()) && final(self)@ == old(self)@.drop_last(),
    {
        match self.pop_worker() {
            Some(w) => Ok(w),
            None => Err(WorkerSetJobError::NoWorker),
        }
    }
}

impl From<WorkerMessageError> for WorkerSetJobError {
    fn from(e: WorkerMessageError) -> (r: Self) {
        WorkerSetJobError::WorkerMessageError(e)
    }
}

impl vstd::std_specs::convert::FromSpecImpl<WorkerMessageError> for WorkerSetJobError {
    open spec fn obeys_from_spec() -> bool {
        true
    }

    open spec fn from_spec(e: WorkerMessageError) -> Self {
        WorkerSetJobError::WorkerMessageError(e)
    }
}

impl From<std::io::Error> for WorkerSetJobError {
    fn from(e: std::io::Error) -> (r: Self) {
        WorkerSetJobError::Io(e)
    }
}

impl vstd::std_specs::convert::FromSpecImpl<std::io::Error> for WorkerSetJobError {
    open spec fn obeys_from_spec() -> bool {
        true
    }

    open spec fn from_spec(e: std::io::Error) -> Self {
        WorkerSetJobError::Io(e)
    }
}

/// How the wait for a job's response ended.
pub enum ResponseWait<R> {
    /// The worker answered.
    Answered(R),
    /// The job's responder was dropped unanswered: the worker went away.
    Dropped,
    /// The time given for the answer ran out.
    TimedOut,
}

/// What becomes of the worker that ran a job.
pub enum Recovery {
    /// It goes back into the pool.
    PutBack,
    /// It is given up, and a newly spawned worker goes into the pool.
    Respawn,
    /// It is given up, and nothing takes its place.
    Discard,
}

/// The outcome of a job by how its wait ended: the answer, `Offline` when
/// the worker went away, `Timeout` when time ran out.
pub open spec fn job_result_spec<R>(wait: ResponseWait<R>) -> Result<R, WorkerSetJobError> {
    match wait {
        ResponseWait::Answered(r) => Ok(r),
        ResponseWait::Dropped => Err(WorkerSetJobError::WorkerMessageError(WorkerMessageError::Offline)),
        ResponseWait::TimedOut => Err(WorkerSetJobError::Timeout),
    }
}

/// What becomes of the worker after its job: it goes back after an answer,
/// and after a timeout whose action is `Error`; it is replaced when it went
/// away, and after a timeout whose action is `Restart`.
pub open spec fn recovery_spec<R>(wait: ResponseWait<R>, timeout_action: Option<TimeoutAction>) -> Recovery {
    match wait {
        ResponseWait::Answered(_) => Recovery::PutBack,
        ResponseWait::Dropped => Recovery::Respawn,
        ResponseWait::TimedOut => match timeout_action {
            Some(TimeoutAction::Restart) => Recovery::Respawn,
            _ => Recovery::PutBack,
        },
    }
}

/// Settles a job once the wait for its response is over: what the job's
/// sender gets back, and what becomes of the worker. A timeout only happens
/// where a timeout, and so its action, was given.
pub fn settle_job<R>(wait: ResponseWait<R>, timeout_action: Option<TimeoutAction>) -> (settled: (Result<R, WorkerSetJobError>, Recovery))
    requires
        wait is TimedOut ==> timeout_action is Some,
    ensures
        settled.0 == job_result_spec(wait),
        settled.1 == recovery_spec(wait, timeout_action),
        (wait matches ResponseWait::Answered(r) ==> settled.0 == Ok::<R, WorkerSetJobError>(r) && settled.1 == Recovery::PutBack),
{
    match wait {
        ResponseWait::Answered(r) => (Ok(r), Recovery::PutBack),
        ResponseWait::Dropped => (
            Err(WorkerSetJobError::from(WorkerMessageError::Offline)),
            Recovery::Respawn,
        ),
        ResponseWait::TimedOut => {
            let recovery = match timeout_action {
                Some(TimeoutAction::Restart) => Recovery::Respawn,
                Some(TimeoutAction::Error) => Recovery::PutBack,
                None => Recovery::PutBack,
            };
            (Err(WorkerSetJobError::Timeout), recovery)
        },
    }
}

/// Settles a job that could not even be handed to its worker, because the
/// worker's event loop is gone: the sender gets that error back, and the
/// worker is given up without a replacement.
pub fn settle_unforwarded<R>(error: WorkerMessageError) -> (settled: (Result<R, WorkerSetJobError>, Recovery))
    ensures
        settled.0 == Err::<R, WorkerSetJobError>(WorkerSetJobError::WorkerMessageError(error)),
        settled.1 == Recovery::Discard,
{
    (Err(WorkerSetJobError::from(error)), Recovery::Discard)
}

/// The pool after a job settled: the remaining workers, with the job's own
/// worker back on top, or the replacement that was spawned for it.
pub open spec fn pool_after_job<H>(rest: Seq<H>, used: H, replacement: H, recovery: Recovery) -> Seq<H> {
    match recovery {
        Recovery::PutBack => rest.push(used),
        Recovery::Respawn => rest.push(replacement),
        Recovery::Discard => rest,
    }
}

/// A job takes the top worker out of the pool and, once it settles, the
/// pool is whole again: as it was when the worker was put back (after an
/// answer, or a timeout whose action is `Error`), and with the replacement
/// in that worker's place when it was respawned (after the worker went away,
/// or a timeout whose action is `Restart`).
pub proof fn lemma_job_keeps_pool_whole<H, R>(pool: Seq<H>, replacement: H, wait: ResponseWait<R>, timeout_action: Option<TimeoutAction>)
    requires
        pool.len() > 0,
    ensures
        ({
            let after = pool_after_job(pool.drop_last(), pool.last(), replacement, recovery_spec(wait, timeout_action));
            &&& after.len() == pool.len()
            &&& after.drop_last() == pool.drop_last()
            &&& recovery_spec(wait, timeout_action) is PutBack ==> after == pool
            &&& recovery_spec(wait, timeout_action) is Respawn ==> after.last() == replacement
        }),
{
    assert(pool.drop_last().push(pool.last()) == pool);
}

/// The pool is last in, first out: the worker added last is the one taken
/// out next, and taking it out leaves the pool as it was before it was
/// added.
pub proof fn lemma_pool_last_in_first_out<H>(pool: Seq<H>, worker: H)
    ensures
        pool.push(worker).len() > 0,
        pool.push(worker).last() == worker,
        pool.push(worker).drop_last() == pool,
{
    assert(pool.push(worker).drop_last() == pool);
}

/// The pool after `k` checkouts in a row.
pub open spec fn pool_after_checkouts<H>(pool: Seq<H>, k: nat) -> Seq<H>
    decreases k,
{
    if k == 0 {
        pool
    } else {
        pool_after_checkouts(pool, (k - 1) as nat).drop_last()
    }
}

/// The workers that `k` checkouts in a row hand out, in order.
pub open spec fn checked_out<H>(pool: Seq<H>, k: nat) -> Seq<H>
    decreases k,
{
    if k == 0 {
        Seq::empty()
    } else {
        checked_out(pool, (k - 1) as nat).push(pool_after_checkouts(pool, (k - 1) as nat).last())
    }
}

/// `k` checkouts take the top `k` workers: the pool keeps the bottom ones,
/// and the `i`-th checkout hands out the worker `i` places below the top.
proof fn lemma_checkouts_take_the_top<H>(pool: Seq<H>, k: nat)
    requires
        k <= pool.len(),
    ensures
        pool_after_checkouts(pool, k) == pool.take(pool.len() - k),
        checked_out(pool, k).len() == k,
        forall|i: int| 0 <= i < k ==> #[trigger] checked_out(pool, k)[i] == pool[pool.len() - 1 - i],
    decreases k,
{
    if k > 0 {
        lemma_checkouts_take_the_top(pool, (k - 1) as nat);
        let before = pool_after_checkouts(pool, (k - 1) as nat);
        assert(before.drop_last() == pool.take(pool.len() - k));
        assert forall|i: int| 0 <= i < k implies #[trigger] checked_out(pool, k)[i] == pool[pool.len() - 1 - i] by {
            if i < k - 1 {
                assert(checked_out(pool, k)[i] == checked_out(pool, (k - 1) as nat)[i]);
            }
        }
    }
}

/// Sends in flight never share a worker: from a pool in which no worker
/// appears twice, the workers that checkouts hand out are all different,
/// none of them is left in the pool while its job runs, and when one of
/// them is put back the others stay out.
pub proof fn lemma_in_flight_workers_apart<H>(pool: Seq<H>, k: nat, back: int)
    requires
        pool.no_duplicates(),
        k <= pool.len(),
    ensures
        checked_out(pool, k).no_duplicates(),
        pool_after_checkouts(pool, k).no_duplicates(),
        forall|w: H| checked_out(pool, k).contains(w) ==> !pool_after_checkouts(pool, k).contains(w),
        0 <= back < k ==> forall|j: int| 0 <= j < k && j != back
            ==> !pool_after_checkouts(pool, k).push(checked_out(pool, k)[back]).contains(#[trigger] checked_out(pool, k)[j]),
{
    lemma_checkouts_take_the_top(pool, k);
    let n = pool.len() as int;
    let rest = pool_after_checkouts(pool, k);
    let out = checked_out(pool, k);
    assert forall|i: int, j: int| 0 <= i < out.len() && 0 <= j < out.len() && i != j implies out[i] != out[j] by {
        assert(out[i] == pool[n - 1 - i]);
        assert(out[j] == pool[n - 1 - j]);
    }
    assert forall|i: int, j: int| 0 <= i < rest.len() && 0 <= j < rest.len() && i != j implies rest[i] != rest[j] by {
        assert(rest[i] == pool[i]);
        assert(rest[j] == pool[j]);
    }
    assert forall|w: H| out.contains(w) implies !rest.contains(w) by {
        let i = choose|i: int| 0 <= i < out.len() && out[i] == w;
        assert(out[i] == pool[n - 1 - i]);
        if rest.contains(w) {
            let j = choose|j: int| 0 <= j < rest.len() && rest[j] == w;
            assert(rest[j] == pool[j]);
        }
    }
    if 0 <= back < k {
        assert forall|j: int| 0 <= j < k && j != back
            implies !rest.push(out[back]).contains(#[trigger] out[j]) by {
            assert(out.contains(out[j]));
            if rest.push(out[back]).contains(out[j]) {
                let m = choose|m: int| 0 <= m < rest.len() + 1 && rest.push(out[back])[m] == out[j];
                if m < rest.len() {
                    assert(rest.contains(out[j]));
                }
            }
        }
    }
}

/// The workers of a set while sends run: those free in the pool, those
/// held by sends in flight, and those that were given a job whose answer has
/// not come back.
#[verifier::reject_recursive_types(H)]
pub struct PoolState<H> {
    pub free: Seq<H>,
    pub busy: Seq<H>,
    pub pending: Set<H>,
}

/// One thing that happens to a worker set's pool while sends run.
#[verifier::reject_recursive_types(H)]
pub enum PoolEvent<H, R> {
    /// A send takes the top worker out of the pool (`checkout`).
    Checkout,
    /// The send holding `busy[slot]` settles after `wait`: the worker goes
    /// back, or `fresh`, newly spawned, takes its place (`settle_job`).
    Settle { slot: int, wait: ResponseWait<R>, timeout_action: Option<TimeoutAction>, fresh: H },
    /// The send holding `busy[slot]` could not hand its job on and gives the
    /// worker up (`settle_unforwarded`).
    Unforwarded { slot: int },
}

/// Whether `event` can happen to the pool in state `s`: a settling send
/// holds a worker, a timeout only happens where a timeout action was given,
/// and a newly spawned worker is a worker the set has not had.
pub open spec fn pool_event_ok<H, R>(s: PoolState<H>, event: PoolEvent<H, R>) -> bool {
    match event {
        PoolEvent::Checkout => true,
        PoolEvent::Settle { slot, wait, timeout_action, fresh } => {
            &&& 0 <= slot < s.busy.len()
            &&& wait is TimedOut ==> timeout_action is Some
            &&& recovery_spec(wait, timeout_action) is Respawn ==> {
                &&& !s.free.contains(fresh)
                &&& !s.busy.contains(fresh)
                &&& !s.pending.contains(fresh)
            }
        },
        PoolEvent::Unforwarded { slot } => 0 <= slot < s.busy.len(),
    }
}

/// The pool after `event`, as `checkout`, `settle_job`,
/// `settle_unforwarded` and the pool's `add_worker` make it: a checkout
/// moves the top worker to the busy ones and gives it a job; an answer
/// clears the worker's job; the worker or its replacement goes back as the
/// settlement's recovery says.
pub open spec fn pool_step<H, R>(s: PoolState<H>, event: PoolEvent<H, R>) -> PoolState<H> {
    match event {
        PoolEvent::Checkout => if s.free.len() == 0 {
            s
        } else {
            PoolState {
                free: s.free.drop_last(),
                busy: s.busy.push(s.free.last()),
                pending: s.pending.insert(s.free.last()),
            }
        },
        PoolEvent::Settle { slot, wait, timeout_action, fresh } => {
            let w = s.busy[slot];
            let busy = s.busy.remove(slot);
            let pending = if wait is Answered { s.pending.remove(w) } else { s.pending };
            match recovery_spec(wait, timeout_action) {
                Recovery::PutBack => PoolState { free: s.free.push(w), busy, pending },
                Recovery::Respawn => PoolState { free: s.free.push(fresh), busy, pending },
                Recovery::Discard => PoolState { free: s.free, busy, pending },
            }
        },
        PoolEvent::Unforwarded { slot } => PoolState { free: s.free, busy: s.busy.remove(slot), pending: s.pending },
    }
}

/// A set that has just been built: every worker free, none given a job.
pub open spec fn fresh_pool<H>(workers: Seq<H>) -> PoolState<H> {
    PoolState { free: workers, busy: Seq::empty(), pending: Set::empty() }
}

/// The pool after `events` from `workers`, or `None` where one of them
/// could not happen.
pub open spec fn pool_run<H, R>(workers: Seq<H>, events: Seq<PoolEvent<H, R>>) -> Option<PoolState<H>>
    decreases events.len(),
{
    if events.len() == 0 {
        Some(fresh_pool(workers))
    } else {
        match pool_run(workers, events.drop_last()) {
            Some(s) => if pool_event_ok(s, events.last()) {
                Some(pool_step(s, events.last()))
            } else {
                None
            },
            None => None,
        }
    }
}

/// A settlement that puts back a worker whose job is still unanswered: a
/// timeout under `TimeoutAction::Error`.
pub open spec fn puts_back_unanswered<H, R>(event: PoolEvent<H, R>) -> bool {
    event matches PoolEvent::Settle { wait: ResponseWait::TimedOut, timeout_action: Some(TimeoutAction::Error), .. }
}

/// Sends never share a worker, whatever the interleaving: from a set
/// whose workers are all different, through any run of checkouts and
/// settlements, the busy workers are all different, no free worker appears
/// twice, and no busy worker is in the pool. And unless some send timed out
/// under `TimeoutAction::Error` (whose worker goes back with its job
/// unanswered), every free worker has answered every job it was given, so a
/// checkout hands out a worker that is not busy with another request.
pub proof fn lemma_sends_never_share_a_worker<H, R>(workers: Seq<H>, events: Seq<PoolEvent<H, R>>)
    requires
        workers.no_duplicates(),
        pool_run(workers, events) is Some,
    ensures
        pool_run(workers, events).unwrap().free.no_duplicates(),
        pool_run(workers, events).unwrap().busy.no_duplicates(),
        forall|w: H| #[trigger] pool_run(workers, events).unwrap().busy.contains(w)
            ==> !pool_run(workers, events).unwrap().free.contains(w),
        (forall|i: int| 0 <= i < events.len() ==> !puts_back_unanswered(#[trigger] events[i]))
            ==> forall|w: H| #[trigger] pool_run(workers, events).unwrap().free.contains(w)
                ==> !pool_run(workers, events).unwrap().pending.contains(w),
    decreases events.len(),
{
    if events.len() > 0 {
        let prev = events.drop_last();
        lemma_sends_never_share_a_worker(workers, prev);
        let s = pool_run(workers, prev).unwrap();
        let e = events.last();
        let t = pool_step(s, e);
        assert(pool_run(workers, events) == Some(t));
        if forall|i: int| 0 <= i < events.len() ==> !puts_back_unanswered(#[trigger] events[i]) {
            assert forall|i: int| 0 <= i < prev.len() implies !puts_back_unanswered(#[trigger] prev[i]) by {
                assert(prev[i] == events[i]);
            }
            assert(!puts_back_unanswered(events[events.len() - 1]));
        }
        match e {
            PoolEvent::Checkout => {
                if s.free.len() > 0 {
                    let w = s.free.last();
                    lemma_drop_last_leaves_out_last(s.free);
                    assert(!s.busy.contains(w));
                    lemma_push_keeps_apart(s.busy, w);
                    assert forall|x: H| #[trigger] t.busy.contains(x) implies !t.free.contains(x) by {
                        if x != w {
                            assert(s.busy.contains(x));
                        }
                    }
                }
            },
            PoolEvent::Settle { slot, wait, timeout_action, fresh } => {
                let w = s.busy[slot];
                assert(pool_event_ok(s, e));
                assert(s.busy.contains(w));
                lemma_remove_leaves_out(s.busy, slot);
                let back = if recovery_spec(wait, timeout_action) is Respawn { fresh } else { w };
                if !(recovery_spec(wait, timeout_action) is Discard) {
                    assert(!s.free.contains(back));
                    lemma_push_keeps_apart(s.free, back);
                }
                assert forall|x: H| #[trigger] t.busy.contains(x) implies !t.free.contains(x) by {
                    assert(s.busy.contains(x));
                }
            },
            PoolEvent::Unforwarded { slot } => {
                lemma_remove_leaves_out(s.busy, slot);
            },
        }
    }
}

/// Taking the last element off a sequence without duplicates leaves the
/// rest without it, and without duplicates.
proof fn lemma_drop_last_leaves_out_last<H>(s: Seq<H>)
    requires
        s.no_duplicates(),
        s.len() > 0,
    ensures
        s.drop_last().no_duplicates(),
        !s.drop_last().contains(s.last()),
        forall|x: H| #[trigger] s.drop_last().contains(x) ==> s.contains(x),
{
    assert forall|x: H| #[trigger] s.drop_last().contains(x) implies s.contains(x) by {
        let i = choose|i: int| 0 <= i < s.drop_last().len() && s.drop_last()[i] == x;
        assert(s[i] == x);
    }
    if s.drop_last().contains(s.last()) {
        let i = choose|i: int| 0 <= i < s.drop_last().len() && s.drop_last()[i] == s.last();
        assert(s[i] == s[s.len() - 1]);
    }
}

/// Pushing an element that is not there keeps a sequence free of
/// duplicates.
proof fn lemma_push_keeps_apart<H>(s: Seq<H>, x: H)
    requires
        s.no_duplicates(),
        !s.contains(x),
    ensures
        s.push(x).no_duplicates(),
        forall|y: H| #[trigger] s.push(x).contains(y) <==> s.contains(y) || y == x,
{
    assert forall|y: H| #[trigger] s.push(x).contains(y) implies s.contains(y) || y == x by {
        let i = choose|i: int| 0 <= i < s.push(x).len() && s.push(x)[i] == y;
        if i < s.len() {
            assert(s[i] == y);
        }
    }
    assert forall|y: H| s.contains(y) || y == x implies #[trigger] s.push(x).contains(y) by {
        if y == x {
            assert(s.push(x)[s.len() as int] == x);
        } else {
            let i = choose|i: int| 0 <= i < s.len() && s[i] == y;
            assert(s.push(x)[i] == y);
        }
    }
    assert forall|i: int, j: int| 0 <= i < s.push(x).len() && 0 <= j < s.push(x).len() && i != j
        implies s.push(x)[i] != s.push(x)[j] by {
        if i < s.len() && j == s.len() {
            assert(s.contains(s[i]));
        } else if j < s.len() && i == s.len() {
            assert(s.contains(s[j]));
        }
    }
}

/// Removing an element from a sequence without duplicates leaves the rest
/// without it, and without duplicates.
proof fn lemma_remove_leaves_out<H>(s: Seq<H>, k: int)
    requires
        s.no_duplicates(),
        0 <= k < s.len(),
    ensures
        s.remove(k).no_duplicates(),
        !s.remove(k).contains(s[k]),
        forall|x: H| #[trigger] s.remove(k).contains(x) ==> s.contains(x),
{
    let r = s.remove(k);
    assert forall|i: int| 0 <= i < r.len() implies #[trigger] r[i] == s[if i < k { i } else { i + 1 }] by {}
    assert forall|x: H| #[trigger] r.contains(x) implies s.contains(x) by {
        let i = choose|i: int| 0 <= i < r.len() && r[i] == x;
        assert(r[i] == s[if i < k { i } else { i + 1 }]);
    }
    if r.contains(s[k]) {
        let i = choose|i: int| 0 <= i < r.len() && r[i] == s[k];
        assert(r[i] == s[if i < k { i } else { i + 1 }]);
    }
    assert forall|i: int, j: int| 0 <= i < r.len() && 0 <= j < r.len() && i != j implies r[i] != r[j] by {
        assert(r[i] == s[if i < k { i } else { i + 1 }]);
        assert(r[j] == s[if j < k { j } else { j + 1 }]);
    }
}


/// One worker per logical core: wherever the core count fits a `u32`, the
/// default worker count is the core count itself, and it is never 0 on a
/// machine with cores.
pub proof fn lemma_one_worker_per_core(cpus: usize)
    ensures
        cpus <= 0xFFFF_FFFF ==> default_worker_count(cpus) == cpus,
        cpus >= 1 ==> default_worker_count(cpus) >= 1,
{
}

/// A job that was answered succeeds with its answer, and its worker goes
/// back into the pool, whatever the timeout action: only a worker that went
/// away or timed out under `Restart` is replaced.
pub proof fn lemma_answered_job_keeps_its_worker<R>(r: R, timeout_action: Option<TimeoutAction>)
    ensures
        job_result_spec(ResponseWait::Answered(r)) == Ok::<R, WorkerSetJobError>(r),
        recovery_spec(ResponseWait::Answered(r), timeout_action) == Recovery::PutBack,
        recovery_spec(ResponseWait::<R>::Dropped, timeout_action) == Recovery::Respawn,
        recovery_spec(ResponseWait::<R>::TimedOut, Some(TimeoutAction::Restart)) == Recovery::Respawn,
        recovery_spec(ResponseWait::<R>::TimedOut, Some(TimeoutAction::Error)) == Recovery::PutBack,
{
}

} // verus!
