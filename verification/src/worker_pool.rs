//! Bookkeeping of the pool of Python worker processes: which worker is free,
//! which batch waits, which is running, and which worker needs a restart.
//! Starting processes and talking to them is left to the program, which
//! reports back; times are milliseconds of a monotonic clock.
use crate::python_worker::TestRunOptions;
use crate::scheduler::TestBatch;
use vstd::prelude::*;

verus! {

/// Pool settings; times in milliseconds, paths `/`-separated (`.` is the
/// current directory).
#[derive(Debug)]
pub struct WorkerPoolConfig {
    pub worker_count: usize,
    pub startup_timeout_ms: u64,
    pub execution_timeout_ms: u64,
    pub max_idle_time_ms: u64,
    pub enable_recycling: bool,
    pub work_dir: String,
    pub cache_dir: String,
}

impl WorkerPoolConfig {
    /// One worker per CPU, 30 s to start, 5 minutes per execution, recycled
    /// after 10 idle minutes, in the current directory with its
    /// `.veri/cache`.
    pub fn default_config() -> (c: Self)
        ensures
            c.worker_count >= 1,
            c.startup_timeout_ms == 30_000,
            c.execution_timeout_ms == 300_000,
            c.max_idle_time_ms == 600_000,
            c.enable_recycling,
            c.work_dir@ == "."@,
            c.cache_dir@ == "./.veri/cache"@,
    {
        WorkerPoolConfig {
            worker_count: crate::scheduler::cpu_count(),
            startup_timeout_ms: 30_000,
            execution_timeout_ms: 300_000,
            max_idle_time_ms: 600_000,
            enable_recycling: true,
            work_dir: ".".to_owned(),
            cache_dir: "./.veri/cache".to_owned(),
        }
    }
}

impl Default for WorkerPoolConfig {
    fn default() -> (c: Self)
        ensures
            c.worker_count >= 1,
            c.startup_timeout_ms == 30_000,
            c.execution_timeout_ms == 300_000,
            c.max_idle_time_ms == 600_000,
            c.enable_recycling,
    {
        Self::default_config()
    }
}

/// A message to a worker.
#[derive(Debug)]
pub enum WorkerMessage {
    ExecuteTests { batch_id: String, nodeids: Vec<String>, options: TestRunOptions },
    Shutdown,
    HealthCheck,
}

/// A worker's answer.
#[derive(Debug)]
pub enum WorkerResponse {
    TestResults { batch_id: String, exit_code: i32, stdout: String, stderr: String, duration_ms: u64 },
    HealthOk,
    Error { message: String },
}

/// What one test of a batch produced: its outcome (`passed`, `failed`,
/// `skipped` or `error`) and its duration in milliseconds.
#[derive(Debug)]
pub struct PerTestResult {
    pub nodeid: String,
    pub outcome: String,
    pub duration_ms: u64,
}

/// What a batch produced, with the result of each of its tests.
#[derive(Debug)]
pub struct BatchResult {
    pub batch_id: String,
    pub worker_id: usize,
    pub exit_code: i32,
    pub stdout: String,
    pub stderr: String,
    pub duration_ms: u64,
    pub nodeids: Vec<String>,
    pub per_test: Vec<PerTestResult>,
}

/// State of a worker process.
#[derive(Debug)]
pub enum WorkerState {
    Starting,
    Idle,
    /// Running the batch with this id.
    Busy(String),
    /// Failed with this message.
    Failed(String),
    Shutdown,
}

/// One worker process as the pool sees it.
#[derive(Debug)]
pub struct WorkerProcess {
    pub id: usize,
    pub state: WorkerState,
    pub started_at_ms: u64,
    pub last_activity_ms: u64,
}

impl WorkerProcess {
    /// A worker being started.
    pub fn new(id: usize, now_ms: u64) -> (w: Self)
        ensures
            w.id == id,
            w.state is Starting,
            w.started_at_ms == now_ms,
            w.last_activity_ms == now_ms,
    {
        WorkerProcess { id, state: WorkerState::Starting, started_at_ms: now_ms, last_activity_ms: now_ms }
    }

    pub fn is_available(&self) -> (r: bool)
        ensures
            r == self.state is Idle,
    {
        match self.state {
            WorkerState::Idle => true,
            _ => false,
        }
    }

    pub fn is_failed(&self) -> (r: bool)
        ensures
            r == self.state is Failed,
    {
        match self.state {
            WorkerState::Failed(_) => true,
            _ => false,
        }
    }

    /// Idle for longer than the limit (a clock going back counts as no time).
    pub fn should_recycle(&self, max_idle_time_ms: u64, now_ms: u64) -> (r: bool)
        ensures
            r == (self.state is Idle && now_ms > self.last_activity_ms && now_ms - self.last_activity_ms
                > max_idle_time_ms),
    {
        self.is_available() && now_ms > self.last_activity_ms && now_ms - self.last_activity_ms > max_idle_time_ms
    }
}

/// A batch waiting for a worker.
#[derive(Debug)]
pub struct PendingTask {
    pub batch_id: String,
    pub batch: TestBatch,
    pub options: TestRunOptions,
    pub submitted_at_ms: u64,
}

/// A batch running on a worker.
#[derive(Debug)]
pub struct TaskContext {
    pub worker_id: usize,
    pub started_at_ms: u64,
    pub batch: TestBatch,
}

/// Counts of the pool.
#[derive(Debug)]
pub struct WorkerPoolStats {
    pub total_workers: usize,
    pub idle_workers: usize,
    pub busy_workers: usize,
    pub failed_workers: usize,
    pub queued_tasks: usize,
    pub active_tasks: usize,
}

/// Number of workers in a state.
pub open spec fn count_state(ws: Seq<WorkerProcess>, kind: int) -> nat
    decreases ws.len(),
{
    if ws.len() == 0 {
        0
    } else {
        count_state(ws.drop_last(), kind) + if state_kind(ws.last().state) == kind {
            1nat
        } else {
            0nat
        }
    }
}

/// 0 starting, 1 idle, 2 busy, 3 failed, 4 shut down.
pub open spec fn state_kind(s: WorkerState) -> int {
    match s {
        WorkerState::Starting => 0,
        WorkerState::Idle => 1,
        WorkerState::Busy(_) => 2,
        WorkerState::Failed(_) => 3,
        WorkerState::Shutdown => 4,
    }
}

/// Index of the first idle worker, -1 when none is.
pub open spec fn first_idle(ws: Seq<WorkerProcess>) -> int
    decreases ws.len(),
{
    if ws.len() == 0 {
        -1
    } else if ws[0].state is Idle {
        0
    } else {
        let k = first_idle(ws.drop_first());
        if k < 0 {
            -1
        } else {
            k + 1
        }
    }
}

proof fn lemma_count_le(ws: Seq<WorkerProcess>, kind: int)
    ensures
        count_state(ws, kind) <= ws.len(),
    decreases ws.len(),
{
    if ws.len() > 0 {
        lemma_count_le(ws.drop_last(), kind);
    }
}

proof fn lemma_first_idle_at(ws: Seq<WorkerProcess>, k: int)
    requires
        0 <= k < ws.len(),
        ws[k].state is Idle,
        forall|j: int| 0 <= j < k ==> !(ws[j].state is Idle),
    ensures
        first_idle(ws) == k,
    decreases k,
{
    if k > 0 {
        assert forall|j: int| 0 <= j < k - 1 implies !(ws.drop_first()[j].state is Idle) by {
            assert(ws.drop_first()[j] == ws[j + 1]);
        }
        lemma_first_idle_at(ws.drop_first(), k - 1);
    }
}

proof fn lemma_first_idle_none(ws: Seq<WorkerProcess>)
    requires
        forall|j: int| 0 <= j < ws.len() ==> !(ws[j].state is Idle),
    ensures
        first_idle(ws) == -1,
    decreases ws.len(),
{
    if ws.len() > 0 {
        assert forall|j: int| 0 <= j < ws.len() - 1 implies !(ws.drop_first()[j].state is Idle) by {
            assert(ws.drop_first()[j] == ws[j + 1]);
        }
        lemma_first_idle_none(ws.drop_first());
    }
}

/// The pool: its workers, the batches waiting in submission order, and the
/// batches running.
#[derive(Debug)]
pub struct WorkerPool {
    pub config: WorkerPoolConfig,
    pub workers: Vec<WorkerProcess>,
    pub task_queue: Vec<PendingTask>,
    pub active_tasks: Vec<(String, TaskContext)>,
    pub shutdown_requested: bool,
}

impl WorkerPool {
    /// An empty pool.
    pub fn new(config: WorkerPoolConfig) -> (p: Self)
        ensures
            p.config == config,
            p.workers@.len() == 0,
            p.task_queue@.len() == 0,
            p.active_tasks@.len() == 0,
            !p.shutdown_requested,
    {
        WorkerPool {
            config,
            workers: Vec::new(),
            task_queue: Vec::new(),
            active_tasks: Vec::new(),
            shutdown_requested: false,
        }
    }

    /// Adds a started worker to the pool.
    pub fn add_worker(&mut self, worker: WorkerProcess)
        ensures
            final(self).workers@ == old(self).workers@.push(worker),
            final(self).task_queue == old(self).task_queue,
            final(self).active_tasks == old(self).active_tasks,
            final(self).shutdown_requested == old(self).shutdown_requested,
    {
        self.workers.push(worker);
    }

    /// Queues a batch at the back; refused once shutdown was requested.
    pub fn submit_batch(&mut self, batch_id: String, batch: TestBatch, options: TestRunOptions, now_ms: u64) -> (r: Result<(), String>)
        ensures
            old(self).shutdown_requested ==> r is Err && r->Err_0@ == "Worker pool is shutting down"@
                && final(self).task_queue == old(self).task_queue,
            !old(self).shutdown_requested ==> r is Ok && final(self).task_queue@ == old(self).task_queue@.push(
                PendingTask { batch_id, batch, options, submitted_at_ms: now_ms },
            ),
            final(self).workers == old(self).workers,
            final(self).active_tasks == old(self).active_tasks,
            final(self).shutdown_requested == old(self).shutdown_requested,
    {
        if self.shutdown_requested {
            return Err("Worker pool is shutting down".to_owned());
        }
        self.task_queue.push(PendingTask { batch_id, batch, options, submitted_at_ms: now_ms });
        Ok(())
    }

    /// Gives the oldest waiting batch to the first idle worker, which
    /// becomes busy with it; nothing happens when no batch waits or no
    /// worker is idle.  Returns the worker and the batch to send it.
    pub fn next_assignment(&mut self, now_ms: u64) -> (r: Option<(usize, String)>)
        ensures
            (old(self).task_queue@.len() == 0 || first_idle(old(self).workers@) < 0) ==> r is None
                && final(self).task_queue == old(self).task_queue && final(self).workers == old(self).workers
                && final(self).active_tasks == old(self).active_tasks,
            (old(self).task_queue@.len() > 0 && first_idle(old(self).workers@) >= 0) ==> {
                let k = first_idle(old(self).workers@);
                let t = old(self).task_queue@[0];
                &&& r == Some((k as usize, t.batch_id))
                &&& final(self).task_queue@ == old(self).task_queue@.drop_first()
                &&& final(self).workers@.len() == old(self).workers@.len()
                &&& final(self).workers@[k].state == WorkerState::Busy(t.batch_id)
                &&& final(self).workers@[k].last_activity_ms == now_ms
                &&& final(self).workers@[k].id == old(self).workers@[k].id
                &&& forall|j: int| 0 <= j < old(self).workers@.len() && j != k ==> final(self).workers@[j]
                    == old(self).workers@[j]
                &&& final(self).active_tasks@ == old(self).active_tasks@.push(
                    (t.batch_id, TaskContext { worker_id: k as usize, started_at_ms: now_ms, batch: t.batch }),
                )
            },
            final(self).shutdown_requested == old(self).shutdown_requested,
            final(self).config == old(self).config,
    {
        if self.task_queue.len() == 0 {
            return None;
        }
        let mut k: usize = 0;
        while k < self.workers.len()
            invariant
                k <= self.workers@.len(),
                forall|j: int| 0 <= j < k ==> !(self.workers@[j].state is Idle),
            ensures
                k <= self.workers@.len(),
                forall|j: int| 0 <= j < k ==> !(self.workers@[j].state is Idle),
                k < self.workers@.len() ==> self.workers@[k as int].state is Idle,
            decreases self.workers@.len() - k,
        {
            if self.workers[k].is_available() {
                break;
            }
            k = k + 1;
        }
        if k == self.workers.len() {
            proof {
                lemma_first_idle_none(self.workers@);
            }
            return None;
        }
        proof {
            lemma_first_idle_at(self.workers@, k as int);
        }
        let task = self.task_queue.remove(0);
        let PendingTask { batch_id, batch, options: _, submitted_at_ms: _ } = task;
        let id = self.workers[k].id;
        self.workers.set(k, WorkerProcess {
            id,
            state: WorkerState::Busy(batch_id.clone()),
            started_at_ms: self.workers[k].started_at_ms,
            last_activity_ms: now_ms,
        });
        let key = batch_id.clone();
        self.active_tasks.push((batch_id, TaskContext { worker_id: k, started_at_ms: now_ms, batch }));
        assert(self.task_queue@ =~= old(self).task_queue@.drop_first());
        Some((k, key))
    }

    /// Workers to start again: the failed ones, unless shutting down.
    pub fn workers_to_restart(&self) -> (r: Vec<usize>)
        ensures
            forall|i: int| 0 <= i < r@.len() ==> r@[i] < self.workers@.len(),
            forall|j: int|
                0 <= j < self.workers@.len() ==> (r@.contains(j as usize) <==> (self.workers@[j].state is Failed
                    && !self.shutdown_requested)),
    {
        let mut r: Vec<usize> = Vec::new();
        let mut i: usize = 0;
        while i < self.workers.len()
            invariant
                i <= self.workers@.len(),
                forall|q: int| 0 <= q < r@.len() ==> r@[q] < i,
                forall|j: int|
                    0 <= j < i ==> (r@.contains(j as usize) <==> (self.workers@[j].state is Failed
                        && !self.shutdown_requested)),
            decreases self.workers@.len() - i,
        {
            let ghost r0 = r@;
            if self.workers[i].is_failed() && !self.shutdown_requested {
                r.push(i);
                assert(r@[r0.len() as int] == i);
            }
            assert forall|j: int| 0 <= j < i + 1 implies (r@.contains(j as usize) <==> (self.workers@[j].state is Failed
                && !self.shutdown_requested)) by {
                if r@.contains(j as usize) {
                    let q = choose|q: int| 0 <= q < r@.len() && r@[q] == j as usize;
                    if q < r0.len() {
                        assert(r0[q] == j as usize);
                    }
                }
                if j < i && r0.contains(j as usize) {
                    let q = choose|q: int| 0 <= q < r0.len() && r0[q] == j as usize;
                    assert(r@[q] == j as usize);
                }
            }
            i = i + 1;
        }
        r
    }

    /// Workers to replace for having been idle too long: none when
    /// recycling is off or the pool shuts down.
    pub fn workers_to_recycle(&self, now_ms: u64) -> (r: Vec<usize>)
        ensures
            forall|i: int| 0 <= i < r@.len() ==> r@[i] < self.workers@.len(),
            forall|j: int|
                0 <= j < self.workers@.len() ==> (r@.contains(j as usize) <==> (self.config.enable_recycling
                    && !self.shutdown_requested && self.workers@[j].state is Idle && now_ms
                    > self.workers@[j].last_activity_ms && now_ms - self.workers@[j].last_activity_ms
                    > self.config.max_idle_time_ms)),
    {
        let mut r: Vec<usize> = Vec::new();
        if !self.config.enable_recycling {
            return r;
        }
        let mut i: usize = 0;
        while i < self.workers.len()
            invariant
                i <= self.workers@.len(),
                self.config.enable_recycling,
                forall|q: int| 0 <= q < r@.len() ==> r@[q] < i,
                forall|j: int|
                    0 <= j < i ==> (r@.contains(j as usize) <==> (!self.shutdown_requested
                        && self.workers@[j].state is Idle && now_ms > self.workers@[j].last_activity_ms && now_ms
                        - self.workers@[j].last_activity_ms > self.config.max_idle_time_ms)),
            decreases self.workers@.len() - i,
        {
            let ghost r0 = r@;
            if self.workers[i].should_recycle(self.config.max_idle_time_ms, now_ms) && !self.shutdown_requested {
                r.push(i);
                assert(r@[r0.len() as int] == i);
            }
            assert forall|j: int| 0 <= j < i + 1 implies (r@.contains(j as usize) <==> (!self.shutdown_requested
                && self.workers@[j].state is Idle && now_ms > self.workers@[j].last_activity_ms && now_ms
                - self.workers@[j].last_activity_ms > self.config.max_idle_time_ms)) by {
                if r@.contains(j as usize) {
                    let q = choose|q: int| 0 <= q < r@.len() && r@[q] == j as usize;
                    if q < r0.len() {
                        assert(r0[q] == j as usize);
                    }
                }
                if j < i && r0.contains(j as usize) {
                    let q = choose|q: int| 0 <= q < r0.len() && r0[q] == j as usize;
                    assert(r@[q] == j as usize);
                }
            }
            i = i + 1;
        }
        r
    }

    /// Records that worker `k` was (re)started and is idle.
    pub fn worker_started(&mut self, k: usize, now_ms: u64)
        requires
            k < old(self).workers@.len(),
        ensures
            final(self).workers@.len() == old(self).workers@.len(),
            final(self).workers@[k as int].state is Idle,
            final(self).workers@[k as int].id == old(self).workers@[k as int].id,
            final(self).workers@[k as int].started_at_ms == now_ms,
            final(self).workers@[k as int].last_activity_ms == now_ms,
            forall|j: int| 0 <= j < old(self).workers@.len() && j != k ==> final(self).workers@[j] == old(self).workers@[j],
            final(self).task_queue == old(self).task_queue,
            final(self).active_tasks == old(self).active_tasks,
            final(self).shutdown_requested == old(self).shutdown_requested,
    {
        let id = self.workers[k].id;
        self.workers.set(k, WorkerProcess { id, state: WorkerState::Idle, started_at_ms: now_ms, last_activity_ms: now_ms });
    }

    /// Records that worker `k` failed.
    pub fn worker_failed(&mut self, k: usize, message: String)
        requires
            k < old(self).workers@.len(),
        ensures
            final(self).workers@.len() == old(self).workers@.len(),
            final(self).workers@[k as int].state == WorkerState::Failed(message),
            final(self).workers@[k as int].id == old(self).workers@[k as int].id,
            forall|j: int| 0 <= j < old(self).workers@.len() && j != k ==> final(self).workers@[j] == old(self).workers@[j],
            final(self).task_queue == old(self).task_queue,
            final(self).active_tasks == old(self).active_tasks,
            final(self).shutdown_requested == old(self).shutdown_requested,
    {
        let id = self.workers[k].id;
        let started = self.workers[k].started_at_ms;
        let last = self.workers[k].last_activity_ms;
        self.workers.set(k, WorkerProcess { id, state: WorkerState::Failed(message), started_at_ms: started, last_activity_ms: last });
    }

    /// Requests shutdown: every worker is marked shut down and no batch is
    /// accepted any more.
    pub fn shutdown(&mut self)
        ensures
            final(self).shutdown_requested,
            final(self).workers@.len() == old(self).workers@.len(),
            forall|j: int| 0 <= j < final(self).workers@.len() ==> final(self).workers@[j].state is Shutdown
                && final(self).workers@[j].id == old(self).workers@[j].id,
            final(self).task_queue == old(self).task_queue,
            final(self).active_tasks == old(self).active_tasks,
    {
        self.shutdown_requested = true;
        let mut i: usize = 0;
        while i < self.workers.len()
            invariant
                i <= self.workers@.len(),
                self.workers@.len() == old(self).workers@.len(),
                self.shutdown_requested,
                self.task_queue == old(self).task_queue,
                self.active_tasks == old(self).active_tasks,
                forall|j: int| 0 <= j < i ==> self.workers@[j].state is Shutdown && self.workers@[j].id == old(self).workers@[j].id,
                forall|j: int| i <= j < self.workers@.len() ==> self.workers@[j] == old(self).workers@[j],
            decreases self.workers@.len() - i,
        {
            let id = self.workers[i].id;
            let started = self.workers[i].started_at_ms;
            let last = self.workers[i].last_activity_ms;
            self.workers.set(i, WorkerProcess { id, state: WorkerState::Shutdown, started_at_ms: started, last_activity_ms: last });
            i = i + 1;
        }
    }

    /// Counts of the pool.
    pub fn get_stats(&self) -> (s: WorkerPoolStats)
        ensures
            s.total_workers == self.workers@.len(),
            s.idle_workers == count_state(self.workers@, 1),
            s.busy_workers == count_state(self.workers@, 2),
            s.failed_workers == count_state(self.workers@, 3),
            s.queued_tasks == self.task_queue@.len(),
            s.active_tasks == self.active_tasks@.len(),
    {
        let mut idle: usize = 0;
        let mut busy: usize = 0;
        let mut failed: usize = 0;
        let mut i: usize = 0;
        while i < self.workers.len()
            invariant
                i <= self.workers@.len(),
                idle == count_state(self.workers@.subrange(0, i as int), 1),
                busy == count_state(self.workers@.subrange(0, i as int), 2),
                failed == count_state(self.workers@.subrange(0, i as int), 3),
            decreases self.workers@.len() - i,
        {
            proof {
                let sub = self.workers@.subrange(0, i + 1);
                assert(sub.drop_last() =~= self.workers@.subrange(0, i as int));
                lemma_count_le(self.workers@.subrange(0, i as int), 1);
                lemma_count_le(self.workers@.subrange(0, i as int), 2);
                lemma_count_le(self.workers@.subrange(0, i as int), 3);
            }
            match &self.workers[i].state {
                WorkerState::Idle => idle = idle + 1,
                WorkerState::Busy(_) => busy = busy + 1,
                WorkerState::Failed(_) => failed = failed + 1,
                _ => {},
            }
            i = i + 1;
        }
        assert(self.workers@.subrange(0, self.workers@.len() as int) =~= self.workers@);
        WorkerPoolStats {
            total_workers: self.workers.len(),
            idle_workers: idle,
            busy_workers: busy,
            failed_workers: failed,
            queued_tasks: self.task_queue.len(),
            active_tasks: self.active_tasks.len(),
        }
    }
}

} // verus!
