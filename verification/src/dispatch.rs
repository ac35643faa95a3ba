//! A model of the dispatcher that the tasks run under: every task has a
//! fixed priority and an interrupt vector that triggers it, a pending task
//! preempts whatever runs at a lower level, and a task that locks a shared
//! resource runs at the resource's ceiling until it unlocks it.

use vstd::prelude::*;

verus! {

/// A unit of work: its priority, at least 1, and the interrupt vector that
/// triggers it.
#[derive(Clone, Copy, Debug, PartialEq, Eq, Structural)]
pub struct Task {
    pub priority: u8,
    pub trigger: u16,
}

/// A task that was dispatched and has not completed: the level that it
/// runs at, and the resource that it has locked.
#[derive(Clone, Copy, Debug, PartialEq, Eq, Structural)]
pub struct Frame {
    pub task: usize,
    pub effective: u8,
    pub holding: Option<usize>,
}

/// Why the dispatcher refused a step.
#[derive(Clone, Copy, Debug, PartialEq, Eq, Structural)]
pub enum DispatchError {
    /// Priority 0 is the level at which nothing runs.
    ZeroPriority,
    /// Another task is bound to the vector.
    VectorTaken,
    /// No task runs.
    NothingRunning,
    /// The running task still holds a lock.
    LockHeld,
    /// There is no resource of that number.
    NoSuchResource,
    /// The running task already holds a lock.
    Nested,
    /// The running task's priority is above the resource's ceiling: it is
    /// none of the tasks that share the resource.
    AboveCeiling,
    /// The running task does not hold the lock.
    NotHeld,
}

/// The mathematical value of a [`Dispatcher`].
pub struct DispatcherView {
    /// The registered tasks; a task's number is its place here.
    pub tasks: Seq<Task>,
    /// The tasks that have been triggered and not yet dispatched, in the
    /// order in which their interrupts arrived.
    pub pending: Seq<usize>,
    /// The ceiling of each resource; a resource's number is its place here.
    pub ceilings: Seq<u8>,
    /// The dispatched tasks, the running one last, each below it preempted
    /// by the next.
    pub running: Seq<Frame>,
}

impl DispatcherView {
    /// The priority of the task in the frame at `depth`.
    pub open spec fn priority_at(self, depth: int) -> u8 {
        self.tasks[self.running[depth].task as int].priority
    }

    /// A frame names a task; it runs at the task's priority, or at the
    /// ceiling of the resource that it holds, which is no lower.
    pub open spec fn frame_ok(self, depth: int) -> bool {
        let f = self.running[depth];
        &&& f.task < self.tasks.len()
        &&& match f.holding {
            None => f.effective == self.priority_at(depth),
            Some(r) => {
                &&& r < self.ceilings.len()
                &&& f.effective == self.ceilings[r as int]
                &&& self.priority_at(depth) <= self.ceilings[r as int]
            },
        }
    }

    /// What holds of every dispatcher.
    pub open spec fn wf(self) -> bool {
        &&& forall|i: int|
            0 <= i < self.pending.len() ==> #[trigger] self.pending[i] < self.tasks.len()
        &&& forall|i: int, j: int|
            0 <= i < j < self.pending.len() ==> #[trigger] self.pending[i]
                != #[trigger] self.pending[j]
        &&& forall|t: int| 0 <= t < self.tasks.len() ==> (#[trigger] self.tasks[t]).priority >= 1
        &&& forall|t: int, u: int|
            0 <= t < u < self.tasks.len() ==> (#[trigger] self.tasks[t]).trigger
                != (#[trigger] self.tasks[u]).trigger
        &&& forall|d: int| 0 <= d < self.running.len() ==> #[trigger] self.frame_ok(d)
        &&& forall|d: int|
            0 < d < self.running.len() ==> #[trigger] self.priority_at(d) > self.running[d
                - 1].effective
    }

    /// The level that runs: that of the innermost frame, 0 with none.
    pub open spec fn level(self) -> u8 {
        if self.running.len() == 0 {
            0
        } else {
            self.running.last().effective
        }
    }

    /// Whether a vector has a task bound to it.
    pub open spec fn bound(self, trigger: u16) -> bool {
        exists|t: int| 0 <= t < self.tasks.len() && (#[trigger] self.tasks[t]).trigger == trigger
    }

    /// The priority of the pending task at place `i`.
    pub open spec fn pending_priority(self, i: int) -> u8 {
        self.tasks[self.pending[i] as int].priority
    }

    /// Whether the pending task at place `i` would preempt what runs.
    pub open spec fn eligible(self, i: int) -> bool {
        0 <= i < self.pending.len() && self.pending_priority(i) > self.level()
    }

    /// Whether the pending task at place `i` is the one to dispatch: of the
    /// eligible tasks the one of highest priority, and among equals the one
    /// whose interrupt arrived first.
    pub open spec fn chosen(self, i: int) -> bool {
        &&& self.eligible(i)
        &&& forall|j: int| #[trigger]
            self.eligible(j) ==> self.pending_priority(j) < self.pending_priority(i) || (
            self.pending_priority(j) == self.pending_priority(i) && i <= j)
    }

    /// The state after the pending task at place `i` was dispatched.
    pub open spec fn dispatched(self, i: int) -> DispatcherView {
        DispatcherView {
            pending: self.pending.remove(i),
            running: self.running.push(
                Frame {
                    task: self.pending[i],
                    effective: self.pending_priority(i),
                    holding: None,
                },
            ),
            ..self
        }
    }

    /// The state after the interrupt of task `t` has arrived: the task is
    /// pending, at the end of the line unless it was pending already.
    pub open spec fn raised(self, t: usize) -> DispatcherView {
        if self.pending.contains(t) {
            self
        } else {
            DispatcherView { pending: self.pending.push(t), ..self }
        }
    }

    /// Why the running task cannot complete, if it cannot.
    pub open spec fn complete_refusal(self) -> Option<DispatchError> {
        if self.running.len() == 0 {
            Some(DispatchError::NothingRunning)
        } else if self.running.last().holding.is_some() {
            Some(DispatchError::LockHeld)
        } else {
            None
        }
    }

    /// The state after the running task has completed: what it preempted
    /// runs.
    pub open spec fn completed(self) -> DispatcherView {
        DispatcherView { running: self.running.drop_last(), ..self }
    }

    /// Why the running task cannot lock resource `r`, if it cannot.
    pub open spec fn lock_refusal(self, r: usize) -> Option<DispatchError> {
        if self.running.len() == 0 {
            Some(DispatchError::NothingRunning)
        } else if r >= self.ceilings.len() {
            Some(DispatchError::NoSuchResource)
        } else if self.running.last().holding.is_some() {
            Some(DispatchError::Nested)
        } else if self.priority_at(self.running.len() - 1) > self.ceilings[r as int] {
            Some(DispatchError::AboveCeiling)
        } else {
            None
        }
    }

    /// Whether the running task holds the lock of resource `r`.
    pub open spec fn holds(self, r: usize) -> bool {
        self.running.len() > 0 && self.running.last().holding == Some(r)
    }

    /// The state with the innermost frame replaced.
    pub open spec fn with_top(self, f: Frame) -> DispatcherView {
        DispatcherView { running: self.running.drop_last().push(f), ..self }
    }

    /// The state after the running task has locked resource `r`: it runs at
    /// the ceiling.
    pub open spec fn locked(self, r: usize) -> DispatcherView {
        self.with_top(
            Frame {
                task: self.running.last().task,
                effective: self.ceilings[r as int],
                holding: Some(r),
            },
        )
    }

    /// The state after the running task has unlocked its resource: it runs
    /// at its own priority again.
    pub open spec fn unlocked(self) -> DispatcherView {
        self.with_top(
            Frame {
                task: self.running.last().task,
                effective: self.priority_at(self.running.len() - 1),
                holding: None,
            },
        )
    }
}

/// The tasks, the resources and what runs.
pub struct Dispatcher {
    tasks: Vec<Task>,
    pending: Vec<usize>,
    ceilings: Vec<u8>,
    running: Vec<Frame>,
}

impl View for Dispatcher {
    type V = DispatcherView;

    closed spec fn view(&self) -> DispatcherView {
        DispatcherView {
            tasks: self.tasks@,
            pending: self.pending@,
            ceilings: self.ceilings@,
            running: self.running@,
        }
    }
}

impl Dispatcher {
    /// A dispatcher with no task and no resource.
    pub fn new() -> (d: Dispatcher)
        ensures
            d@.wf(),
            d@.tasks.len() == 0,
            d@.pending.len() == 0,
            d@.ceilings.len() == 0,
            d@.running.len() == 0,
    {
        Dispatcher {
            tasks: Vec::new(),
            pending: Vec::new(),
            ceilings: Vec::new(),
            running: Vec::new(),
        }
    }

    /// Binds a new task to an interrupt vector. Refused for priority 0 and
    /// for a vector that has a task already.
    pub fn register(&mut self, priority: u8, trigger: u16) -> (r: Result<usize, DispatchError>)
        requires
            old(self)@.wf(),
        ensures
            final(self)@.wf(),
            r.is_ok() == (priority >= 1 && !old(self)@.bound(trigger)),
            r matches Ok(t) ==> t == old(self)@.tasks.len() && final(self)@ == (DispatcherView {
                tasks: old(self)@.tasks.push(Task { priority, trigger }),
                ..old(self)@
            }),
            r matches Err(e) ==> final(self)@ == old(self)@ && e == if priority == 0 {
                DispatchError::ZeroPriority
            } else {
                DispatchError::VectorTaken
            },
    {
        if priority == 0 {
            return Err(DispatchError::ZeroPriority);
        }
        if self.find(trigger).is_some() {
            return Err(DispatchError::VectorTaken);
        }
        let t = self.tasks.len();
        self.tasks.push(Task { priority, trigger });
        proof {
            let v = self@;
            let o = old(self)@;
            lemma_frames_carry_over(o, v, v.running.len() as int);
        }
        Ok(t)
    }

    /// The task bound to a vector.
    fn find(&self, trigger: u16) -> (r: Option<usize>)
        ensures
            r.is_some() == self@.bound(trigger),
            r matches Some(t) ==> t < self@.tasks.len() && self@.tasks[t as int].trigger
                == trigger,
    {
        let mut t: usize = 0;
        while t < self.tasks.len()
            invariant
                t <= self.tasks@.len(),
                forall|u: int| 0 <= u < t ==> (#[trigger] self.tasks@[u]).trigger != trigger,
            decreases self.tasks@.len() - t,
        {
            if self.tasks[t].trigger == trigger {
                assert(self@.tasks[t as int].trigger == trigger);
                return Some(t);
            }
            t = t + 1;
        }
        None
    }

    /// Declares a shared resource with its ceiling, the highest priority of
    /// the tasks that share it. Returns the resource's number.
    pub fn add_resource(&mut self, ceiling: u8) -> (r: usize)
        requires
            old(self)@.wf(),
        ensures
            final(self)@.wf(),
            r == old(self)@.ceilings.len(),
            final(self)@ == (DispatcherView {
                ceilings: old(self)@.ceilings.push(ceiling),
                ..old(self)@
            }),
    {
        let r = self.ceilings.len();
        self.ceilings.push(ceiling);
        proof {
            let v = self@;
            let o = old(self)@;
            lemma_frames_carry_over(o, v, v.running.len() as int);
        }
        r
    }

    /// The level that runs.
    pub fn level(&self) -> (l: u8)
        ensures
            l == self@.level(),
    {
        let n = self.running.len();
        if n == 0 {
            0
        } else {
            self.running[n - 1].effective
        }
    }

    /// The running task.
    pub fn current(&self) -> (t: Option<usize>)
        ensures
            t.is_some() == (self@.running.len() > 0),
            t matches Some(id) ==> id == self@.running.last().task,
    {
        let n = self.running.len();
        if n == 0 {
            None
        } else {
            Some(self.running[n - 1].task)
        }
    }

    /// Whether the running task holds the lock of a resource.
    pub fn holds(&self, resource: usize) -> (b: bool)
        ensures
            b == self@.holds(resource),
    {
        let n = self.running.len();
        if n == 0 {
            false
        } else {
            match self.running[n - 1].holding {
                Some(r) => r == resource,
                None => false,
            }
        }
    }

    /// Whether a task has been triggered and not yet dispatched.
    pub fn is_pending(&self, task: usize) -> (b: bool)
        ensures
            b == self@.pending.contains(task),
    {
        let mut i: usize = 0;
        while i < self.pending.len()
            invariant
                i <= self.pending@.len(),
                forall|j: int| 0 <= j < i ==> self.pending@[j] != task,
            decreases self.pending@.len() - i,
        {
            if self.pending[i] == task {
                return true;
            }
            i = i + 1;
        }
        false
    }

    /// The interrupt of a vector arrives: the task bound to it becomes
    /// pending. Returns the task, or `None` for a vector with no task.
    pub fn raise(&mut self, trigger: u16) -> (r: Option<usize>)
        requires
            old(self)@.wf(),
        ensures
            final(self)@.wf(),
            r.is_some() == old(self)@.bound(trigger),
            r.is_none() ==> final(self)@ == old(self)@,
            r matches Some(t) ==> {
                &&& t < old(self)@.tasks.len()
                &&& old(self)@.tasks[t as int].trigger == trigger
                &&& final(self)@ == old(self)@.raised(t)
            },
    {
        match self.find(trigger) {
            None => None,
            Some(t) => {
                if !self.is_pending(t) {
                    self.pending.push(t);
                }
                proof {
                    let v = self@;
                    let o = old(self)@;
                    lemma_frames_carry_over(o, v, v.running.len() as int);
                }
                Some(t)
            },
        }
    }

    /// Dispatches the pending task that preempts what runs, if there is
    /// one: the one of highest priority above the running level, and among
    /// equals the one registered first. It runs at its own priority until
    /// it completes.
    pub fn dispatch_pending(&mut self) -> (r: Option<usize>)
        requires
            old(self)@.wf(),
        ensures
            final(self)@.wf(),
            r.is_some() == (exists|i: int| old(self)@.eligible(i)),
            r.is_none() ==> final(self)@ == old(self)@,
            r matches Some(t) ==> {
                &&& old(self)@.pending.contains(t)
                &&& old(self)@.chosen(old(self)@.pending.index_of(t))
                &&& final(self)@ == old(self)@.dispatched(old(self)@.pending.index_of(t))
            },
    {
        let level = self.level();
        let mut best: Option<usize> = None;
        let mut i: usize = 0;
        while i < self.pending.len()
            invariant
                self@ == old(self)@,
                self@.wf(),
                level == self@.level(),
                i <= self@.pending.len(),
                best.is_none() ==> forall|j: int| 0 <= j < i ==> !self@.eligible(j),
                best matches Some(b) ==> {
                    &&& b < i
                    &&& self@.eligible(b as int)
                    &&& forall|j: int|
                        0 <= j < i && #[trigger] self@.eligible(j) ==> self@.pending_priority(j)
                            < self@.pending_priority(b as int) || (self@.pending_priority(j)
                            == self@.pending_priority(b as int) && b <= j)
                },
            decreases self@.pending.len() - i,
        {
            let priority = self.tasks[self.pending[i]].priority;
            if priority > level {
                let better = match best {
                    None => true,
                    Some(b) => priority > self.tasks[self.pending[b]].priority,
                };
                if better {
                    best = Some(i);
                }
            }
            i = i + 1;
        }
        match best {
            None => None,
            Some(b) => {
                let task = self.pending.remove(b);
                let priority = self.tasks[task].priority;
                self.running.push(Frame { task, effective: priority, holding: None });
                proof {
                    let v = self@;
                    let o = old(self)@;
                    assert(o.pending[b as int] == task);
                    assert(o.pending.index_of(task) == b);
                    assert(v == o.dispatched(b as int));
                    lemma_frames_carry_over(o, v, o.running.len() as int);
                }
                Some(task)
            },
        }
    }

    /// The running task has run to its end: what it preempted goes on.
    /// Refused while it holds a lock. Returns the task.
    pub fn complete(&mut self) -> (r: Result<usize, DispatchError>)
        requires
            old(self)@.wf(),
        ensures
            final(self)@.wf(),
            r.is_ok() == old(self)@.complete_refusal().is_none(),
            r matches Err(e) ==> {
                &&& old(self)@.complete_refusal() == Some(e)
                &&& final(self)@ == old(self)@
            },
            r matches Ok(t) ==> {
                &&& t == old(self)@.running.last().task
                &&& final(self)@ == old(self)@.completed()
            },
    {
        let n = self.running.len();
        if n == 0 {
            return Err(DispatchError::NothingRunning);
        }
        if self.running[n - 1].holding.is_some() {
            return Err(DispatchError::LockHeld);
        }
        let top = self.running.pop().unwrap();
        proof {
            let v = self@;
            let o = old(self)@;
            assert(v == o.completed());
            lemma_frames_carry_over(o, v, v.running.len() as int);
        }
        Ok(top.task)
    }

    /// The running task locks a resource and runs at the resource's
    /// ceiling from here on. Refused where no task runs, the resource does
    /// not exist, the task holds a lock already, or its priority is above
    /// the ceiling. It is never refused because another task holds the
    /// lock: a task that may lock the resource does not get to run while
    /// it is held.
    pub fn lock(&mut self, resource: usize) -> (r: Result<(), DispatchError>)
        requires
            old(self)@.wf(),
        ensures
            final(self)@.wf(),
            r.is_ok() == old(self)@.lock_refusal(resource).is_none(),
            r matches Err(e) ==> {
                &&& old(self)@.lock_refusal(resource) == Some(e)
                &&& final(self)@ == old(self)@
            },
            r.is_ok() ==> {
                &&& final(self)@ == old(self)@.locked(resource)
                &&& final(self)@.holds(resource)
            },
    {
        let n = self.running.len();
        if n == 0 {
            return Err(DispatchError::NothingRunning);
        }
        if resource >= self.ceilings.len() {
            return Err(DispatchError::NoSuchResource);
        }
        let top = self.running[n - 1];
        if top.holding.is_some() {
            return Err(DispatchError::Nested);
        }
        proof {
            assert(old(self)@.frame_ok(n - 1));
        }
        let ceiling = self.ceilings[resource];
        if self.tasks[top.task].priority > ceiling {
            return Err(DispatchError::AboveCeiling);
        }
        let frame = Frame { task: top.task, effective: ceiling, holding: Some(resource) };
        self.running.set(n - 1, frame);
        proof {
            assert(self@.running =~= old(self)@.locked(resource).running);
            lemma_top_replaced(old(self)@, frame);
        }
        Ok(())
    }

    /// The running task unlocks the resource that it holds and runs at its
    /// own priority again.
    pub fn unlock(&mut self, resource: usize) -> (r: Result<(), DispatchError>)
        requires
            old(self)@.wf(),
        ensures
            final(self)@.wf(),
            r.is_ok() == old(self)@.holds(resource),
            r matches Err(e) ==> {
                &&& final(self)@ == old(self)@
                &&& e == if old(self)@.running.len() == 0 {
                    DispatchError::NothingRunning
                } else {
                    DispatchError::NotHeld
                }
            },
            r.is_ok() ==> {
                &&& final(self)@ == old(self)@.unlocked()
                &&& final(self)@.level() == old(self)@.priority_at(old(self)@.running.len() - 1)
            },
    {
        let n = self.running.len();
        if n == 0 {
            return Err(DispatchError::NothingRunning);
        }
        let top = self.running[n - 1];
        let held = match top.holding {
            Some(r) => r == resource,
            None => false,
        };
        if !held {
            return Err(DispatchError::NotHeld);
        }
        proof {
            assert(old(self)@.frame_ok(n - 1));
        }
        let priority = self.tasks[top.task].priority;
        let frame = Frame { task: top.task, effective: priority, holding: None };
        self.running.set(n - 1, frame);
        proof {
            assert(self@.running =~= old(self)@.unlocked().running);
            lemma_top_replaced(old(self)@, frame);
        }
        Ok(())
    }
}

/// Frames below `n` that stay as they are, over tasks and ceilings that
/// stay as they are, stay in order.
proof fn lemma_frames_carry_over(o: DispatcherView, v: DispatcherView, n: int)
    requires
        o.wf(),
        o.tasks.len() <= v.tasks.len(),
        forall|t: int| 0 <= t < o.tasks.len() ==> v.tasks[t] == o.tasks[t],
        o.ceilings.len() <= v.ceilings.len(),
        forall|r: int| 0 <= r < o.ceilings.len() ==> v.ceilings[r] == o.ceilings[r],
        0 <= n <= o.running.len(),
        n <= v.running.len(),
        forall|d: int| 0 <= d < n ==> v.running[d] == o.running[d],
    ensures
        forall|d: int| 0 <= d < n ==> #[trigger] v.frame_ok(d),
        forall|d: int| 0 < d < n ==> #[trigger] v.priority_at(d) > v.running[d - 1].effective,
{
    assert forall|d: int| 0 <= d < n implies #[trigger] v.frame_ok(d) by {
        assert(o.frame_ok(d));
    }
    assert forall|d: int| 0 < d < n implies #[trigger] v.priority_at(d) > v.running[d
        - 1].effective by {
        assert(o.frame_ok(d));
        assert(o.priority_at(d) > o.running[d - 1].effective);
    }
}

/// The innermost frame may change its level and its lock, as long as it
/// keeps its task and runs at the task's priority or at the ceiling of what
/// it holds.
proof fn lemma_top_replaced(o: DispatcherView, f: Frame)
    requires
        o.wf(),
        o.running.len() > 0,
        f.task == o.running.last().task,
        match f.holding {
            None => f.effective == o.tasks[f.task as int].priority,
            Some(r) => {
                &&& r < o.ceilings.len()
                &&& f.effective == o.ceilings[r as int]
                &&& o.tasks[f.task as int].priority <= o.ceilings[r as int]
            },
        },
    ensures
        o.with_top(f).wf(),
{
    let v = o.with_top(f);
    let top = o.running.len() - 1;
    lemma_frames_carry_over(o, v, top);
    assert(o.frame_ok(top));
    assert(v.frame_ok(top));
    if top > 0 {
        assert(o.priority_at(top) > o.running[top - 1].effective);
        assert(v.priority_at(top) > v.running[top - 1].effective);
    }
}

/// Each dispatched task runs at a higher level than the one that it
/// preempted, and at a higher priority than anything below it runs at.
pub proof fn lemma_levels_increase(v: DispatcherView, low: int, high: int)
    requires
        v.wf(),
        0 <= low < high < v.running.len(),
    ensures
        v.running[low].effective < v.priority_at(high),
        v.running[low].effective < v.running[high].effective,
    decreases high - low,
{
    assert(v.frame_ok(high));
    assert(v.priority_at(high) > v.running[high - 1].effective);
    if low < high - 1 {
        lemma_levels_increase(v, low, high - 1);
    }
}

/// While a task holds the lock of a resource, every task that has
/// preempted it has a priority above the resource's ceiling, and so has
/// every pending task that could still preempt: none of them is a task
/// that shares the resource, and none of them can lock it.
pub proof fn lemma_no_sharer_runs_while_locked(v: DispatcherView, holder: int, r: usize)
    requires
        v.wf(),
        0 <= holder < v.running.len(),
        v.running[holder].holding == Some(r),
    ensures
        forall|d: int|
            holder < d < v.running.len() ==> #[trigger] v.priority_at(d) > v.ceilings[r as int],
        forall|i: int| #[trigger] v.eligible(i) ==> v.pending_priority(i) > v.ceilings[r as int],
        holder < v.running.len() - 1 ==> v.lock_refusal(r).is_some(),
{
    assert(v.frame_ok(holder));
    assert forall|d: int| holder < d < v.running.len() implies #[trigger] v.priority_at(d)
        > v.ceilings[r as int] by {
        lemma_levels_increase(v, holder, d);
    }
    if holder < v.running.len() - 1 {
        lemma_levels_increase(v, holder, v.running.len() - 1);
    }
}

/// No two dispatched tasks hold the lock of the same resource.
pub proof fn lemma_one_holder(v: DispatcherView, a: int, b: int, r: usize)
    requires
        v.wf(),
        0 <= a < v.running.len(),
        0 <= b < v.running.len(),
        v.running[a].holding == Some(r),
        v.running[b].holding == Some(r),
    ensures
        a == b,
{
    assert(v.frame_ok(a));
    assert(v.frame_ok(b));
    if a < b {
        lemma_levels_increase(v, a, b);
    }
    if b < a {
        lemma_levels_increase(v, b, a);
    }
}

/// A lock that is granted finds its resource free: no task needs to wait
/// for a lock.
pub proof fn lemma_granted_lock_is_free(v: DispatcherView, r: usize)
    requires
        v.wf(),
        v.lock_refusal(r).is_none(),
    ensures
        forall|d: int| 0 <= d < v.running.len() ==> (#[trigger] v.running[d]).holding != Some(r),
{
    let top = v.running.len() - 1;
    assert forall|d: int| 0 <= d < v.running.len() implies (#[trigger] v.running[d]).holding
        != Some(r) by {
        if d < top && v.running[d].holding == Some(r) {
            lemma_no_sharer_runs_while_locked(v, d, r);
        }
    }
}

} // verus!
