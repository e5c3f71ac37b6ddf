//! The scheduling core: fixed priorities, preemption, and guarded access to
//! shared state under the priority-ceiling discipline.
//!
//! The core keeps the book: which tasks are requested, which have started
//! and in what order they preempted each other, and which resources are
//! held.  It decides who may run and whether a resource may be entered.
//!
//! On the target the interrupt controller takes these decisions in
//! hardware.  The core is the reference for them: a task table can be tried
//! on it, sequences of requests replayed, and a guarded item such as the
//! shared engine state asked whether the running task may reach it.

use crate::sched_model::ceiling_among;
use crate::sched_model::declares;
use crate::sched_model::enter_all;
use crate::sched_model::first_pending;
use crate::sched_model::held_ceiling;
use crate::sched_model::entered_since;
use crate::sched_model::lemma_enter_all_next;
use crate::sched_model::lemma_enter_none;
use crate::sched_model::lemma_entered_keeps_wf;
use crate::sched_model::lemma_finished_keeps_wf;
use crate::sched_model::lemma_fresh_book_is_wf;
use crate::sched_model::lemma_wf_bounds;
use crate::sched_model::lemma_withdrawn_keeps_wf;
use crate::sched_model::lemma_first_pending;
use crate::sched_model::lemma_left_keeps_wf;
use crate::sched_model::lemma_requested_keeps_wf;
use crate::sched_model::lemma_started_keeps_wf;
use crate::sched_model::table_valid;
use crate::sched_model::HeldLock;
use crate::sched_model::SchedError;
use crate::sched_model::SchedModel;
use crate::sched_model::MAX_RESOURCES;
use vstd::prelude::*;

verus! {

/// Tells whether a set of resources holds a resource.
pub fn declares_resource(mask: u32, resource: usize) -> (declared: bool)
    ensures
        declared == declares(mask, resource),
{
    resource < 32 && (mask >> resource) & 1 == 1
}

/// The scheduling core of one task table.
pub struct Scheduler {
    priorities: Vec<u8>,
    masks: Vec<u32>,
    resources: usize,
    ceilings: Vec<u8>,
    pending: Vec<bool>,
    running: Vec<usize>,
    held: Vec<HeldLock>,
}

impl Scheduler {
    /// The book of the core.
    pub closed spec fn view(&self) -> SchedModel {
        SchedModel {
            priorities: self.priorities@,
            masks: self.masks@,
            resources: self.resources as nat,
            pending: self.pending@,
            running: self.running@,
            held: self.held@,
        }
    }

    /// The book is one that the core can reach, and the ceilings that the
    /// core has worked out are those of the task table.
    pub closed spec fn wf(&self) -> bool {
        &&& self@.wf()
        &&& self.ceilings@.len() == self.resources
        &&& forall|r: int|
            0 <= r < self.resources ==> (#[trigger] self.ceilings@[r]) == self@.ceiling(r as usize)
    }

    /// The book of a well-formed core is one that the core can reach.
    pub proof fn lemma_wf_book(&self)
        requires
            self.wf(),
        ensures
            self@.wf(),
    {
    }

    /// A core for a task table, with nothing requested, started or held;
    /// `None` where the table is not usable.
    pub fn new(priorities: Vec<u8>, masks: Vec<u32>, resources: usize) -> (core: Option<Scheduler>)
        ensures
            core is Some <==> table_valid(priorities@, masks@, resources),
            core matches Some(c) ==> {
                &&& c.wf()
                &&& c@.priorities == priorities@
                &&& c@.masks == masks@
                &&& c@.resources == resources
                &&& c@.pending.len() == priorities@.len()
                &&& forall|t: int| 0 <= t < c@.pending.len() ==> !#[trigger] c@.pending[t]
                &&& c@.running.len() == 0
                &&& c@.held.len() == 0
            },
    {
        if masks.len() != priorities.len() || resources > MAX_RESOURCES {
            return None;
        }
        let count: usize = priorities.len();
        let mut t: usize = 0;
        while t < count
            invariant
                t <= count,
                count == priorities.len(),
                count == masks.len(),
                resources <= MAX_RESOURCES,
                forall|k: int| 0 <= k < t ==> #[trigger] priorities@[k] > 0,
                forall|k: int, r: usize|
                    0 <= k < t && #[trigger] declares(masks@[k], r) ==> r < resources,
            decreases count - t,
        {
            if priorities[t] == 0 {
                return None;
            }
            let mask: u32 = masks[t];
            let mut r: usize = resources;
            while r < MAX_RESOURCES
                invariant
                    resources <= r <= MAX_RESOURCES,
                    t < count,
                    count == masks.len(),
                    mask == masks@[t as int],
                    forall|q: usize| resources <= q < r ==> !#[trigger] declares(mask, q),
                decreases MAX_RESOURCES - r,
            {
                if declares_resource(mask, r) {
                    return None;
                }
                r += 1;
            }
            t += 1;
        }
        let mut ceilings: Vec<u8> = Vec::new();
        let mut r: usize = 0;
        while r < resources
            invariant
                r <= resources,
                count == priorities.len(),
                count == masks.len(),
                ceilings@.len() == r,
                forall|q: int|
                    0 <= q < r ==> (#[trigger] ceilings@[q]) == ceiling_among(
                        priorities@,
                        masks@,
                        q as usize,
                        count as int,
                    ),
            decreases resources - r,
        {
            let mut ceiling: u8 = 0;
            let mut k: usize = 0;
            while k < count
                invariant
                    k <= count,
                    count == priorities.len(),
                    count == masks.len(),
                    ceiling == ceiling_among(priorities@, masks@, r, k as int),
                decreases count - k,
            {
                if declares_resource(masks[k], r) && priorities[k] > ceiling {
                    ceiling = priorities[k];
                }
                k += 1;
            }
            ceilings.push(ceiling);
            r += 1;
        }
        let mut pending: Vec<bool> = Vec::new();
        let mut k: usize = 0;
        while k < count
            invariant
                k <= count,
                pending@.len() == k,
                forall|q: int| 0 <= q < k ==> !#[trigger] pending@[q],
            decreases count - k,
        {
            pending.push(false);
            k += 1;
        }
        let core = Scheduler {
            priorities,
            masks,
            resources,
            ceilings,
            pending,
            running: Vec::new(),
            held: Vec::new(),
        };
        proof {
            lemma_fresh_book_is_wf(core@);
        }
        Some(core)
    }

    /// Number of tasks in the table.
    pub fn task_count(&self) -> (count: usize)
        requires
            self.wf(),
        ensures
            count == self@.priorities.len(),
    {
        proof {
            lemma_wf_bounds(self@);
        }
        self.priorities.len()
    }

    /// The ceiling of a resource; `None` for a resource that does not exist.
    pub fn ceiling(&self, resource: usize) -> (ceiling: Option<u8>)
        requires
            self.wf(),
        ensures
            ceiling is Some <==> resource < self@.resources,
            ceiling matches Some(c) ==> c == self@.ceiling(resource),
    {
        proof {
            lemma_wf_bounds(self@);
        }
        if resource < self.resources {
            Some(self.ceilings[resource])
        } else {
            None
        }
    }

    /// The task that runs, if any.
    pub fn running_task(&self) -> (task: Option<usize>)
        requires
            self.wf(),
        ensures
            task == self@.running_task(),
    {
        proof {
            lemma_wf_bounds(self@);
        }
        if self.running.len() > 0 {
            Some(self.running[self.running.len() - 1])
        } else {
            None
        }
    }

    /// Tells whether a resource is held.
    pub fn is_held(&self, resource: usize) -> (held: bool)
        requires
            self.wf(),
        ensures
            held == self@.is_held(resource),
    {
        proof {
            lemma_wf_bounds(self@);
        }
        let mut i: usize = 0;
        while i < self.held.len()
            invariant
                i <= self.held.len(),
                forall|k: int| 0 <= k < i ==> (#[trigger] self.held@[k]).resource != resource,
            decreases self.held.len() - i,
        {
            if self.held[i].resource == resource {
                assert(self@.held[i as int].resource == resource);
                return true;
            }
            i += 1;
        }
        false
    }

    /// Tells whether the running task is inside a resource.
    pub fn running_holds(&self, resource: usize) -> (inside: bool)
        requires
            self.wf(),
        ensures
            inside == self@.running_holds(resource),
    {
        proof {
            lemma_wf_bounds(self@);
        }
        let mut i: usize = 0;
        while i < self.held.len()
            invariant
                self.wf(),
                i <= self.held.len(),
                forall|k: int|
                    0 <= k < i ==> !((#[trigger] self.held@[k]).resource == resource
                        && self.held@[k].depth + 1 == self.running@.len()),
            decreases self.held.len() - i,
        {
            let depth: usize = self.held[i].depth;
            if self.held[i].resource == resource && depth < self.running.len() && depth + 1
                == self.running.len() {
                assert(self@.held[i as int].resource == resource && self@.held[i as int].depth
                    + 1 == self@.running.len());
                return true;
            }
            i += 1;
        }
        false
    }

    /// The task that holds a resource, if it is held.
    pub fn holder(&self, resource: usize) -> (task: Option<usize>)
        requires
            self.wf(),
        ensures
            task is Some <==> self@.is_held(resource),
            task matches Some(t) ==> exists|i: int|
                0 <= i < self@.held.len() && (#[trigger] self@.held[i]).resource == resource && t
                    == self@.running[self@.held[i].depth as int],
    {
        proof {
            lemma_wf_bounds(self@);
        }
        let mut i: usize = 0;
        while i < self.held.len()
            invariant
                self.wf(),
                i <= self.held.len(),
                forall|k: int| 0 <= k < i ==> (#[trigger] self.held@[k]).resource != resource,
            decreases self.held.len() - i,
        {
            proof {
                lemma_wf_bounds(self@);
            }
            if self.held[i].resource == resource {
                let depth: usize = self.held[i].depth;
                assert(self@.held[i as int].depth < self@.running.len());
                return Some(self.running[depth]);
            }
            i += 1;
        }
        None
    }

    /// The priority at which the processor runs.
    pub fn current_priority(&self) -> (priority: u8)
        requires
            self.wf(),
        ensures
            priority == self@.current_priority(),
    {
        proof {
            lemma_wf_bounds(self@);
        }
        let mut priority: u8 = 0;
        if self.running.len() > 0 {
            let top: usize = self.running[self.running.len() - 1];
            assert(self@.running[self@.running.len() - 1] < self@.priorities.len());
            priority = self.priorities[top];
        }
        let mut ceiling: u8 = 0;
        let mut i: usize = 0;
        while i < self.held.len()
            invariant
                self.wf(),
                i <= self.held.len(),
                ceiling == held_ceiling(self.priorities@, self.masks@, self.held@, i as int),
            decreases self.held.len() - i,
        {
            proof {
                lemma_wf_bounds(self@);
            }
            let resource: usize = self.held[i].resource;
            assert(self@.held[i as int].resource < self@.resources);
            let c: u8 = self.ceilings[resource];
            if c > ceiling {
                ceiling = c;
            }
            i += 1;
        }
        if ceiling > priority {
            ceiling
        } else {
            priority
        }
    }

    /// The requested task that comes first, if any task is requested.
    fn first_requested(&self) -> (task: Option<usize>)
        requires
            self.wf(),
        ensures
            task == first_pending(
                self.priorities@,
                self.pending@,
                self.priorities@.len() as int,
            ),
            task matches Some(t) ==> t < self.priorities@.len(),
    {
        proof {
            lemma_wf_bounds(self@);
        }
        let mut best: Option<usize> = None;
        let mut k: usize = 0;
        while k < self.priorities.len()
            invariant
                self.wf(),
                k <= self.priorities.len(),
                best == first_pending(self.priorities@, self.pending@, k as int),
                best matches Some(t) ==> t < k,
            decreases self.priorities.len() - k,
        {
            proof {
                lemma_wf_bounds(self@);
            }
            if self.pending[k] {
                best =
                match best {
                    Some(t) => if self.priorities[t] >= self.priorities[k] {
                        Some(t)
                    } else {
                        Some(k)
                    },
                    None => Some(k),
                };
            }
            k += 1;
        }
        best
    }

    /// Requests a task: an interrupt has fired, or a task was spawned.  A
    /// task that is already requested can take no further request.
    pub fn request(&mut self, task: usize) -> (result: Result<(), SchedError>)
        requires
            old(self).wf(),
        ensures
            final(self).wf(),
            match old(self)@.request_refusal(task) {
                Some(e) => result == Err::<(), SchedError>(e) && final(self)@ == old(self)@,
                None => result is Ok && final(self)@ == old(self)@.requested(task),
            },
    {
        proof {
            lemma_wf_bounds(self@);
        }
        if task >= self.priorities.len() {
            return Err(SchedError::UnknownTask);
        }
        if self.pending[task] {
            return Err(SchedError::CapacityExhausted);
        }
        proof {
            lemma_requested_keeps_wf(self@, task);
        }
        self.pending.set(task, true);
        Ok(())
    }

    /// Withdraws the request for a task and tells whether there was one.
    /// The running task must be inside `guard`, the resource through which
    /// the source of the request is reached, and the task must have
    /// declared that resource.  Only a request is withdrawn: a task that has
    /// started is not touched and runs to its end.
    pub fn withdraw(&mut self, task: usize, guard: usize) -> (result: Result<bool, SchedError>)
        requires
            old(self).wf(),
        ensures
            final(self).wf(),
            match old(self)@.withdraw_refusal(task, guard) {
                Some(e) => result == Err::<bool, SchedError>(e) && final(self)@ == old(self)@,
                None => {
                    &&& result == Ok::<bool, SchedError>(old(self)@.pending[task as int])
                    &&& final(self)@ == old(self)@.withdrawn(task)
                },
            },
    {
        proof {
            lemma_wf_bounds(self@);
        }
        if task >= self.priorities.len() {
            return Err(SchedError::UnknownTask);
        }
        if guard >= self.resources {
            return Err(SchedError::UnknownResource);
        }
        if !declares_resource(self.masks[task], guard) {
            return Err(SchedError::NotDeclared);
        }
        if !self.running_holds(guard) {
            return Err(SchedError::NotInside);
        }
        proof {
            lemma_withdrawn_keeps_wf(self@, task);
        }
        let was: bool = self.pending[task];
        self.pending.set(task, false);
        Ok(was)
    }

    /// Tells which task would start now, if any.
    pub fn next_task(&self) -> (task: Option<usize>)
        requires
            self.wf(),
        ensures
            task == self@.next_task(),
    {
        proof {
            lemma_wf_bounds(self@);
        }
        match self.first_requested() {
            Some(t) => if self.priorities[t] > self.current_priority() {
                Some(t)
            } else {
                None
            },
            None => None,
        }
    }

    /// Starts the task that comes next, if one may start.  The task that
    /// starts preempts the running one and has declared none of the held
    /// resources.
    pub fn dispatch(&mut self) -> (started: Option<usize>)
        requires
            old(self).wf(),
        ensures
            final(self).wf(),
            started == old(self)@.next_task(),
            match started {
                Some(t) => {
                    &&& final(self)@ == old(self)@.started(t)
                    &&& t < old(self)@.priorities.len()
                    &&& old(self)@.priorities[t as int] > old(self)@.current_priority()
                    &&& forall|i: int|
                        0 <= i < old(self)@.held.len() ==> !declares(
                            old(self)@.masks[t as int],
                            (#[trigger] old(self)@.held[i]).resource,
                        )
                },
                None => final(self)@ == old(self)@,
            },
    {
        proof {
            lemma_wf_bounds(self@);
        }
        match self.next_task() {
            Some(t) => {
                proof {
                    lemma_started_keeps_wf(self@, t);
                    lemma_first_pending(
                        self@.priorities,
                        self@.pending,
                        self@.priorities.len() as int,
                    );
                }
                self.pending.set(t, false);
                self.running.push(t);
                Some(t)
            },
            None => None,
        }
    }

    /// Lets the running task enter a resource.  A resource that the task
    /// has declared is never found taken by another task, so the task is
    /// never made to wait.
    pub fn lock(&mut self, resource: usize) -> (result: Result<(), SchedError>)
        requires
            old(self).wf(),
        ensures
            final(self).wf(),
            match old(self)@.lock_refusal(resource) {
                Some(e) => result == Err::<(), SchedError>(e) && final(self)@ == old(self)@,
                None => {
                    &&& result is Ok
                    &&& final(self)@ == old(self)@.entered(resource)
                    &&& final(self)@.current_priority() >= old(self)@.ceiling(resource)
                },
            },
    {
        proof {
            lemma_wf_bounds(self@);
        }
        if resource >= self.resources {
            return Err(SchedError::UnknownResource);
        }
        if self.running.len() == 0 {
            return Err(SchedError::Idle);
        }
        let depth: usize = self.running.len() - 1;
        let top: usize = self.running[depth];
        assert(self@.running[depth as int] < self@.priorities.len());
        if !declares_resource(self.masks[top], resource) {
            return Err(SchedError::NotDeclared);
        }
        if self.is_held(resource) {
            return Err(SchedError::AlreadyHeld);
        }
        proof {
            lemma_entered_keeps_wf(self@, resource);
        }
        self.held.push(HeldLock { resource, depth });
        Ok(())
    }

    /// Leaves the resources that the running task has entered since the
    /// book was `before`.
    fn release_since(&mut self, Ghost(before): Ghost<SchedModel>, base: usize)
        requires
            old(self).wf(),
            base == before.held.len(),
            entered_since(before, old(self)@),
        ensures
            final(self).wf(),
            final(self)@ == before,
    {
        while self.held.len() > base
            invariant
                self.wf(),
                base == before.held.len(),
                entered_since(before, self@),
            decreases self.held.len(),
        {
            let ghost inner = self@;
            proof {
                assert(inner.held.last() == inner.held[inner.held.len() - 1]);
                assert(inner.unlock_refusal() is None);
            }
            let _ = self.unlock();
            proof {
                assert(self@.held.take(base as int) =~= inner.held.take(base as int));
            }
        }
        proof {
            assert(self@.held =~= self@.held.take(base as int));
        }
    }

    /// Enters the resource at position `i` of a list whose earlier
    /// resources have been entered since the book was `before`.
    fn lock_next(&mut self, Ghost(before): Ghost<SchedModel>, resources: &[usize], i: usize) -> (result:
        Result<(), SchedError>)
        requires
            old(self).wf(),
            i < resources@.len(),
            entered_since(before, old(self)@),
            enter_all(before, resources@.take(i as int)) == Ok::<SchedModel, SchedError>(
                old(self)@,
            ),
        ensures
            final(self).wf(),
            entered_since(before, final(self)@),
            match result {
                Ok(()) => enter_all(before, resources@.take(i + 1)) == Ok::<
                    SchedModel,
                    SchedError,
                >(final(self)@),
                Err(e) => enter_all(before, resources@) == Err::<SchedModel, SchedError>(e),
            },
    {
        proof {
            lemma_enter_all_next(before, self@, resources@, i as int);
        }
        self.lock(resources[i])
    }

    /// Lets the running task enter several resources at once: either all of
    /// them are entered, or, where one is refused, none is.
    pub fn lock_all(&mut self, resources: &[usize]) -> (result: Result<(), SchedError>)
        requires
            old(self).wf(),
        ensures
            final(self).wf(),
            match enter_all(old(self)@, resources@) {
                Ok(m) => result is Ok && final(self)@ == m,
                Err(e) => result == Err::<(), SchedError>(e) && final(self)@ == old(self)@,
            },
    {
        let ghost before = self@;
        let base: usize = self.held.len();
        let mut i: usize = 0;
        proof {
            lemma_enter_none(before);
            assert(resources@.take(0) =~= Seq::<usize>::empty());
            assert(before.held.take(base as int) =~= before.held);
        }
        while i < resources.len()
            invariant
                self.wf(),
                i <= resources.len(),
                before == old(self)@,
                base == before.held.len(),
                entered_since(before, self@),
                enter_all(before, resources@.take(i as int)) == Ok::<SchedModel, SchedError>(
                    self@,
                ),
            decreases resources.len() - i,
        {
            match self.lock_next(Ghost(before), resources, i) {
                Ok(()) => {},
                Err(e) => {
                    self.release_since(Ghost(before), base);
                    return Err(e);
                },
            }
            i += 1;
        }
        proof {
            assert(resources@.take(i as int) =~= resources@);
        }
        Ok(())
    }

    /// Lets the running task leave the resource that it entered last, and
    /// tells which one that was.
    pub fn unlock(&mut self) -> (result: Result<usize, SchedError>)
        requires
            old(self).wf(),
        ensures
            final(self).wf(),
            match old(self)@.unlock_refusal() {
                Some(e) => result == Err::<usize, SchedError>(e) && final(self)@ == old(self)@,
                None => {
                    &&& result == Ok::<usize, SchedError>(old(self)@.held.last().resource)
                    &&& final(self)@ == old(self)@.left()
                },
            },
    {
        proof {
            lemma_wf_bounds(self@);
        }
        if self.running.len() == 0 {
            return Err(SchedError::Idle);
        }
        if self.held.len() == 0 || self.held[self.held.len() - 1].depth + 1 != self.running.len() {
            return Err(SchedError::NothingHeld);
        }
        let ghost before = self@;
        proof {
            lemma_left_keeps_wf(before);
        }
        let resource: usize = self.held[self.held.len() - 1].resource;
        self.held.pop();
        proof {
            assert(self@.held =~= before.held.drop_last());
            assert(self@ == before.left());
        }
        Ok(resource)
    }

    /// Ends the running task and tells which one it was.  This is also how
    /// a periodic task gives up the processor until its next request.  A
    /// task that is still inside a resource can do neither.
    pub fn finish(&mut self) -> (result: Result<usize, SchedError>)
        requires
            old(self).wf(),
        ensures
            final(self).wf(),
            match old(self)@.finish_refusal() {
                Some(e) => result == Err::<usize, SchedError>(e) && final(self)@ == old(self)@,
                None => {
                    &&& result == Ok::<usize, SchedError>(old(self)@.running.last())
                    &&& final(self)@ == old(self)@.finished()
                },
            },
    {
        proof {
            lemma_wf_bounds(self@);
        }
        if self.running.len() == 0 {
            return Err(SchedError::Idle);
        }
        if self.held.len() > 0 && self.held[self.held.len() - 1].depth + 1 == self.running.len() {
            return Err(SchedError::HoldsLock);
        }
        proof {
            lemma_finished_keeps_wf(self@);
        }
        let task: usize = self.running[self.running.len() - 1];
        self.running.pop();
        Ok(task)
    }
}

} // verus!
