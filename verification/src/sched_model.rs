//! The book of the scheduling core as mathematics sees it, and what holds
//! of it.
//!
//! Every task has a fixed priority and a declared set of resources that it
//! may touch.  The ceiling of a resource is the highest priority among the
//! tasks that declare it.  A task that enters a resource runs at least at
//! that ceiling until it leaves, so no task that could touch the resource
//! can start in between.  Tasks start only by preempting: a requested task
//! starts when its priority is above the priority at which the processor
//! currently runs.

use vstd::prelude::*;

verus! {

/// Largest number of resources that a task table can name.
pub const MAX_RESOURCES: usize = 32;

/// A held resource and the position, in the stack of started tasks, of the
/// task that holds it.
#[derive(Clone, Copy, Debug, PartialEq, Eq, Structural)]
pub struct HeldLock {
    pub resource: usize,
    pub depth: usize,
}

/// Why the core refuses an operation.
#[derive(Clone, Copy, Debug, PartialEq, Eq, Structural)]
pub enum SchedError {
    /// There is no task of that number.
    UnknownTask,
    /// There is no resource of that number.
    UnknownResource,
    /// The task is already requested and can take no further request.
    CapacityExhausted,
    /// No task is running.
    Idle,
    /// The running task has not declared the resource.
    NotDeclared,
    /// The running task is already inside the resource.
    AlreadyHeld,
    /// The running task is inside no resource.
    NothingHeld,
    /// The running task is still inside a resource.
    HoldsLock,
    /// The running task is not inside the resource that guards the item.
    NotInside,
}

/// The book of the scheduling core as mathematics sees it.
pub struct SchedModel {
    /// Priority of each task; higher numbers preempt lower ones.
    pub priorities: Seq<u8>,
    /// For each task the set of resources it declares, one bit each.
    pub masks: Seq<u32>,
    /// Number of resources.
    pub resources: nat,
    /// For each task, whether it is requested and has not started.
    pub pending: Seq<bool>,
    /// The started tasks, each above the one it preempted; the last runs.
    pub running: Seq<usize>,
    /// The held resources, in the order in which they were entered.
    pub held: Seq<HeldLock>,
}

/// Whether a set of resources holds a resource.
pub open spec fn declares(mask: u32, resource: usize) -> bool {
    resource < 32 && (mask >> resource) & 1 == 1
}

/// The larger of two numbers.
pub open spec fn max_of(a: int, b: int) -> int {
    if a >= b {
        a
    } else {
        b
    }
}

/// The highest priority among the first `count` tasks that declare a
/// resource; zero where none does.
pub open spec fn ceiling_among(
    priorities: Seq<u8>,
    masks: Seq<u32>,
    resource: usize,
    count: int,
) -> int
    decreases count,
{
    if count <= 0 {
        0
    } else {
        max_of(
            ceiling_among(priorities, masks, resource, count - 1),
            if declares(masks[count - 1], resource) {
                priorities[count - 1] as int
            } else {
                0
            },
        )
    }
}

/// The highest ceiling among the first `count` held resources; zero where
/// none is held.
pub open spec fn held_ceiling(
    priorities: Seq<u8>,
    masks: Seq<u32>,
    held: Seq<HeldLock>,
    count: int,
) -> int
    decreases count,
{
    if count <= 0 {
        0
    } else {
        max_of(
            held_ceiling(priorities, masks, held, count - 1),
            ceiling_among(priorities, masks, held[count - 1].resource, priorities.len() as int),
        )
    }
}

/// The requested task that comes first among the first `count` tasks: the
/// one of the highest priority, and of those the one of the lowest number.
pub open spec fn first_pending(priorities: Seq<u8>, pending: Seq<bool>, count: int) -> Option<
    usize,
>
    decreases count,
{
    if count <= 0 {
        None
    } else {
        let before = first_pending(priorities, pending, count - 1);
        if !pending[count - 1] {
            before
        } else {
            match before {
                Some(t) if priorities[t as int] >= priorities[count - 1] => before,
                _ => Some((count - 1) as usize),
            }
        }
    }
}

impl SchedModel {
    /// The ceiling of a resource: the highest priority among the tasks that
    /// declare it.
    pub open spec fn ceiling(self, resource: usize) -> int {
        ceiling_among(self.priorities, self.masks, resource, self.priorities.len() as int)
    }

    /// The task that runs, if any.
    pub open spec fn running_task(self) -> Option<usize> {
        if self.running.len() > 0 {
            Some(self.running.last())
        } else {
            None
        }
    }

    /// The priority at which the processor runs: that of the running task,
    /// raised to the ceiling of every held resource; zero when idle.
    pub open spec fn current_priority(self) -> int {
        max_of(
            match self.running_task() {
                Some(t) => self.priorities[t as int] as int,
                None => 0,
            },
            held_ceiling(self.priorities, self.masks, self.held, self.held.len() as int),
        )
    }

    /// Whether a resource is held.
    pub open spec fn is_held(self, resource: usize) -> bool {
        exists|i: int| 0 <= i < self.held.len() && (#[trigger] self.held[i]).resource == resource
    }

    /// The task that starts next: the first of the requested tasks, if its
    /// priority is above the one at which the processor runs.
    pub open spec fn next_task(self) -> Option<usize> {
        match first_pending(self.priorities, self.pending, self.priorities.len() as int) {
            Some(t) if self.priorities[t as int] > self.current_priority() => Some(t),
            _ => None,
        }
    }

    /// Whether the running task is inside a given resource.
    pub open spec fn running_holds(self, resource: usize) -> bool {
        exists|i: int|
            0 <= i < self.held.len() && (#[trigger] self.held[i]).resource == resource
                && self.held[i].depth + 1 == self.running.len()
    }

    /// Whether the running task is inside a resource.
    pub open spec fn holds_own(self) -> bool {
        self.held.len() > 0 && self.held.last().depth + 1 == self.running.len()
    }

    /// The book after a task was requested.
    pub open spec fn requested(self, task: usize) -> SchedModel {
        SchedModel { pending: self.pending.update(task as int, true), ..self }
    }

    /// The book after a requested task started.
    pub open spec fn started(self, task: usize) -> SchedModel {
        SchedModel {
            pending: self.pending.update(task as int, false),
            running: self.running.push(task),
            ..self
        }
    }

    /// The book after the running task entered a resource.
    pub open spec fn entered(self, resource: usize) -> SchedModel {
        SchedModel {
            held: self.held.push(
                HeldLock { resource, depth: (self.running.len() - 1) as usize },
            ),
            ..self
        }
    }

    /// The book after the running task left the resource it entered last.
    pub open spec fn left(self) -> SchedModel {
        SchedModel { held: self.held.drop_last(), ..self }
    }

    /// The book after the running task ended.
    pub open spec fn finished(self) -> SchedModel {
        SchedModel { running: self.running.drop_last(), ..self }
    }

    /// Why a request for a task is refused, if it is.
    pub open spec fn request_refusal(self, task: usize) -> Option<SchedError> {
        if task >= self.priorities.len() {
            Some(SchedError::UnknownTask)
        } else if self.pending[task as int] {
            Some(SchedError::CapacityExhausted)
        } else {
            None
        }
    }

    /// The book after the request for a task was withdrawn.
    pub open spec fn withdrawn(self, task: usize) -> SchedModel {
        SchedModel { pending: self.pending.update(task as int, false), ..self }
    }

    /// Why the request for a task cannot be withdrawn, if it cannot.  The
    /// request is withdrawn by stopping the source that raises it, and the
    /// source is reached from inside the resource `guard` that the task
    /// shares with the running one.
    pub open spec fn withdraw_refusal(self, task: usize, guard: usize) -> Option<SchedError> {
        if task >= self.priorities.len() {
            Some(SchedError::UnknownTask)
        } else if guard >= self.resources {
            Some(SchedError::UnknownResource)
        } else if !declares(self.masks[task as int], guard) {
            Some(SchedError::NotDeclared)
        } else if !self.running_holds(guard) {
            Some(SchedError::NotInside)
        } else {
            None
        }
    }

    /// Why the running task may not enter a resource, if it may not.
    pub open spec fn lock_refusal(self, resource: usize) -> Option<SchedError> {
        if resource >= self.resources {
            Some(SchedError::UnknownResource)
        } else if self.running.len() == 0 {
            Some(SchedError::Idle)
        } else if !declares(self.masks[self.running.last() as int], resource) {
            Some(SchedError::NotDeclared)
        } else if self.is_held(resource) {
            Some(SchedError::AlreadyHeld)
        } else {
            None
        }
    }

    /// Why the running task cannot leave a resource, if it cannot.
    pub open spec fn unlock_refusal(self) -> Option<SchedError> {
        if self.running.len() == 0 {
            Some(SchedError::Idle)
        } else if !self.holds_own() {
            Some(SchedError::NothingHeld)
        } else {
            None
        }
    }

    /// Why the running task cannot end, if it cannot.
    pub open spec fn finish_refusal(self) -> Option<SchedError> {
        if self.running.len() == 0 {
            Some(SchedError::Idle)
        } else if self.holds_own() {
            Some(SchedError::HoldsLock)
        } else {
            None
        }
    }

    /// The task table is usable: as many sets as priorities, every priority
    /// above the idle level, no set naming a resource that does not exist.
    pub open spec fn table_wf(self) -> bool {
        &&& self.priorities.len() <= usize::MAX
        &&& self.masks.len() == self.priorities.len()
        &&& self.pending.len() == self.priorities.len()
        &&& self.resources <= MAX_RESOURCES
        &&& forall|t: int| 0 <= t < self.priorities.len() ==> #[trigger] self.priorities[t] > 0
        &&& forall|t: int, r: usize|
            0 <= t < self.masks.len() && #[trigger] declares(self.masks[t], r) ==> r
                < self.resources
    }

    /// What holds of every book that the core can reach.
    #[verifier::opaque]
    pub open spec fn wf(self) -> bool {
        &&& self.table_wf()
        &&& forall|j: int|
            0 <= j < self.running.len() ==> (#[trigger] self.running[j]) < self.priorities.len()
        &&& forall|i: int|
            0 <= i < self.held.len() ==> {
                let h = #[trigger] self.held[i];
                &&& h.resource < self.resources
                &&& h.depth < self.running.len()
                &&& declares(self.masks[self.running[h.depth as int] as int], h.resource)
            }
        &&& forall|i: int, k: int|
            0 <= i < k < self.held.len() ==> (#[trigger] self.held[i]).depth <= (
            #[trigger] self.held[k]).depth
        &&& forall|i: int, k: int|
            0 <= i < k < self.held.len() ==> (#[trigger] self.held[i]).resource != (
            #[trigger] self.held[k]).resource
        &&& forall|j: int|
            0 < j < self.running.len() ==> self.priorities[self.running[j - 1] as int]
                < self.priorities[(#[trigger] self.running[j]) as int]
        &&& forall|i: int, j: int|
            0 <= i < self.held.len() && 0 <= j < self.running.len() && (
            #[trigger] self.held[i]).depth < j ==> self.ceiling(self.held[i].resource)
                < self.priorities[(#[trigger] self.running[j]) as int]
    }
}

/// A task table is usable: as many sets as priorities, at most
/// [`MAX_RESOURCES`] resources, every priority above the idle level, and no
/// set naming a resource that does not exist.
pub open spec fn table_valid(priorities: Seq<u8>, masks: Seq<u32>, resources: usize) -> bool {
    &&& priorities.len() <= usize::MAX
    &&& masks.len() == priorities.len()
    &&& resources <= MAX_RESOURCES
    &&& forall|t: int| 0 <= t < priorities.len() ==> #[trigger] priorities[t] > 0
    &&& forall|t: int, r: usize|
        0 <= t < masks.len() && #[trigger] declares(masks[t], r) ==> r < resources
}

/// The book after the running task entered several resources at once, or
/// the refusal of the first of them that it may not enter.
#[verifier::opaque]
pub open spec fn enter_all(m: SchedModel, resources: Seq<usize>) -> Result<SchedModel, SchedError>
    decreases resources.len(),
{
    if resources.len() == 0 {
        Ok(m)
    } else {
        match enter_all(m, resources.drop_last()) {
            Err(e) => Err(e),
            Ok(n) => match n.lock_refusal(resources.last()) {
                Some(e) => Err(e),
                None => Ok(n.entered(resources.last())),
            },
        }
    }
}

/// The book `here` is the book `before` with further resources entered by
/// the running task, and nothing else changed.
pub open spec fn entered_since(before: SchedModel, here: SchedModel) -> bool {
    &&& here.priorities == before.priorities
    &&& here.masks == before.masks
    &&& here.resources == before.resources
    &&& here.pending == before.pending
    &&& here.running == before.running
    &&& here.held.len() >= before.held.len()
    &&& here.held.take(before.held.len() as int) == before.held
    &&& forall|k: int|
        before.held.len() <= k < here.held.len() ==> (#[trigger] here.held[k]).depth + 1
            == here.running.len()
}

/// Entering one more resource of a list carries on what entering the
/// resources before it has reached.
pub proof fn lemma_enter_all_next(
    before: SchedModel,
    here: SchedModel,
    resources: Seq<usize>,
    i: int,
)
    requires
        0 <= i < resources.len(),
        here.wf(),
        entered_since(before, here),
        enter_all(before, resources.take(i)) == Ok::<SchedModel, SchedError>(here),
    ensures
        match here.lock_refusal(resources[i]) {
            Some(e) => enter_all(before, resources) == Err::<SchedModel, SchedError>(e),
            None => {
                &&& enter_all(before, resources.take(i + 1)) == Ok::<SchedModel, SchedError>(
                    here.entered(resources[i]),
                )
                &&& entered_since(before, here.entered(resources[i]))
            },
        },
{
    reveal(SchedModel::wf);
    reveal_with_fuel(enter_all, 2);
    assert(resources.take(i + 1).drop_last() =~= resources.take(i));
    assert(resources.take(i + 1).last() == resources[i]);
    match here.lock_refusal(resources[i]) {
        Some(e) => {
            lemma_enter_all_refused_early(before, resources, i + 1);
        },
        None => {
            let next = here.entered(resources[i]);
            lemma_running_is_short(here);
            assert(next.held.take(before.held.len() as int) =~= here.held.take(
                before.held.len() as int,
            ));
            assert forall|k: int| before.held.len() <= k < next.held.len() implies (
            #[trigger] next.held[k]).depth + 1 == next.running.len() by {
                if k < here.held.len() {
                    assert(next.held[k] == here.held[k]);
                }
            }
        },
    }
}

/// Entering no resource leaves the book as it is.
pub proof fn lemma_enter_none(m: SchedModel)
    ensures
        enter_all(m, Seq::<usize>::empty()) == Ok::<SchedModel, SchedError>(m),
{
    reveal_with_fuel(enter_all, 1);
}

/// A refusal within the beginning of a list of resources is the refusal of
/// the whole list.
pub proof fn lemma_enter_all_refused_early(m: SchedModel, resources: Seq<usize>, k: int)
    requires
        0 <= k <= resources.len(),
        enter_all(m, resources.take(k)) is Err,
    ensures
        enter_all(m, resources) == enter_all(m, resources.take(k)),
    decreases resources.len() - k,
{
    reveal_with_fuel(enter_all, 2);
    if k == resources.len() {
        assert(resources.take(k) =~= resources);
    } else {
        assert(resources.take(k + 1).drop_last() =~= resources.take(k));
        lemma_enter_all_refused_early(m, resources, k + 1);
    }
}

/// The ceiling of a resource is at least the priority of every task that
/// declares it.
pub proof fn lemma_ceiling_covers(
    priorities: Seq<u8>,
    masks: Seq<u32>,
    resource: usize,
    count: int,
    task: int,
)
    requires
        0 <= task < count <= priorities.len(),
        masks.len() == priorities.len(),
        declares(masks[task], resource),
    ensures
        ceiling_among(priorities, masks, resource, count) >= priorities[task],
    decreases count,
{
    if task < count - 1 {
        lemma_ceiling_covers(priorities, masks, resource, count - 1, task);
    }
}

/// The ceiling of a resource is the priority of a task that declares it;
/// it is zero only where no task with a priority above zero declares the
/// resource.
pub proof fn lemma_ceiling_is_attained(
    priorities: Seq<u8>,
    masks: Seq<u32>,
    resource: usize,
    count: int,
)
    requires
        0 <= count <= priorities.len(),
        masks.len() == priorities.len(),
    ensures
        ceiling_among(priorities, masks, resource, count) == 0 || exists|t: int|
            0 <= t < count && declares(#[trigger] masks[t], resource) && priorities[t]
                == ceiling_among(priorities, masks, resource, count),
    decreases count,
{
    if count > 0 {
        lemma_ceiling_is_attained(priorities, masks, resource, count - 1);
        let before = ceiling_among(priorities, masks, resource, count - 1);
        let all = ceiling_among(priorities, masks, resource, count);
        if all != 0 {
            if all == before {
                let t = choose|t: int|
                    0 <= t < count - 1 && declares(#[trigger] masks[t], resource) && priorities[t]
                        == before;
                assert(0 <= t < count && declares(masks[t], resource) && priorities[t] == all);
            } else {
                assert(declares(masks[count - 1], resource) && priorities[count - 1] == all);
            }
        }
    }
}

/// The highest held ceiling covers the ceiling of every held resource.
pub proof fn lemma_held_ceiling_covers(m: SchedModel, count: int, i: int)
    requires
        0 <= i < count <= m.held.len(),
    ensures
        held_ceiling(m.priorities, m.masks, m.held, count) >= m.ceiling(m.held[i].resource),
    decreases count,
{
    if i < count - 1 {
        lemma_held_ceiling_covers(m, count - 1, i);
    }
}

/// The first requested task, where there is one, is a requested task of
/// the table; no requested task has a higher priority, and every requested
/// task of a lower number has a lower one.
pub proof fn lemma_first_pending(priorities: Seq<u8>, pending: Seq<bool>, count: int)
    requires
        0 <= count <= priorities.len() <= usize::MAX,
        pending.len() == priorities.len(),
    ensures
        match first_pending(priorities, pending, count) {
            Some(t) => {
                &&& t < count
                &&& pending[t as int]
                &&& forall|u: int|
                    0 <= u < count && #[trigger] pending[u] ==> priorities[u] <= priorities[t as int]
                &&& forall|u: int|
                    0 <= u < t && #[trigger] pending[u] ==> priorities[u] < priorities[t as int]
            },
            None => forall|u: int| 0 <= u < count ==> !#[trigger] pending[u],
        },
    decreases count,
{
    if count > 0 {
        lemma_first_pending(priorities, pending, count - 1);
    }
}

/// Exclusion.  In every book that the core can reach, a task that started
/// after a resource was entered has not declared that resource: whoever
/// preempts the holder cannot touch what the holder is working on.
pub proof fn lemma_preemptor_cannot_touch_held(m: SchedModel, i: int, j: int)
    requires
        m.wf(),
        0 <= i < m.held.len(),
        0 <= j < m.running.len(),
        m.held[i].depth < j,
    ensures
        !declares(m.masks[m.running[j] as int], m.held[i].resource),
{
    reveal(SchedModel::wf);
    let task = m.running[j] as int;
    let resource = m.held[i].resource;
    if declares(m.masks[task], resource) {
        lemma_ceiling_covers(m.priorities, m.masks, resource, m.priorities.len() as int, task);
    }
}

/// No waiting.  In every book that the core can reach, a resource that the
/// running task has declared is held by the running task itself or by
/// nobody: the running task never finds it taken by another.
pub proof fn lemma_declared_resource_is_free_or_own(m: SchedModel, i: int)
    requires
        m.wf(),
        0 <= i < m.held.len(),
        m.running.len() > 0,
        declares(m.masks[m.running.last() as int], m.held[i].resource),
    ensures
        m.held[i].depth == m.running.len() - 1,
{
    reveal(SchedModel::wf);
    if m.held[i].depth < m.running.len() - 1 {
        lemma_preemptor_cannot_touch_held(m, i, m.running.len() - 1);
    }
}

/// No inversion.  In every book that the core can reach, the processor runs
/// at a priority that is at least that of every started task: a started
/// task is kept waiting only by tasks that rank above it or by holders of
/// resources whose ceiling ranks above it.
pub proof fn lemma_started_tasks_rank_in_order(m: SchedModel, a: int, b: int)
    requires
        m.wf(),
        0 <= a < b < m.running.len(),
    ensures
        m.priorities[m.running[a] as int] < m.priorities[m.running[b] as int],
    decreases b - a,
{
    reveal(SchedModel::wf);
    if a + 1 < b {
        lemma_started_tasks_rank_in_order(m, a, b - 1);
    }
}

/// A request that is not refused leaves a book that the core can reach.
pub proof fn lemma_requested_keeps_wf(m: SchedModel, task: usize)
    requires
        m.wf(),
        m.request_refusal(task) is None,
    ensures
        m.requested(task).wf(),
{
    reveal(SchedModel::wf);
    let n = m.requested(task);
    assert forall|i: int, j: int|
        0 <= i < n.held.len() && 0 <= j < n.running.len() && (#[trigger] n.held[i]).depth
            < j implies n.ceiling(n.held[i].resource) < n.priorities[(
    #[trigger] n.running[j]) as int] by {
        assert(m.ceiling(m.held[i].resource) < m.priorities[m.running[j] as int]);
    }
}

/// Withdrawing a request leaves a book that the core can reach.
pub proof fn lemma_withdrawn_keeps_wf(m: SchedModel, task: usize)
    requires
        m.wf(),
        task < m.priorities.len(),
    ensures
        m.withdrawn(task).wf(),
{
    reveal(SchedModel::wf);
    let n = m.withdrawn(task);
    assert forall|i: int, j: int|
        0 <= i < n.held.len() && 0 <= j < n.running.len() && (#[trigger] n.held[i]).depth
            < j implies n.ceiling(n.held[i].resource) < n.priorities[(
    #[trigger] n.running[j]) as int] by {
        assert(m.ceiling(m.held[i].resource) < m.priorities[m.running[j] as int]);
    }
}

/// Preemption.  The task that starts next ranks above the priority at
/// which the processor ran, so above the task it preempts and above the
/// ceiling of every held resource.  It has therefore declared none of the
/// held resources: it cannot see a shared record that a preempted task has
/// only half brought up to date.  The book after the start is one that the
/// core can reach.
pub proof fn lemma_started_keeps_wf(m: SchedModel, task: usize)
    requires
        m.wf(),
        m.next_task() == Some(task),
    ensures
        m.started(task).wf(),
        m.priorities[task as int] > m.current_priority(),
        m.running.len() > 0 ==> m.priorities[task as int] > m.priorities[m.running.last() as int],
        forall|i: int|
            0 <= i < m.held.len() ==> !declares(
                m.masks[task as int],
                (#[trigger] m.held[i]).resource,
            ),
{
    reveal(SchedModel::wf);
    let n = m.started(task);
    lemma_first_pending(m.priorities, m.pending, m.priorities.len() as int);
    assert forall|i: int| 0 <= i < m.held.len() implies m.ceiling((#[trigger] m.held[i]).resource)
        < m.priorities[task as int] by {
        lemma_held_ceiling_covers(m, m.held.len() as int, i);
    }
    assert forall|i: int| 0 <= i < m.held.len() implies !declares(
        m.masks[task as int],
        (#[trigger] m.held[i]).resource,
    ) by {
        if declares(m.masks[task as int], m.held[i].resource) {
            lemma_ceiling_covers(
                m.priorities,
                m.masks,
                m.held[i].resource,
                m.priorities.len() as int,
                task as int,
            );
        }
    }
    assert forall|j: int| 0 <= j < n.running.len() implies (#[trigger] n.running[j])
        < n.priorities.len() by {
        if j < m.running.len() {
            assert(n.running[j] == m.running[j]);
        }
    }
    assert forall|i: int| 0 <= i < n.held.len() implies {
        let h = #[trigger] n.held[i];
        &&& h.resource < n.resources
        &&& h.depth < n.running.len()
        &&& declares(n.masks[n.running[h.depth as int] as int], h.resource)
    } by {
        let h = m.held[i];
        assert(n.running[h.depth as int] == m.running[h.depth as int]);
    }
    assert forall|j: int| 0 < j < n.running.len() implies n.priorities[n.running[j - 1] as int]
        < n.priorities[(#[trigger] n.running[j]) as int] by {
        if j < m.running.len() {
            assert(n.running[j] == m.running[j]);
            assert(n.running[j - 1] == m.running[j - 1]);
        } else {
            assert(n.running[j - 1] == m.running.last());
        }
    }
    assert forall|i: int, j: int|
        0 <= i < n.held.len() && 0 <= j < n.running.len() && (#[trigger] n.held[i]).depth
            < j implies n.ceiling(n.held[i].resource) < n.priorities[(
    #[trigger] n.running[j]) as int] by {
        if j < m.running.len() {
            assert(n.running[j] == m.running[j]);
            assert(m.ceiling(m.held[i].resource) < m.priorities[m.running[j] as int]);
        } else {
            assert(m.ceiling(m.held[i].resource) < m.priorities[task as int]);
        }
    }
}

/// Guarded access.  While a resource is held, no task that has declared it
/// can start: whatever fires in the middle of an update, the tasks that
/// could read or write the item under update stay out until the holder has
/// left.
pub proof fn lemma_contender_cannot_start(m: SchedModel, resource: usize, task: usize)
    requires
        m.wf(),
        m.is_held(resource),
        task < m.priorities.len(),
        declares(m.masks[task as int], resource),
    ensures
        m.next_task() != Some(task),
{
    if m.next_task() == Some(task) {
        lemma_started_keeps_wf(m, task);
        let i = choose|i: int| 0 <= i < m.held.len() && (#[trigger] m.held[i]).resource == resource;
        assert(!declares(m.masks[task as int], m.held[i].resource));
    }
}

/// Entering a resource that is not refused leaves a book that the core can
/// reach, and raises the priority of the processor to the ceiling of the
/// resource at least.
pub proof fn lemma_entered_keeps_wf(m: SchedModel, resource: usize)
    requires
        m.wf(),
        m.lock_refusal(resource) is None,
    ensures
        m.entered(resource).wf(),
        m.entered(resource).current_priority() >= m.ceiling(resource),
        m.entered(resource).current_priority() >= m.current_priority(),
{
    reveal(SchedModel::wf);
    let n = m.entered(resource);
    let top = (m.running.len() - 1) as usize;
    lemma_running_is_short(m);
    assert(n.held.last() == HeldLock { resource, depth: top });
    assert forall|i: int| 0 <= i < n.held.len() implies {
        let h = #[trigger] n.held[i];
        &&& h.resource < n.resources
        &&& h.depth < n.running.len()
        &&& declares(n.masks[n.running[h.depth as int] as int], h.resource)
    } by {
        if i < m.held.len() {
            assert(n.held[i] == m.held[i]);
        }
    }
    assert forall|i: int, k: int| 0 <= i < k < n.held.len() implies (#[trigger] n.held[i]).depth
        <= (#[trigger] n.held[k]).depth by {
        assert(n.held[i] == m.held[i]);
        if k < m.held.len() {
            assert(n.held[k] == m.held[k]);
        }
    }
    assert forall|i: int, k: int| 0 <= i < k < n.held.len() implies (
    #[trigger] n.held[i]).resource != (#[trigger] n.held[k]).resource by {
        assert(n.held[i] == m.held[i]);
        if k < m.held.len() {
            assert(n.held[k] == m.held[k]);
        }
    }
    assert forall|i: int, j: int|
        0 <= i < n.held.len() && 0 <= j < n.running.len() && (#[trigger] n.held[i]).depth
            < j implies n.ceiling(n.held[i].resource) < n.priorities[(
    #[trigger] n.running[j]) as int] by {
        if i < m.held.len() {
            assert(n.held[i] == m.held[i]);
            assert(m.ceiling(m.held[i].resource) < m.priorities[m.running[j] as int]);
        }
    }
    lemma_held_ceiling_prefix(m.priorities, m.masks, m.held, n.held, m.held.len() as int);
}

/// The stack of started tasks is shorter than the range of priorities.
pub proof fn lemma_running_is_short(m: SchedModel)
    requires
        m.wf(),
    ensures
        m.running.len() <= 255,
{
    reveal(SchedModel::wf);
    if m.running.len() > 0 {
        lemma_running_rank_grows(m, m.running.len() - 1);
    }
}

/// The task at a position of the stack ranks above the position.
pub proof fn lemma_running_rank_grows(m: SchedModel, j: int)
    requires
        m.wf(),
        0 <= j < m.running.len(),
    ensures
        m.priorities[m.running[j] as int] > j,
    decreases j,
{
    reveal(SchedModel::wf);
    if j > 0 {
        lemma_running_rank_grows(m, j - 1);
        assert(m.priorities[m.running[j - 1] as int] < m.priorities[m.running[j] as int]);
    } else {
        assert(m.priorities[m.running[0] as int] > 0);
    }
}

/// The highest ceiling among held resources depends only on the resources
/// counted.
pub proof fn lemma_held_ceiling_prefix(
    priorities: Seq<u8>,
    masks: Seq<u32>,
    a: Seq<HeldLock>,
    b: Seq<HeldLock>,
    count: int,
)
    requires
        count <= a.len(),
        count <= b.len(),
        forall|i: int| 0 <= i < count ==> a[i] == b[i],
    ensures
        held_ceiling(priorities, masks, a, count) == held_ceiling(priorities, masks, b, count),
    decreases count,
{
    if count > 0 {
        lemma_held_ceiling_prefix(priorities, masks, a, b, count - 1);
    }
}

/// Leaving the resource entered last leaves a book that the core can reach.
pub proof fn lemma_left_keeps_wf(m: SchedModel)
    requires
        m.wf(),
        m.unlock_refusal() is None,
    ensures
        m.left().wf(),
        m.left().current_priority() <= m.current_priority(),
{
    reveal(SchedModel::wf);
    let n = m.left();
    assert forall|i: int| 0 <= i < n.held.len() implies {
        let h = #[trigger] n.held[i];
        &&& h.resource < n.resources
        &&& h.depth < n.running.len()
        &&& declares(n.masks[n.running[h.depth as int] as int], h.resource)
    } by {
        assert(n.held[i] == m.held[i]);
    }
    assert forall|i: int, k: int| 0 <= i < k < n.held.len() implies (#[trigger] n.held[i]).depth
        <= (#[trigger] n.held[k]).depth by {
        assert(n.held[i] == m.held[i]);
        assert(n.held[k] == m.held[k]);
    }
    assert forall|i: int, k: int| 0 <= i < k < n.held.len() implies (
    #[trigger] n.held[i]).resource != (#[trigger] n.held[k]).resource by {
        assert(n.held[i] == m.held[i]);
        assert(n.held[k] == m.held[k]);
    }
    assert forall|i: int, j: int|
        0 <= i < n.held.len() && 0 <= j < n.running.len() && (#[trigger] n.held[i]).depth
            < j implies n.ceiling(n.held[i].resource) < n.priorities[(
    #[trigger] n.running[j]) as int] by {
        assert(n.held[i] == m.held[i]);
        assert(m.ceiling(m.held[i].resource) < m.priorities[m.running[j] as int]);
    }
    lemma_held_ceiling_prefix(m.priorities, m.masks, m.held, n.held, n.held.len() as int);
}

/// The end of a running task that is inside no resource leaves a book that
/// the core can reach.
pub proof fn lemma_finished_keeps_wf(m: SchedModel)
    requires
        m.wf(),
        m.finish_refusal() is None,
    ensures
        m.finished().wf(),
{
    reveal(SchedModel::wf);
    let n = m.finished();
    assert forall|i: int| 0 <= i < n.held.len() implies {
        let h = #[trigger] n.held[i];
        &&& h.resource < n.resources
        &&& h.depth < n.running.len()
        &&& declares(n.masks[n.running[h.depth as int] as int], h.resource)
    } by {
        let h = m.held[i];
        assert(m.held[i].depth <= m.held.last().depth);
        assert(n.running[h.depth as int] == m.running[h.depth as int]);
    }
    assert forall|j: int| 0 <= j < n.running.len() implies (#[trigger] n.running[j])
        < n.priorities.len() by {
        assert(n.running[j] == m.running[j]);
    }
    assert forall|j: int| 0 < j < n.running.len() implies n.priorities[n.running[j - 1] as int]
        < n.priorities[(#[trigger] n.running[j]) as int] by {
        assert(n.running[j] == m.running[j]);
        assert(n.running[j - 1] == m.running[j - 1]);
    }
    assert forall|i: int, j: int|
        0 <= i < n.held.len() && 0 <= j < n.running.len() && (#[trigger] n.held[i]).depth
            < j implies n.ceiling(n.held[i].resource) < n.priorities[(
    #[trigger] n.running[j]) as int] by {
        assert(n.running[j] == m.running[j]);
        assert(m.ceiling(m.held[i].resource) < m.priorities[m.running[j] as int]);
    }
}

/// The plain facts about a book that the core can reach: the task table
/// is usable, every started task is a task of the table, and every held
/// resource is a resource of the table held by a started task that has
/// declared it.
pub proof fn lemma_wf_bounds(m: SchedModel)
    requires
        m.wf(),
    ensures
        m.table_wf(),
        table_valid(m.priorities, m.masks, m.resources as usize),
        m.running.len() <= 255,
        forall|j: int| 0 <= j < m.running.len() ==> (#[trigger] m.running[j]) < m.priorities.len(),
        forall|i: int|
            0 <= i < m.held.len() ==> {
                let h = #[trigger] m.held[i];
                &&& h.resource < m.resources
                &&& h.depth < m.running.len()
                &&& declares(m.masks[m.running[h.depth as int] as int], h.resource)
            },
{
    reveal(SchedModel::wf);
    lemma_running_is_short(m);
}

/// A usable task table with nothing requested, started or held is a book
/// that the core can reach.
pub proof fn lemma_fresh_book_is_wf(m: SchedModel)
    requires
        table_valid(m.priorities, m.masks, m.resources as usize),
        m.resources <= MAX_RESOURCES,
        m.pending.len() == m.priorities.len(),
        m.running.len() == 0,
        m.held.len() == 0,
    ensures
        m.wf(),
{
    reveal(SchedModel::wf);
}

} // verus!
