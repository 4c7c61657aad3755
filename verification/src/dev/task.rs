//! Which task of a host controller runs next.
//!
//! Tasks that found something to do run again soon, tasks that found nothing a few times sleep
//! for a while or are blocked until another task has something for them. Of those that are ready
//! the one that ran least runs first, where a task's time counts more the nicer it is.
use crate::dev::heap;
use crate::dev::heap::{
    heap_clear, heap_list, heap_new, heap_peek, heap_pop, heap_push, TimeHeap,
};
use vstd::multiset::Multiset;
use vstd::prelude::*;

verus! {

/// The name of a task; no two tasks have the same.
#[derive(Debug, Clone, Copy, PartialEq, Eq, PartialOrd, Ord, Structural)]
pub enum TaskName {
    Register,
    FetchData,
    Disconnect,
    MailOutgoing,
    RecvWork,
}

impl TaskName {
    /// The place of the name in the list of names.
    pub open spec fn index(self) -> u8 {
        match self {
            TaskName::Register => 0,
            TaskName::FetchData => 1,
            TaskName::Disconnect => 2,
            TaskName::MailOutgoing => 3,
            TaskName::RecvWork => 4,
        }
    }

    pub open spec fn of_index(i: int) -> TaskName {
        if i == 0 {
            TaskName::Register
        } else if i == 1 {
            TaskName::FetchData
        } else if i == 2 {
            TaskName::Disconnect
        } else if i == 3 {
            TaskName::MailOutgoing
        } else {
            TaskName::RecvWork
        }
    }

    pub fn to_index(&self) -> (i: u8)
        ensures
            i == self.index(),
            i < 5,
    {
        match self {
            TaskName::Register => 0,
            TaskName::FetchData => 1,
            TaskName::Disconnect => 2,
            TaskName::MailOutgoing => 3,
            TaskName::RecvWork => 4,
        }
    }
}

/// The priority of a task in the scheduler. Lower values mean that the task is more likely to be
/// scheduled.
#[derive(Debug, Clone, Copy, PartialEq, Eq, PartialOrd, Ord, Structural)]
pub struct Nice {
    inner: u8,
}

impl Nice {
    #[verifier::type_invariant]
    spec fn in_range(self) -> bool {
        0 < self.inner < 25
    }

    pub closed spec fn value(self) -> u8 {
        self.inner
    }

    /// Creates a new `Nice` value; `None` if the value is not in the allowed range.
    pub fn new(p: u8) -> (r: Option<Self>)
        ensures
            r is Some <==> 0 < p < 25,
            r matches Some(nice) ==> nice.value() == p,
    {
        if 0 < p && p < 25 {
            Some(Nice { inner: p })
        } else {
            None
        }
    }

    /// Returns the inner value.
    pub fn get(&self) -> (p: u8)
        ensures
            p == self.value(),
            0 < p < 25,
    {
        proof {
            use_type_invariant(self);
        }
        self.inner
    }

    /// The value with which a task's time counts as it is.
    pub fn normal() -> (nice: Self)
        ensures
            nice.value() == 16,
    {
        Nice { inner: 16 }
    }
}

impl Default for Nice {
    fn default() -> (nice: Self)
        ensures
            nice.value() == 16,
    {
        Nice { inner: 16 }
    }
}

/// A task of the scheduler.
#[derive(Debug, Clone, Copy)]
pub struct Task {
    pub name: TaskName,
    pub nice: Nice,
    /// How often the task may find nothing to do before it sleeps.
    pub tries: u8,
    /// The time that the task ran, in nanoseconds, weighed by its `nice` value.
    pub timer: u64,
    pub tries_left: u8,
}

impl Task {
    pub fn new(name: TaskName, nice: Nice, tries: u8) -> (t: Self)
        ensures
            t == (Task { name, nice, tries, timer: 0, tries_left: tries }),
    {
        Task { name, nice, tries, timer: 0, tries_left: tries }
    }

    pub open spec fn with_all_tries(self) -> Task {
        Task { tries_left: self.tries, ..self }
    }

    pub open spec fn with_one_try_less(self) -> Task {
        Task { tries_left: (self.tries_left - 1) as u8, ..self }
    }

    fn reset_tries(self) -> (t: Task)
        ensures
            t == self.with_all_tries(),
    {
        Task { tries_left: self.tries, ..self }
    }

    fn mark_try(self) -> (t: Task)
        requires
            self.tries_left > 0,
        ensures
            t == self.with_one_try_less(),
    {
        Task { tries_left: self.tries_left - 1, ..self }
    }

    /// Tells whether the task sleeps when it finds nothing to do once more.
    pub fn out_of_tries(&self) -> (b: bool)
        ensures
            b <==> self.tries_left == 0,
    {
        self.tries_left == 0
    }

    /// How many times as long as it ran the task sleeps.
    pub fn sleep_factor(&self) -> (n: u16)
        ensures
            n == (self.tries + 1) * self.nice.value(),
    {
        let nice: u8 = self.nice.get();
        assert((self.tries + 1) * nice <= 256 * 24) by (nonlinear_arith)
            requires
                self.tries <= 255,
                nice <= 24,
        ;
        (self.tries as u16 + 1) * nice as u16
    }
}

/// What the scheduler has to do.
#[derive(Debug, Clone, Copy, PartialEq, Eq, Structural)]
pub enum Next {
    /// Run the task with the name.
    Run(TaskName),
    /// No task is ready before this time.
    Idle { next_run: u64 },
}

/// The scheduler of the tasks of a host controller. Times are in nanoseconds of one clock.
pub struct Scheduler {
    pub ready: TimeHeap,
    pub sleep: TimeHeap,
    /// The tasks, by name.
    pub tasks: Vec<Option<Task>>,
    /// Which tasks are blocked, by name; a task that sleeps is blocked too.
    pub blocked: Vec<bool>,
    /// When the tasks that sleep wake up, by name.
    pub wake_at: Ghost<Seq<Option<u64>>>,
    pub running: Option<TaskName>,
}

/// What the heap of ready tasks holds for the task at `i`.
pub open spec fn ready_item(s: Scheduler, i: int) -> Option<(u64, u8)> {
    if s.tasks@[i] is Some && !s.blocked@[i] && s.running != Some(TaskName::of_index(i)) {
        Some((s.tasks@[i]->0.timer, i as u8))
    } else {
        None
    }
}

/// What the heap of sleeping tasks holds for the task at `i`.
pub open spec fn sleep_item(s: Scheduler, i: int) -> Option<(u64, u8)> {
    match s.wake_at@[i] {
        Some(t) => Some((t, i as u8)),
        None => None,
    }
}

/// A heap holds just these items, one for each task at most.
pub open spec fn holds(items: Multiset<(u64, u8)>, f: spec_fn(int) -> Option<(u64, u8)>) -> bool {
    forall|x: (u64, u8)| #[trigger]
        items.count(x) == (if x.1 < 5 && f(x.1 as int) == Some(x) {
            1nat
        } else {
            0nat
        })
}

/// The task at `i` could run.
pub open spec fn is_ready(s: Scheduler, i: int) -> bool {
    s.tasks@[i] is Some && !s.blocked@[i]
}

pub open spec fn one_item(x: Option<(u64, u8)>) -> Multiset<(u64, u8)> {
    match x {
        Some(x) => Multiset::singleton(x),
        None => Multiset::empty(),
    }
}

pub open spec fn size(x: Option<(u64, u8)>) -> nat {
    if x is Some {
        1
    } else {
        0
    }
}

/// A heap has as many items as there are tasks with one.
proof fn lemma_len(items: Multiset<(u64, u8)>, f: spec_fn(int) -> Option<(u64, u8)>)
    requires
        holds(items, f),
        forall|i: int| 0 <= i < 5 && (#[trigger] f(i)) is Some ==> (f(i)->0).1 == i,
    ensures
        items.len() == size(f(0)) + size(f(1)) + size(f(2)) + size(f(3)) + size(f(4)),
{
    broadcast use vstd::multiset::group_multiset_axioms;
    let sum = one_item(f(0)).add(one_item(f(1))).add(one_item(f(2))).add(one_item(f(3))).add(
        one_item(f(4)),
    );
    assert forall|x: (u64, u8)| items.count(x) == sum.count(x) by {
        assert(f(0) is Some ==> (f(0)->0).1 == 0);
        assert(f(1) is Some ==> (f(1)->0).1 == 1);
        assert(f(2) is Some ==> (f(2)->0).1 == 2);
        assert(f(3) is Some ==> (f(3)->0).1 == 3);
        assert(f(4) is Some ==> (f(4)->0).1 == 4);
    }
    assert(items =~= sum);
}

impl Scheduler {
    pub open spec fn wf(&self) -> bool {
        &&& self.tasks@.len() == 5
        &&& self.blocked@.len() == 5
        &&& self.wake_at@.len() == 5
        &&& holds(heap::heap_items(self.ready), |i: int| ready_item(*self, i))
        &&& holds(heap::heap_items(self.sleep), |i: int| sleep_item(*self, i))
        &&& forall|i: int|
            0 <= i < 5 && (#[trigger] self.tasks@[i]) is Some ==> self.tasks@[i]->0.name
                == TaskName::of_index(i)
        &&& forall|i: int| 0 <= i < 5 && #[trigger] self.blocked@[i] ==> self.tasks@[i] is Some
        &&& forall|i: int|
            0 <= i < 5 && (#[trigger] self.wake_at@[i]) is Some ==> self.blocked@[i]
        &&& self.blocked@[0] ==> self.wake_at@[0] is Some
        &&& self.wake_at@[3] is None
        &&& self.running matches Some(name) ==> self.tasks@[name.index() as int] is Some
            && !self.blocked@[name.index() as int]
    }

    pub fn new() -> (s: Self)
        ensures
            s.wf(),
            s.running is None,
            forall|i: int| 0 <= i < 5 ==> s.tasks@[i] is None,
    {
        broadcast use vstd::multiset::group_multiset_axioms;
        let tasks = vec![None, None, None, None, None];
        let blocked = vec![false, false, false, false, false];
        let ghost never = Seq::new(5, |i: int| None::<u64>);
        Scheduler {
            ready: heap_new(),
            sleep: heap_new(),
            tasks,
            blocked,
            wake_at: Ghost(never),
            running: None,
        }
    }

    /// Puts the task at `i` in the heap of ready tasks.
    fn make_ready(&mut self, i: u8)
        requires
            old(self).tasks@.len() == 5,
            old(self).blocked@.len() == 5,
            i < 5,
            old(self).tasks@[i as int] is Some,
            holds(
                heap::heap_items(old(self).ready),
                |j: int|
                    if j == i {
                        None
                    } else {
                        ready_item(*old(self), j)
                    },
            ),
        ensures
            heap::heap_items(final(self).ready) == heap::heap_items(old(self).ready).insert(
                (old(self).tasks@[i as int]->0.timer, i),
            ),
            final(self).sleep == old(self).sleep,
            final(self).tasks == old(self).tasks,
            final(self).blocked == old(self).blocked,
            final(self).wake_at == old(self).wake_at,
            final(self).running == old(self).running,
    {
        proof {
            lemma_len(
                heap::heap_items(self.ready),
                |j: int|
                    if j == i {
                        None
                    } else {
                        ready_item(*self, j)
                    },
            );
        }
        let timer: u64 = match &self.tasks[i as usize] {
            Some(task) => task.timer,
            None => 0,
        };
        let _ = heap_push(&mut self.ready, (timer, i));
    }

    /// Adds a task whose name no other has.
    pub fn push(&mut self, task: Task)
        requires
            old(self).wf(),
            old(self).tasks@[task.name.index() as int] is None,
        ensures
            final(self).wf(),
            final(self).tasks@ == old(self).tasks@.update(task.name.index() as int, Some(task)),
            final(self).blocked@ == old(self).blocked@,
            final(self).wake_at == old(self).wake_at,
            final(self).running == old(self).running,
    {
        broadcast use vstd::multiset::group_multiset_axioms;
        let i: u8 = task.name.to_index();
        self.tasks.set(i as usize, Some(task));
        assert(forall|j: int|
            0 <= j < 5 && j != i ==> ready_item(*self, j) == ready_item(*old(self), j));
        assert(ready_item(*old(self), i as int) is None);
        self.make_ready(i);
    }

    /// Lets the task at `i` run again, where it is blocked and does not sleep.
    fn unblock(&mut self, i: u8)
        requires
            old(self).wf(),
            i < 5,
            old(self).wake_at@[i as int] is None,
        ensures
            final(self).wf(),
            final(self).tasks@ == old(self).tasks@,
            final(self).blocked@ == old(self).blocked@.update(i as int, false),
            final(self).wake_at == old(self).wake_at,
            final(self).running == old(self).running,
    {
        broadcast use vstd::multiset::group_multiset_axioms;
        if self.blocked[i as usize] {
            self.blocked.set(i as usize, false);
            assert(forall|j: int|
                0 <= j < 5 && j != i ==> ready_item(*self, j) == ready_item(*old(self), j));
            assert(ready_item(*old(self), i as int) is None);
            self.make_ready(i);
        } else {
            assert(self.blocked@ =~= old(self).blocked@.update(i as int, false));
        }
    }

    /// Wakes the task that is first to wake.
    fn wake_first(&mut self)
        requires
            old(self).wf(),
            heap::heap_items(old(self).sleep).len() > 0,
        ensures
            final(self).wf(),
            final(self).tasks@ == old(self).tasks@,
            final(self).running == old(self).running,
            heap::heap_items(final(self).sleep).len() < heap::heap_items(old(self).sleep).len(),
            exists|i: int|
                0 <= i < 5 && (#[trigger] old(self).wake_at@[i]) is Some && (forall|j: int|
                    0 <= j < 5 && (#[trigger] old(self).wake_at@[j]) is Some ==> old(
                        self,
                    ).wake_at@[i]->0 <= old(self).wake_at@[j]->0) && final(self).wake_at@ == old(
                    self,
                ).wake_at@.update(i, None) && final(self).blocked@ == old(self).blocked@.update(
                    i,
                    false,
                ),
    {
        broadcast use vstd::multiset::group_multiset_axioms;
        match heap_pop(&mut self.sleep) {
            Some(x) => {
                let i: u8 = x.1;
                assert(sleep_item(*old(self), i as int) == Some(x));
                proof {
                    self.wake_at@ = self.wake_at@.update(i as int, None);
                    assert forall|j: int|
                        0 <= j < 5 && (#[trigger] old(self).wake_at@[j]) is Some implies x.0 <= old(
                        self,
                    ).wake_at@[j]->0 by {
                        let y = (old(self).wake_at@[j]->0, j as u8);
                        assert(sleep_item(*old(self), j) == Some(y));
                        assert(heap::heap_items(old(self).sleep).count(y) == 1);
                        assert(heap::at_most(x, y));
                    }
                }
                self.blocked.set(i as usize, false);
                assert(forall|j: int|
                    0 <= j < 5 && j != i ==> ready_item(*self, j) == ready_item(*old(self), j));
                assert(forall|j: int|
                    0 <= j < 5 && j != i ==> sleep_item(*self, j) == sleep_item(*old(self), j));
                assert(ready_item(*old(self), i as int) is None);
                self.make_ready(i);
            },
            None => {},
        }
    }

    /// The task at `i` sleeps, and was to wake before `now`.
    pub open spec fn due(&self, now: u64, i: int) -> bool {
        self.wake_at@[i] is Some && self.wake_at@[i]->0 < now
    }

    /// Just the tasks that were to wake before `now` were woken.
    pub open spec fn woken(self, after: Self, now: u64) -> bool {
        &&& after.tasks@ == self.tasks@
        &&& forall|i: int|
            0 <= i < 5 ==> #[trigger] after.blocked@[i] == (self.blocked@[i] && !self.due(now, i))
        &&& forall|i: int|
            0 <= i < 5 ==> #[trigger] after.wake_at@[i] == (if self.due(now, i) {
                None
            } else {
                self.wake_at@[i]
            })
    }

    /// Some task is ready or asleep.
    pub open spec fn can_go_on(&self) -> bool {
        exists|i: int|
            0 <= i < 5 && (#[trigger] is_ready(*self, i) || self.wake_at@[i] is Some)
    }

    /// Tells whether some task is ready or asleep.
    pub fn has_task(&self) -> (b: bool)
        requires
            self.wf(),
            self.running is None,
        ensures
            b == self.can_go_on(),
    {
        proof {
            lemma_len(heap::heap_items(self.ready), |i: int| ready_item(*self, i));
            lemma_len(heap::heap_items(self.sleep), |i: int| sleep_item(*self, i));
            assert(is_ready(*self, 0) == (ready_item(*self, 0) is Some));
            assert(is_ready(*self, 1) == (ready_item(*self, 1) is Some));
            assert(is_ready(*self, 2) == (ready_item(*self, 2) is Some));
            assert(is_ready(*self, 3) == (ready_item(*self, 3) is Some));
            assert(is_ready(*self, 4) == (ready_item(*self, 4) is Some));
        }
        heap_peek(&self.ready).is_some() || heap_peek(&self.sleep).is_some()
    }

    /// Wakes the tasks that were to wake before `now`, and picks of those that are ready one that
    /// ran least.
    pub fn next(&mut self, now: u64) -> (r: Next)
        requires
            old(self).wf(),
            old(self).running is None,
            old(self).can_go_on(),
        ensures
            final(self).wf(),
            old(self).woken(*final(self), now),
            r matches Next::Run(name) ==> {
                &&& final(self).running == Some(name)
                &&& is_ready(*final(self), name.index() as int)
                &&& forall|j: int|
                    0 <= j < 5 && #[trigger] is_ready(*final(self), j)
                        ==> final(self).tasks@[name.index() as int]->0.timer
                        <= final(self).tasks@[j]->0.timer
            },
            r matches Next::Idle { next_run } ==> {
                &&& final(self).running is None
                &&& forall|j: int| 0 <= j < 5 ==> !(#[trigger] is_ready(*final(self), j))
                &&& now <= next_run
                &&& exists|i: int| 0 <= i < 5 && #[trigger] final(self).wake_at@[i] == Some(
                    next_run,
                )
                &&& forall|i: int|
                    0 <= i < 5 && (#[trigger] final(self).wake_at@[i]) is Some ==> next_run
                        <= final(self).wake_at@[i]->0
            },
    {
        broadcast use vstd::multiset::group_multiset_axioms;
        loop
            invariant
                self.wf(),
                self.running is None,
                self.tasks@ == old(self).tasks@,
                old(self).can_go_on(),
                old(self).wf(),
                forall|i: int|
                    0 <= i < 5 ==> #[trigger] self.blocked@[i] == (old(self).blocked@[i]
                        && self.wake_at@[i] == old(self).wake_at@[i]),
                forall|i: int|
                    0 <= i < 5 ==> #[trigger] self.wake_at@[i] == old(self).wake_at@[i] || (
                    self.wake_at@[i] is None && old(self).due(now, i)),
            ensures
                forall|i: int| 0 <= i < 5 ==> !(#[trigger] self.due(now, i)),
            decreases heap::heap_items(self.sleep).len(),
        {
            let first = heap_peek(&self.sleep);
            let due = match first {
                Some(x) => x.0 < now,
                None => false,
            };
            if !due {
                proof {
                    assert forall|i: int| 0 <= i < 5 implies !(#[trigger] self.due(now, i)) by {
                        if self.wake_at@[i] is Some {
                            let y = (self.wake_at@[i]->0, i as u8);
                            assert(sleep_item(*self, i) == Some(y));
                            assert(heap::heap_items(self.sleep).count(y) == 1);
                            assert(heap::at_most(first->0, y));
                        }
                    }
                }
                break ;
            }
            let ghost before = *self;
            proof {
                let x = first->0;
                assert(sleep_item(before, x.1 as int) == Some(x));
            }
            self.wake_first();
        }
        proof {
            assert forall|i: int| 0 <= i < 5 implies #[trigger] self.blocked@[i] == (old(
                self,
            ).blocked@[i] && !old(self).due(now, i)) && self.wake_at@[i] == (if old(self).due(
                now,
                i,
            ) {
                None
            } else {
                old(self).wake_at@[i]
            }) by {
                assert(!self.due(now, i));
                assert(self.wake_at@[i] == self.wake_at@[i]);
            }
            assert(old(self).woken(*self, now));
            lemma_len(heap::heap_items(self.ready), |i: int| ready_item(*self, i));
            lemma_len(heap::heap_items(self.sleep), |i: int| sleep_item(*self, i));
        }
        let ghost items = heap::heap_items(self.ready);
        match heap_pop(&mut self.ready) {
            Some(x) => {
                assert(ready_item(*self, x.1 as int) == Some(x));
                let name = match &self.tasks[x.1 as usize] {
                    Some(task) => task.name,
                    None => TaskName::Register,
                };
                let ghost before = *self;
                self.running = Some(name);
                proof {
                    assert(name.index() == x.1);
                    assert(forall|j: int|
                        0 <= j < 5 && j != x.1 ==> ready_item(*self, j) == ready_item(before, j));
                    assert(forall|j: int|
                        0 <= j < 5 ==> sleep_item(*self, j) == sleep_item(before, j));
                    assert forall|j: int| 0 <= j < 5 && #[trigger] is_ready(*self, j) implies x.0
                        <= self.tasks@[j]->0.timer by {
                        let y = (self.tasks@[j]->0.timer, j as u8);
                        assert(ready_item(before, j) == Some(y));
                        assert(items.count(y) == 1);
                        assert(heap::at_most(x, y));
                    }
                }
                Next::Run(name)
            },
            None => {
                proof {
                    assert(ready_item(*self, 0) is None);
                    assert(ready_item(*self, 1) is None);
                    assert(ready_item(*self, 2) is None);
                    assert(ready_item(*self, 3) is None);
                    assert(ready_item(*self, 4) is None);
                    let i = choose|i: int|
                        0 <= i < 5 && (#[trigger] is_ready(*old(self), i) || old(self).wake_at@[i]
                            is Some);
                    assert(self.blocked@[i] == (old(self).blocked@[i] && !old(self).due(now, i)));
                    assert(self.wake_at@[i] == self.wake_at@[i]);
                    assert(!is_ready(*self, i));
                    assert(sleep_item(*self, i) is Some);
                }
                match heap_peek(&self.sleep) {
                    Some(x) => {
                        proof {
                            assert(sleep_item(*self, x.1 as int) == Some(x));
                            assert(!self.due(now, x.1 as int));
                            assert forall|i: int|
                                0 <= i < 5 && (#[trigger] self.wake_at@[i]) is Some implies x.0
                                <= self.wake_at@[i]->0 by {
                                let y = (self.wake_at@[i]->0, i as u8);
                                assert(sleep_item(*self, i) == Some(y));
                                assert(heap::heap_items(self.sleep).count(y) == 1);
                                assert(heap::at_most(x, y));
                            }
                        }
                        Next::Idle { next_run: x.0 }
                    },
                    None => Next::Idle { next_run: now },
                }
            },
        }
    }

    /// The task that ran with the time that it is charged for.
    pub open spec fn charged_task(self, charged: u64) -> Task {
        let task = self.tasks@[self.running->0.index() as int]->0;
        Task { timer: (task.timer + charged) as u64, ..task }
    }

    /// What a task that ran does to the scheduler.
    pub open spec fn completed(
        self,
        after: Self,
        made_progress: bool,
        is_active: bool,
        charged: u64,
        next_run: u64,
    ) -> bool {
        let name = self.running->0;
        let n = name.index() as int;
        let task = self.charged_task(charged);
        let place = place_after(task, made_progress, is_active);
        &&& after.running is None
        &&& after.tasks@ == self.tasks@.update(n, Some(task_after(task, made_progress, is_active)))
        &&& forall|i: int|
            0 <= i < 5 ==> #[trigger] after.blocked@[i] == (if i == n {
                place != Place::Ready
            } else {
                self.blocked@[i] && !self.unblocked_by(name, made_progress, i)
            })
        &&& forall|i: int|
            0 <= i < 5 ==> #[trigger] after.wake_at@[i] == (if i == n {
                if place == Place::Asleep {
                    Some(next_run)
                } else {
                    None
                }
            } else if name == TaskName::Register && made_progress {
                None
            } else {
                self.wake_at@[i]
            })
    }

    /// The task at `i` is let run again by a task that made progress: a new port wakes everyone
    /// that sleeps or needs a port, and new work wakes the one that mails it.
    pub open spec fn unblocked_by(self, name: TaskName, made_progress: bool, i: int) -> bool {
        made_progress && match name {
            TaskName::Register => self.wake_at@[i] is Some || i == 1 || i == 2 || i == 4,
            TaskName::RecvWork => i == 3,
            _ => false,
        }
    }

    /// Wakes everyone that sleeps.
    fn wake_all(&mut self)
        requires
            old(self).wf(),
            old(self).running == Some(TaskName::Register),
        ensures
            final(self).wf(),
            final(self).tasks@ == old(self).tasks@,
            final(self).running == old(self).running,
            forall|i: int| 0 <= i < 5 ==> (#[trigger] final(self).wake_at@[i]) is None,
            forall|i: int|
                0 <= i < 5 ==> #[trigger] final(self).blocked@[i] == (old(self).blocked@[i] && old(
                    self,
                ).wake_at@[i] is None),
    {
        broadcast use vstd::multiset::group_multiset_axioms;
        let sleepers = heap_list(&self.sleep);
        heap_clear(&mut self.sleep);
        proof {
            self.wake_at@ = Seq::new(5, |i: int| None::<u64>);
            assert(forall|j: int| 0 <= j < 5 ==> ready_item(*self, j) == ready_item(*old(self), j));
            sleepers@.to_multiset_ensures();
            assert forall|k: int| 0 <= k < sleepers@.len() implies (#[trigger] sleepers@[k]).1 < 5
                && old(self).wake_at@[sleepers@[k].1 as int] is Some by {
                let x = sleepers@[k];
                assert(sleepers@.contains(x));
                assert(sleepers@.to_multiset().count(x) > 0);
                assert(sleep_item(*old(self), x.1 as int) == Some(x));
            }
        }
        let n: usize = sleepers.len();
        let mut k: usize = 0;
        while k < n
            invariant
                n == sleepers@.len(),
                k <= n,
                self.wf(),
                old(self).wf(),
                self.tasks@ == old(self).tasks@,
                self.running == old(self).running,
                forall|i: int| 0 <= i < 5 ==> (#[trigger] self.wake_at@[i]) is None,
                forall|j: int|
                    0 <= j < n ==> (#[trigger] sleepers@[j]).1 < 5
                        && old(self).wake_at@[sleepers@[j].1 as int] is Some,
                forall|i: int|
                    0 <= i < 5 ==> #[trigger] self.blocked@[i] == (old(self).blocked@[i] && !(
                    exists|j: int| 0 <= j < k && (#[trigger] sleepers@[j]).1 == i)),
            decreases n - k,
        {
            let i: u8 = sleepers[k].1;
            assert(sleepers@[k as int].1 < 5);
            let ghost before = *self;
            self.unblock(i);
            proof {
                assert forall|m: int| 0 <= m < 5 implies #[trigger] self.blocked@[m] == (old(
                    self,
                ).blocked@[m] && !(exists|j: int| 0 <= j < k + 1 && (#[trigger] sleepers@[j]).1 == m)) by {
                    if m == i {
                        assert(sleepers@[k as int].1 == m);
                    } else {
                        assert(self.blocked@[m] == before.blocked@[m]);
                        if exists|j: int| 0 <= j < k + 1 && (#[trigger] sleepers@[j]).1 == m {
                            let j = choose|j: int|
                                0 <= j < k + 1 && (#[trigger] sleepers@[j]).1 == m;
                            assert(j < k);
                        }
                    }
                }
            }
            k = k + 1;
        }
        proof {
            assert forall|i: int| 0 <= i < 5 implies #[trigger] self.blocked@[i] == (old(
                self,
            ).blocked@[i] && old(self).wake_at@[i] is None) by {
                if old(self).wake_at@[i] is Some {
                    let x = (old(self).wake_at@[i]->0, i as u8);
                    assert(sleep_item(*old(self), i) == Some(x));
                    assert(heap::heap_items(old(self).sleep).count(x) == 1);
                    assert(sleepers@.to_multiset().count(x) == 1);
                    assert(sleepers@.contains(x));
                    let j = choose|j: int| 0 <= j < sleepers@.len() && sleepers@[j] == x;
                    assert(sleepers@[j].1 == i);
                } else if exists|j: int| 0 <= j < n && (#[trigger] sleepers@[j]).1 == i {
                    let j = choose|j: int| 0 <= j < n && (#[trigger] sleepers@[j]).1 == i;
                    assert(old(self).wake_at@[sleepers@[j].1 as int] is Some);
                }
            }
        }
    }

    /// Puts the task that ran where it goes.
    fn settle(&mut self, task: Task, place: Place, next_run: u64)
        requires
            old(self).wf(),
            old(self).running == Some(task.name),
            task.name == TaskName::Register ==> place != Place::Blocked,
            task.name == TaskName::MailOutgoing ==> place != Place::Asleep,
        ensures
            final(self).wf(),
            final(self).running is None,
            final(self).tasks@ == old(self).tasks@.update(task.name.index() as int, Some(task)),
            final(self).blocked@ == old(self).blocked@.update(
                task.name.index() as int,
                place != Place::Ready,
            ),
            final(self).wake_at@ == old(self).wake_at@.update(
                task.name.index() as int,
                if place == Place::Asleep {
                    Some(next_run)
                } else {
                    None
                },
            ),
    {
        broadcast use vstd::multiset::group_multiset_axioms;
        let i: u8 = task.name.to_index();
        assert(old(self).wake_at@[i as int] is None);
        assert(ready_item(*old(self), i as int) is None);
        assert(sleep_item(*old(self), i as int) is None);
        self.tasks.set(i as usize, Some(task));
        self.running = None;
        match place {
            Place::Ready => {
                assert(forall|j: int|
                    0 <= j < 5 && j != i ==> ready_item(*self, j) == ready_item(*old(self), j));
                assert(forall|j: int| 0 <= j < 5 ==> sleep_item(*self, j) == sleep_item(*old(self), j));
                self.make_ready(i);
                assert(self.blocked@ =~= old(self).blocked@.update(i as int, false));
                assert(self.wake_at@ =~= old(self).wake_at@.update(i as int, None));
            },
            Place::Blocked => {
                self.blocked.set(i as usize, true);
                assert(forall|j: int| 0 <= j < 5 ==> ready_item(*self, j) == ready_item(*old(self), j));
                assert(forall|j: int| 0 <= j < 5 ==> sleep_item(*self, j) == sleep_item(*old(self), j));
                assert(self.wake_at@ =~= old(self).wake_at@.update(i as int, None));
            },
            Place::Asleep => {
                self.blocked.set(i as usize, true);
                proof {
                    self.wake_at@ = self.wake_at@.update(i as int, Some(next_run));
                    lemma_len(heap::heap_items(self.sleep), |j: int| sleep_item(*old(self), j));
                }
                let _ = heap_push(&mut self.sleep, (next_run, i));
                assert(forall|j: int| 0 <= j < 5 ==> ready_item(*self, j) == ready_item(*old(self), j));
                assert(forall|j: int|
                    0 <= j < 5 && j != i ==> sleep_item(*self, j) == sleep_item(*old(self), j));
            },
        }
    }

    /// The scheduler without the task that ran.
    pub open spec fn broken_off(self, after: Self) -> bool {
        &&& after.running is None
        &&& after.tasks@ == self.tasks@.update(self.running->0.index() as int, None)
        &&& after.blocked@ == self.blocked@
        &&& after.wake_at@ == self.wake_at@
    }

    /// The task that runs came back; tells whether the tasks end. Where they do, the task is let
    /// go of.
    pub fn finish(&mut self, turn: Turn, charged: u64, next_run: u64) -> (ends: bool)
        requires
            old(self).wf(),
            old(self).running is Some,
            turn is Done ==> old(self).tasks@[old(self).running->0.index() as int]->0.timer
                + charged <= u64::MAX,
        ensures
            final(self).wf(),
            ends <==> turn is Break,
            match turn {
                Turn::Break => old(self).broken_off(*final(self)),
                Turn::Done { made_progress, is_active } => old(self).completed(
                    *final(self),
                    made_progress,
                    is_active,
                    charged,
                    next_run,
                ),
            },
    {
        match turn {
            Turn::Break => {
                if let Some(name) = self.running {
                    let i: u8 = name.to_index();
                    self.tasks.set(i as usize, None);
                    self.running = None;
                    assert(forall|j: int|
                        0 <= j < 5 ==> ready_item(*self, j) == ready_item(*old(self), j));
                    assert(forall|j: int|
                        0 <= j < 5 ==> sleep_item(*self, j) == sleep_item(*old(self), j));
                }
                true
            },
            Turn::Done { made_progress, is_active } => {
                self.complete(made_progress, is_active, charged, next_run);
                false
            },
        }
    }

    /// The task that runs came back. `charged` is the time that it ran, weighed by its `nice`
    /// value; `next_run` is when it wakes, should it sleep; `is_active` tells whether any port
    /// has a device.
    pub fn complete(
        &mut self,
        made_progress: bool,
        is_active: bool,
        charged: u64,
        next_run: u64,
    )
        requires
            old(self).wf(),
            old(self).running is Some,
            old(self).tasks@[old(self).running->0.index() as int]->0.timer + charged <= u64::MAX,
        ensures
            final(self).wf(),
            old(self).completed(*final(self), made_progress, is_active, charged, next_run),
    {
        let name = match self.running {
            Some(name) => name,
            None => return ,
        };
        let task = match &self.tasks[name.to_index() as usize] {
            Some(task) => Task { timer: task.timer + charged, ..*task },
            None => return ,
        };
        if made_progress {
            match name {
                TaskName::Register => {
                    // We have work! Wake everyone up!
                    self.wake_all();
                    self.unblock(1);
                    self.unblock(2);
                    self.unblock(4);
                },
                TaskName::RecvWork => {
                    // There is work for the mailer.
                    self.unblock(3);
                },
                _ => {},
            }
        }
        let place = place_of(&task, made_progress, is_active);
        let task = match place {
            Place::Ready => if !made_progress {
                task.mark_try()
            } else {
                match name {
                    TaskName::Register => task,
                    _ => task.reset_tries(),
                }
            },
            _ => task.reset_tries(),
        };
        self.settle(task, place, next_run);
    }
}

/// What a task says when it comes back.
#[derive(Debug, Clone, Copy, PartialEq, Eq, Structural)]
pub enum Turn {
    /// The tasks are to end.
    Break,
    /// The task ran. `made_progress` tells whether it found something to do, `is_active` whether any
    /// port has a device.
    Done { made_progress: bool, is_active: bool },
}

/// Where a task goes after it ran.
#[derive(Debug, Clone, Copy, PartialEq, Eq, Structural)]
pub enum Place {
    Ready,
    Blocked,
    Asleep,
}

/// Where a task goes after it ran: one that made progress runs again; one that needs a port
/// while there is none, or has nothing to mail, waits for another task; one that found nothing
/// too often sleeps.
pub open spec fn place_after(task: Task, made_progress: bool, is_active: bool) -> Place {
    if made_progress {
        Place::Ready
    } else {
        match task.name {
            TaskName::MailOutgoing => Place::Blocked,
            TaskName::Register => if task.tries_left == 0 {
                Place::Asleep
            } else {
                Place::Ready
            },
            _ => if !is_active {
                Place::Blocked
            } else if task.tries_left == 0 {
                Place::Asleep
            } else {
                Place::Ready
            },
        }
    }
}

/// The task after it ran: one that stays ready without progress has a try less; every other has
/// all its tries again, but for the one that registered a port.
pub open spec fn task_after(task: Task, made_progress: bool, is_active: bool) -> Task {
    if place_after(task, made_progress, is_active) != Place::Ready {
        task.with_all_tries()
    } else if !made_progress {
        task.with_one_try_less()
    } else if task.name == TaskName::Register {
        task
    } else {
        task.with_all_tries()
    }
}

fn place_of(task: &Task, made_progress: bool, is_active: bool) -> (p: Place)
    ensures
        p == place_after(*task, made_progress, is_active),
{
    if made_progress {
        return Place::Ready;
    }
    match task.name {
        TaskName::MailOutgoing => Place::Blocked,
        TaskName::Register => if task.out_of_tries() {
            Place::Asleep
        } else {
            Place::Ready
        },
        _ => if !is_active {
            Place::Blocked
        } else if task.out_of_tries() {
            Place::Asleep
        } else {
            Place::Ready
        },
    }
}

/// No task is ever lost, and none is taken up twice: whatever is asked for, the tasks are the
/// same, and each that does not run is either ready or blocked.
pub proof fn law_no_task_is_lost(
    before: Scheduler,
    after: Scheduler,
    made_progress: bool,
    is_active: bool,
    charged: u64,
    next_run: u64,
    i: int,
)
    requires
        before.wf(),
        after.wf(),
        before.running is Some,
        before.tasks@[before.running->0.index() as int]->0.timer + charged <= u64::MAX,
        before.completed(after, made_progress, is_active, charged, next_run),
        0 <= i < 5,
    ensures
        after.tasks@[i] is Some <==> before.tasks@[i] is Some,
        after.tasks@[i] is Some ==> after.tasks@[i]->0.name == before.tasks@[i]->0.name
            && after.tasks@[i]->0.nice == before.tasks@[i]->0.nice && after.tasks@[i]->0.tries
            == before.tasks@[i]->0.tries && after.tasks@[i]->0.timer >= before.tasks@[i]->0.timer,
        after.tasks@[i] is Some ==> (ready_item(after, i) is Some <==> !after.blocked@[i]),
{
}

/// As long as the task that registers ports is there, some task is ready or asleep: it is never
/// blocked without a time to wake at.
pub proof fn law_registering_task_goes_on(s: Scheduler)
    requires
        s.wf(),
        s.running is None,
        s.tasks@[0] is Some,
    ensures
        s.can_go_on(),
{
    assert(is_ready(s, 0) || s.wake_at@[0] is Some);
}

} // verus!
