//! What becomes of the tasks of a host controller when one of them comes back, told task by task.
use crate::dev::task;
use crate::dev::task::{Scheduler, Task, TaskName};
use vstd::prelude::*;

verus! {

/// Each task has a place of its own in the list of names, and each place has its task.
pub proof fn law_names_and_places(name: TaskName, i: int)
    requires
        0 <= i < 5,
    ensures
        TaskName::Register.index() == 0,
        TaskName::FetchData.index() == 1,
        TaskName::Disconnect.index() == 2,
        TaskName::MailOutgoing.index() == 3,
        TaskName::RecvWork.index() == 4,
        TaskName::of_index(name.index() as int) == name,
        TaskName::of_index(i).index() == i,
{
}

/// A new port gives work to everyone: the tasks that fetch data, disconnect ports and receive work are
/// ready, and no task is left asleep. The one that mails has nothing more to mail than before.
pub proof fn law_new_port_wakes_everyone(
    before: Scheduler,
    after: Scheduler,
    is_active: bool,
    charged: u64,
    next_run: u64,
)
    requires
        before.wf(),
        after.wf(),
        before.running == Some(TaskName::Register),
        before.completed(after, true, is_active, charged, next_run),
    ensures
        !after.blocked@[0],
        !after.blocked@[1],
        !after.blocked@[2],
        !after.blocked@[4],
        after.blocked@[3] == before.blocked@[3],
        forall|i: int| 0 <= i < 5 ==> (#[trigger] after.wake_at@[i]) is None,
        forall|i: int|
            0 <= i < 5 && (#[trigger] after.tasks@[i]) is Some && after.tasks@[i]->0.name
                != TaskName::MailOutgoing ==> task::is_ready(after, i),
{
    assert(before.blocked@[3] == before.blocked@[3]);
    assert(after.blocked@[3] == (before.blocked@[3] && !before.unblocked_by(
        TaskName::Register,
        true,
        3,
    )));
}

/// New work gives the task that mails something to mail, and touches no other task.
pub proof fn law_new_work_wakes_mailer(
    before: Scheduler,
    after: Scheduler,
    is_active: bool,
    charged: u64,
    next_run: u64,
)
    requires
        before.wf(),
        after.wf(),
        before.running == Some(TaskName::RecvWork),
        before.completed(after, true, is_active, charged, next_run),
    ensures
        !after.blocked@[3],
        !after.blocked@[4],
        forall|i: int| 0 <= i < 3 ==> #[trigger] after.blocked@[i] == before.blocked@[i],
        forall|i: int| 0 <= i < 4 ==> #[trigger] after.wake_at@[i] == before.wake_at@[i],
        after.tasks@[3] is Some ==> task::is_ready(after, 3),
{
}

/// A task that found nothing to do, and one of those whose work gives no other task work, leaves the
/// others as they are.
pub proof fn law_other_tasks_are_left(
    before: Scheduler,
    after: Scheduler,
    made_progress: bool,
    is_active: bool,
    charged: u64,
    next_run: u64,
    i: int,
)
    requires
        before.wf(),
        before.running is Some,
        before.completed(after, made_progress, is_active, charged, next_run),
        0 <= i < 5,
        i != before.running->0.index(),
    ensures
        after.tasks@[i] == before.tasks@[i],
        !before.blocked@[i] ==> !after.blocked@[i],
        !made_progress || before.running == Some(TaskName::FetchData) || before.running == Some(
            TaskName::Disconnect,
        ) || before.running == Some(TaskName::MailOutgoing) ==> after.blocked@[i]
            == before.blocked@[i] && after.wake_at@[i] == before.wake_at@[i],
        after.blocked@[i] && before.wake_at@[i] is None ==> after.wake_at@[i] is None,
{
    assert(after.blocked@[i] == after.blocked@[i]);
    assert(after.wake_at@[i] == after.wake_at@[i]);
}

/// The task whose progress lets another go on that is blocked without a time to wake at.
pub open spec fn waits_for(name: TaskName) -> TaskName {
    if name == TaskName::MailOutgoing {
        TaskName::RecvWork
    } else {
        TaskName::Register
    }
}

/// A task that is blocked without a time to wake at is not blocked for good: it waits for another task,
/// and as soon as that one makes progress, it is ready.
pub proof fn law_blocked_task_is_let_go(
    before: Scheduler,
    after: Scheduler,
    is_active: bool,
    charged: u64,
    next_run: u64,
    i: int,
)
    requires
        before.wf(),
        after.wf(),
        0 <= i < 5,
        before.blocked@[i],
        before.wake_at@[i] is None,
        before.running == Some(waits_for(before.tasks@[i]->0.name)),
        before.completed(after, true, is_active, charged, next_run),
    ensures
        before.running != Some(before.tasks@[i]->0.name),
        !after.blocked@[i],
        task::is_ready(after, i),
{
    assert(before.tasks@[i] is Some);
    assert(after.blocked@[i] == after.blocked@[i]);
}

/// Where the task that ran is afterwards. With progress it is ready. Without, the mailer is blocked until
/// there is work; a task that needs a port is blocked while there is none; and otherwise a task is ready
/// as long as it has a try left, and then sleeps until it is told to wake.
pub proof fn law_where_a_task_goes(
    before: Scheduler,
    after: Scheduler,
    made_progress: bool,
    is_active: bool,
    charged: u64,
    next_run: u64,
)
    requires
        before.wf(),
        after.wf(),
        before.running is Some,
        before.tasks@[before.running->0.index() as int]->0.timer + charged <= u64::MAX,
        before.completed(after, made_progress, is_active, charged, next_run),
    ensures
        ({
            let name = before.running->0;
            let n = name.index() as int;
            let tries_left = before.tasks@[n]->0.tries_left;
            let waits = name == TaskName::MailOutgoing || (name != TaskName::Register
                && !is_active);
            &&& after.running is None
            &&& made_progress ==> !after.blocked@[n]
            &&& !made_progress && waits ==> after.blocked@[n] && after.wake_at@[n] is None
            &&& !made_progress && !waits && tries_left == 0 ==> after.blocked@[n]
                && after.wake_at@[n] == Some(next_run)
            &&& !made_progress && !waits && tries_left > 0 ==> !after.blocked@[n]
            &&& !after.blocked@[n] ==> after.wake_at@[n] is None
        }),
{
    let n = before.running->0.index() as int;
    assert(after.blocked@[n] == after.blocked@[n]);
    assert(after.wake_at@[n] == after.wake_at@[n]);
}

/// What the task that ran is afterwards. It ran as long as it is charged for. It has a try less just where
/// it found nothing to do and is still ready; it has all its tries again just where it is blocked, sleeps
/// or made progress, and registering a port is no such progress.
pub proof fn law_what_a_task_becomes(
    before: Scheduler,
    after: Scheduler,
    made_progress: bool,
    is_active: bool,
    charged: u64,
    next_run: u64,
)
    requires
        before.wf(),
        after.wf(),
        before.running is Some,
        before.tasks@[before.running->0.index() as int]->0.timer + charged <= u64::MAX,
        before.completed(after, made_progress, is_active, charged, next_run),
    ensures
        ({
            let n = before.running->0.index() as int;
            let old_task = before.tasks@[n]->0;
            let new_task = after.tasks@[n]->0;
            &&& after.tasks@[n] is Some
            &&& new_task.timer == old_task.timer + charged
            &&& new_task.name == old_task.name
            &&& new_task.nice == old_task.nice
            &&& new_task.tries == old_task.tries
            &&& after.blocked@[n] ==> new_task.tries_left == old_task.tries
            &&& !after.blocked@[n] && !made_progress ==> new_task.tries_left
                == old_task.tries_left - 1
            &&& made_progress && old_task.name == TaskName::Register ==> new_task.tries_left
                == old_task.tries_left
            &&& made_progress && old_task.name != TaskName::Register ==> new_task.tries_left
                == old_task.tries
        }),
{
    let n = before.running->0.index() as int;
    assert(before.tasks@[n] is Some);
    assert(before.tasks@[n]->0.name == TaskName::of_index(n));
    assert(after.blocked@[n] == after.blocked@[n]);
}

/// A task that breaks off takes itself away and leaves the others as they are.
pub proof fn law_break_takes_one_task(before: Scheduler, after: Scheduler, i: int)
    requires
        before.wf(),
        before.running is Some,
        before.broken_off(after),
        0 <= i < 5,
    ensures
        after.running is None,
        TaskName::of_index(i) == before.running->0 ==> after.tasks@[i] is None,
        TaskName::of_index(i) != before.running->0 ==> after.tasks@[i] == before.tasks@[i],
        after.blocked@[i] == before.blocked@[i],
        after.wake_at@[i] == before.wake_at@[i],
{
}

/// A task that sleeps is woken just when the time that it was to wake at has passed; one that is blocked
/// without such a time stays blocked, and one that is ready stays ready.
pub proof fn law_sleeper_wakes_in_time(before: Scheduler, after: Scheduler, now: u64, i: int)
    requires
        before.wf(),
        before.woken(after, now),
        0 <= i < 5,
    ensures
        after.tasks@[i] == before.tasks@[i],
        before.wake_at@[i] is None ==> after.wake_at@[i] is None && after.blocked@[i]
            == before.blocked@[i],
        before.wake_at@[i] is Some && before.wake_at@[i]->0 >= now ==> after.wake_at@[i]
            == before.wake_at@[i] && after.blocked@[i],
        before.wake_at@[i] is Some && before.wake_at@[i]->0 < now ==> after.wake_at@[i] is None
            && !after.blocked@[i],
{
    assert(after.blocked@[i] == after.blocked@[i]);
    assert(after.wake_at@[i] == after.wake_at@[i]);
}

/// There is something to wait for just where not every task is missing or blocked without a time to wake
/// at.
pub proof fn law_something_to_wait_for(s: Scheduler)
    requires
        s.wf(),
    ensures
        !s.can_go_on() <==> forall|i: int|
            0 <= i < 5 ==> (#[trigger] s.tasks@[i]) is None || (s.blocked@[i] && s.wake_at@[i]
                is None),
{
    if !s.can_go_on() {
        assert forall|i: int| 0 <= i < 5 implies (#[trigger] s.tasks@[i]) is None || (s.blocked@[i]
            && s.wake_at@[i] is None) by {
            assert(!task::is_ready(s, i));
        }
    } else {
        let i = choose|i: int|
            0 <= i < 5 && (#[trigger] task::is_ready(s, i) || s.wake_at@[i] is Some);
        assert(s.wake_at@[i] is Some ==> s.blocked@[i]);
        assert(s.tasks@[i] is Some);
    }
}

/// A task that finds nothing to do has one try less, and one that starts anew has as many as it is given;
/// nothing else of it changes.
pub proof fn law_tries(t: Task)
    requires
        t.tries_left > 0,
    ensures
        t.with_one_try_less().tries_left + 1 == t.tries_left,
        t.with_all_tries().tries_left == t.tries,
        t.with_one_try_less().with_all_tries() == t.with_all_tries(),
        t.with_one_try_less().timer == t.timer,
        t.with_all_tries().timer == t.timer,
        t.with_all_tries().tries == t.tries,
        t.with_all_tries().name == t.name,
        t.with_all_tries().nice == t.nice,
{
}

} // verus!
