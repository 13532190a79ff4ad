use vstd::prelude::*;

use crate::common::{get_task_information, task_information, TaskInfo};

verus! {

/// The monitor's command line.
pub struct Cli {
    pub command: Commands,
}

/// What the monitor is asked to do.
#[derive(Debug, Clone, Copy, PartialEq, Eq, Structural)]
pub enum Commands {
    /// Check the status of the tasks
    Status,
    /// Restart a task
    Restart,
    /// Reset failed task
    ResetFailed,
    /// Stop a task
    Stop,
}

/// Some properties of a systemd unit.
#[allow(unused)]
#[derive(Debug, Clone)]
pub struct UnitInfo {
    originunit: String,
    can_freeze: bool,
    collect_mode: String,
    id: String,
}

/// A lab task found among the units of systemd: the unit's id, what the id
/// says of the task, and the unit's active state.
#[derive(Debug, Clone)]
pub struct SystemTask {
    pub id: String,
    pub info: TaskInfo,
    pub active_state: String,
}

/// A task whose fields agree with its unit id: reading the id gives the
/// task's name and start time.
pub open spec fn task_read_from_id(t: SystemTask) -> bool {
    task_information(t.id@) == Some((t.info.task@, t.info.time@))
}

/// A unit whose active state is `failed`.
pub open spec fn task_failed(t: SystemTask) -> bool {
    t.active_state@ == "failed"@
}

/// A task counts as failed exactly when its unit's active state is the text
/// `failed`, whatever else the state might say.
pub proof fn lemma_task_failed_exactly(t: SystemTask)
    ensures
        task_failed(t) <==> t.active_state@ == "failed"@,
{
}

impl SystemTask {
    /// Whether the task's unit has failed.
    pub fn is_failed(&self) -> (failed: bool)
        ensures
            failed == task_failed(*self),
            failed <==> self.active_state@ == "failed"@,
    {
        self.active_state == "failed".to_string()
    }
}

/// The lab tasks among the units of systemd, in the order in which the units
/// were seen.  Each was read from its unit's id.
#[derive(Debug)]
pub struct UnitInterfaceInfoVec(Vec<SystemTask>);

impl Default for UnitInterfaceInfoVec {
    fn default() -> (tasks: Self)
        ensures
            tasks@ == Seq::<SystemTask>::empty(),
    {
        UnitInterfaceInfoVec(Vec::new())
    }
}

impl View for UnitInterfaceInfoVec {
    type V = Seq<SystemTask>;

    closed spec fn view(&self) -> Seq<SystemTask> {
        self.0@
    }
}

impl UnitInterfaceInfoVec {
    /// Every task in the list was read from its unit's id.
    #[verifier::type_invariant]
    closed spec fn tasks_read_from_ids(self) -> bool {
        forall|i: int| 0 <= i < self.0@.len() ==> task_read_from_id(#[trigger] self.0@[i])
    }

    /// An empty list.
    pub fn new() -> (tasks: Self)
        ensures
            tasks@ == Seq::<SystemTask>::empty(),
    {
        UnitInterfaceInfoVec(Vec::new())
    }

    /// The number of tasks.
    pub fn len(&self) -> (n: usize)
        ensures
            n == self@.len(),
    {
        self.0.len()
    }

    /// Whether there is no task.
    pub fn is_empty(&self) -> (empty: bool)
        ensures
            empty == (self@.len() == 0),
    {
        self.0.len() == 0
    }

    /// The unit ids of the tasks, in order.
    pub fn ids(&self) -> (ids: Vec<String>)
        ensures
            ids@.len() == self@.len(),
            forall|i: int| 0 <= i < self@.len() ==> #[trigger] ids@[i]@ == self@[i].id@,
    {
        let mut ids: Vec<String> = Vec::new();
        let mut i: usize = 0;
        while i < self.0.len()
            invariant
                i <= self.0.len(),
                ids@.len() == i,
                forall|j: int| 0 <= j < i ==> #[trigger] ids@[j]@ == self.0@[j].id@,
            decreases self.0.len() - i,
        {
            ids.push(self.0[i].id.clone());
            i = i + 1;
        }
        ids
    }

    /// The tasks, in order.
    pub fn iter(&self) -> (tasks: &[SystemTask])
        ensures
            tasks@ == self@,
            forall|i: int| 0 <= i < self@.len() ==> task_read_from_id(#[trigger] self@[i]),
    {
        proof {
            use_type_invariant(self);
        }
        self.0.as_slice()
    }

    /// The task at position `i`.
    pub fn index(&self, i: usize) -> (task: &SystemTask)
        requires
            i < self@.len(),
        ensures
            *task == self@[i as int],
            task_read_from_id(*task),
    {
        proof {
            use_type_invariant(self);
        }
        &self.0[i]
    }

    /// The positions of the tasks whose units have failed, in increasing order.
    pub fn failed_tasks(&self) -> (failed: Vec<usize>)
        ensures
            forall|j: int, k: int| 0 <= j < k < failed@.len() ==> failed@[j] < failed@[k],
            forall|j: int|
                0 <= j < failed@.len() ==> #[trigger] failed@[j] < self@.len() && task_failed(
                    self@[failed@[j] as int],
                ),
            forall|i: int|
                0 <= i < self@.len() && task_failed(#[trigger] self@[i]) ==> failed@.contains(
                    i as usize,
                ),
            forall|i: int|
                0 <= i < self@.len() ==> (failed@.contains(i as usize) <==> #[trigger] self@[
                    i
                ].active_state@ == "failed"@),
    {
        let mut failed: Vec<usize> = Vec::new();
        let mut i: usize = 0;
        while i < self.0.len()
            invariant
                i <= self.0.len(),
                forall|j: int, k: int| 0 <= j < k < failed@.len() ==> failed@[j] < failed@[k],
                forall|j: int|
                    0 <= j < failed@.len() ==> #[trigger] failed@[j] < i && task_failed(
                        self.0@[failed@[j] as int],
                    ),
                forall|m: int|
                    0 <= m < i && task_failed(#[trigger] self.0@[m]) ==> failed@.contains(
                        m as usize,
                    ),
            decreases self.0.len() - i,
        {
            let ghost before = failed@;
            if self.0[i].is_failed() {
                failed.push(i);
                assert(failed@[failed@.len() - 1] == i);
                assert forall|x: usize| before.contains(x) implies failed@.contains(x) by {
                    let j = choose|j: int| 0 <= j < before.len() && before[j] == x;
                    assert(failed@[j] == x);
                }
            }
            i = i + 1;
        }
        failed
    }

    /// Takes in one unit of systemd, by its id and active state: when the id
    /// names a lab task, the task joins the end of the list and the answer is
    /// `true`; otherwise the list stays as it was and the answer is `false`.
    pub fn add_unit(&mut self, id: String, active_state: String) -> (added: bool)
        ensures
            added == task_information(id@) is Some,
            added ==> {
                &&& final(self)@.len() == old(self)@.len() + 1
                &&& final(self)@.drop_last() == old(self)@
                &&& final(self)@.last().id@ == id@
                &&& final(self)@.last().active_state@ == active_state@
                &&& task_information(id@) == Some(
                    (final(self)@.last().info.task@, final(self)@.last().info.time@),
                )
            },
            !added ==> final(self)@ == old(self)@,
    {
        proof {
            use_type_invariant(&*self);
        }
        match get_task_information(id.as_str()) {
            Some(info) => {
                let task = SystemTask { id, info, active_state };
                let mut tasks: Vec<SystemTask> = Vec::new();
                std::mem::swap(&mut tasks, &mut self.0);
                tasks.push(task);
                assert(tasks@.drop_last() =~= old(self).0@);
                *self = UnitInterfaceInfoVec(tasks);
                true
            },
            None => false,
        }
    }
}

/// The bus path of the systemd unit object `unit`.
pub fn unit_object_path(unit: &str) -> (path: String)
    ensures
        path@ == "/org/freedesktop/systemd1/unit/"@ + unit@,
{
    let mut path = "/org/freedesktop/systemd1/unit/".to_string();
    path.append(unit);
    path
}

} // verus!
