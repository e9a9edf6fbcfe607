//! The pane of background tasks.

use vstd::prelude::*;
use crate::api::{TaskStatus, TaskView};
use crate::text::{cat3, decimal, same};
#[allow(unused_imports)]
use crate::text::digits;
use crate::view::turn;
#[allow(unused_imports)]
use crate::view::turned;

verus! {

/// The running tasks, the highlighted one, and whether the pane is shown.
pub struct TaskPane {
    pub rows: Vec<TaskView>,
    pub selected: Option<String>,
    pub visible: bool,
}

/// The place of the first task with this id; the length where there is none.
pub open spec fn task_place(rows: Seq<TaskView>, id: Seq<char>) -> int
    decreases rows.len(),
{
    if rows.len() == 0 || rows[0].id@ == id {
        0
    } else {
        1 + task_place(rows.skip(1), id)
    }
}

pub open spec fn has_task(rows: Seq<TaskView>, id: Seq<char>) -> bool {
    0 <= task_place(rows, id) < rows.len()
}

/// The rows of all other tasks.
pub open spec fn other_tasks(rows: Seq<TaskView>, id: Seq<char>) -> Seq<TaskView>
    decreases rows.len(),
{
    if rows.len() == 0 {
        rows
    } else {
        let n = rows.len() - 1;
        let before = other_tasks(rows.take(n), id);
        if rows[n].id@ == id {
            before
        } else {
            before.push(rows[n])
        }
    }
}

/// How many of the tasks run.
pub open spec fn running_count(rows: Seq<TaskView>) -> nat
    decreases rows.len(),
{
    if rows.len() == 0 {
        0
    } else {
        let n = rows.len() - 1;
        running_count(rows.take(n)) + (if rows[n].status is Running {
            1nat
        } else {
            0
        })
    }
}

proof fn lemma_place_range(rows: Seq<TaskView>, id: Seq<char>)
    ensures
        0 <= task_place(rows, id) <= rows.len(),
        has_task(rows, id) ==> rows[task_place(rows, id)].id@ == id,
    decreases rows.len(),
{
    if rows.len() > 0 && rows[0].id@ != id {
        lemma_place_range(rows.skip(1), id);
    }
}

proof fn lemma_place_skips(rows: Seq<TaskView>, id: Seq<char>, i: int)
    requires
        0 <= i <= rows.len(),
        forall|j: int| 0 <= j < i ==> (#[trigger] rows[j]).id@ != id,
    ensures
        task_place(rows, id) == i + task_place(rows.skip(i), id),
    decreases i,
{
    if i == 0 {
        assert(rows.skip(0) =~= rows);
    } else {
        assert forall|j: int| 0 <= j < i - 1 implies (#[trigger] rows.skip(1)[j]).id@ != id by {
            assert(rows.skip(1)[j] == rows[j + 1]);
        }
        assert(rows[0].id@ != id);
        lemma_place_skips(rows.skip(1), id, i - 1);
        assert(rows.skip(1).skip(i - 1) =~= rows.skip(i));
    }
}

fn find_task(rows: &Vec<TaskView>, id: &str) -> (at: usize)
    ensures
        at == task_place(rows@, id@),
        at <= rows@.len(),
{
    let mut i: usize = 0;
    while i < rows.len()
        invariant
            i <= rows@.len(),
            forall|j: int| 0 <= j < i ==> (#[trigger] rows@[j]).id@ != id@,
        decreases rows@.len() - i,
    {
        if same(rows[i].id.as_str(), id) {
            proof {
                lemma_place_skips(rows@, id@, i as int);
            }
            return i;
        }
        i += 1;
    }
    proof {
        lemma_place_skips(rows@, id@, i as int);
    }
    i
}

impl TaskPane {
    pub fn new() -> (pane: TaskPane)
        ensures
            pane.rows@.len() == 0,
            pane.selected is None,
            !pane.visible,
    {
        TaskPane { rows: Vec::new(), selected: None, visible: false }
    }

    /// Shows the pane, or hides it.
    pub fn toggle(&mut self)
        ensures
            *final(self) == (TaskPane { visible: !old(self).visible, ..*old(self) }),
    {
        self.visible = !self.visible;
    }

    /// Replaces the rows by a snapshot of the daemon.
    pub fn set_initial(&mut self, tasks: Vec<TaskView>)
        ensures
            *final(self) == (TaskPane { rows: tasks, ..*old(self) }),
    {
        self.rows = tasks;
    }

    /// A task began, or is reported again.
    pub fn apply_task_started(&mut self, task: TaskView)
        ensures
            final(self).rows@ == (if has_task(old(self).rows@, task.id@) {
                old(self).rows@.update(task_place(old(self).rows@, task.id@), task)
            } else {
                old(self).rows@.push(task)
            }),
            *final(self) == (TaskPane { rows: final(self).rows, ..*old(self) }),
    {
        let at: usize = find_task(&self.rows, task.id.as_str());
        if at < self.rows.len() {
            self.rows.set(at, task);
        } else {
            self.rows.push(task);
        }
    }

    /// A task reports how far it is.
    pub fn apply_task_progress(&mut self, id: &str, hint: Option<String>)
        ensures
            final(self).rows@ == (if has_task(old(self).rows@, id@) {
                let at = task_place(old(self).rows@, id@);
                old(self).rows@.update(
                    at,
                    TaskView { progress_hint: hint, ..old(self).rows@[at] },
                )
            } else {
                old(self).rows@
            }),
            *final(self) == (TaskPane { rows: final(self).rows, ..*old(self) }),
    {
        let at: usize = find_task(&self.rows, id);
        if at < self.rows.len() {
            let ghost before = self.rows@;
            self.rows[at].progress_hint = hint;
            assert(self.rows@ =~= before.update(
                at as int,
                TaskView { progress_hint: hint, ..before[at as int] },
            ));
        }
    }

    /// A task ended: its row leaves the pane.
    pub fn apply_task_completed(&mut self, id: &str)
        ensures
            final(self).rows@ == other_tasks(old(self).rows@, id@),
            *final(self) == (TaskPane { rows: final(self).rows, ..*old(self) }),
    {
        let ghost all = self.rows@;
        let mut rest: Vec<TaskView> = Vec::new();
        std::mem::swap(&mut rest, &mut self.rows);
        let mut kept: Vec<TaskView> = Vec::new();
        let n: usize = rest.len();
        let mut i: usize = 0;
        assert(kept@ =~= other_tasks(all.take(0), id@));
        while i < n
            invariant
                n == all.len(),
                i <= n,
                rest@ == all.skip(i as int),
                kept@ == other_tasks(all.take(i as int), id@),
            decreases n - i,
        {
            let ghost t = all.take(i + 1);
            assert(t.take(t.len() - 1) =~= all.take(i as int));
            let row = rest.remove(0);
            assert(row == all[i as int]);
            if !same(row.id.as_str(), id) {
                kept.push(row);
            }
            i += 1;
        }
        assert(all.take(n as int) =~= all);
        self.rows = kept;
    }

    /// The highlighted task is in the pane.
    pub open spec fn on_task(self) -> bool {
        self.selected is Some && has_task(self.rows@, self.selected->0@)
    }

    /// The highlighted task.
    pub open spec fn task(self) -> TaskView {
        self.rows@[task_place(self.rows@, self.selected->0@)]
    }

    /// The highlighted task.
    pub fn selected_row(&self) -> (row: Option<&TaskView>)
        ensures
            match row {
                Some(r) => self.on_task() && *r == self.task(),
                None => !self.on_task(),
            },
    {
        match &self.selected {
            Some(id) => {
                let at: usize = find_task(&self.rows, id.as_str());
                if at < self.rows.len() {
                    Some(&self.rows[at])
                } else {
                    None
                }
            },
            None => None,
        }
    }

    /// The row that a step leads to: the neighbour of the highlighted task in a
    /// circle, else the first or last one.
    pub open spec fn stepped_to(self, down: bool) -> int {
        if self.on_task() {
            turned(task_place(self.rows@, self.selected->0@), self.rows@.len() as int, down)
        } else if down {
            0
        } else {
            self.rows@.len() - 1
        }
    }

    /// Highlights the next or previous task.
    pub fn move_selection(&mut self, down: bool)
        ensures
            *final(self) == (TaskPane {
                selected: if old(self).rows@.len() == 0 {
                    old(self).selected
                } else {
                    Some(old(self).rows@[old(self).stepped_to(down)].id)
                },
                ..*old(self)
            }),
    {
        let n: usize = self.rows.len();
        if n == 0 {
            return;
        }
        let at: usize = match &self.selected {
            Some(id) => find_task(&self.rows, id.as_str()),
            None => n,
        };
        let to: usize = if at < n {
            turn(at, n, down)
        } else if down {
            0
        } else {
            n - 1
        };
        self.selected = Some(self.rows[to].id.clone());
    }
}

/// The badge that says how many tasks run; empty where none does.
pub fn running_badge(pane: &TaskPane) -> (badge: String)
    ensures
        badge@ == (if running_count(pane.rows@) == 0 {
            Seq::<char>::empty()
        } else {
            "("@ + digits(running_count(pane.rows@)) + " running)"@
        }),
{
    let ghost all = pane.rows@;
    let n: usize = pane.rows.len();
    let mut running: usize = 0;
    let mut i: usize = 0;
    while i < n
        invariant
            n == pane.rows@.len(),
            all == pane.rows@,
            i <= n,
            running <= i,
            running == running_count(all.take(i as int)),
        decreases n - i,
    {
        assert(all.take(i + 1).take(i as int) =~= all.take(i as int));
        match pane.rows[i].status {
            TaskStatus::Running => {
                running += 1;
            },
            TaskStatus::Other(_) => {},
        }
        i += 1;
    }
    assert(all.take(n as int) =~= all);
    if running == 0 {
        return String::new();
    }
    cat3("(", decimal(running as u64).as_str(), " running)")
}

/// A task that ended is no longer in the pane.
pub proof fn law_ended_tasks_leave(rows: Seq<TaskView>, id: Seq<char>)
    ensures
        !has_task(other_tasks(rows, id), id),
{
    lemma_others_differ(rows, id);
    lemma_place_range(other_tasks(rows, id), id);
}

proof fn lemma_others_differ(rows: Seq<TaskView>, id: Seq<char>)
    ensures
        forall|i: int|
            0 <= i < other_tasks(rows, id).len() ==> (#[trigger] other_tasks(rows, id)[i]).id@
                != id,
    decreases rows.len(),
{
    if rows.len() > 0 {
        lemma_others_differ(rows.take(rows.len() - 1), id);
    }
}

/// When a task ended, the rows of all others stay, in their order.
pub proof fn law_other_tasks_stay(rows: Seq<TaskView>, id: Seq<char>)
    ensures
        other_tasks(rows, id) == rows.filter(|t: TaskView| t.id@ != id),
    decreases rows.len(),
{
    reveal(Seq::filter);
    if rows.len() > 0 {
        assert(rows.drop_last() =~= rows.take(rows.len() - 1));
        law_other_tasks_stay(rows.drop_last(), id);
    }
}

/// A task is found at the first row with its id.
pub(crate) proof fn lemma_place_of_task(rows: Seq<TaskView>, id: Seq<char>)
    ensures
        0 <= task_place(rows, id) <= rows.len(),
        has_task(rows, id) ==> rows[task_place(rows, id)].id@ == id,
        forall|i: int| 0 <= i < task_place(rows, id) ==> (#[trigger] rows[i]).id@ != id,
    decreases rows.len(),
{
    if rows.len() > 0 && rows[0].id@ != id {
        let rest = rows.skip(1);
        lemma_place_of_task(rest, id);
        assert forall|i: int| 0 <= i < task_place(rows, id) implies (#[trigger] rows[i]).id@
            != id by {
            if i > 0 {
                assert(rows[i] == rest[i - 1]);
            }
        }
    }
}

/// A task is in the pane exactly where some row has its id, and found at the first
/// such row.
pub proof fn law_tasks_are_found(rows: Seq<TaskView>, id: Seq<char>)
    ensures
        has_task(rows, id) <==> exists|i: int| 0 <= i < rows.len() && (#[trigger] rows[i]).id@ == id,
        has_task(rows, id) ==> rows[task_place(rows, id)].id@ == id && forall|i: int|
            0 <= i < task_place(rows, id) ==> (#[trigger] rows[i]).id@ != id,
{
    lemma_place_of_task(rows, id);
}

/// The badge counts one for each running task, and nothing for another.
pub proof fn law_running_tasks_are_counted(rows: Seq<TaskView>, task: TaskView)
    ensures
        running_count(Seq::<TaskView>::empty()) == 0,
        running_count(rows.push(task)) == running_count(rows) + (if task.status is Running {
            1int
        } else {
            0
        }),
        running_count(rows) == rows.filter(|t: TaskView| t.status is Running).len(),
    decreases rows.len(),
{
    let all = rows.push(task);
    assert(all.take(all.len() - 1) =~= rows);
    reveal(Seq::filter);
    if rows.len() > 0 {
        assert(rows.drop_last() =~= rows.take(rows.len() - 1));
        law_running_tasks_are_counted(rows.drop_last(), rows.last());
    }
}

/// Stepping through the pane goes to the neighbouring row, from the last one to the
/// first, and a step back undoes a step on.
pub proof fn law_task_steps_go_round(pane: TaskPane, down: bool)
    requires
        pane.rows@.len() > 0,
        pane.on_task(),
    ensures
        ({
            let n = pane.rows@.len() as int;
            let at = task_place(pane.rows@, pane.selected->0@);
            let to = pane.stepped_to(down);
            &&& 0 <= to < n
            &&& down ==> to == (at + 1) % n
            &&& !down ==> at == (to + 1) % n
        }),
{
    lemma_place_of_task(pane.rows@, pane.selected->0@);
    let n = pane.rows@.len() as int;
    let at = task_place(pane.rows@, pane.selected->0@);
    if at == n - 1 {
        assert((at + 1) % n == 0) by (nonlinear_arith)
            requires
                at == n - 1,
                n > 0,
        ;
    } else {
        vstd::arithmetic::div_mod::lemma_small_mod((at + 1) as nat, n as nat);
    }
    let to = pane.stepped_to(down);
    if to == n - 1 {
        assert((to + 1) % n == 0) by (nonlinear_arith)
            requires
                to == n - 1,
                n > 0,
        ;
    } else if 0 <= to < n {
        vstd::arithmetic::div_mod::lemma_small_mod((to + 1) as nat, n as nat);
    }
}

/// Where no task is highlighted, a step down begins with the first task and a step up
/// with the last one.
pub proof fn law_first_step_begins_at_the_end(pane: TaskPane)
    requires
        pane.rows@.len() > 0,
        pane.selected is None || forall|i: int|
            0 <= i < pane.rows@.len() ==> (#[trigger] pane.rows@[i]).id@ != pane.selected->0@,
    ensures
        pane.stepped_to(true) == 0,
        pane.stepped_to(false) == pane.rows@.len() - 1,
{
    if pane.selected is Some {
        law_tasks_are_found(pane.rows@, pane.selected->0@);
    }
}

} // verus!
