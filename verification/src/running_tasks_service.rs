//! The registry of tasks that are currently running.
//!
//! The registry is a set of task ids. An id enters it the moment its task
//! begins and leaves it the moment the task ends. It mirrors a durable table
//! with the task id as its only column and primary key, so that a later
//! process can tell which tasks an earlier one left behind.

use vstd::prelude::*;

verus! {

/// Why the registry turned an insertion down.
#[derive(Clone, Copy, Debug, PartialEq, Eq, Structural)]
pub enum RegistryError {
    /// The id is already marked as running; the registry is unchanged.
    AlreadyRunning,
}

/// One mutation of the registry, as a value.
pub enum RegistryOp {
    Add(Seq<char>),
    Remove(Seq<char>),
}

/// The ids held by a list of rows.
pub open spec fn ids_of_rows(rows: Seq<String>) -> Set<Seq<char>> {
    Set::new(|id: Seq<char>| exists|i: int| 0 <= i < rows.len() && #[trigger] rows[i]@ == id)
}

/// The key set after one mutation.
pub open spec fn registry_after(ids: Set<Seq<char>>, op: RegistryOp) -> Set<Seq<char>> {
    match op {
        RegistryOp::Add(id) => ids.insert(id),
        RegistryOp::Remove(id) => ids.remove(id),
    }
}

/// The key set after a sequence of mutations, applied first to last.
pub open spec fn registry_after_all(ids: Set<Seq<char>>, ops: Seq<RegistryOp>) -> Set<Seq<char>>
    decreases ops.len(),
{
    if ops.len() == 0 {
        ids
    } else {
        registry_after(registry_after_all(ids, ops.drop_last()), ops.last())
    }
}

/// A set of task ids with the uniqueness of a primary key.
pub struct RunningTasksService {
    ids: Vec<String>,
}

impl View for RunningTasksService {
    type V = Set<Seq<char>>;

    closed spec fn view(&self) -> Set<Seq<char>> {
        ids_of_rows(self.ids@)
    }
}

impl RunningTasksService {
    /// No id is stored twice.
    pub closed spec fn wf(&self) -> bool {
        forall|i: int, j: int|
            0 <= i < j < self.ids.len() ==> (#[trigger] self.ids[i])@ != (#[trigger] self.ids[j])@
    }

    fn position(&self, task_id: &String) -> (r: Option<usize>)
        ensures
            match r {
                Some(i) => i < self.ids.len() && self.ids[i as int]@ == task_id@,
                None => !self@.contains(task_id@),
            },
    {
        let mut i: usize = 0;
        while i < self.ids.len()
            invariant
                i <= self.ids.len(),
                forall|k: int| 0 <= k < i ==> (#[trigger] self.ids[k])@ != task_id@,
            decreases self.ids.len() - i,
        {
            if self.ids[i] == *task_id {
                return Some(i);
            }
            i += 1;
        }
        None
    }

    /// Opens the registry over the rows found in the store; a repeated row
    /// counts once.
    pub fn new(rows: Vec<String>) -> (s: Self)
        ensures
            s.wf(),
            s@ == ids_of_rows(rows@),
    {
        let mut s = RunningTasksService { ids: Vec::new() };
        let ghost all = rows@;
        let ghost mut n: int = 0;
        for row in it: rows
            invariant
                all == it.seq(),
                n == it.index(),
                s.wf(),
                s@ == ids_of_rows(all.take(n)),
        {
            proof {
                assert(all.take(n + 1) =~= all.take(n).push(row));
                lemma_ids_after_push(all.take(n), row);
                lemma_ids_after_push(s.ids@, row);
            }
            if s.position(&row).is_none() {
                s.ids.push(row);
            } else {
                assert(s@ =~= s@.insert(row@));
            }
            proof {
                n = n + 1;
            }
        }
        assert(all.take(n) =~= all);
        s
    }

    /// Tells whether the task is marked as running.
    pub fn is_task_running(&self, task_id: String) -> (r: bool)
        ensures
            r == self@.contains(task_id@),
    {
        let found = self.position(&task_id);
        proof {
            if let Some(i) = found {
                assert(self.ids@[i as int]@ == task_id@);
            }
        }
        found.is_some()
    }

    /// Marks the task as running.
    ///
    /// Fails, and changes nothing, exactly when the task is already marked;
    /// otherwise the id joins the set.
    pub fn add_running_task(&mut self, task_id: String) -> (r: Result<(), RegistryError>)
        requires
            old(self).wf(),
        ensures
            final(self).wf(),
            old(self)@.contains(task_id@) ==> r == Err::<(), RegistryError>(RegistryError::AlreadyRunning)
                && final(self)@ == old(self)@,
            !old(self)@.contains(task_id@) ==> r == Ok::<(), RegistryError>(()) && final(self)@
                == registry_after(old(self)@, RegistryOp::Add(task_id@)),
            final(self)@ == old(self)@.insert(task_id@),
    {
        let found = self.position(&task_id);
        match found {
            Some(i) => {
                proof {
                    assert(self@ =~= self@.insert(task_id@));
                }
                Err(RegistryError::AlreadyRunning)
            },
            None => {
                proof {
                    lemma_ids_after_push(self.ids@, task_id);
                }
                self.ids.push(task_id);
                Ok(())
            },
        }
    }

    /// Clears the mark of the task; a task that is not marked is left alone.
    pub fn remove_running_task(&mut self, task_id: String)
        requires
            old(self).wf(),
        ensures
            final(self).wf(),
            final(self)@ == registry_after(old(self)@, RegistryOp::Remove(task_id@)),
            !final(self)@.contains(task_id@),
    {
        match self.position(&task_id) {
            Some(i) => {
                proof {
                    lemma_ids_after_remove(self.ids@, i as int);
                }
                self.ids.remove(i);
            },
            None => {
                assert(self@ =~= self@.remove(task_id@));
            },
        }
    }

    /// The number of tasks marked as running.
    pub fn len(&self) -> (n: usize)
        requires
            self.wf(),
        ensures
            n == self@.len(),
            self@.finite(),
    {
        proof {
            lemma_rows_cardinality(self.ids@);
        }
        self.ids.len()
    }
}

/// One more row adds its id to the ids of the rows.
pub proof fn lemma_ids_after_push(rows: Seq<String>, row: String)
    ensures
        ids_of_rows(rows.push(row)) == ids_of_rows(rows).insert(row@),
{
    let more = rows.push(row);
    assert forall|id: Seq<char>| ids_of_rows(more).contains(id) <==> #[trigger] ids_of_rows(rows).insert(
        row@,
    ).contains(id) by {
        if ids_of_rows(more).contains(id) {
            let i = choose|i: int| 0 <= i < more.len() && #[trigger] more[i]@ == id;
            if i < rows.len() {
                assert(rows[i]@ == id);
            }
        }
        if ids_of_rows(rows).contains(id) {
            let i = choose|i: int| 0 <= i < rows.len() && #[trigger] rows[i]@ == id;
            assert(more[i]@ == id);
        }
        if id == row@ {
            assert(more[rows.len() as int]@ == id);
        }
    }
}

/// Where no id is stored twice, taking a row out takes its id out of the
/// ids of the rows.
pub proof fn lemma_ids_after_remove(rows: Seq<String>, i: int)
    requires
        forall|a: int, b: int| 0 <= a < b < rows.len() ==> (#[trigger] rows[a])@ != (#[trigger] rows[b])@,
        0 <= i < rows.len(),
    ensures
        ids_of_rows(rows.remove(i)) == ids_of_rows(rows).remove(rows[i]@),
{
    let fewer = rows.remove(i);
    assert forall|id: Seq<char>| ids_of_rows(fewer).contains(id) <==> #[trigger] ids_of_rows(rows).remove(
        rows[i]@,
    ).contains(id) by {
        if ids_of_rows(fewer).contains(id) {
            let k = choose|k: int| 0 <= k < fewer.len() && #[trigger] fewer[k]@ == id;
            if k < i {
                assert(rows[k]@ == id);
            } else {
                assert(rows[k + 1]@ == id);
            }
        }
        if ids_of_rows(rows).contains(id) && id != rows[i]@ {
            let k = choose|k: int| 0 <= k < rows.len() && #[trigger] rows[k]@ == id;
            if k < i {
                assert(fewer[k]@ == id);
            } else {
                assert(fewer[k - 1]@ == id);
            }
        }
    }
}

/// A list of rows without repetition holds as many ids as it has rows.
pub proof fn lemma_rows_cardinality(rows: Seq<String>)
    requires
        forall|i: int, j: int| 0 <= i < j < rows.len() ==> (#[trigger] rows[i])@ != (#[trigger] rows[j])@,
    ensures
        ids_of_rows(rows).finite(),
        ids_of_rows(rows).len() == rows.len(),
    decreases rows.len(),
{
    if rows.len() == 0 {
        assert(ids_of_rows(rows) =~= Set::<Seq<char>>::empty());
    } else {
        let front = rows.drop_last();
        lemma_rows_cardinality(front);
        lemma_ids_after_push(front, rows.last());
        assert(front.push(rows.last()) =~= rows);
        if ids_of_rows(front).contains(rows.last()@) {
            let i = choose|i: int| 0 <= i < front.len() && #[trigger] front[i]@ == rows.last()@;
            assert(rows[i]@ == rows[rows.len() - 1]@);
        }
    }
}

/// A task that was marked as running stays marked through every later
/// mutation that does not remove it, and is unmarked once it is removed.
pub proof fn law_running_until_removed(ids: Set<Seq<char>>, task_id: Seq<char>, later: Seq<RegistryOp>)
    requires
        forall|k: int| 0 <= k < later.len() ==> #[trigger] later[k] != RegistryOp::Remove(task_id),
    ensures
        registry_after(ids, RegistryOp::Add(task_id)).contains(task_id),
        registry_after_all(registry_after(ids, RegistryOp::Add(task_id)), later).contains(task_id),
        !registry_after(
            registry_after_all(registry_after(ids, RegistryOp::Add(task_id)), later),
            RegistryOp::Remove(task_id),
        ).contains(task_id),
    decreases later.len(),
{
    if later.len() > 0 {
        law_running_until_removed(ids, task_id, later.drop_last());
        let last = later[later.len() - 1];
        assert(last != RegistryOp::Remove(task_id));
    }
}

} // verus!
