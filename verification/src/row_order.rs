//! The order in which the task list shows its rows.
//!
//! Rows are shown group by group and, within a group, status by status;
//! rows of one group and status are sorted by start time. Rows that tie,
//! because their start times are equal or unknown, keep the order in which
//! they entered the list.

use crate::status::TaskStatus;
use crate::tasks_list::{TaskItem, TasksList};
use vstd::prelude::*;

verus! {

/// The group of a row as a sort key: rows without a group come last.
pub open spec fn group_key(item: TaskItem) -> int {
    match item.group_id {
        Some(group_id) => group_id as int,
        None => i32::MAX + 1,
    }
}

/// The start time of a row as a sort key: rows without one come last.
pub open spec fn start_key(item: TaskItem) -> int {
    match item.task.start_time {
        Some(time) => time as int,
        None => u64::MAX + 1,
    }
}

/// Tells whether the row at position `a` is shown above the row at position
/// `b`: by group, then by the rank of the status, then by start time, then by
/// position.
pub open spec fn row_before(items: Seq<TaskItem>, a: int, b: int) -> bool {
    let x = items[a];
    let y = items[b];
    if group_key(x) != group_key(y) {
        group_key(x) < group_key(y)
    } else if x.status.spec_rank() != y.status.spec_rank() {
        x.status.spec_rank() < y.status.spec_rank()
    } else if start_key(x) != start_key(y) {
        start_key(x) < start_key(y)
    } else {
        a < b
    }
}

/// Tells whether `order` lists every position of `items` once, from the top
/// row to the bottom row.
pub open spec fn is_display_order(items: Seq<TaskItem>, order: Seq<usize>) -> bool {
    &&& order.len() == items.len()
    &&& forall|k: int| 0 <= k < order.len() ==> (#[trigger] order[k]) < items.len()
    &&& forall|k: int, l: int|
        0 <= k < l < order.len() ==> row_before(items, (#[trigger] order[k]) as int, (#[trigger] order[l]) as int)
    &&& forall|i: usize| i < items.len() ==> #[trigger] order.contains(i)
}

/// One row of the task list as it is shown.
#[derive(Clone, Debug, PartialEq, Eq)]
pub struct TaskRow {
    /// The position of the row in the list, in the order of entry.
    pub position: usize,
    pub id: String,
    pub status: TaskStatus,
    pub group_id: Option<i32>,
    pub start_time: Option<u64>,
}

/// Tells whether `row` shows the row of `items` at its position.
pub open spec fn row_shows(items: Seq<TaskItem>, row: TaskRow) -> bool {
    &&& row.position < items.len()
    &&& row.id@ == items[row.position as int].task.id@
    &&& row.status == items[row.position as int].status
    &&& row.group_id == items[row.position as int].group_id
    &&& row.start_time == items[row.position as int].task.start_time
}

/// The positions of a list of rows.
pub open spec fn positions_of(rows: Seq<TaskRow>) -> Seq<usize> {
    Seq::new(rows.len(), |k: int| rows[k].position)
}

impl TasksList {
    fn row_precedes(&self, a: usize, b: usize) -> (r: bool)
        requires
            a < self@.items.len(),
            b < self@.items.len(),
        ensures
            r == row_before(self@.items, a as int, b as int),
    {
        proof {
            self.lemma_view();
        }
        let x = &self.tasks[a];
        let y = &self.tasks[b];
        let gx: i64 = match x.group_id {
            Some(group_id) => group_id as i64,
            None => 0x8000_0000,
        };
        let gy: i64 = match y.group_id {
            Some(group_id) => group_id as i64,
            None => 0x8000_0000,
        };
        let sx: u128 = match x.task.start_time {
            Some(time) => time as u128,
            None => 0x1_0000_0000_0000_0000,
        };
        let sy: u128 = match y.task.start_time {
            Some(time) => time as u128,
            None => 0x1_0000_0000_0000_0000,
        };
        if gx != gy {
            gx < gy
        } else if x.status.rank() != y.status.rank() {
            x.status.rank() < y.status.rank()
        } else if sx != sy {
            sx < sy
        } else {
            a < b
        }
    }

    /// The positions of the rows in the order in which they are shown.
    pub fn render_order(&self) -> (order: Vec<usize>)
        ensures
            is_display_order(self@.items, order@),
    {
        proof {
            self.lemma_view();
        }
        let n = self.tasks.len();
        let ghost items = self@.items;
        let mut order: Vec<usize> = Vec::new();
        let mut i: usize = 0;
        while i < n
            invariant
                i <= n,
                n == self.tasks.len(),
                n == items.len(),
                items == self@.items,
                order.len() == i,
                forall|k: int| 0 <= k < order.len() ==> (#[trigger] order[k]) < i,
                forall|k: int, l: int|
                    0 <= k < l < order.len() ==> row_before(
                        items,
                        (#[trigger] order[k]) as int,
                        (#[trigger] order[l]) as int,
                    ),
                forall|j: usize| j < i ==> #[trigger] order@.contains(j),
            decreases n - i,
        {
            let mut p: usize = 0;
            while p < order.len() && !self.row_precedes(i, order[p])
                invariant
                    p <= order.len(),
                    i < n,
                    n == self.tasks.len(),
                    n == items.len(),
                    items == self@.items,
                    forall|k: int| 0 <= k < order.len() ==> (#[trigger] order[k]) < i,
                    forall|k: int| 0 <= k < p ==> row_before(items, (#[trigger] order[k]) as int, i as int),
                decreases order.len() - p,
            {
                p += 1;
            }
            let ghost before = order@;
            order.insert(p, i);
            proof {
                assert forall|k: int, l: int| 0 <= k < l < order.len() implies row_before(
                    items,
                    (#[trigger] order[k]) as int,
                    (#[trigger] order[l]) as int,
                ) by {
                    let bk = if k < p { k } else { k - 1 };
                    let bl = if l < p { l } else { l - 1 };
                    if k != p && l != p {
                        assert(row_before(items, before[bk] as int, before[bl] as int));
                    } else if l == p {
                        assert(row_before(items, before[k] as int, i as int));
                    } else {
                        if l > p + 1 {
                            assert(row_before(items, before[p as int] as int, before[l - 1] as int));
                        }
                    }
                }
                assert forall|j: usize| j < i + 1 implies #[trigger] order@.contains(j) by {
                    if j == i {
                        assert(order[p as int] == j);
                    } else {
                        assert(before.contains(j));
                        let k0 = choose|k: int| 0 <= k < before.len() && before[k] == j;
                        if k0 < p {
                            assert(order[k0] == j);
                        } else {
                            assert(order[k0 + 1] == j);
                        }
                    }
                }
            }
            i += 1;
        }
        order
    }
}

impl TasksList {
    /// The rows of the list from the top row to the bottom row.
    pub fn render_rows(&self) -> (rows: Vec<TaskRow>)
        ensures
            is_display_order(self@.items, positions_of(rows@)),
            forall|k: int| 0 <= k < rows.len() ==> row_shows(self@.items, #[trigger] rows[k]),
    {
        proof {
            self.lemma_view();
        }
        let order = self.render_order();
        let mut rows: Vec<TaskRow> = Vec::new();
        let mut k: usize = 0;
        while k < order.len()
            invariant
                k <= order.len(),
                rows.len() == k,
                self@.items == self.tasks@,
                is_display_order(self@.items, order@),
                forall|j: int| 0 <= j < k ==> (#[trigger] rows[j]).position == order[j],
                forall|j: int| 0 <= j < k ==> row_shows(self@.items, #[trigger] rows[j]),
            decreases order.len() - k,
        {
            let position = order[k];
            let item = &self.tasks[position];
            rows.push(
                TaskRow {
                    position,
                    id: item.task.id.clone(),
                    status: item.status,
                    group_id: item.group_id,
                    start_time: item.task.start_time,
                },
            );
            k += 1;
        }
        assert(positions_of(rows@) =~= order@);
        rows
    }
}

/// The display order of a list is unique: two orders of the same rows agree
/// at every place.
pub proof fn law_display_order_is_unique(items: Seq<TaskItem>, first: Seq<usize>, second: Seq<usize>)
    requires
        is_display_order(items, first),
        is_display_order(items, second),
    ensures
        first == second,
{
    assert forall|k: int| 0 <= k < first.len() implies first[k] == second[k] by {
        lemma_same_place(items, first, second, k);
    }
}

proof fn lemma_same_place(items: Seq<TaskItem>, first: Seq<usize>, second: Seq<usize>, k: int)
    requires
        is_display_order(items, first),
        is_display_order(items, second),
        0 <= k < first.len(),
    ensures
        first[k] == second[k],
    decreases k,
{
    assert forall|j: int| 0 <= j < k implies first[j] == second[j] by {
        lemma_same_place(items, first, second, j);
    }
    let a = first[k];
    let b = second[k];
    assert(second.contains(a));
    assert(first.contains(b));
    let m = choose|m: int| 0 <= m < second.len() && second[m] == a;
    let w = choose|w: int| 0 <= w < first.len() && first[w] == b;
    if m < k {
        assert(row_before(items, first[m] as int, first[k] as int));
    }
    if w < k {
        assert(row_before(items, second[w] as int, second[k] as int));
    }
    if m > k {
        if w > k {
            assert(row_before(items, first[k] as int, first[w] as int));
        }
    }
}

} // verus!
