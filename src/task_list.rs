//! The in-memory task list: selection with wraparound, sorting with the
//! repeat-to-reverse toggle, and the read-only views over it.
use vstd::prelude::*;
use crate::dates::{start_of_day, day_start, SECONDS_PER_WEEK};
use crate::task::{chars_of, Task};

verus! {

/// The keys the list can be sorted by.
#[derive(Debug, Clone, Copy, PartialEq, Eq, Structural)]
pub enum SortedBy {
    ByDueDate,
    ByName,
    ByPriority,
}

/// Lexicographic order on texts, character by character (code points); on
/// UTF-8 strings it agrees with the order of their bytes.
pub open spec fn text_le(a: Seq<char>, b: Seq<char>) -> bool
    decreases a.len(),
{
    if a.len() == 0 {
        true
    } else if b.len() == 0 {
        false
    } else if (a[0] as u32) != (b[0] as u32) {
        (a[0] as u32) < (b[0] as u32)
    } else {
        text_le(a.drop_first(), b.drop_first())
    }
}

/// Whether `a` may stand before `b` when sorting by `key`.
pub open spec fn key_le(key: SortedBy, a: Task, b: Task) -> bool {
    match key {
        SortedBy::ByDueDate => a.due_date <= b.due_date,
        SortedBy::ByName => text_le(a.title@, b.title@),
        SortedBy::ByPriority => a.priority <= b.priority,
    }
}

/// `t` put into `s` behind every element that may stand before it, scanning
/// from the back.
pub open spec fn insert_by_key(s: Seq<Task>, t: Task, key: SortedBy) -> Seq<Task>
    decreases s.len(),
{
    if s.len() == 0 {
        seq![t]
    } else if key_le(key, s.last(), t) {
        s.push(t)
    } else {
        insert_by_key(s.drop_last(), t, key).push(s.last())
    }
}

/// The stable sort of `s` by `key`: each element in turn goes behind all
/// earlier ones that may stand before it, so equal keys keep their order.
pub open spec fn sort_by_key(s: Seq<Task>, key: SortedBy) -> Seq<Task>
    decreases s.len(),
{
    if s.len() == 0 {
        s
    } else {
        insert_by_key(sort_by_key(s.drop_last(), key), s.last(), key)
    }
}

/// The order that `set_sort(key)` leaves: the reverse of the current order
/// when `key` is the one in force, else a full sort by `key`.
pub open spec fn sorted_items(items: Seq<Task>, current: Option<SortedBy>, key: SortedBy) -> Seq<Task> {
    if current == Some(key) {
        items.reverse()
    } else {
        sort_by_key(items, key)
    }
}

/// The selection after moving forward in a list of `len` items.
pub open spec fn next_selection(selected: Option<usize>, len: nat) -> Option<usize> {
    match selected {
        Some(i) => if len == 0 || i >= len - 1 {
            Some(0)
        } else {
            Some((i + 1) as usize)
        },
        None => Some(0),
    }
}

/// The selection after moving backward in a list of `len` items.
pub open spec fn previous_selection(selected: Option<usize>, len: nat) -> Option<usize> {
    match selected {
        Some(i) => if len == 0 {
            Some(0)
        } else if i == 0 {
            Some((len - 1) as usize)
        } else {
            Some((i - 1) as usize)
        },
        None => Some(0),
    }
}

/// The selection after `n` moves forward.
pub open spec fn next_selection_n(selected: Option<usize>, len: nat, n: nat) -> Option<usize>
    decreases n,
{
    if n == 0 {
        selected
    } else {
        next_selection(next_selection_n(selected, len, (n - 1) as nat), len)
    }
}

/// The tasks not yet completed, in list order, that are due before `bound`
/// where one is given.
pub open spec fn open_before(items: Seq<Task>, bound: Option<int>) -> Seq<Task> {
    items.filter(|t: Task| !t.completed && (bound matches Some(b) ==> (t.due_date as int) < b))
}

/// The tasks not yet completed, in list order.
pub open spec fn uncompleted(items: Seq<Task>) -> Seq<Task> {
    open_before(items, None)
}

/// The tasks not yet completed whose due date is before `now` plus a week.
pub open spec fn due_next_week(items: Seq<Task>, now: int) -> Seq<Task> {
    open_before(items, Some(now + SECONDS_PER_WEEK as int))
}

/// The tasks not yet completed whose due date is before the start of the
/// day that holds `now`.
pub open spec fn late(items: Seq<Task>, now: int) -> Seq<Task> {
    open_before(items, Some(day_start(now)))
}

/// The tasks that `refs` refer to, in order.
pub open spec fn referenced(refs: Seq<&Task>) -> Seq<Task> {
    refs.map_values(|t: &Task| *t)
}

/// `t` with its completion flipped.
pub open spec fn toggled(t: Task) -> Task {
    Task { completed: !t.completed, ..t }
}

/// The list of tasks, the selected position, and the key it was last
/// sorted by.
pub struct TaskList {
    pub items: Vec<Task>,
    pub selected: Option<usize>,
    pub sorted_by: Option<SortedBy>,
}

impl TaskList {
    /// A list of the tasks read from the store, in their order, with nothing
    /// selected and no sort in force.
    pub fn with_items_from_storage(items: Vec<Task>) -> (r: TaskList)
        ensures
            r.items@ == items@,
            r.selected is None,
            r.sorted_by is None,
    {
        TaskList { items, selected: None, sorted_by: None }
    }

    /// Replaces the tasks with those read anew from the store. Positions no
    /// longer name the same tasks, so the selection is cleared.
    pub fn update_items(&mut self, items: Vec<Task>)
        ensures
            final(self).items@ == items@,
            final(self).selected is None,
            final(self).sorted_by == old(self).sorted_by,
    {
        self.items = items;
        self.selected = None;
    }

    /// Moves the selection forward, wrapping from the last task to the first.
    pub fn next(&mut self)
        ensures
            final(self).selected == next_selection(old(self).selected, old(self).items@.len()),
            final(self).items@ == old(self).items@,
            final(self).sorted_by == old(self).sorted_by,
    {
        let i: usize = match self.selected {
            Some(i) => {
                if self.items.len() == 0 || i >= self.items.len() - 1 {
                    0
                } else {
                    i + 1
                }
            },
            None => 0,
        };
        self.selected = Some(i);
    }

    /// Moves the selection backward, wrapping from the first task to the last.
    pub fn previous(&mut self)
        ensures
            final(self).selected == previous_selection(old(self).selected, old(self).items@.len()),
            final(self).items@ == old(self).items@,
            final(self).sorted_by == old(self).sorted_by,
    {
        let i: usize = match self.selected {
            Some(i) => {
                if self.items.len() == 0 {
                    0
                } else if i == 0 {
                    self.items.len() - 1
                } else {
                    i - 1
                }
            },
            None => 0,
        };
        self.selected = Some(i);
    }

    /// Clears the selection.
    pub fn unselect(&mut self)
        ensures
            final(self).selected is None,
            final(self).items@ == old(self).items@,
            final(self).sorted_by == old(self).sorted_by,
    {
        self.selected = None;
    }

    /// The position of the selected task, if one is selected.
    pub fn selected(&self) -> (r: Option<usize>)
        ensures
            r == self.selected,
    {
        self.selected
    }

    /// The selected task, if the selection names one.
    pub fn get_selected(&self) -> (r: Option<&Task>)
        ensures
            match self.selected {
                Some(i) => if i < self.items@.len() {
                    r == Some(&self.items@[i as int])
                } else {
                    r is None
                },
                None => r is None,
            },
    {
        match self.selected {
            Some(i) => {
                if i < self.items.len() {
                    Some(&self.items[i])
                } else {
                    None
                }
            },
            None => None,
        }
    }

    /// Flips the completion of the selected task and hands back the task as
    /// it now is, to be written to the store. Without a selected task nothing
    /// changes and nothing is to be written.
    pub fn toggle_completed(&mut self) -> (r: Option<Task>)
        ensures
            final(self).selected == old(self).selected,
            final(self).sorted_by == old(self).sorted_by,
            match old(self).selected {
                Some(i) => if i < old(self).items@.len() {
                    &&& r == Some(toggled(old(self).items@[i as int]))
                    &&& final(self).items@ == old(self).items@.update(i as int, toggled(old(self).items@[i as int]))
                } else {
                    r is None && final(self).items@ == old(self).items@
                },
                None => r is None && final(self).items@ == old(self).items@,
            },
    {
        match self.selected {
            Some(i) => {
                if i < self.items.len() {
                    let mut t = self.items[i].duplicate();
                    t.completed = !t.completed;
                    let written = t.duplicate();
                    self.items.set(i, t);
                    Some(written)
                } else {
                    None
                }
            },
            None => None,
        }
    }

    /// The identity to delete from the store for the selected task; a task
    /// that was never stored is named by `-1`, which matches no row. `None`
    /// where no task is selected. The caller reloads the list afterwards.
    pub fn delete_selected(&self) -> (r: Option<i32>)
        ensures
            match self.selected {
                Some(i) => if i < self.items@.len() {
                    r == Some(match self.items@[i as int].id {
                        Some(id) => id,
                        None => -1i32,
                    })
                } else {
                    r is None
                },
                None => r is None,
            },
    {
        match self.selected {
            Some(i) => {
                if i < self.items.len() {
                    match self.items[i].id {
                        Some(id) => Some(id),
                        None => Some(-1),
                    }
                } else {
                    None
                }
            },
            None => None,
        }
    }

    /// The tasks not yet completed.
    pub fn get_uncompleted(&self) -> (r: Vec<&Task>)
        ensures
            referenced(r@) == uncompleted(self.items@),
    {
        open_tasks_before(&self.items, None)
    }

    /// The tasks not yet completed that are due before a week from `now`
    /// (seconds since the Unix epoch, UTC).
    pub fn get_due_next_week(&self, now: i64) -> (r: Vec<&Task>)
        ensures
            referenced(r@) == due_next_week(self.items@, now as int),
    {
        open_tasks_before(&self.items, Some(now as i128 + SECONDS_PER_WEEK as i128))
    }

    /// The tasks not yet completed that were due before today began (UTC),
    /// `now` being seconds since the Unix epoch.
    pub fn get_late(&self, now: i64) -> (r: Vec<&Task>)
        ensures
            referenced(r@) == late(self.items@, now as int),
    {
        open_tasks_before(&self.items, Some(start_of_day(now)))
    }

    /// Sorts by `key`: a key other than the one in force sorts the tasks
    /// stably by it; the key in force again reverses the current order.
    pub fn set_sort(&mut self, key: SortedBy)
        ensures
            final(self).items@ == sorted_items(old(self).items@, old(self).sorted_by, key),
            final(self).sorted_by == Some(key),
            final(self).selected == old(self).selected,
    {
        let mut items: Vec<Task> = Vec::new();
        std::mem::swap(&mut items, &mut self.items);
        let same = match self.sorted_by {
            Some(current) => current == key,
            None => false,
        };
        if same {
            self.items = reversed(items);
        } else {
            self.items = sort_tasks(items, key);
        }
        self.sorted_by = Some(key);
    }
}

/// Sorting by the key in force reverses the order that the previous sort by
/// that key left: two calls of `set_sort` with one key, on any list, end in
/// the exact reverse of the order between them.
pub proof fn lemma_sort_toggle(items: Seq<Task>, current: Option<SortedBy>, key: SortedBy)
    ensures
        sorted_items(sorted_items(items, current, key), Some(key), key)
            == sorted_items(items, current, key).reverse(),
{
}

/// Every pair of tasks of `s`, in order, may stand as they do when sorting
/// by `key`.
pub open spec fn sorted_by(s: Seq<Task>, key: SortedBy) -> bool {
    forall|i: int, j: int| 0 <= i < j < s.len() ==> key_le(key, #[trigger] s[i], #[trigger] s[j])
}

/// Of two texts, one comes no later than the other.
proof fn lemma_text_le_total(a: Seq<char>, b: Seq<char>)
    ensures
        text_le(a, b) || text_le(b, a),
    decreases a.len(),
{
    if a.len() > 0 && b.len() > 0 && (a[0] as u32) == (b[0] as u32) {
        lemma_text_le_total(a.drop_first(), b.drop_first());
    }
}

/// Lexicographic order is transitive.
proof fn lemma_text_le_trans(a: Seq<char>, b: Seq<char>, c: Seq<char>)
    requires
        text_le(a, b),
        text_le(b, c),
    ensures
        text_le(a, c),
    decreases a.len(),
{
    if a.len() > 0 && b.len() > 0 && c.len() > 0 && (a[0] as u32) == (b[0] as u32) && (b[0] as u32) == (c[0] as u32) {
        lemma_text_le_trans(a.drop_first(), b.drop_first(), c.drop_first());
    }
}

/// The order by `key` is total and transitive.
proof fn lemma_key_le_order(key: SortedBy, a: Task, b: Task, c: Task)
    ensures
        key_le(key, a, b) || key_le(key, b, a),
        key_le(key, a, b) && key_le(key, b, c) ==> key_le(key, a, c),
{
    if key == SortedBy::ByName {
        lemma_text_le_total(a.title@, b.title@);
        if key_le(key, a, b) && key_le(key, b, c) {
            lemma_text_le_trans(a.title@, b.title@, c.title@);
        }
    }
}

/// Putting `t` into `s` adds just `t`, and keeps `s` sorted.
proof fn lemma_insert_by_key(s: Seq<Task>, t: Task, key: SortedBy)
    ensures
        insert_by_key(s, t, key).to_multiset() =~= s.to_multiset().insert(t),
        sorted_by(s, key) ==> sorted_by(insert_by_key(s, t, key), key),
    decreases s.len(),
{
    broadcast use vstd::seq_lib::group_to_multiset_ensures;

    if s.len() == 0 {
        assert(seq![t] =~= Seq::<Task>::empty().push(t));
    } else if key_le(key, s.last(), t) {
        if sorted_by(s, key) {
            let r = s.push(t);
            assert forall|i: int, j: int| 0 <= i < j < r.len() implies key_le(key, #[trigger] r[i], #[trigger] r[j]) by {
                if j == s.len() && i < s.len() - 1 {
                    lemma_key_le_order(key, s[i], s.last(), t);
                }
            }
        }
    } else {
        let front = s.drop_last();
        let last = s.last();
        let r = insert_by_key(front, t, key);
        lemma_insert_by_key(front, t, key);
        assert(s =~= front.push(last));
        lemma_key_le_order(key, last, t, t);
        if sorted_by(s, key) {
            assert(sorted_by(front, key)) by {
                assert forall|i: int, j: int| 0 <= i < j < front.len() implies key_le(key, #[trigger] front[i], #[trigger] front[j]) by {
                    assert(front[i] == s[i] && front[j] == s[j]);
                }
            }
            let rp = r.push(last);
            assert forall|i: int, j: int| 0 <= i < j < rp.len() implies key_le(key, #[trigger] rp[i], #[trigger] rp[j]) by {
                if j == r.len() {
                    let x = r[i];
                    assert(r.to_multiset().count(x) > 0);
                    if x != t {
                        assert(front.to_multiset().count(x) > 0);
                        assert(front.contains(x));
                        let k = choose|k: int| 0 <= k < front.len() && front[k] == x;
                        assert(s[k] == x);
                        assert(key_le(key, s[k], s[s.len() - 1]));
                    }
                }
            }
        }
    }
}

/// The sort by `key` is ordered by `key` and holds the same tasks as `s`,
/// as often as `s` does.
pub proof fn lemma_sort_by_key(s: Seq<Task>, key: SortedBy)
    ensures
        sort_by_key(s, key).to_multiset() =~= s.to_multiset(),
        sorted_by(sort_by_key(s, key), key),
    decreases s.len(),
{
    broadcast use vstd::seq_lib::group_to_multiset_ensures;

    if s.len() > 0 {
        lemma_sort_by_key(s.drop_last(), key);
        lemma_insert_by_key(sort_by_key(s.drop_last(), key), s.last(), key);
        assert(s =~= s.drop_last().push(s.last()));
    }
}

/// `a` moves forward and then `b` more are `a + b` moves.
proof fn lemma_next_selection_n_add(selected: Option<usize>, len: nat, a: nat, b: nat)
    ensures
        next_selection_n(selected, len, a + b) == next_selection_n(next_selection_n(selected, len, a), len, b),
    decreases b,
{
    if b > 0 {
        lemma_next_selection_n_add(selected, len, a, (b - 1) as nat);
        assert(next_selection_n(selected, len, a + b) == next_selection(next_selection_n(selected, len, (a + b - 1) as nat), len));
    }
}

/// Short of the end of the list, `m` moves forward advance the selection by `m`.
proof fn lemma_next_selection_n_within(j: usize, len: nat, m: nat)
    requires
        j + m < len,
        len <= usize::MAX,
    ensures
        next_selection_n(Some(j), len, m) == Some((j + m) as usize),
    decreases m,
{
    if m > 0 {
        lemma_next_selection_n_within(j, len, (m - 1) as nat);
        assert(next_selection_n(Some(j), len, m) == next_selection(next_selection_n(Some(j), len, (m - 1) as nat), len));
    }
}

/// Selection wraps around: in a list of `len` tasks, `len` moves forward
/// from any selected position come back to it.
pub proof fn lemma_next_wraps_around(i: usize, len: nat)
    requires
        i < len,
        len <= usize::MAX,
    ensures
        next_selection_n(Some(i), len, len) == Some(i),
{
    let to_last = (len - 1 - i) as nat;
    lemma_next_selection_n_within(i, len, to_last);
    lemma_next_selection_n_add(Some(i), len, to_last, 1);
    assert(next_selection_n(Some(i), len, to_last + 1) == Some(0usize));
    lemma_next_selection_n_within(0, len, i as nat);
    lemma_next_selection_n_add(Some(i), len, to_last + 1, i as nat);
}

/// From no selection, the first move forward selects the first task, and
/// `len` further moves in a non-empty list of `len` tasks come back to it.
pub proof fn lemma_next_from_unselected(len: nat)
    requires
        0 < len <= usize::MAX,
    ensures
        next_selection_n(None, len, 1) == Some(0usize),
        next_selection_n(None, len, len + 1) == next_selection_n(None, len, 1),
{
    assert(next_selection_n(None, len, 0) == None::<usize>);
    assert(next_selection_n(None, len, 1) == next_selection(next_selection_n(None, len, 0), len));
    lemma_next_selection_n_add(None, len, 1, len);
    lemma_next_wraps_around(0, len);
}

/// The tasks of `items` not yet completed, in order, that are due before
/// `bound` where one is given.
fn open_tasks_before(items: &Vec<Task>, bound: Option<i128>) -> (r: Vec<&Task>)
    ensures
        referenced(r@) == open_before(items@, match bound {
            Some(b) => Some(b as int),
            None => None,
        }),
{
    let ghost b = match bound {
        Some(b) => Some(b as int),
        None => None::<int>,
    };
    let mut out: Vec<&Task> = Vec::new();
    let mut i: usize = 0;
    while i < items.len()
        invariant
            i <= items.len(),
            referenced(out@) == open_before(items@.subrange(0, i as int), b),
            b == match bound {
                Some(x) => Some(x as int),
                None => None::<int>,
            },
        decreases items.len() - i,
    {
        let t = &items[i];
        let keep = !t.completed && match bound {
            Some(bd) => (t.due_date as i128) < bd,
            None => true,
        };
        proof {
            let s = items@.subrange(0, i + 1);
            assert(s.drop_last() =~= items@.subrange(0, i as int));
            assert(s.last() == *t);
            reveal(Seq::filter);
            assert(keep == (!s.last().completed && (b matches Some(x) ==> (s.last().due_date as int) < x)));
            if keep {
                assert(open_before(s, b) == open_before(s.drop_last(), b).push(s.last()));
            } else {
                assert(open_before(s, b) == open_before(s.drop_last(), b));
            }
        }
        let ghost before = out@;
        if keep {
            out.push(t);
            assert(referenced(out@) =~= referenced(before).push(*t));
        }
        i = i + 1;
    }
    assert(items@.subrange(0, items.len() as int) =~= items@);
    out
}

/// Whether the text `a` comes no later than `b` in lexicographic order.
fn chars_le(a: &Vec<char>, b: &Vec<char>) -> (r: bool)
    ensures
        r == text_le(a@, b@),
{
    let mut i: usize = 0;
    assert(a@.subrange(0, a.len() as int) =~= a@);
    assert(b@.subrange(0, b.len() as int) =~= b@);
    while i < a.len() && i < b.len()
        invariant
            i <= a.len(),
            i <= b.len(),
            text_le(a@, b@) == text_le(a@.subrange(i as int, a.len() as int), b@.subrange(i as int, b.len() as int)),
        decreases a.len() - i,
    {
        let ghost sa = a@.subrange(i as int, a.len() as int);
        let ghost sb = b@.subrange(i as int, b.len() as int);
        assert(sa[0] == a@[i as int]);
        assert(sb[0] == b@[i as int]);
        let x = a[i] as u32;
        let y = b[i] as u32;
        if x != y {
            return x < y;
        }
        assert(sa.drop_first() =~= a@.subrange(i + 1, a.len() as int));
        assert(sb.drop_first() =~= b@.subrange(i + 1, b.len() as int));
        i = i + 1;
    }
    i == a.len()
}

/// Whether `a` may stand before `b` when sorting by `key`.
fn task_key_le(key: SortedBy, a: &Task, b: &Task) -> (r: bool)
    ensures
        r == key_le(key, *a, *b),
{
    match key {
        SortedBy::ByDueDate => a.due_date <= b.due_date,
        SortedBy::ByName => {
            let ta = chars_of(a.title.as_str());
            let tb = chars_of(b.title.as_str());
            chars_le(&ta, &tb)
        },
        SortedBy::ByPriority => a.priority <= b.priority,
    }
}

/// Puts `t` into `out` behind every element that may stand before it,
/// scanning from the back.
fn insert_by_key_in(out: &mut Vec<Task>, t: Task, key: SortedBy)
    ensures
        final(out)@ == insert_by_key(old(out)@, t, key),
{
    let mut j: usize = out.len();
    assert(out@.subrange(0, out.len() as int) =~= out@);
    assert(out@.subrange(out.len() as int, out.len() as int) =~= Seq::<Task>::empty());
    assert(insert_by_key(out@, t, key) + Seq::<Task>::empty() =~= insert_by_key(out@, t, key));
    loop
        invariant
            j <= out.len(),
            out@ == old(out)@,
            insert_by_key(out@, t, key) == insert_by_key(out@.subrange(0, j as int), t, key) + out@.subrange(j as int, out.len() as int),
        ensures
            j <= out.len(),
            out@ == old(out)@,
            insert_by_key(out@, t, key) == insert_by_key(out@.subrange(0, j as int), t, key) + out@.subrange(j as int, out.len() as int),
            j == 0 || key_le(key, out@[j - 1], t),
        decreases j,
    {
        if j == 0 {
            break;
        }
        if task_key_le(key, &out[j - 1], &t) {
            break;
        }
        proof {
            let front = out@.subrange(0, j as int);
            assert(front.drop_last() =~= out@.subrange(0, j - 1));
            assert(front.last() == out@[j - 1]);
            assert(insert_by_key(front, t, key) == insert_by_key(front.drop_last(), t, key).push(front.last()));
            assert(insert_by_key(front.drop_last(), t, key).push(front.last()) + out@.subrange(j as int, out.len() as int)
                =~= insert_by_key(out@.subrange(0, j - 1), t, key) + out@.subrange(j - 1, out.len() as int));
        }
        j = j - 1;
    }
    proof {
        let front = out@.subrange(0, j as int);
        if j == 0 {
            assert(insert_by_key(front, t, key) == seq![t]);
        } else {
            assert(front.last() == out@[j - 1]);
            assert(insert_by_key(front, t, key) == front.push(t));
        }
    }
    out.insert(j, t);
    proof {
        let front = old(out)@.subrange(0, j as int);
        if j == 0 {
            assert(out@ =~= seq![t] + old(out)@.subrange(0, old(out)@.len() as int));
        } else {
            assert(out@ =~= front.push(t) + old(out)@.subrange(j as int, old(out)@.len() as int));
        }
    }
}

/// The stable sort of `items` by `key`.
fn sort_tasks(items: Vec<Task>, key: SortedBy) -> (r: Vec<Task>)
    ensures
        r@ == sort_by_key(items@, key),
{
    let mut rest = items;
    let ghost all = rest@;
    let mut out: Vec<Task> = Vec::new();
    // `rest` holds the unsorted tail in reverse, so that `pop` takes the next item.
    rest = reversed(rest);
    while rest.len() > 0
        invariant
            rest.len() <= all.len(),
            rest@ == all.subrange(all.len() - rest.len(), all.len() as int).reverse(),
            out@ == sort_by_key(all.subrange(0, all.len() - rest.len()), key),
        decreases rest.len(),
    {
        let ghost k = all.len() - rest.len();
        let t = rest.pop().unwrap();
        proof {
            assert(t == all[k]);
            assert(rest@ =~= all.subrange(k + 1, all.len() as int).reverse());
            assert(all.subrange(0, k + 1).drop_last() =~= all.subrange(0, k));
        }
        insert_by_key_in(&mut out, t, key);
    }
    proof {
        assert(all.subrange(0, all.len() as int) =~= all);
    }
    out
}

/// `items` in reverse order.
fn reversed(items: Vec<Task>) -> (r: Vec<Task>)
    ensures
        r@ == items@.reverse(),
{
    let mut rest = items;
    let ghost all = rest@;
    let mut out: Vec<Task> = Vec::new();
    while rest.len() > 0
        invariant
            rest.len() <= all.len(),
            rest@ == all.subrange(0, rest.len() as int),
            out.len() + rest.len() == all.len(),
            forall|i: int| 0 <= i < out.len() ==> out@[i] == all[all.len() - 1 - i],
        decreases rest.len(),
    {
        let t = rest.pop().unwrap();
        out.push(t);
    }
    assert(out@ =~= all.reverse());
    out
}

} // verus!
