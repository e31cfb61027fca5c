//! The modal editor that stages a task: four text rows (title, description,
//! due date as `dd.mm.yyyy`, priority as one digit), a cursor over them, and
//! the validation that turns the rows into a task to write.
use vstd::prelude::*;
use crate::dates::{due_date_shown, due_date_text, parse_due_date, parsed_due_date};
use crate::task::{chars_of, string_of, Task};

verus! {

/// The last row of the editor: rows are 0 title, 1 description, 2 due date,
/// 3 priority.
pub const MAX_ROW: usize = 3;

/// The width of the title row's placeholder hint, behind which a fresh
/// dialog shows its cursor.
pub const TITLE_PLACEHOLDER_LEN: usize = 12;

/// The character of the decimal digit `d`.
pub open spec fn digit_char(d: nat) -> char {
    if d == 0 { '0' }
    else if d == 1 { '1' }
    else if d == 2 { '2' }
    else if d == 3 { '3' }
    else if d == 4 { '4' }
    else if d == 5 { '5' }
    else if d == 6 { '6' }
    else if d == 7 { '7' }
    else if d == 8 { '8' }
    else { '9' }
}

/// The decimal digits of `n`, most significant first, without leading zeros.
pub open spec fn digits(n: nat) -> Seq<char>
    decreases n,
{
    if n < 10 {
        seq![digit_char(n)]
    } else {
        digits(n / 10).push(digit_char(n % 10))
    }
}

/// `n` written in decimal, with a leading `-` when negative.
pub open spec fn decimal(n: int) -> Seq<char> {
    if n < 0 {
        seq!['-'] + digits((-n) as nat)
    } else {
        digits(n as nat)
    }
}

/// Relies on std's `ToString` for `i32`: the decimal text of the number.
#[verifier::external_body]
fn decimal_text(n: i32) -> (r: String)
    ensures
        r@ == decimal(n as int),
{
    n.to_string()
}

/// What blocks saving the staged task.
#[derive(Debug, Clone, Copy, PartialEq, Eq, Structural)]
pub enum EditError {
    InvalidDate,
    EmptyTitle,
    EmptyDescription,
}

/// The message shown for an error.
pub open spec fn error_text(e: EditError) -> Seq<char> {
    match e {
        EditError::InvalidDate => "Date should be in format dd.mm.yyyy"@,
        EditError::EmptyTitle => "Title cannot be empty"@,
        EditError::EmptyDescription => "Description cannot be empty"@,
    }
}

impl EditError {
    /// The message shown for this error.
    pub fn message(&self) -> (r: String)
        ensures
            r@ == error_text(*self),
    {
        match self {
            EditError::InvalidDate => String::from_str("Date should be in format dd.mm.yyyy"),
            EditError::EmptyTitle => String::from_str("Title cannot be empty"),
            EditError::EmptyDescription => String::from_str("Description cannot be empty"),
        }
    }
}

/// The priority after typing `c` into the priority row: `'0'`, `'1'` and
/// `'2'` replace it, any other character leaves it.
pub open spec fn priority_after(priority: i32, c: char) -> i32 {
    if c == '0' {
        0
    } else if c == '1' {
        1
    } else if c == '2' {
        2
    } else {
        priority
    }
}

/// `t` is the task that the rows of `st` stage, due at `due`: never
/// completed on saving.
pub open spec fn staged(t: Task, st: TaskEditDialogState, due: i64) -> bool {
    &&& t.id == st.task_id
    &&& t.title@ == st.content.title@
    &&& t.description@ == st.content.description@
    &&& t.due_date == due
    &&& t.priority == st.content.priority
    &&& !t.completed
}

impl Default for TaskEditDialogState {
    /// A closed dialog with empty rows.
    fn default() -> (r: TaskEditDialogState)
        ensures
            !r.dialog_active,
            r.task_id is None,
            r.content.is_empty(),
            r.error is None,
            r.cursor_position is None,
    {
        TaskEditDialogState::new()
    }
}

/// The write that saving the staged task calls for: a task without an
/// identity is inserted, one with an identity updates its row.
pub enum TaskWrite {
    Insert(Task),
    Update(Task),
}

impl TaskWrite {
    /// The task to write.
    pub open spec fn task(self) -> Task {
        match self {
            TaskWrite::Insert(t) => t,
            TaskWrite::Update(t) => t,
        }
    }
}

/// The text rows of the dialog.
pub struct TaskEditDialogContent {
    pub title: Vec<char>,
    pub description: Vec<char>,
    pub due_date: Vec<char>,
    pub priority: i32,
}

impl TaskEditDialogContent {
    /// Empty rows and priority 0.
    pub fn new() -> (r: TaskEditDialogContent)
        ensures
            r.is_empty(),
    {
        TaskEditDialogContent { title: Vec::new(), description: Vec::new(), due_date: Vec::new(), priority: 0 }
    }

    /// Empty rows and priority 0.
    pub open spec fn is_empty(self) -> bool {
        &&& self.title@.len() == 0
        &&& self.description@.len() == 0
        &&& self.due_date@.len() == 0
        &&& self.priority == 0
    }

    /// The text of row `y`; rows past the last are empty.
    pub open spec fn row_text(self, y: nat) -> Seq<char> {
        if y == 0 {
            self.title@
        } else if y == 1 {
            self.description@
        } else if y == 2 {
            self.due_date@
        } else if y == 3 {
            decimal(self.priority as int)
        } else {
            Seq::empty()
        }
    }

    /// Every row but row `y` is as in `other`.
    pub open spec fn same_except(self, other: TaskEditDialogContent, y: nat) -> bool {
        &&& (y != 0 ==> self.title@ == other.title@)
        &&& (y != 1 ==> self.description@ == other.description@)
        &&& (y != 2 ==> self.due_date@ == other.due_date@)
        &&& (y != 3 ==> self.priority == other.priority)
    }
}

/// The state of the task edit dialog: whether it is open, the identity of
/// the task being edited (`None` when creating one), the rows, the last
/// validation error, and the cursor as (column, row). A cursor of `None` has
/// not been placed since the dialog opened for a new task: editing treats it
/// as (0, 0), and it is shown behind the title's placeholder.
pub struct TaskEditDialogState {
    pub dialog_active: bool,
    pub task_id: Option<i32>,
    pub content: TaskEditDialogContent,
    pub error: Option<EditError>,
    pub cursor_position: Option<(usize, usize)>,
}

impl TaskEditDialogState {
    /// The cursor as (column, row) that editing works at.
    pub open spec fn cursor(self) -> (nat, nat) {
        match self.cursor_position {
            Some((c, r)) => (c as nat, r as nat),
            None => (0, 0),
        }
    }

    /// The number of characters in row `y`.
    pub open spec fn row_len(self, y: nat) -> nat {
        self.content.row_text(y).len()
    }

    /// The cursor stands on a row of the dialog and no further right than
    /// the end of that row's text.
    pub open spec fn cursor_in_bounds(self) -> bool {
        &&& self.cursor().1 <= MAX_ROW
        &&& self.cursor().0 <= self.row_len(self.cursor().1)
    }

    /// The cursor stands on a row of the dialog.
    pub open spec fn cursor_on_a_row(self) -> bool {
        self.cursor().1 <= MAX_ROW
    }

    /// A closed dialog with empty rows.
    pub fn new() -> (r: TaskEditDialogState)
        ensures
            !r.dialog_active,
            r.task_id is None,
            r.content.is_empty(),
            r.error is None,
            r.cursor_position is None,
            r.cursor_in_bounds(),
    {
        let r = TaskEditDialogState {
            dialog_active: false,
            task_id: None,
            content: TaskEditDialogContent::new(),
            error: None,
            cursor_position: None,
        };
        assert(r.row_len(0) == 0);
        r
    }

    /// Opens the dialog to create a task: empty rows, priority 0, no error,
    /// and the cursor not yet placed.
    pub fn create_a_new_task(&mut self)
        ensures
            final(self).dialog_active,
            final(self).task_id is None,
            final(self).content.is_empty(),
            final(self).error is None,
            final(self).cursor_position is None,
            final(self).cursor_in_bounds(),
    {
        self.dialog_active = true;
        self.task_id = None;
        self.content = TaskEditDialogContent::new();
        self.error = None;
        self.cursor_position = None;
        assert(self.row_len(0) == 0);
    }

    /// Opens the dialog on an existing task: its title, description, due day
    /// as `dd.mm.yyyy` (an empty row where the moment has no such text) and
    /// priority, with the cursor at the start of the title.
    pub fn edit_task(&mut self, task: &Task)
        ensures
            final(self).dialog_active,
            final(self).task_id == task.id,
            final(self).content.title@ == task.title@,
            final(self).content.description@ == task.description@,
            final(self).content.due_date@ == due_date_shown(task.due_date),
            final(self).content.priority == task.priority,
            final(self).error is None,
            final(self).cursor_position == Some((0usize, 0usize)),
            final(self).cursor_in_bounds(),
    {
        let due_text = due_date_text(task.due_date);
        let due_date = chars_of(due_text.as_str());
        self.dialog_active = true;
        self.task_id = task.id;
        self.cursor_position = Some((0, 0));
        self.content = TaskEditDialogContent {
            title: chars_of(task.title.as_str()),
            description: chars_of(task.description.as_str()),
            due_date,
            priority: task.priority,
        };
        self.error = None;
    }

    /// Closes the dialog, discarding the rows and any error.
    pub fn cancel(&mut self)
        ensures
            !final(self).dialog_active,
            final(self).task_id is None,
            final(self).content.is_empty(),
            final(self).error is None,
            final(self).cursor_position is None,
            final(self).cursor_in_bounds(),
    {
        self.dialog_active = false;
        self.task_id = None;
        self.content = TaskEditDialogContent::new();
        self.error = None;
        self.cursor_position = None;
        assert(self.row_len(0) == 0);
    }

    /// The cursor as (column, row) that editing works at.
    pub fn current_cursor(&self) -> (r: (usize, usize))
        ensures
            r.0 as nat == self.cursor().0,
            r.1 as nat == self.cursor().1,
    {
        match self.cursor_position {
            Some(p) => p,
            None => (0, 0),
        }
    }

    /// Moves the cursor one row down, stopping at the last row, and pulls
    /// the column back to the end of the new row's text where it is past it.
    pub fn move_cursor_down(&mut self)
        ensures
            ({
                let row = if old(self).cursor().1 >= MAX_ROW { MAX_ROW as nat } else { old(self).cursor().1 + 1 };
                let len = old(self).row_len(row);
                final(self).cursor() == (if old(self).cursor().0 <= len { old(self).cursor().0 } else { len }, row)
            }),
            final(self).cursor_position is Some,
            final(self).content == old(self).content,
            final(self).dialog_active == old(self).dialog_active,
            final(self).task_id == old(self).task_id,
            final(self).error == old(self).error,
            final(self).cursor_in_bounds(),
    {
        let (column, row) = self.current_cursor();
        let next_row: usize = if row >= MAX_ROW { MAX_ROW } else { row + 1 };
        let len = self.row_length(next_row);
        let next_column: usize = if column <= len { column } else { len };
        self.cursor_position = Some((next_column, next_row));
    }

    /// Moves the cursor one row up, stopping at the first row. The column is
    /// kept as it is, even where the new row's text is shorter.
    pub fn move_cursor_up(&mut self)
        ensures
            final(self).cursor_position == if old(self).cursor().1 > 0 {
                Some((old(self).cursor().0 as usize, (old(self).cursor().1 - 1) as usize))
            } else {
                old(self).cursor_position
            },
            final(self).content == old(self).content,
            final(self).dialog_active == old(self).dialog_active,
            final(self).task_id == old(self).task_id,
            final(self).error == old(self).error,
            old(self).cursor_on_a_row() ==> final(self).cursor_on_a_row(),
    {
        let (column, row) = self.current_cursor();
        if row > 0 {
            self.cursor_position = Some((column, row - 1));
        }
    }

    /// Moves the cursor one character left, stopping at the start of the row.
    pub fn move_cursor_left(&mut self)
        ensures
            final(self).cursor_position == if old(self).cursor().0 > 0 {
                Some(((old(self).cursor().0 - 1) as usize, old(self).cursor().1 as usize))
            } else {
                old(self).cursor_position
            },
            final(self).content == old(self).content,
            final(self).dialog_active == old(self).dialog_active,
            final(self).task_id == old(self).task_id,
            final(self).error == old(self).error,
            old(self).cursor_in_bounds() ==> final(self).cursor_in_bounds(),
            old(self).cursor_on_a_row() ==> final(self).cursor_on_a_row(),
    {
        let (column, row) = self.current_cursor();
        if column > 0 {
            self.cursor_position = Some((column - 1, row));
        }
    }

    /// Moves the cursor one character right, stopping at the end of the
    /// row's text.
    pub fn move_cursor_right(&mut self)
        ensures
            ({
                let len = old(self).row_len(old(self).cursor().1);
                final(self).cursor() == (
                    if old(self).cursor().0 < len { old(self).cursor().0 + 1 } else { len },
                    old(self).cursor().1,
                )
            }),
            final(self).cursor_position is Some,
            final(self).content == old(self).content,
            final(self).dialog_active == old(self).dialog_active,
            final(self).task_id == old(self).task_id,
            final(self).error == old(self).error,
            old(self).cursor_on_a_row() ==> final(self).cursor_in_bounds(),
    {
        let (column, row) = self.current_cursor();
        let len = self.row_length(row);
        let next_column: usize = if column < len { column + 1 } else { len };
        self.cursor_position = Some((next_column, row));
    }

    /// Backspace: at the start of a row nothing happens. Otherwise the
    /// character under the cursor is removed from the title, description or
    /// due date row (the last one where the cursor is at or past the end;
    /// the priority row keeps its digit), and the cursor moves one left.
    pub fn delete_char(&mut self)
        ensures
            final(self).dialog_active == old(self).dialog_active,
            final(self).task_id == old(self).task_id,
            final(self).error == old(self).error,
            ({
                let (column, row) = old(self).cursor();
                let len = old(self).row_len(row);
                let at = if column >= len { len - 1 } else { column as int };
                if column == 0 {
                    final(self).content == old(self).content && final(self).cursor_position == old(self).cursor_position
                } else {
                    &&& final(self).cursor_position == Some(((column - 1) as usize, row as usize))
                    &&& final(self).content.same_except(old(self).content, row)
                    &&& (row < MAX_ROW && len > 0 ==> final(self).content.row_text(row) == old(self).content.row_text(row).remove(at))
                    &&& (row >= MAX_ROW || len == 0 ==> final(self).content.row_text(row) == old(self).content.row_text(row))
                }
            }),
            old(self).cursor_in_bounds() ==> final(self).cursor_in_bounds(),
            old(self).cursor_on_a_row() ==> final(self).cursor_on_a_row(),
    {
        let (column, row) = self.current_cursor();
        if column == 0 {
            return;
        }
        let len = self.row_length(row);
        if len > 0 && row < MAX_ROW {
            let at: usize = if column >= len { len - 1 } else { column };
            if row == 0 {
                self.content.title.remove(at);
            } else if row == 1 {
                self.content.description.remove(at);
            } else {
                self.content.due_date.remove(at);
            }
        }
        self.cursor_position = Some((column - 1, row));
    }

    /// Types `to_insert` at the cursor; in an empty row the cursor first goes
    /// to its start. The title, description and due date rows take the
    /// character at the cursor (at the end, where the cursor is past it). The
    /// priority row takes only `'0'`, `'1'` or `'2'`, which replaces its
    /// value. Then the cursor moves one right, stopping at the end of the row.
    pub fn input(&mut self, to_insert: char)
        ensures
            final(self).dialog_active == old(self).dialog_active,
            final(self).task_id == old(self).task_id,
            final(self).error == old(self).error,
            ({
                let row = old(self).cursor().1;
                let len = old(self).row_len(row);
                let column = if len == 0 { 0 } else { old(self).cursor().0 };
                let at = if column <= len { column } else { len };
                let new_len = final(self).row_len(row);
                &&& final(self).content.same_except(old(self).content, row)
                &&& (row < MAX_ROW ==> final(self).content.row_text(row) == old(self).content.row_text(row).insert(at as int, to_insert))
                &&& (row == MAX_ROW ==> final(self).content.priority == priority_after(old(self).content.priority, to_insert))
                &&& final(self).cursor_position is Some
                &&& final(self).cursor() == (if column < new_len { column + 1 } else { new_len }, row)
            }),
            old(self).cursor_on_a_row() ==> final(self).cursor_in_bounds(),
    {
        let (column0, row) = self.current_cursor();
        let len = self.row_length(row);
        let column: usize = if len == 0 { 0 } else { column0 };
        let at: usize = if column <= len { column } else { len };
        if row == 0 {
            self.content.title.insert(at, to_insert);
        } else if row == 1 {
            self.content.description.insert(at, to_insert);
        } else if row == 2 {
            self.content.due_date.insert(at, to_insert);
        } else if row == 3 {
            if to_insert == '0' {
                self.content.priority = 0;
            } else if to_insert == '1' {
                self.content.priority = 1;
            } else if to_insert == '2' {
                self.content.priority = 2;
            }
        }
        let new_len = self.row_length(row);
        let next_column: usize = if column < new_len { column + 1 } else { new_len };
        self.cursor_position = Some((next_column, row));
    }

    /// Validates the rows and, where they hold a task, hands back the write
    /// that saves it; the dialog stays as it is until `close_saved` is called
    /// once the write has succeeded. The checks come in this order and the
    /// first that fails sets the error and gives `None`: the due date must
    /// read as `dd.mm.yyyy`, the title and then the description must not be
    /// empty.
    pub fn save_task(&mut self) -> (r: Option<TaskWrite>)
        ensures
            final(self).dialog_active == old(self).dialog_active,
            final(self).task_id == old(self).task_id,
            final(self).content == old(self).content,
            final(self).cursor_position == old(self).cursor_position,
            match parsed_due_date(old(self).content.due_date@) {
                None => r is None && final(self).error == Some(EditError::InvalidDate),
                Some(due) => if old(self).content.title@.len() == 0 {
                    r is None && final(self).error == Some(EditError::EmptyTitle)
                } else if old(self).content.description@.len() == 0 {
                    r is None && final(self).error == Some(EditError::EmptyDescription)
                } else {
                    &&& final(self).error == old(self).error
                    &&& match r {
                        Some(w) => {
                            &&& staged(w.task(), *old(self), due)
                            &&& (w is Update <==> old(self).task_id is Some)
                        },
                        None => false,
                    }
                },
            },
            old(self).content.title@.len() == 0 ==> r is None && final(self).error is Some,
    {
        let due_text = string_of(&self.content.due_date);
        let due = match parse_due_date(due_text.as_str()) {
            Some(due) => due,
            None => {
                self.error = Some(EditError::InvalidDate);
                return None;
            },
        };
        if self.content.title.len() == 0 {
            self.error = Some(EditError::EmptyTitle);
            return None;
        } else if self.content.description.len() == 0 {
            self.error = Some(EditError::EmptyDescription);
            return None;
        }
        let task = Task {
            id: self.task_id,
            title: string_of(&self.content.title),
            description: string_of(&self.content.description),
            due_date: due,
            priority: self.content.priority,
            completed: false,
        };
        match self.task_id {
            Some(_) => Some(TaskWrite::Update(task)),
            None => Some(TaskWrite::Insert(task)),
        }
    }

    /// Closes the dialog once the staged task has been written, clearing any
    /// error.
    pub fn close_saved(&mut self)
        ensures
            !final(self).dialog_active,
            final(self).error is None,
            final(self).task_id == old(self).task_id,
            final(self).content == old(self).content,
            final(self).cursor_position == old(self).cursor_position,
    {
        self.dialog_active = false;
        self.error = None;
    }

    /// The message of the last validation error, if any.
    pub fn error_message(&self) -> (r: Option<String>)
        ensures
            match self.error {
                Some(e) => r matches Some(m) && m@ == error_text(e),
                None => r is None,
            },
    {
        match self.error {
            Some(e) => Some(e.message()),
            None => None,
        }
    }

    /// Where the cursor is shown: as placed, or behind the title's
    /// placeholder where it has not been placed since the dialog opened.
    pub fn display_cursor(&self) -> (r: (usize, usize))
        ensures
            r == match self.cursor_position {
                Some(p) => p,
                None => (TITLE_PLACEHOLDER_LEN, 0usize),
            },
    {
        match self.cursor_position {
            Some(p) => p,
            None => (TITLE_PLACEHOLDER_LEN, 0),
        }
    }

    /// The number of characters in row `y`.
    fn row_length(&self, y: usize) -> (r: usize)
        ensures
            r == self.row_len(y as nat),
    {
        if y == 0 {
            self.content.title.len()
        } else if y == 1 {
            self.content.description.len()
        } else if y == 2 {
            self.content.due_date.len()
        } else if y == 3 {
            decimal_text(self.content.priority).as_str().unicode_len()
        } else {
            0
        }
    }

    /// The text of row `y`; rows past the last are empty.
    pub fn content_of_string_at_y_pos(&self, y_position: usize) -> (r: String)
        ensures
            r@ == self.content.row_text(y_position as nat),
    {
        if y_position == 0 {
            string_of(&self.content.title)
        } else if y_position == 1 {
            string_of(&self.content.description)
        } else if y_position == 2 {
            string_of(&self.content.due_date)
        } else if y_position == 3 {
            decimal_text(self.content.priority)
        } else {
            String::new()
        }
    }
}

} // verus!
