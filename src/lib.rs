//! A terminal task manager's core: the task record, the sortable and
//! selectable task list, and the modal editor that stages a task for saving.
//! Persistence and rendering live outside this crate; the list and the editor
//! hand back the writes to perform and take the reloaded rows as values.

pub mod dates;
pub mod task;
pub mod task_edit;
pub mod task_list;
