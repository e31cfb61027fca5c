use task_manager::dates::{due_date_text, start_of_day};
use task_manager::task::Task;
use task_manager::task_edit::{EditError, TaskEditDialogState, TaskWrite};

fn typed(state: &mut TaskEditDialogState, text: &str) {
    for c in text.chars() {
        state.input(c);
    }
}

fn row(state: &TaskEditDialogState, y: usize) -> String {
    state.content_of_string_at_y_pos(y)
}

fn stored_task() -> Task {
    Task {
        id: Some(7),
        title: "Write report".to_string(),
        description: "quarterly".to_string(),
        due_date: 1_700_697_600,
        priority: 1,
        completed: true,
    }
}

#[test]
fn incomplete_date_is_rejected() {
    let mut state = TaskEditDialogState::default();
    state.create_a_new_task();
    state.input('A');
    state.move_cursor_down();
    state.input('A');
    state.move_cursor_down();
    typed(&mut state, "01.2024");
    assert_eq!(row(&state, 2), "01.2024");
    assert!(state.save_task().is_none());
    assert_eq!(state.error_message(), Some("Date should be in format dd.mm.yyyy".to_string()));
    assert!(state.dialog_active);
}

#[test]
fn invalid_day_is_rejected() {
    let mut state = TaskEditDialogState::new();
    state.create_a_new_task();
    typed(&mut state, "Title");
    state.move_cursor_down();
    typed(&mut state, "Text");
    state.move_cursor_down();
    typed(&mut state, "31.02.2024");
    assert!(state.save_task().is_none());
    assert_eq!(state.error, Some(EditError::InvalidDate));
    assert!(state.dialog_active);
}

#[test]
fn empty_title_is_rejected() {
    let mut state = TaskEditDialogState::new();
    state.create_a_new_task();
    state.move_cursor_down();
    typed(&mut state, "Text");
    state.move_cursor_down();
    typed(&mut state, "23.11.2023");
    assert!(state.save_task().is_none());
    assert_eq!(state.error_message(), Some("Title cannot be empty".to_string()));
    assert!(state.dialog_active);
}

#[test]
fn empty_description_is_rejected() {
    let mut state = TaskEditDialogState::new();
    state.create_a_new_task();
    typed(&mut state, "Title");
    state.move_cursor_down();
    state.move_cursor_down();
    typed(&mut state, "23.11.2023");
    assert!(state.save_task().is_none());
    assert_eq!(state.error_message(), Some("Description cannot be empty".to_string()));
}

#[test]
fn date_is_checked_before_title() {
    let mut state = TaskEditDialogState::new();
    state.create_a_new_task();
    assert!(state.save_task().is_none());
    assert_eq!(state.error, Some(EditError::InvalidDate));
}

#[test]
fn valid_rows_give_an_insert() {
    let mut state = TaskEditDialogState::new();
    state.create_a_new_task();
    typed(&mut state, "Title");
    state.move_cursor_down();
    typed(&mut state, "Text");
    state.move_cursor_down();
    typed(&mut state, "23.11.2023");
    state.move_cursor_down();
    state.input('2');
    match state.save_task() {
        Some(TaskWrite::Insert(t)) => {
            assert_eq!(t.id, None);
            assert_eq!(t.title, "Title");
            assert_eq!(t.description, "Text");
            assert_eq!(t.due_date, 1_700_697_600);
            assert_eq!(t.priority, 2);
            assert!(!t.completed);
        }
        _ => panic!("expected an insert"),
    }
    assert!(state.dialog_active);
    state.close_saved();
    assert!(!state.dialog_active);
    assert_eq!(state.error_message(), None);
}

#[test]
fn editing_gives_an_update_and_resets_completed() {
    let mut state = TaskEditDialogState::new();
    state.edit_task(&stored_task());
    assert_eq!(row(&state, 0), "Write report");
    assert_eq!(row(&state, 1), "quarterly");
    assert_eq!(row(&state, 2), "23.11.2023");
    assert_eq!(row(&state, 3), "1");
    assert_eq!(state.current_cursor(), (0, 0));
    match state.save_task() {
        Some(TaskWrite::Update(t)) => {
            assert_eq!(t.id, Some(7));
            assert_eq!(t.title, "Write report");
            assert_eq!(t.due_date, 1_700_697_600);
            assert_eq!(t.priority, 1);
            assert!(!t.completed);
        }
        _ => panic!("expected an update"),
    }
}

#[test]
fn priority_takes_only_zero_one_two() {
    let mut state = TaskEditDialogState::new();
    state.create_a_new_task();
    state.move_cursor_down();
    state.move_cursor_down();
    state.move_cursor_down();
    assert_eq!(row(&state, 3), "0");
    state.input('5');
    assert_eq!(row(&state, 3), "0");
    assert_eq!(state.content.priority, 0);
    state.input('2');
    assert_eq!(state.content.priority, 2);
    assert_eq!(row(&state, 3), "2");
    state.input('1');
    assert_eq!(state.content.priority, 1);
    state.input('x');
    assert_eq!(state.content.priority, 1);
    assert_eq!(state.current_cursor(), (1, 3));
}

#[test]
fn priority_is_replaced_whatever_it_was() {
    let mut state = TaskEditDialogState::new();
    let mut t = stored_task();
    t.priority = 17;
    state.edit_task(&t);
    for _ in 0..3 {
        state.move_cursor_down();
    }
    state.input('2');
    assert_eq!(state.content.priority, 2);
}

#[test]
fn fresh_dialog_shows_cursor_behind_placeholder() {
    let mut state = TaskEditDialogState::new();
    state.create_a_new_task();
    assert_eq!(state.display_cursor(), (12, 0));
    assert_eq!(state.current_cursor(), (0, 0));
    state.input('a');
    assert_eq!(state.display_cursor(), (1, 0));
}

#[test]
fn insert_in_the_middle() {
    let mut state = TaskEditDialogState::new();
    state.create_a_new_task();
    typed(&mut state, "ac");
    state.move_cursor_left();
    state.input('b');
    assert_eq!(row(&state, 0), "abc");
    assert_eq!(state.current_cursor(), (2, 0));
}

#[test]
fn cursor_moves_are_clamped() {
    let mut state = TaskEditDialogState::new();
    state.create_a_new_task();
    typed(&mut state, "abcdef");
    state.move_cursor_right();
    assert_eq!(state.current_cursor(), (6, 0));
    state.move_cursor_down();
    assert_eq!(state.current_cursor(), (0, 1));
    state.move_cursor_left();
    assert_eq!(state.current_cursor(), (0, 1));
    state.move_cursor_down();
    state.move_cursor_down();
    state.move_cursor_down();
    assert_eq!(state.current_cursor(), (0, 3));
    state.move_cursor_right();
    state.move_cursor_right();
    assert_eq!(state.current_cursor(), (1, 3));
}

#[test]
fn move_up_keeps_the_column() {
    let mut state = TaskEditDialogState::new();
    state.create_a_new_task();
    typed(&mut state, "ab");
    state.move_cursor_down();
    typed(&mut state, "longer text");
    state.move_cursor_up();
    assert_eq!(state.current_cursor(), (11, 0));
    state.move_cursor_up();
    assert_eq!(state.current_cursor(), (11, 0));
}

#[test]
fn backspace_at_end_removes_last_char() {
    let mut state = TaskEditDialogState::new();
    state.create_a_new_task();
    typed(&mut state, "abc");
    state.delete_char();
    assert_eq!(row(&state, 0), "ab");
    assert_eq!(state.current_cursor(), (2, 0));
}

#[test]
fn backspace_inside_removes_char_under_cursor() {
    let mut state = TaskEditDialogState::new();
    state.create_a_new_task();
    typed(&mut state, "abc");
    state.move_cursor_left();
    state.move_cursor_left();
    state.delete_char();
    assert_eq!(row(&state, 0), "ac");
    assert_eq!(state.current_cursor(), (0, 0));
    state.delete_char();
    assert_eq!(row(&state, 0), "ac");
}

#[test]
fn backspace_keeps_priority_digit() {
    let mut state = TaskEditDialogState::new();
    state.edit_task(&stored_task());
    for _ in 0..3 {
        state.move_cursor_down();
    }
    state.move_cursor_right();
    state.delete_char();
    assert_eq!(state.content.priority, 1);
    assert_eq!(state.current_cursor(), (0, 3));
}

#[test]
fn cancel_discards_rows() {
    let mut state = TaskEditDialogState::new();
    state.create_a_new_task();
    typed(&mut state, "abc");
    assert!(state.save_task().is_none());
    state.cancel();
    assert!(!state.dialog_active);
    assert_eq!(row(&state, 0), "");
    assert_eq!(state.error_message(), None);
}

#[test]
fn due_date_is_shown_as_day_text() {
    assert_eq!(due_date_text(1_700_697_600), "23.11.2023");
    assert_eq!(due_date_text(1_700_740_800), "23.11.2023");
    assert_eq!(due_date_text(0), "01.01.1970");
    assert_eq!(due_date_text(i64::MAX), "");
}

fn saved_due_date(text: &str) -> Option<i64> {
    let mut state = TaskEditDialogState::new();
    state.create_a_new_task();
    typed(&mut state, "T");
    state.move_cursor_down();
    typed(&mut state, "D");
    state.move_cursor_down();
    typed(&mut state, text);
    state.save_task().map(|w| match w {
        TaskWrite::Insert(t) => t.due_date,
        TaskWrite::Update(t) => t.due_date,
    })
}

#[test]
fn due_date_text_is_read_as_midnight_utc() {
    assert_eq!(saved_due_date("23.11.2023"), Some(1_700_697_600));
    assert_eq!(saved_due_date("29.02.2024"), Some(1_709_164_800));
    assert_eq!(saved_due_date("01.01.1970"), Some(0));
    assert_eq!(saved_due_date("31.02.2024"), None);
    assert_eq!(saved_due_date("2024-01-01"), None);
    assert_eq!(saved_due_date(""), None);
}

#[test]
fn start_of_day_floors_to_midnight() {
    assert_eq!(start_of_day(1_700_740_800), 1_700_697_600);
    assert_eq!(start_of_day(0), 0);
    assert_eq!(start_of_day(-1), -86_400);
    assert_eq!(start_of_day(i64::MIN), i64::MIN as i128 - 30_592);
}

#[test]
fn cursor_stays_within_the_row_text() {
    let mut state = TaskEditDialogState::new();
    state.create_a_new_task();
    let keys = "ab\u{1}c\u{2}\u{2}x\u{3}\u{4}d\u{1}\u{1}\u{1}\u{1}ef\u{3}\u{3}1\u{4}\u{4}\u{1}";
    for k in keys.chars() {
        match k {
            '\u{1}' => state.move_cursor_down(),
            '\u{2}' => state.move_cursor_left(),
            '\u{3}' => state.move_cursor_right(),
            '\u{4}' => state.delete_char(),
            c => state.input(c),
        }
        let (column, row) = state.current_cursor();
        assert!(row <= 3);
        assert!(column <= row_len(&state, row));
    }
}

fn row_len(state: &TaskEditDialogState, y: usize) -> usize {
    state.content_of_string_at_y_pos(y).chars().count()
}
