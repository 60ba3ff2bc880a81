use kith::widgets::confirmation_toggle::{ConfirmationOption, ConfirmationToggle};
use kith::widgets::connect_dialog::{ConnectDialog, Step};
use kith::widgets::database_name_input::DatabaseNameInput;
use kith::widgets::search_dialog::SearchDialog;
use kith::widgets::user_list::StatefulUserList;

fn users() -> Vec<String> {
    vec!["alice".to_string(), "bob".to_string()]
}

fn type_text(input: &mut DatabaseNameInput, text: &str) {
    for c in text.chars() {
        input.enter_char(c);
    }
}

#[test]
fn entering_characters_appends_at_the_cursor() {
    let mut input = DatabaseNameInput::new();
    type_text(&mut input, "pay");
    assert_eq!(input.database_name, "pay");
    assert_eq!(input.cursor_index, 3);
    input.move_cursor_left();
    input.enter_char('X');
    assert_eq!(input.database_name, "paXy");
    assert_eq!(input.cursor_index, 3);
}

#[test]
fn cursor_counts_characters_not_bytes() {
    let mut input = DatabaseNameInput::new();
    type_text(&mut input, "éé");
    assert_eq!(input.cursor_index, 2);
    input.move_cursor_left();
    input.enter_char('a');
    assert_eq!(input.database_name, "éaé");
    input.delete_char();
    input.delete_char();
    assert_eq!(input.database_name, "é");
    assert_eq!(input.cursor_index, 0);
}

#[test]
fn deleting_at_the_start_changes_nothing() {
    let mut empty = DatabaseNameInput::new();
    empty.delete_char();
    assert_eq!(empty.database_name, "");
    assert_eq!(empty.cursor_index, 0);

    let mut input = DatabaseNameInput::new();
    type_text(&mut input, "abc");
    input.move_cursor_left();
    input.move_cursor_left();
    input.move_cursor_left();
    assert_eq!(input.cursor_index, 0);
    input.delete_char();
    assert_eq!(input.database_name, "abc");
    assert_eq!(input.cursor_index, 0);
}

#[test]
fn deleting_removes_the_character_before_the_cursor() {
    let mut input = DatabaseNameInput::new();
    type_text(&mut input, "abc");
    input.move_cursor_left();
    input.delete_char();
    assert_eq!(input.database_name, "ac");
    assert_eq!(input.cursor_index, 1);
}

#[test]
fn cursor_stays_within_the_text() {
    let mut input = DatabaseNameInput::new();
    input.move_cursor_left();
    assert_eq!(input.cursor_index, 0);
    type_text(&mut input, "ab");
    input.move_cursor_right();
    input.move_cursor_right();
    assert_eq!(input.cursor_index, 2);
    input.cursor_index = 10;
    input.enter_char('c');
    assert_eq!(input.database_name, "abc");
    assert_eq!(input.cursor_index, 3);
    input.reset();
    assert_eq!(input.database_name, "");
    assert_eq!(input.cursor_index, 0);
}

#[test]
fn search_input_edits_like_the_name_input() {
    let mut search = SearchDialog::new();
    search.enter_char('p');
    search.enter_char('g');
    search.move_cursor_left();
    search.move_cursor_left();
    search.delete_char();
    assert_eq!(search.search, "pg");
    search.move_cursor_right();
    search.delete_char();
    assert_eq!(search.search, "g");
    assert_eq!(search.cursor_index, 0);
    search.reset();
    assert_eq!(search.search, "");
}

#[test]
fn user_list_moves_without_wrapping() {
    let mut list = StatefulUserList::new();
    list.select_next();
    assert_eq!(list.selected, None);
    list.with_items(users());
    list.select_next();
    assert_eq!(list.selected, Some(0));
    list.select_next();
    list.select_next();
    assert_eq!(list.selected, Some(1));
    assert_eq!(list.selected_user(), Some(&"bob".to_string()));
    list.select_previous();
    list.select_previous();
    assert_eq!(list.selected, Some(0));
    list.reset();
    assert_eq!(list.selected, None);
    assert!(list.items.is_empty());
}

#[test]
fn moving_up_with_nothing_highlighted_picks_the_last_row() {
    let mut list = StatefulUserList::new();
    list.with_items(users());
    list.select_previous();
    assert_eq!(list.selected, Some(1));
}

#[test]
fn toggle_flips_between_yes_and_no() {
    let mut toggle = ConfirmationToggle::new();
    assert_eq!(*toggle.get_selected(), ConfirmationOption::Yes);
    toggle.toggle();
    assert_eq!(*toggle.get_selected(), ConfirmationOption::No);
    toggle.toggle();
    assert_eq!(*toggle.get_selected(), ConfirmationOption::Yes);
    toggle.toggle();
    toggle.reset();
    assert_eq!(*toggle.get_selected(), ConfirmationOption::Yes);
    assert_eq!(ConfirmationOption::Yes.to_index(), 0);
    assert_eq!(ConfirmationOption::No.to_index(), 1);
    assert_eq!(ConfirmationOption::No.to_string(), "No");
}

#[test]
fn advancing_without_a_highlighted_user_does_nothing() {
    let mut dialog = ConnectDialog::new();
    dialog.select_target("orders".to_string(), users());
    dialog.next_step();
    assert_eq!(dialog.current_step, Step::UserSelection);
    assert_eq!(dialog.db_user, "");
}

#[test]
fn advancing_with_alice_highlighted_moves_to_database_input() {
    let mut dialog = ConnectDialog::new();
    dialog.select_target("orders".to_string(), users());
    dialog.user_list.select_next();
    dialog.next_step();
    assert_eq!(dialog.db_user, "alice");
    assert_eq!(dialog.current_step, Step::DatabaseInput);
}

#[test]
fn full_flow_yields_connection_request() {
    let mut dialog = ConnectDialog::new();
    dialog.select_target("orders".to_string(), users());
    dialog.user_list.select_next();
    dialog.next_step();
    for c in "payments".chars() {
        dialog.database_name_input.enter_char(c);
    }
    dialog.next_step();
    assert_eq!(dialog.current_step, Step::Confirmation);
    assert_eq!(*dialog.confirmation_toggle.get_selected(), ConfirmationOption::Yes);
    assert!(dialog.to_connection_args().is_none());
    dialog.next_step();
    assert_eq!(dialog.ready_to_connect, Some(true));
    let args = dialog.to_connection_args().unwrap();
    assert_eq!(args.instance, "orders");
    assert_eq!(args.db_user, "alice");
    assert_eq!(args.db_name, "payments");
}

#[test]
fn answering_no_cancels() {
    let mut dialog = ConnectDialog::new();
    dialog.select_target("orders".to_string(), users());
    dialog.user_list.select_next();
    dialog.next_step();
    dialog.database_name_input.enter_char('x');
    dialog.next_step();
    dialog.confirmation_toggle.toggle();
    dialog.next_step();
    assert_eq!(dialog.ready_to_connect, Some(false));
    assert!(dialog.to_connection_args().is_none());
}

#[test]
fn blank_database_name_does_not_advance() {
    let mut dialog = ConnectDialog::new();
    dialog.select_target("orders".to_string(), users());
    dialog.user_list.select_next();
    dialog.next_step();
    dialog.next_step();
    assert_eq!(dialog.current_step, Step::DatabaseInput);
    dialog.database_name_input.enter_char(' ');
    dialog.next_step();
    assert_eq!(dialog.current_step, Step::DatabaseInput);
    dialog.database_name_input.enter_char('a');
    dialog.database_name_input.enter_char(' ');
    dialog.next_step();
    assert_eq!(dialog.current_step, Step::Confirmation);
    assert_eq!(dialog.db_name, "a");
}

#[test]
fn highlighted_user_advances_without_a_chosen_database() {
    let mut dialog = ConnectDialog::new();
    dialog.user_list.with_items(vec!["alice".to_string()]);
    dialog.user_list.selected = Some(0);
    dialog.next_step();
    assert_eq!(dialog.db_user, "alice");
    assert_eq!(dialog.current_step, Step::DatabaseInput);
    assert!(dialog.to_connection_args().is_none());
}

fn assert_at_rest(dialog: &ConnectDialog) {
    assert_eq!(dialog.current_step, Step::UserSelection);
    assert_eq!(dialog.db_user, "");
    assert_eq!(dialog.db_name, "");
    assert_eq!(dialog.database_name_input.database_name, "");
    assert_eq!(dialog.database_name_input.cursor_index, 0);
    assert_eq!(*dialog.confirmation_toggle.get_selected(), ConfirmationOption::Yes);
    assert_eq!(dialog.ready_to_connect, None);
    assert!(dialog.selected_entry.is_none());
    assert!(dialog.user_list.items.is_empty());
    assert_eq!(dialog.user_list.selected, None);
}

#[test]
fn cancel_from_every_step_resets_everything() {
    let mut dialog = ConnectDialog::new();
    dialog.select_target("orders".to_string(), users());
    dialog.user_list.select_next();
    dialog.reset();
    assert_at_rest(&dialog);

    dialog.select_target("orders".to_string(), users());
    dialog.user_list.select_next();
    dialog.next_step();
    dialog.database_name_input.enter_char('p');
    assert_eq!(dialog.current_step, Step::DatabaseInput);
    dialog.reset();
    assert_at_rest(&dialog);

    dialog.select_target("orders".to_string(), users());
    dialog.user_list.select_next();
    dialog.next_step();
    dialog.database_name_input.enter_char('p');
    dialog.next_step();
    dialog.confirmation_toggle.toggle();
    assert_eq!(dialog.current_step, Step::Confirmation);
    dialog.reset();
    assert_at_rest(&dialog);
}

#[test]
fn set_database_name_state_takes_trimmed_buffer() {
    let mut dialog = ConnectDialog::new();
    dialog.database_name_input.enter_char(' ');
    dialog.database_name_input.enter_char('q');
    dialog.set_database_name_state();
    assert_eq!(dialog.db_name, "q");
}
