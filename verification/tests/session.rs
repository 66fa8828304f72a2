use monster_shell::command::{AccessLevel, ShellCommands};
use monster_shell::interpreter::{Hostname, BACKSPACE, HELP_KEY};
use monster_shell::position::{CurrentPosition, SHELL_WIDTH};
use monster_shell::screen::ShellData;
use monster_shell::session::ShellModel;

fn cursor(data: &ShellData) -> (usize, usize) {
    (data.cursor().row(), data.cursor().col())
}

fn row(data: &ShellData, row: usize) -> String {
    data.snapshot()[row].trim_end().to_string()
}

/// The characters in the cells from the given one on, in reading order.
fn text_from(data: &ShellData, row: usize, col: usize, length: usize) -> String {
    let mut position = CurrentPosition::at(row, col).expect("a cell of the grid");
    let mut text = String::new();
    for _ in 0..length {
        text.push(data.get(position));
        position.step_forward();
    }
    text
}

/// A session that has printed its first prompt.
fn session_with_prompt(hostname: &str) -> ShellModel {
    let mut session = ShellModel::new(hostname);
    session.handle_input("", true);
    session
}

#[test]
fn keys() {
    assert_eq!(BACKSPACE, '\u{8}');
    assert_eq!(HELP_KEY, '?');
}

#[test]
fn prompt_shows_the_host_and_the_level() {
    let host = Hostname("test01".to_string());
    assert_eq!(host.prompt(AccessLevel::User), "test01> ");
    assert_eq!(host.prompt(AccessLevel::Admin), "test01# ");
}

#[test]
fn new_session_is_a_user_with_an_empty_screen() {
    let session = ShellModel::new("test01");
    assert_eq!(session.hostname, Hostname("test01".to_string()));
    assert_eq!(session.access_level, AccessLevel::User);
    assert!(!session.selected);
    assert_eq!(cursor(&session.shell_data), (0, 0));
    assert!(session.shell_data.snapshot().iter().all(|row| row.trim().is_empty()));
    assert_eq!(session.prompt(), "test01> ");
}

#[test]
fn enter_on_an_empty_screen_prints_a_blank_line_and_the_prompt() {
    let session = session_with_prompt("test01");
    assert_eq!(row(&session.shell_data, 0), "");
    assert_eq!(row(&session.shell_data, 1), "");
    assert_eq!(row(&session.shell_data, 2), "test01>");
    assert_eq!(cursor(&session.shell_data), (2, 8));
    assert_eq!(session.access_level, AccessLevel::User);
}

#[test]
fn typed_characters_are_written_at_the_cursor() {
    let mut session = session_with_prompt("test01");
    session.handle_input("sh", false);
    session.handle_input("ow", false);
    assert_eq!(row(&session.shell_data, 2), "test01> show");
    assert_eq!(cursor(&session.shell_data), (2, 12));
    assert_eq!(session.access_level, AccessLevel::User);
}

#[test]
fn a_tick_without_input_changes_nothing() {
    let mut session = session_with_prompt("test01");
    session.handle_input("abc", false);
    let before = session.shell_data.snapshot();
    session.handle_input("", false);
    assert_eq!(session.shell_data.snapshot(), before);
    assert_eq!(cursor(&session.shell_data), (2, 11));
}

#[test]
fn backspace_erases_the_last_character() {
    let mut session = session_with_prompt("test01");
    session.handle_input("logim\u{8}n", false);
    assert_eq!(row(&session.shell_data, 2), "test01> login");
    assert_eq!(cursor(&session.shell_data), (2, 13));
}

#[test]
fn session_login_then_logout_then_logout() {
    let mut session = session_with_prompt("test01");

    session.handle_input("login", true);
    assert_eq!(session.access_level, AccessLevel::Admin);
    assert_eq!(row(&session.shell_data, 2), "test01> login");
    assert_eq!(row(&session.shell_data, 3), "logged in");
    assert_eq!(row(&session.shell_data, 4), "test01#");
    assert_eq!(cursor(&session.shell_data), (4, 8));

    session.handle_input("logout", true);
    assert_eq!(session.access_level, AccessLevel::User);
    assert_eq!(row(&session.shell_data, 4), "test01# logout");
    assert_eq!(row(&session.shell_data, 5), "logged out");
    assert_eq!(row(&session.shell_data, 6), "test01>");

    session.handle_input("logout", true);
    assert_eq!(session.access_level, AccessLevel::User);
    assert_eq!(row(&session.shell_data, 6), "test01> logout");
    assert_eq!(row(&session.shell_data, 7), "command not found");
    assert_eq!(row(&session.shell_data, 8), "test01>");
}

#[test]
fn second_login_is_not_found_on_the_screen() {
    let mut session = session_with_prompt("test01");
    session.handle_input("login", true);
    session.handle_input("login", true);
    assert_eq!(session.access_level, AccessLevel::Admin);
    assert_eq!(row(&session.shell_data, 5), "command not found");
}

#[test]
fn the_line_may_arrive_over_several_ticks() {
    let mut session = session_with_prompt("test01");
    session.handle_input("lo", false);
    session.handle_input("g", false);
    session.handle_input("in", false);
    session.handle_input("", true);
    assert_eq!(session.access_level, AccessLevel::Admin);
    assert_eq!(row(&session.shell_data, 3), "logged in");
}

#[test]
fn the_prompt_is_not_part_of_the_line() {
    let mut session = session_with_prompt("login");
    session.handle_input("", true);
    assert_eq!(session.access_level, AccessLevel::User);
    assert_eq!(row(&session.shell_data, 2), "login>");
    assert_eq!(row(&session.shell_data, 3), "");
    assert_eq!(row(&session.shell_data, 4), "login>");
}

#[test]
fn a_line_typed_before_any_prompt_loses_its_first_characters() {
    let mut session = ShellModel::new("ab");
    session.handle_input("xxxxlogin", true);
    assert_eq!(session.access_level, AccessLevel::Admin);
    assert_eq!(row(&session.shell_data, 0), "xxxxlogin");
    assert_eq!(row(&session.shell_data, 1), "logged in");
    assert_eq!(row(&session.shell_data, 2), "ab#");
}

#[test]
fn errors_are_printed_on_the_screen() {
    let mut session = session_with_prompt("test01");
    session.handle_input("frobnicate", true);
    assert_eq!(row(&session.shell_data, 3), "error: unknown command 'frobnicate'");
    session.handle_input("show", true);
    assert_eq!(row(&session.shell_data, 5), "error: not enough arguments, expected 1");
    session.handle_input("show version", true);
    assert_eq!(row(&session.shell_data, 7), "error: unknown property");
    assert_eq!(session.access_level, AccessLevel::User);
}

#[test]
fn admin_commands_as_user_are_not_found() {
    let mut session = session_with_prompt("test01");
    session.handle_input("update 2.0", true);
    assert_eq!(row(&session.shell_data, 3), "command not found");
    session.handle_input("save a b", true);
    assert_eq!(row(&session.shell_data, 5), "command not found");
}

#[test]
fn admin_commands_as_admin() {
    let mut session = session_with_prompt("test01");
    session.handle_input("login", true);
    session.handle_input("update 2.0", true);
    assert_eq!(row(&session.shell_data, 5), "updated to version 2.0");
    session.handle_input("save conf.in conf.out", true);
    assert_eq!(row(&session.shell_data, 7), "saved 'conf.in' to 'conf.out'");
    assert_eq!(row(&session.shell_data, 8), "test01#");
    assert_eq!(session.access_level, AccessLevel::Admin);
}

#[test]
fn clear_empties_the_screen_before_the_prompt() {
    let mut session = session_with_prompt("test01");
    session.handle_input("login", true);
    session.handle_input("clear", true);
    assert_eq!(session.access_level, AccessLevel::Admin);
    let rows = session.shell_data.snapshot();
    for (index, row) in rows.iter().enumerate() {
        if index == 2 {
            assert_eq!(row.trim_end(), "test01#");
        } else {
            assert_eq!(row.trim_end(), "");
        }
    }
    assert_eq!(cursor(&session.shell_data), (2, 8));
}

#[test]
fn question_mark_lists_the_user_commands() {
    let mut session = session_with_prompt("test01");
    session.handle_input("?", false);
    let listing = ShellCommands::describe(AccessLevel::User, "");
    let length = listing.chars().count();
    assert_eq!(text_from(&session.shell_data, 2, 8, length), listing);
    assert_eq!(
        text_from(&session.shell_data, 2, 8, length),
        "These are the available commands: \n\
         - login (elevates permissions if access card is valid)\n\
         - clear (clears the screen)\n\
         - show <property>"
    );
    assert_eq!(cursor(&session.shell_data), ((8 + length) / SHELL_WIDTH + 2, (8 + length) % SHELL_WIDTH));
    assert_eq!(session.access_level, AccessLevel::User);
}

#[test]
fn question_mark_lists_the_admin_commands() {
    let mut session = session_with_prompt("test01");
    session.handle_input("login", true);
    session.handle_input("?", false);
    let length = ShellCommands::describe(AccessLevel::Admin, "").chars().count();
    assert_eq!(
        text_from(&session.shell_data, 4, 8, length),
        "These are the available commands: \n\
         - update <version>\n\
         - save <in-file> <out-file>\n\
         - show <property>\n\
         - clear (clears the screen)\n\
         - logout (deelevates permissions)"
    );
}

#[test]
fn question_mark_is_not_written() {
    let mut session = session_with_prompt("test01");
    session.handle_input("?", false);
    assert!(session.shell_data.snapshot().iter().all(|row| !row.contains('?')));
}

#[test]
fn question_mark_filters_by_the_line_typed_so_far() {
    let mut session = session_with_prompt("test01");
    session.handle_input("lo?", false);
    let listing = ShellCommands::describe(AccessLevel::User, "lo");
    assert_eq!(
        listing,
        "These are the available commands: \n- login (elevates permissions if access card is valid)"
    );
    assert_eq!(text_from(&session.shell_data, 2, 8, 2), "lo");
    assert_eq!(text_from(&session.shell_data, 2, 10, listing.chars().count()), listing);
}

#[test]
fn the_screen_wraps_to_the_top_after_the_last_row() {
    let mut session = ShellModel::new("h");
    for _ in 0..12 {
        session.handle_input("", true);
    }
    assert_eq!(cursor(&session.shell_data), (0, 3));
    assert_eq!(row(&session.shell_data, 0), "h>");
    assert_eq!(row(&session.shell_data, 22), "h>");
}

#[test]
fn process_reads_the_line_and_sets_the_level() {
    let host = Hostname("test01".to_string());
    let mut level = AccessLevel::User;
    let mut data = ShellData::new();
    data.write_str("test01> login");
    ShellCommands::process(&mut level, &mut data, &host);
    assert_eq!(level, AccessLevel::Admin);
    assert_eq!(row(&data, 1), "logged in");
    assert_eq!(row(&data, 2), "test01#");
    assert_eq!(cursor(&data), (2, 8));
}

#[test]
fn insert_applies_each_character() {
    let mut data = ShellData::new();
    data.write_str("$ ");
    data.insert("ab\u{8}c", AccessLevel::User, 2);
    assert_eq!(row(&data, 0), "$ ac");
    data.key('d', AccessLevel::User, 2);
    assert_eq!(row(&data, 0), "$ acd");
    data.key(BACKSPACE, AccessLevel::User, 2);
    assert_eq!(row(&data, 0), "$ ac");
}
