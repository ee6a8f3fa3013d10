use line_editor::editor::{Action, Editor};
use line_editor::error::EditorError;
use line_editor::model::{Mode, Placement};

fn lines(items: &[&str]) -> Vec<String> {
    items.iter().map(|s| s.to_string()).collect()
}

fn loaded(items: &[&str]) -> Editor {
    let mut editor = Editor::new();
    let size = editor.open_file("file.txt".to_string(), Some(items.join("\n")));
    assert!(size.is_ok());
    editor
}

fn feed(editor: &mut Editor, input: &[&str]) {
    for line in input {
        assert_eq!(editor.step(line), Ok(Action::Nothing));
    }
}

#[test]
fn new_editor_is_empty() {
    let editor = Editor::new();
    assert!(editor.buffer().is_empty());
    assert_eq!(editor.current(), 0);
    assert_eq!(editor.path(), "");
    assert_eq!(editor.remembered_command(), "");
    assert_eq!(editor.mode(), Mode::Idle);
    assert_eq!(editor.buffer_size(), 0);
    assert!(editor.is_well_formed());
}

#[test]
fn empty_line_is_ignored() {
    let mut editor = loaded(&["one", "two"]);
    assert_eq!(editor.step(""), Ok(Action::Nothing));
    assert_eq!(editor.buffer(), &lines(&["one", "two"]));
    assert_eq!(editor.current(), 1);
}

#[test]
fn print_leaves_buffer_and_cursor() {
    let mut editor = loaded(&["one", "two", "three"]);
    assert_eq!(editor.step("2"), Ok(Action::Print(lines(&["two"]))));
    assert_eq!(editor.step("p"), Ok(Action::Print(lines(&["two"]))));
    assert_eq!(editor.buffer(), &lines(&["one", "two", "three"]));
    assert_eq!(editor.current(), 1);
    assert_eq!(editor.mode(), Mode::Idle);
}

#[test]
fn print_current_line_matches_print_command() {
    let editor = loaded(&["one", "two"]);
    assert_eq!(editor.print_current_line(), Ok(Action::Print(lines(&["two"]))));
    assert_eq!(Editor::new().print_current_line(), Err(EditorError::InvalidAddress));
}

#[test]
fn dot_prints_current_line() {
    let mut editor = loaded(&["one", "two", "three"]);
    assert_eq!(editor.step("."), Ok(Action::Print(lines(&["three"]))));
    assert_eq!(editor.current(), 2);
}

#[test]
fn dollar_selects_last_line() {
    let mut editor = loaded(&["one", "two", "three"]);
    assert_eq!(editor.step("1"), Ok(Action::Print(lines(&["one"]))));
    assert_eq!(editor.step("$"), Ok(Action::Print(lines(&["three"]))));
    assert_eq!(editor.current(), 2);
}

#[test]
fn range_prints_lines_in_order_and_moves_cursor_to_start() {
    let mut editor = loaded(&["one", "two", "three", "four"]);
    assert_eq!(editor.step("2,4"), Ok(Action::Print(lines(&["two", "three", "four"]))));
    assert_eq!(editor.current(), 1);
    assert_eq!(editor.step(".,$"), Ok(Action::Print(lines(&["two", "three", "four"]))));
    assert_eq!(editor.step("1,1"), Ok(Action::Print(lines(&["one"]))));
    assert_eq!(editor.current(), 0);
    assert_eq!(editor.buffer(), &lines(&["one", "two", "three", "four"]));
}

#[test]
fn address_outside_buffer_is_invalid() {
    let mut editor = loaded(&["one", "two", "three"]);
    assert_eq!(editor.step("1"), Ok(Action::Print(lines(&["one"]))));
    for line in ["4", "0", "00", "99999999999999999999999999", "1,4", "0,2", "4,5", "3,1", "1,2,3"] {
        assert_eq!(editor.step(line), Err(EditorError::InvalidAddress), "{}", line);
        assert_eq!(editor.buffer(), &lines(&["one", "two", "three"]));
        assert_eq!(editor.current(), 0);
    }
}

#[test]
fn malformed_address_is_invalid() {
    let mut editor = loaded(&["one", "two", "three"]);
    for line in ["1x", ".x", "$$", "1,", "1,x", "1 ,2", "2-3", "$,", ".,,"] {
        assert_eq!(editor.step(line), Err(EditorError::InvalidAddress), "{}", line);
        assert_eq!(editor.current(), 2);
    }
}

#[test]
fn address_on_empty_buffer_is_invalid() {
    let mut editor = Editor::new();
    for line in [".", "$", "1", ".,$"] {
        assert_eq!(editor.step(line), Err(EditorError::InvalidAddress), "{}", line);
    }
    assert!(editor.buffer().is_empty());
    assert_eq!(editor.current(), 0);
}

#[test]
fn leading_zeros_are_digits() {
    let mut editor = loaded(&["one", "two", "three"]);
    assert_eq!(editor.step("002"), Ok(Action::Print(lines(&["two"]))));
    assert_eq!(editor.step("1,03"), Ok(Action::Print(lines(&["one", "two", "three"]))));
}

#[test]
fn append_adds_lines_after_cursor_in_order() {
    let mut editor = loaded(&["one", "two", "three"]);
    assert_eq!(editor.step("1"), Ok(Action::Print(lines(&["one"]))));
    feed(&mut editor, &["a"]);
    assert_eq!(editor.mode(), Mode::Capturing(Placement::After));
    feed(&mut editor, &["x", "y", "z", "."]);
    assert_eq!(editor.mode(), Mode::Idle);
    assert_eq!(editor.buffer(), &lines(&["one", "x", "y", "z", "two", "three"]));
    assert_eq!(editor.current(), 3);
}

#[test]
fn append_to_empty_buffer_starts_at_top() {
    let mut editor = Editor::new();
    feed(&mut editor, &["a", "x", "y", "z", "."]);
    assert_eq!(editor.buffer(), &lines(&["x", "y", "z"]));
    assert_eq!(editor.current(), 2);
}

#[test]
fn append_without_lines_changes_nothing() {
    let mut editor = loaded(&["one", "two"]);
    feed(&mut editor, &["a", "."]);
    assert_eq!(editor.buffer(), &lines(&["one", "two"]));
    assert_eq!(editor.current(), 1);
    assert_eq!(editor.mode(), Mode::Idle);
}

#[test]
fn capture_takes_commands_and_empty_lines_as_text() {
    let mut editor = Editor::new();
    feed(&mut editor, &["a", "q", "", "d", "..", "1,2", "."]);
    assert_eq!(editor.buffer(), &lines(&["q", "", "d", "..", "1,2"]));
    assert_eq!(editor.mode(), Mode::Idle);
}

#[test]
fn insert_puts_lines_before_cursor() {
    let mut editor = loaded(&["one", "two", "three"]);
    assert_eq!(editor.step("2"), Ok(Action::Print(lines(&["two"]))));
    feed(&mut editor, &["i"]);
    assert_eq!(editor.mode(), Mode::Capturing(Placement::Before));
    feed(&mut editor, &["x", "y", "."]);
    assert_eq!(editor.buffer(), &lines(&["one", "x", "y", "two", "three"]));
    assert_eq!(editor.current(), 3);
    assert_eq!(editor.step("p"), Ok(Action::Print(lines(&["two"]))));
}

#[test]
fn insert_into_empty_buffer_keeps_first_line_current() {
    let mut editor = Editor::new();
    feed(&mut editor, &["i", "x", "y", "z", "."]);
    assert_eq!(editor.buffer(), &lines(&["y", "z", "x"]));
    assert_eq!(editor.current(), 2);
}

#[test]
fn change_replaces_current_line_with_next_input() {
    let mut editor = loaded(&["one", "two", "three"]);
    assert_eq!(editor.step("2"), Ok(Action::Print(lines(&["two"]))));
    feed(&mut editor, &["c"]);
    assert_eq!(editor.mode(), Mode::Changing);
    feed(&mut editor, &["."]);
    assert_eq!(editor.mode(), Mode::Idle);
    assert_eq!(editor.buffer(), &lines(&["one", ".", "three"]));
    assert_eq!(editor.current(), 1);
    feed(&mut editor, &["c", ""]);
    assert_eq!(editor.buffer(), &lines(&["one", "", "three"]));
}

#[test]
fn delete_removes_current_line_and_keeps_index() {
    let mut editor = loaded(&["one", "two", "three"]);
    assert_eq!(editor.step("2"), Ok(Action::Print(lines(&["two"]))));
    feed(&mut editor, &["d"]);
    assert_eq!(editor.buffer(), &lines(&["one", "three"]));
    assert_eq!(editor.current(), 1);
    assert_eq!(editor.step("p"), Ok(Action::Print(lines(&["three"]))));
    feed(&mut editor, &["d"]);
    assert_eq!(editor.buffer(), &lines(&["one"]));
    assert_eq!(editor.current(), 1);
    assert_eq!(editor.step("p"), Err(EditorError::InvalidAddress));
    assert_eq!(editor.step("d"), Err(EditorError::InvalidAddress));
    assert_eq!(editor.buffer(), &lines(&["one"]));
}

#[test]
fn delete_on_single_line_buffer_then_print_is_invalid_address() {
    let mut editor = loaded(&["only"]);
    feed(&mut editor, &["d"]);
    assert!(editor.buffer().is_empty());
    assert_eq!(editor.step("p"), Err(EditorError::InvalidAddress));
    assert!(editor.is_well_formed());
}

#[test]
fn commands_on_empty_buffer_report_invalid_address() {
    let mut editor = Editor::new();
    for line in ["c", "d", "n", "p", "=", "s/a/b"] {
        assert_eq!(editor.step(line), Err(EditorError::InvalidAddress), "{}", line);
        assert!(editor.buffer().is_empty());
        assert_eq!(editor.mode(), Mode::Idle);
    }
}

#[test]
fn capture_is_refused_when_cursor_is_past_the_end() {
    let mut editor = loaded(&["one", "two"]);
    feed(&mut editor, &["d"]);
    assert_eq!(editor.current(), 1);
    assert_eq!(editor.step("a"), Err(EditorError::InvalidAddress));
    assert_eq!(editor.step("i"), Err(EditorError::InvalidAddress));
    assert_eq!(editor.mode(), Mode::Idle);
    assert_eq!(editor.buffer(), &lines(&["one"]));
}

#[test]
fn numbered_print_counts_from_one() {
    let mut editor = loaded(&["one", "two", "three"]);
    assert_eq!(editor.step("n"), Ok(Action::PrintNumbered(3, "three".to_string())));
    assert_eq!(editor.step("="), Ok(Action::PrintNumber(3)));
    assert_eq!(editor.step("1"), Ok(Action::Print(lines(&["one"]))));
    assert_eq!(editor.step("n"), Ok(Action::PrintNumbered(1, "one".to_string())));
    assert_eq!(editor.step("=anything"), Ok(Action::PrintNumber(1)));
}

#[test]
fn comment_is_ignored() {
    let mut editor = loaded(&["one"]);
    assert_eq!(editor.step("# a remark"), Ok(Action::Nothing));
    assert_eq!(editor.step("#"), Ok(Action::Nothing));
    assert_eq!(editor.buffer(), &lines(&["one"]));
}

#[test]
fn quit_ends_the_session() {
    let mut editor = loaded(&["one"]);
    assert_eq!(editor.step("q"), Ok(Action::Quit));
    assert_eq!(editor.buffer(), &lines(&["one"]));
}

#[test]
fn unknown_commands_are_reported() {
    let mut editor = loaded(&["one"]);
    for line in ["x", "aa", "ab", "cc", "dd", "e", "ex", "ii", "nn", "pp", "qq", "wx", "wqq", " p", "?", "P"] {
        assert_eq!(editor.step(line), Err(EditorError::UnknownCommand), "{}", line);
        assert_eq!(editor.buffer(), &lines(&["one"]));
        assert_eq!(editor.current(), 0);
    }
}

#[test]
fn open_command_asks_for_the_file() {
    let mut editor = Editor::new();
    assert_eq!(editor.step("e notes.txt"), Ok(Action::Load("notes.txt".to_string())));
    assert_eq!(editor.step("e "), Ok(Action::Load(String::new())));
    assert_eq!(editor.path(), "");
}

#[test]
fn open_file_replaces_buffer_and_puts_cursor_on_last_line() {
    let mut editor = loaded(&["old"]);
    let size = editor.open_file("notes.txt".to_string(), Some("one\ntwo\nthree\n".to_string()));
    assert_eq!(size, Ok(11));
    assert_eq!(editor.path(), "notes.txt");
    assert_eq!(editor.buffer(), &lines(&["one", "two", "three"]));
    assert_eq!(editor.current(), 2);
}

#[test]
fn open_file_with_empty_text_empties_the_buffer() {
    let mut editor = loaded(&["one", "two"]);
    assert_eq!(editor.open_file("empty.txt".to_string(), Some(String::new())), Ok(0));
    assert!(editor.buffer().is_empty());
    assert_eq!(editor.current(), 0);
    feed(&mut editor, &["a", "x", "y", "."]);
    assert_eq!(editor.buffer(), &lines(&["x", "y"]));
}

#[test]
fn failed_open_keeps_buffer_and_remembers_path() {
    let mut editor = loaded(&["one", "two"]);
    assert_eq!(editor.open_file("missing.txt".to_string(), None), Err(EditorError::LoadError));
    assert_eq!(editor.path(), "missing.txt");
    assert_eq!(editor.buffer(), &lines(&["one", "two"]));
    assert_eq!(editor.current(), 1);
}

#[test]
fn load_then_save_reproduces_the_text() {
    let mut editor = Editor::new();
    assert_eq!(editor.step("e three.txt"), Ok(Action::Load("three.txt".to_string())));
    assert_eq!(editor.open_file("three.txt".to_string(), Some("one\ntwo\nthree".to_string())), Ok(11));
    assert_eq!(editor.buffer(), &lines(&["one", "two", "three"]));
    assert_eq!(
        editor.step("w"),
        Ok(Action::Save {
            path: "three.txt".to_string(),
            content: "one\ntwo\nthree".to_string(),
            quit: false,
        })
    );
    assert_eq!(editor.buffer_size(), 11);
}

#[test]
fn save_without_path_is_rejected() {
    let mut editor = Editor::new();
    feed(&mut editor, &["a", "text", "."]);
    assert_eq!(editor.step("w"), Err(EditorError::SaveError));
    assert_eq!(editor.step("wq"), Err(EditorError::SaveError));
    assert_eq!(editor.step("w "), Err(EditorError::SaveError));
    assert_eq!(editor.save_file(false), Err(EditorError::SaveError));
    assert_eq!(editor.buffer(), &lines(&["text"]));
}

#[test]
fn save_as_remembers_the_path() {
    let mut editor = Editor::new();
    feed(&mut editor, &["a", "one", "two", "."]);
    assert_eq!(
        editor.step("w out.txt"),
        Ok(Action::Save { path: "out.txt".to_string(), content: "one\ntwo".to_string(), quit: false })
    );
    assert_eq!(editor.path(), "out.txt");
    assert_eq!(
        editor.step("w"),
        Ok(Action::Save { path: "out.txt".to_string(), content: "one\ntwo".to_string(), quit: false })
    );
    assert_eq!(
        editor.step("wq"),
        Ok(Action::Save { path: "out.txt".to_string(), content: "one\ntwo".to_string(), quit: true })
    );
}

#[test]
fn run_remembers_the_command() {
    let mut editor = Editor::new();
    assert_eq!(editor.step("r"), Err(EditorError::EmptyCommand));
    assert_eq!(editor.step("r ls -l"), Ok(Action::Run("ls -l".to_string())));
    assert_eq!(editor.remembered_command(), "ls -l");
    assert_eq!(editor.step("r"), Ok(Action::Run("ls -l".to_string())));
    assert_eq!(editor.step("rx"), Ok(Action::Run("ls -l".to_string())));
    assert_eq!(editor.step("r "), Err(EditorError::EmptyCommand));
    assert_eq!(editor.remembered_command(), "");
    assert_eq!(editor.step("r"), Err(EditorError::EmptyCommand));
}

#[test]
fn run_takes_what_follows_the_second_character() {
    let mut editor = Editor::new();
    assert_eq!(editor.step("rm -rf x"), Ok(Action::Run(" -rf x".to_string())));
}

#[test]
fn fatal_errors_are_save_and_shell() {
    assert!(EditorError::SaveError.is_fatal());
    assert!(EditorError::ShellError.is_fatal());
    assert!(!EditorError::LoadError.is_fatal());
    assert!(!EditorError::InvalidAddress.is_fatal());
    assert!(!EditorError::MissingDelimiter.is_fatal());
    assert!(!EditorError::EmptyCommand.is_fatal());
    assert!(!EditorError::UnknownCommand.is_fatal());
    assert!(!EditorError::BadPattern.is_fatal());
}

#[test]
fn messages_name_the_error() {
    assert_eq!(EditorError::InvalidAddress.message(), "Invalid address");
    assert_eq!(EditorError::MissingDelimiter.message(), "Missing pattern delimiter");
    assert_eq!(EditorError::EmptyCommand.message(), "Empty command");
    assert_eq!(EditorError::UnknownCommand.message(), "Unknown command");
}

#[test]
fn parse_line_number_resolves_tokens() {
    let mut editor = loaded(&["one", "two", "three"]);
    assert_eq!(editor.step("2"), Ok(Action::Print(lines(&["two"]))));
    assert_eq!(editor.parse_line_number("1"), Ok(0));
    assert_eq!(editor.parse_line_number("3"), Ok(2));
    assert_eq!(editor.parse_line_number("."), Ok(1));
    assert_eq!(editor.parse_line_number("$"), Ok(2));
    assert_eq!(editor.parse_line_number("0"), Err(EditorError::InvalidAddress));
    assert_eq!(editor.parse_line_number("4"), Err(EditorError::InvalidAddress));
    assert_eq!(editor.parse_line_number(""), Err(EditorError::InvalidAddress));
    assert_eq!(editor.parse_line_number("x"), Err(EditorError::InvalidAddress));
    assert_eq!(editor.parse_line_number("-1"), Err(EditorError::InvalidAddress));
    assert_eq!(editor.parse_line_number("18446744073709551616"), Err(EditorError::InvalidAddress));
    assert_eq!(editor.current(), 1);
}

#[test]
fn parse_address_resolves_single_tokens_and_ranges() {
    let editor = loaded(&["one", "two", "three"]);
    assert_eq!(editor.parse_address("2"), Ok((1, 1)));
    assert_eq!(editor.parse_address("1,3"), Ok((0, 2)));
    assert_eq!(editor.parse_address("1,$"), Ok((0, 2)));
    assert_eq!(editor.parse_address(".,."), Ok((2, 2)));
    assert_eq!(editor.parse_address("2,1"), Err(EditorError::InvalidAddress));
    assert_eq!(editor.parse_address("1,4"), Err(EditorError::InvalidAddress));
    assert_eq!(editor.parse_address(""), Err(EditorError::InvalidAddress));
}
