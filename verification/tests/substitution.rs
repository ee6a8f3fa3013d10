use line_editor::editor::{Action, Editor};
use line_editor::error::EditorError;
use line_editor::substitution::{split_fields, substitute_first};

fn with_line(line: &str) -> Editor {
    let mut editor = Editor::new();
    assert_eq!(editor.open_file("file.txt".to_string(), Some(line.to_string())).is_ok(), true);
    editor
}

fn single(line: &str) -> Result<Action, EditorError> {
    Ok(Action::Print(vec![line.to_string()]))
}

#[test]
fn substitute_replaces_only_the_first_occurrence() {
    let mut editor = with_line("foofoofoo");
    assert_eq!(editor.step("s/foo/bar"), single("barfoofoo"));
    assert_eq!(editor.buffer(), &vec!["barfoofoo".to_string()]);
    assert_eq!(editor.step("s/foo/bar"), single("barbarfoo"));
    assert_eq!(editor.buffer(), &vec!["barbarfoo".to_string()]);
    assert_eq!(editor.current(), 0);
}

#[test]
fn substitute_without_match_keeps_the_line() {
    let mut editor = with_line("hello world");
    assert_eq!(editor.step("s/xyz/abc"), single("hello world"));
    assert_eq!(editor.buffer(), &vec!["hello world".to_string()]);
}

#[test]
fn substitute_takes_the_pattern_literally() {
    let mut editor = with_line("abc a.c a+b (x) $1 [z] \\d");
    assert_eq!(editor.step("s/a.c/X"), single("abc X a+b (x) $1 [z] \\d"));
    assert_eq!(editor.step("s/a+b/Y"), single("abc X Y (x) $1 [z] \\d"));
    assert_eq!(editor.step("s/(x)/Z"), single("abc X Y Z $1 [z] \\d"));
    assert_eq!(editor.step("s/[z]/W"), single("abc X Y Z $1 W \\d"));
    assert_eq!(editor.step("s/\\d/V"), single("abc X Y Z $1 W V"));
    assert_eq!(editor.step("s/$1/U"), single("abc X Y Z U W V"));
}

#[test]
fn substitute_takes_the_replacement_literally() {
    let mut editor = with_line("one two");
    assert_eq!(editor.step("s/two/$0 $1 ${x}"), single("one $0 $1 ${x}"));
}

#[test]
fn substitute_with_empty_pattern_puts_replacement_first() {
    let mut editor = with_line("line");
    assert_eq!(editor.step("s//> "), single("> line"));
}

#[test]
fn substitute_with_empty_replacement_removes_the_match() {
    let mut editor = with_line("a-b-c");
    assert_eq!(editor.step("s/-/"), single("ab-c"));
    assert_eq!(editor.step("s/-//"), single("abc"));
}

#[test]
fn substitute_ignores_what_follows_a_third_delimiter() {
    let mut editor = with_line("a b c");
    assert_eq!(editor.step("s/b/x/g"), single("a x c"));
}

#[test]
fn substitute_works_on_text_beyond_ascii() {
    let mut editor = with_line("grüße, grüße");
    assert_eq!(editor.step("s/üß/ss"), single("grsse, grüße"));
}

#[test]
fn substitute_without_delimiters_is_rejected() {
    let mut editor = with_line("foo");
    for line in ["s", "s/foo", "sfoo", "s foo bar"] {
        assert_eq!(editor.step(line), Err(EditorError::MissingDelimiter), "{}", line);
        assert_eq!(editor.buffer(), &vec!["foo".to_string()]);
    }
}

#[test]
fn substitute_checks_delimiters_before_the_address() {
    let mut editor = Editor::new();
    assert_eq!(editor.step("s/foo"), Err(EditorError::MissingDelimiter));
    assert_eq!(editor.step("s/foo/bar"), Err(EditorError::InvalidAddress));
}

#[test]
fn substitute_first_replaces_leftmost_occurrence() {
    assert_eq!(substitute_first("foofoofoo", "foo", "bar"), Ok("barfoofoo".to_string()));
    assert_eq!(substitute_first("xaxbx", "x", ""), Ok("axbx".to_string()));
    assert_eq!(substitute_first("aaa", "aa", "b"), Ok("ba".to_string()));
    assert_eq!(substitute_first("", "a", "b"), Ok(String::new()));
    assert_eq!(substitute_first("", "", "b"), Ok("b".to_string()));
    assert_eq!(substitute_first("a*b", "*", "."), Ok("a.b".to_string()));
    assert_eq!(substitute_first("a#b c", "#b c", "~"), Ok("a~".to_string()));
}

#[test]
fn split_fields_cuts_at_delimiters() {
    let chars: Vec<char> = "s/foo/bar".chars().collect();
    assert_eq!(split_fields(&chars), Ok(("foo".to_string(), "bar".to_string())));
    let chars: Vec<char> = "s/foo/bar/rest/more".chars().collect();
    assert_eq!(split_fields(&chars), Ok(("foo".to_string(), "bar".to_string())));
    let chars: Vec<char> = "s//".chars().collect();
    assert_eq!(split_fields(&chars), Ok((String::new(), String::new())));
    let chars: Vec<char> = "s/only".chars().collect();
    assert_eq!(split_fields(&chars), Err(EditorError::MissingDelimiter));
}

#[test]
fn apply_replacement_takes_each_outcome() {
    let mut editor = with_line("old");
    assert_eq!(editor.apply_replacement(Err(EditorError::BadPattern)), Err(EditorError::BadPattern));
    assert_eq!(editor.buffer(), &vec!["old".to_string()]);
    assert_eq!(editor.apply_replacement(Ok("new".to_string())), single("new"));
    assert_eq!(editor.buffer(), &vec!["new".to_string()]);
    let mut empty = Editor::new();
    assert_eq!(empty.apply_replacement(Ok("new".to_string())), Err(EditorError::InvalidAddress));
    assert!(empty.buffer().is_empty());
}

#[test]
fn oversized_pattern_is_rejected_and_changes_nothing() {
    let mut editor = with_line("abab");
    let command = format!("s/{}/x", "ab".repeat(1_500_000));
    assert_eq!(editor.step(&command), Err(EditorError::BadPattern));
    assert_eq!(editor.buffer(), &vec!["abab".to_string()]);
    assert_eq!(editor.current(), 0);
    assert_eq!(editor.step("s/ab/x"), single("xab"));
}
