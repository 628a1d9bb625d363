use moonflare::moon_output::{extract_moon_main_error, find_error_span, MoonCommandFailure};
use moonflare::names::{validate_workspace_name, InvalidWorkspaceName};
use moonflare::title::to_title_case;

fn suggestions(name: &str) -> Vec<String> {
    match validate_workspace_name(name) {
        Err(InvalidWorkspaceName { name: n, span_offset, span_len, suggestions }) => {
            assert_eq!(n, name);
            assert_eq!((span_offset, span_len), (0, name.len()));
            suggestions
        }
        Ok(()) => panic!("{} should be refused", name),
    }
}

#[test]
fn valid_workspace_names_pass() {
    for name in ["my-app", "website", "api-server", "my_project", "project123", "123"] {
        assert_eq!(validate_workspace_name(name), Ok(()));
    }
}

#[test]
fn empty_name_suggests_my_app() {
    assert_eq!(suggestions(""), vec!["my-app".to_string()]);
}

#[test]
fn uppercase_name_suggests_lowercase() {
    assert_eq!(suggestions("UPPERCASE"), vec!["uppercase".to_string()]);
}

#[test]
fn spaces_become_dashes() {
    assert_eq!(suggestions("project with spaces"), vec!["project-with-spaces".to_string()]);
    assert_eq!(suggestions("project@with@at"), vec!["project-with-at".to_string()]);
}

#[test]
fn edge_and_double_dashes_are_fixed() {
    assert_eq!(suggestions("-starts-with-dash"), vec!["starts-with-dash".to_string()]);
    assert_eq!(suggestions("ends-with-dash-"), vec!["ends-with-dash".to_string()]);
    assert_eq!(suggestions("double--dash"), vec!["double-dash".to_string()]);
}

#[test]
fn suggestions_are_sorted_without_repeats() {
    assert_eq!(suggestions("-Ab-"), vec!["Ab".to_string(), "ab".to_string()]);
    assert_eq!(suggestions("-a--b-"), vec!["-a-b-".to_string(), "a--b".to_string()]);
    assert_eq!(suggestions("-ab-"), vec!["ab".to_string()]);
}

#[test]
fn long_name_suggests_first_fifty_characters() {
    let name = "a".repeat(101);
    assert_eq!(suggestions(&name), vec!["a".repeat(50)]);
    assert_eq!(validate_workspace_name(&"a".repeat(100)), Ok(()));
}

#[test]
fn name_of_only_dashes_suggests_my_project() {
    assert_eq!(suggestions("---"), vec!["--".to_string()]);
    assert_eq!(suggestions("-"), vec!["my-project".to_string()]);
}

#[test]
fn title_case_capitalises_after_separators() {
    assert_eq!(to_title_case("user_sessions"), "User_Sessions");
    assert_eq!(to_title_case("my-counter"), "My-Counter");
    assert_eq!(to_title_case("cOUNTER"), "Counter");
    assert_eq!(to_title_case(""), "");
}

#[test]
fn main_error_of_empty_output() {
    assert_eq!(extract_moon_main_error("  \n "), "See error details above");
}

#[test]
fn main_error_strips_error_marker() {
    let out = "\u{250c} frame\n\u{2502} noise\n  error:   project not found  \nmore";
    assert_eq!(extract_moon_main_error(out), "project not found");
}

#[test]
fn main_error_finds_failed_task() {
    assert_eq!(extract_moon_main_error("starting\nthe task build failed\n"), "the task build failed");
    assert_eq!(extract_moon_main_error("ok\nFailed to spawn\n"), "Failed to spawn");
    assert_eq!(extract_moon_main_error("Invalid config\n"), "Invalid config");
}

#[test]
fn main_error_falls_back_to_first_plain_line() {
    assert_eq!(extract_moon_main_error("\u{256d} box\n  something happened \n"), "something happened");
    assert_eq!(extract_moon_main_error("\u{2570}\n\u{256d}\n"), "Command execution failed");
}

#[test]
fn error_span_covers_the_marked_line() {
    let out = "line one\nsee Error: bad thing\nlast";
    assert_eq!(find_error_span(out), Some((13, 16)));
    assert_eq!(find_error_span("nothing here"), None);
    assert_eq!(find_error_span("PANIC: x"), Some((0, 8)));
}

#[test]
fn command_failure_keeps_output_only_when_present() {
    let f = MoonCommandFailure::moon_command_failed("run app:build", "", Some(1));
    assert_eq!(f.main_error, "See error details above");
    assert_eq!(f.stderr_output, None);
    assert_eq!(f.error_span, None);
    let g = MoonCommandFailure::moon_command_failed("run", "error: boom", None);
    assert_eq!(g.main_error, "boom");
    assert_eq!(g.stderr_output, Some("error: boom".to_string()));
    assert_eq!(g.error_span, Some((0, 11)));
}
