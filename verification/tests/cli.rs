//! The command-line scenarios of `body`, held against the library: the
//! decision taken from the arguments, the header printed, and the body that
//! is handed on to the command. What the command itself then prints (the
//! sorting, filtering, counting) is the command's own work.

use body::count::MAX_HEADER_COUNT;
use body::header::{take_header, HeaderReader, ReadEvent};
use body::help::help_text;
use body::invocation::{default_command, plan_invocation, Invocation, InvocationError};
use body::status::{exit_status, help_exit_status, CommandOutcome};

struct Run {
    header_lines: u64,
    command: Vec<String>,
    uses_default: bool,
}

fn plan(args: &[&str], setting: Option<&str>) -> Result<Invocation, InvocationError> {
    let args: Vec<String> = args.iter().map(|a| a.to_string()).collect();
    let default = default_command(setting.map(|s| s.to_string()));
    plan_invocation(&args, false, &default)
}

fn run_plan(args: &[&str], setting: Option<&str>) -> Run {
    match plan(args, setting) {
        Ok(Invocation::Run { header_lines, command, uses_default }) => {
            Run { header_lines, command, uses_default }
        }
        Ok(Invocation::ShowHelp { .. }) => panic!("expected a run, got the usage text"),
        Err(e) => panic!("expected a run, got {:?}", e),
    }
}

/// The header printed and the body handed on, for `stdin`.
fn split(stdin: &str, lines: u64) -> (String, String) {
    let (header, taken) = take_header(stdin.as_bytes(), lines);
    (
        String::from_utf8(header).unwrap(),
        String::from_utf8(stdin.as_bytes()[taken..].to_vec()).unwrap(),
    )
}

#[test]
fn default_keeps_one_line_header_and_sorts_the_rest() {
    let run = run_plan(&[], None);
    assert_eq!(run.header_lines, 1);
    assert_eq!(run.command, vec!["sort"]);
    assert!(run.uses_default);
    let (header, body) = split("header\nc\na\nb\n", run.header_lines);
    assert_eq!(header, "header\n");
    assert_eq!(body, "c\na\nb\n");
}

#[test]
fn n_header_lines_are_preserved_with_a_custom_command() {
    let run = run_plan(&["2", "sort", "-r"], None);
    assert_eq!(run.header_lines, 2);
    assert_eq!(run.command, vec!["sort", "-r"]);
    assert!(!run.uses_default);
    let (header, body) = split("h1\nh2\nc\na\nb\n", run.header_lines);
    assert_eq!(header, "h1\nh2\n");
    assert_eq!(body, "c\na\nb\n");
}

#[test]
fn zero_header_lines_passes_everything_straight_through() {
    let run = run_plan(&["0", "sort"], None);
    assert_eq!(run.header_lines, 0);
    assert_eq!(run.command, vec!["sort"]);
    let (header, body) = split("c\na\nb\n", run.header_lines);
    assert_eq!(header, "");
    assert_eq!(body, "c\na\nb\n");
}

#[test]
fn zero_header_lines_does_not_steal_lines_from_the_body() {
    let run = run_plan(&["0", "wc", "-l"], None);
    assert_eq!(run.command, vec!["wc", "-l"]);
    let (header, body) = split("one\ntwo\nthree\n", run.header_lines);
    assert_eq!(header, "");
    assert_eq!(body.lines().count(), 3);
}

#[test]
fn fewer_lines_than_requested_header_count_does_not_hang_or_error() {
    let run = run_plan(&["5", "sort"], None);
    assert_eq!(run.header_lines, 5);
    let (header, body) = split("only-one\n", run.header_lines);
    assert_eq!(header, "only-one\n");
    assert_eq!(body, "");
}

#[test]
fn command_with_its_own_arguments_works_alongside_a_preserved_header() {
    let run = run_plan(&["1", "grep", "-v", "banana"], None);
    assert_eq!(run.command, vec!["grep", "-v", "banana"]);
    let (header, body) = split("header\nbanana\napple\ncherry\n", run.header_lines);
    assert_eq!(header, "header\n");
    assert_eq!(body, "banana\napple\ncherry\n");
}

#[test]
fn no_piped_input_prints_an_error_and_usage_and_exits_non_zero() {
    let args: Vec<String> = Vec::new();
    match plan_invocation(&args, true, "sort") {
        Ok(Invocation::ShowHelp { refused }) => {
            assert!(refused);
            assert_eq!(help_exit_status(refused), 1);
        }
        _ => panic!("expected the usage text"),
    }
    assert!(help_text("sort").contains("USAGE:"));
}

#[test]
fn help_prints_usage_and_exits_zero_when_input_is_piped() {
    match plan(&["-h"], None) {
        Ok(Invocation::ShowHelp { refused }) => {
            assert!(!refused);
            assert_eq!(help_exit_status(refused), 0);
        }
        _ => panic!("expected the usage text"),
    }
    assert!(help_text("sort").contains("USAGE:"));
}

#[test]
fn missing_command_falls_back_to_sort_and_announces_it_on_stderr() {
    assert_eq!(default_command(None), "sort");
    let run = run_plan(&[], None);
    assert!(run.uses_default);
    assert_eq!(run.command, vec!["sort"]);
}

#[test]
fn body_default_command_env_var_overrides_the_default() {
    assert_eq!(default_command(Some("rev".to_string())), "rev");
    let run = run_plan(&[], Some("rev"));
    assert!(run.uses_default);
    assert_eq!(run.command, vec!["rev"]);
    let (header, body) = split("header\nabc\n", run.header_lines);
    assert_eq!(header, "header\n");
    assert_eq!(body, "abc\n");
}

#[test]
fn body_default_command_env_var_with_arguments_is_word_split() {
    let run = run_plan(&[], Some("sort -r"));
    assert_eq!(run.command, vec!["sort", "-r"]);
    let (header, body) = split("header\na\nc\nb\n", run.header_lines);
    assert_eq!(header, "header\n");
    assert_eq!(body, "a\nc\nb\n");
}

#[test]
fn body_default_command_env_var_is_ignored_when_a_command_is_given() {
    let run = run_plan(&["1", "sort"], Some("rev"));
    assert!(!run.uses_default);
    assert_eq!(run.command, vec!["sort"]);
    let (header, body) = split("header\nc\na\nb\n", run.header_lines);
    assert_eq!(header, "header\n");
    assert_eq!(body, "c\na\nb\n");
}

#[test]
fn unknown_command_exits_127_like_a_shell_would() {
    let run = run_plan(&["1", "totally_not_a_real_command"], None);
    assert_eq!(run.command, vec!["totally_not_a_real_command"]);
    assert_eq!(exit_status(CommandOutcome::NotFound), 127);
}

#[test]
fn leading_zero_header_count_is_interpreted_as_decimal_not_octal() {
    let run = run_plan(&["010", "sort"], None);
    assert_eq!(run.header_lines, 10);
    let (header, body) = split(
        "h01\nh02\nh03\nh04\nh05\nh06\nh07\nh08\nh09\nh10\ncharlie\nalpha\nbravo\n",
        run.header_lines,
    );
    assert_eq!(header, "h01\nh02\nh03\nh04\nh05\nh06\nh07\nh08\nh09\nh10\n");
    assert_eq!(body, "charlie\nalpha\nbravo\n");
}

#[test]
fn header_count_at_the_i64_boundary_is_accepted() {
    let run = run_plan(&["9223372036854775807", "sort"], None);
    assert_eq!(run.header_lines, 9223372036854775807);
    assert_eq!(run.header_lines, MAX_HEADER_COUNT);
    let (header, body) = split("only-one\n", run.header_lines);
    assert_eq!(header, "only-one\n");
    assert_eq!(body, "");
}

#[test]
fn header_count_that_overflows_is_rejected_with_a_clear_error() {
    match plan(&["99999999999999999999999999", "sort"], None) {
        Err(e) => assert_eq!(e, InvocationError::HeaderCountTooLarge),
        Ok(_) => panic!("expected the header count to be refused"),
    }
}

#[test]
fn unterminated_final_header_line_is_still_printed() {
    let run = run_plan(&["1", "sort"], None);
    let (header, body) = split("header", run.header_lines);
    assert_eq!(header, "header\n");
    assert_eq!(body, "");
}

#[test]
fn body_default_command_that_is_only_whitespace_is_rejected_with_a_clear_error() {
    assert_eq!(default_command(Some("   ".to_string())), "   ");
    match plan(&[], Some("   ")) {
        Err(e) => assert_eq!(e, InvocationError::BlankDefaultCommand),
        Ok(_) => panic!("expected the blank default command to be refused"),
    }
}

#[test]
fn a_genuine_stdin_read_error_is_reported_not_silently_treated_as_eof() {
    let mut reader = HeaderReader::new(1);
    assert!(reader.wants_input());
    assert!(!reader.has_failed());
    let out = reader.feed(ReadEvent::Failed);
    assert!(out.is_empty());
    assert!(reader.has_failed());
    assert!(!reader.wants_input());

    let mut at_end = HeaderReader::new(1);
    at_end.feed(ReadEvent::EndOfInput);
    assert!(!at_end.has_failed());
}
