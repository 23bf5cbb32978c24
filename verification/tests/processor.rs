use catr::config::{default_files, Config};
use catr::process::{diagnostic, process_files, process_lines, run_on_inputs, SourceOutcome};
use catr::render::{is_space, line_is_blank, render_one_line, Policy};

fn lines(xs: &[&str]) -> Vec<String> {
    xs.iter().map(|x| x.to_string()).collect()
}

#[test]
fn plain_output_is_verbatim() {
    let input = lines(&["one", "two"]);
    let out = process_lines(Policy::Plain, &input);
    assert_eq!(out, lines(&["one", "two"]));
}

#[test]
fn plain_keeps_blank_and_whitespace_lines() {
    let input = lines(&["", "  ", "x"]);
    let out = process_lines(Policy::Plain, &input);
    assert_eq!(out, lines(&["", "  ", "x"]));
}

#[test]
fn number_all_two_lines() {
    let input = lines(&["x", "y"]);
    let out = process_lines(Policy::NumberAll, &input);
    assert_eq!(out, lines(&["     1\tx", "     2\ty"]));
}

#[test]
fn number_all_numbers_blank_lines_too() {
    let input = lines(&["a", "", "b"]);
    let out = process_lines(Policy::NumberAll, &input);
    assert_eq!(out, lines(&["     1\ta", "     2\t", "     3\tb"]));
}

#[test]
fn number_all_right_aligns_two_digits() {
    let input = lines(&["a", "b", "c", "d", "e", "f", "g", "h", "i", "j"]);
    let out = process_lines(Policy::NumberAll, &input);
    assert_eq!(out[0], "     1\ta");
    assert_eq!(out[9], "    10\tj");
}

#[test]
fn number_nonblank_hello_world() {
    let input = lines(&["hello", "", "world"]);
    let out = process_lines(Policy::NumberNonblank, &input);
    assert_eq!(out, lines(&["     1\thello", "", "     2\tworld"]));
}

#[test]
fn number_nonblank_empties_whitespace_only_lines() {
    let input = lines(&["  \t ", "a"]);
    let out = process_lines(Policy::NumberNonblank, &input);
    assert_eq!(out, lines(&["", "     1\ta"]));
}

#[test]
fn empty_file_renders_to_nothing() {
    let input: Vec<String> = Vec::new();
    assert_eq!(process_lines(Policy::Plain, &input), Vec::<String>::new());
    assert_eq!(process_lines(Policy::NumberAll, &input), Vec::<String>::new());
    assert_eq!(
        process_lines(Policy::NumberNonblank, &input),
        Vec::<String>::new()
    );
}

#[test]
fn plain_round_trip_concatenation() {
    let a = lines(&["one", "two"]);
    let b = lines(&["three"]);
    let together = process_files(Policy::Plain, &vec![a.clone(), b.clone()]);
    let mut separate = process_lines(Policy::Plain, &a);
    separate.extend(process_lines(Policy::Plain, &b));
    assert_eq!(together, separate);
    let mut joined = a.clone();
    joined.extend(b.clone());
    assert_eq!(together, process_lines(Policy::Plain, &joined));
}

#[test]
fn number_all_resets_counter_per_file() {
    let files = vec![lines(&["a", "b"]), lines(&["c"])];
    let out = process_files(Policy::NumberAll, &files);
    assert_eq!(out, lines(&["     1\ta", "     2\tb", "     1\tc"]));
}

#[test]
fn number_nonblank_resets_counter_per_file() {
    let files = vec![lines(&["a", ""]), lines(&["", "c"])];
    let out = process_files(Policy::NumberNonblank, &files);
    assert_eq!(out, lines(&["     1\ta", "", "", "     1\tc"]));
}

#[test]
fn run_isolates_open_failures() {
    let config = Config::new(lines(&["missing.txt", "a.txt"]), false, false);
    let inputs = vec![
        SourceOutcome::OpenFailed("No such file or directory (os error 2)".to_string()),
        SourceOutcome::Opened(lines(&["hi"])),
    ];
    let r = run_on_inputs(&config, &inputs);
    assert_eq!(r.lines, lines(&["hi"]));
    assert_eq!(
        r.diagnostics,
        lines(&["Failed to open missing.txt: No such file or directory (os error 2)"])
    );
}

#[test]
fn run_with_no_openable_input_emits_nothing() {
    let config = Config::new(lines(&["a", "b"]), true, false);
    let inputs = vec![
        SourceOutcome::OpenFailed("permission denied".to_string()),
        SourceOutcome::OpenFailed("is a directory".to_string()),
    ];
    let r = run_on_inputs(&config, &inputs);
    assert_eq!(r.lines, Vec::<String>::new());
    assert_eq!(
        r.diagnostics,
        lines(&[
            "Failed to open a: permission denied",
            "Failed to open b: is a directory"
        ])
    );
}

#[test]
fn default_files_empty_gives_stdin_token() {
    let defaulted = default_files(Vec::new());
    assert_eq!(defaulted, lines(&["-"]));
    let kept = default_files(lines(&["a.txt", "-"]));
    assert_eq!(kept, lines(&["a.txt", "-"]));
}

#[test]
fn plain_run_over_piped_input_is_unchanged() {
    let config = Config::new(default_files(Vec::new()), false, false);
    let inputs = vec![SourceOutcome::Opened(lines(&["one", "two"]))];
    let r = run_on_inputs(&config, &inputs);
    assert_eq!(r.lines, lines(&["one", "two"]));
    assert_eq!(r.diagnostics, Vec::<String>::new());
}

#[test]
fn render_one_line_threads_the_counter() {
    let (out, c) = render_one_line(Policy::NumberAll, 0, "x");
    assert_eq!(out, "     1\tx");
    assert_eq!(c, 1);
    let (out, c) = render_one_line(Policy::NumberNonblank, 3, "  ");
    assert_eq!(out, "");
    assert_eq!(c, 3);
    let (out, c) = render_one_line(Policy::NumberNonblank, 3, "next");
    assert_eq!(out, "     4\tnext");
    assert_eq!(c, 4);
    let (out, c) = render_one_line(Policy::Plain, 0, "as is");
    assert_eq!(out, "as is");
    assert_eq!(c, 0);
}

#[test]
fn wide_counters_outgrow_the_field() {
    let (out, _) = render_one_line(Policy::NumberAll, 99998, "a");
    assert_eq!(out, " 99999\ta");
    let (out, _) = render_one_line(Policy::NumberAll, 99999, "a");
    assert_eq!(out, "100000\ta");
    let (out, _) = render_one_line(Policy::NumberAll, 9999999, "a");
    assert_eq!(out, "10000000\ta");
}

#[test]
fn blankness_follows_unicode_whitespace() {
    assert!(line_is_blank(""));
    assert!(line_is_blank("   "));
    assert!(line_is_blank(" \t\r"));
    assert!(line_is_blank("\u{3000}\u{2028}"));
    assert!(!line_is_blank("a"));
    assert!(!line_is_blank("  a  "));
    assert!(!line_is_blank("\u{200B}"));
    assert!(is_space(' '));
    assert!(is_space('\u{1680}'));
    assert!(!is_space('_'));
    assert!(!is_space('\u{200B}'));
}

#[test]
fn config_selects_the_policy_once() {
    let plain = Config::new(lines(&["-"]), false, false);
    assert_eq!(plain.policy(), Policy::Plain);
    assert!(!plain.number_lines());
    assert!(!plain.number_nonblank_lines());
    let all = Config::new(lines(&["-"]), true, false);
    assert_eq!(all.policy(), Policy::NumberAll);
    assert!(all.number_lines());
    let nonblank = Config::new(lines(&["-"]), false, true);
    assert_eq!(nonblank.policy(), Policy::NumberNonblank);
    assert!(nonblank.number_nonblank_lines());
    assert_eq!(all.files(), &lines(&["-"]));
}

#[test]
fn diagnostic_names_file_and_cause() {
    assert_eq!(
        diagnostic("data.txt", "permission denied"),
        "Failed to open data.txt: permission denied"
    );
}
