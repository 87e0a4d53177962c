use textstream::catr::{
    emit_numbered, get_args, number_lines, run, Config, EmissionState, NumberingMode,
};
use textstream::report::ConfigurationError;
use textstream::source::{Reading, Stage};

fn lines(texts: &[&str]) -> Vec<Vec<u8>> {
    texts.iter().map(|t| t.as_bytes().to_vec()).collect()
}

fn read(texts: &[&str]) -> Reading {
    Reading::Lines { lines: lines(texts), failure: None }
}

fn config(files: &[&str], number_lines: bool, number_nonblank_lines: bool) -> Config {
    Config {
        files: files.iter().map(|f| f.to_string()).collect(),
        number_lines,
        number_nonblank_lines,
    }
}

#[test]
fn from_flags_picks_the_mode() {
    assert_eq!(NumberingMode::from_flags(false, false), Ok(NumberingMode::Plain));
    assert_eq!(NumberingMode::from_flags(true, false), Ok(NumberingMode::All));
    assert_eq!(NumberingMode::from_flags(false, true), Ok(NumberingMode::NonBlank));
    assert_eq!(
        NumberingMode::from_flags(true, true),
        Err(ConfigurationError::ConflictingNumbering)
    );
}

#[test]
fn get_args_keeps_what_it_is_given() {
    let config = get_args(vec!["-".to_string()], true, false).unwrap();
    assert_eq!(config.files, vec!["-".to_string()]);
    assert!(config.number_lines);
    assert!(!config.number_nonblank_lines);
    assert_eq!(config.mode(), Ok(NumberingMode::All));
}

#[test]
fn get_args_refuses_both_numberings() {
    assert_eq!(
        get_args(vec!["-".to_string()], true, true).unwrap_err(),
        ConfigurationError::ConflictingNumbering
    );
}

#[test]
fn all_lines_are_numbered_from_one() {
    let out = number_lines(&lines(&["a", "", "b"]), NumberingMode::All);
    assert_eq!(out, lines(&["     1\ta", "     2\t", "     3\tb"]));
}

#[test]
fn every_prefix_is_the_ordinal_of_its_line() {
    let source: Vec<Vec<u8>> = (0..1200).map(|i| format!("line {}", i).into_bytes()).collect();
    let out = number_lines(&source, NumberingMode::All);
    assert_eq!(out.len(), source.len());
    for (i, line) in out.iter().enumerate() {
        let expected = format!("{:>6}\tline {}", i + 1, i).into_bytes();
        assert_eq!(line, &expected);
    }
}

#[test]
fn blank_lines_are_not_numbered_and_not_counted() {
    let out = number_lines(&lines(&["a", "", "b"]), NumberingMode::NonBlank);
    assert_eq!(out, lines(&["     1\ta", "", "     2\tb"]));
    let out = number_lines(&lines(&["", "", "x", "", "y", " "]), NumberingMode::NonBlank);
    assert_eq!(out, lines(&["", "", "     1\tx", "", "     2\ty", "     3\t "]));
}

#[test]
fn plain_mode_copies_the_lines() {
    let source = lines(&["a", "", "b\tc"]);
    assert_eq!(number_lines(&source, NumberingMode::Plain), source);
}

#[test]
fn a_number_wider_than_the_field_is_not_cut() {
    let mut state = EmissionState { seen: 999_999, nonblank_seen: 999_999 };
    let text = state.emit(NumberingMode::All, &b"x".to_vec());
    assert_eq!(text, b"1000000\tx".to_vec());
    assert_eq!(state.seen, 1_000_000);
    assert_eq!(state.nonblank_seen, 1_000_000);
}

#[test]
fn emission_state_counts_line_by_line() {
    let mut state = EmissionState::new();
    assert_eq!(state.seen, 0);
    assert_eq!(state.nonblank_seen, 0);
    assert_eq!(state.emit(NumberingMode::NonBlank, &b"a".to_vec()), b"     1\ta".to_vec());
    assert_eq!(state.emit(NumberingMode::NonBlank, &b"".to_vec()), b"".to_vec());
    assert_eq!(state.seen, 2);
    assert_eq!(state.nonblank_seen, 1);
    assert_eq!(state.emit(NumberingMode::NonBlank, &b"b".to_vec()), b"     2\tb".to_vec());
}

#[test]
fn emit_numbered_prints_each_line_with_a_newline() {
    let out = emit_numbered(&lines(&["a", "", "b"]), NumberingMode::NonBlank);
    assert_eq!(out, b"     1\ta\n\n     2\tb\n".to_vec());
    assert_eq!(emit_numbered(&lines(&[]), NumberingMode::All), b"".to_vec());
}

#[test]
fn numbering_starts_again_with_every_source() {
    let report = run(
        &config(&["one", "two"], true, false),
        &vec![read(&["a", "b"]), read(&["c"])],
    )
    .unwrap();
    assert_eq!(report.output, b"     1\ta\n     2\tb\n     1\tc\n".to_vec());
    assert_eq!(report.outcomes.len(), 2);
    assert!(report.outcomes.iter().all(|o| o.is_none()));
}

#[test]
fn nonblank_numbering_starts_again_with_every_source() {
    let report = run(
        &config(&["one", "two"], false, true),
        &vec![read(&["a", "", "b"]), read(&["", "c"])],
    )
    .unwrap();
    assert_eq!(report.output, b"     1\ta\n\n     2\tb\n\n     1\tc\n".to_vec());
}

#[test]
fn a_source_that_fails_does_not_stop_the_others() {
    let report = run(
        &config(&["gone", "one", "two"], false, false),
        &vec![
            Reading::Unopened { cause: "No such file or directory (os error 2)".to_string() },
            read(&["a"]),
            Reading::Lines { lines: lines(&["b"]), failure: Some("bad bytes".to_string()) },
        ],
    )
    .unwrap();
    assert_eq!(report.output, b"a\nb\n".to_vec());
    let first = report.outcomes[0].as_ref().unwrap();
    assert_eq!(first.identifier, "gone");
    assert_eq!(first.stage, Stage::Open);
    assert_eq!(first.message(), "gone: No such file or directory (os error 2)");
    assert!(report.outcomes[1].is_none());
    let third = report.outcomes[2].as_ref().unwrap();
    assert_eq!(third.stage, Stage::Read);
    assert_eq!(third.message(), "two: bad bytes");
}

#[test]
fn running_twice_prints_the_same_bytes() {
    let config = config(&["one", "two"], false, true);
    let readings = vec![read(&["a", "", "b"]), read(&["", "c", "d"])];
    let first = run(&config, &readings).unwrap();
    let second = run(&config, &readings).unwrap();
    assert_eq!(first.output, second.output);
    assert_eq!(first.output, b"     1\ta\n\n     2\tb\n\n     1\tc\n     2\td\n".to_vec());
}

#[test]
fn run_without_sources_prints_nothing() {
    let report = run(&config(&[], true, false), &vec![]).unwrap();
    assert!(report.output.is_empty());
    assert!(report.outcomes.is_empty());
}

#[test]
fn run_refuses_conflicting_flags() {
    let result = run(&config(&["a"], true, true), &vec![read(&["x"])]);
    assert_eq!(result.unwrap_err(), ConfigurationError::ConflictingNumbering);
}

#[test]
fn run_refuses_readings_that_do_not_pair_with_the_sources() {
    let result = run(&config(&["a", "b"], true, false), &vec![read(&["x"])]);
    assert_eq!(result.unwrap_err(), ConfigurationError::ReadingCount);
}

#[test]
fn run_refuses_a_source_read_as_bytes() {
    let result = run(
        &config(&["a", "b"], false, false),
        &vec![read(&["x"]), Reading::Bytes { bytes: b"raw".to_vec(), failure: None }],
    );
    assert_eq!(result.unwrap_err(), ConfigurationError::ReadingKind);
}
