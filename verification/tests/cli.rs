use gutenfetch::args::{parse_run_args, find_flag_value, ArgError};

fn argv(tokens: &[&str]) -> Vec<String> {
    tokens.iter().map(|t| t.to_string()).collect()
}

#[test]
fn full_command_line_parses() {
    let args = argv(&["prog", "--folder", "./out", "--files", "3", "--threads", "2"]);
    let p = parse_run_args(&args).unwrap();
    assert_eq!(p.folder, "./out");
    assert_eq!(p.files, 3);
    assert_eq!(p.threads, 2);
}

#[test]
fn flag_order_does_not_matter() {
    let args = argv(&["prog", "--threads", "4", "--folder", "books", "--files", "10"]);
    let p = parse_run_args(&args).unwrap();
    assert_eq!(p.folder, "books");
    assert_eq!(p.files, 10);
    assert_eq!(p.threads, 4);
}

#[test]
fn unknown_flags_are_ignored() {
    let args = argv(&[
        "prog", "--verbose", "--folder", "out", "--files", "1", "--threads", "1", "--extra", "x",
    ]);
    let p = parse_run_args(&args).unwrap();
    assert_eq!(p.folder, "out");
    assert_eq!(p.files, 1);
    assert_eq!(p.threads, 1);
}

#[test]
fn missing_threads_is_usage_error() {
    let args = argv(&["prog", "--folder", "./out", "--files", "3"]);
    assert_eq!(parse_run_args(&args), Err(ArgError::Usage));
}

#[test]
fn missing_folder_is_usage_error() {
    let args = argv(&["prog", "--files", "3", "--threads", "2"]);
    assert_eq!(parse_run_args(&args), Err(ArgError::Usage));
}

#[test]
fn missing_files_is_usage_error() {
    let args = argv(&["prog", "--folder", "./out", "--threads", "2"]);
    assert_eq!(parse_run_args(&args), Err(ArgError::Usage));
}

#[test]
fn flag_as_last_token_has_no_value() {
    let args = argv(&["prog", "--files", "3", "--threads", "2", "--folder"]);
    assert_eq!(parse_run_args(&args), Err(ArgError::Usage));
}

#[test]
fn bad_files_value() {
    let args = argv(&["prog", "--folder", "o", "--files", "three", "--threads", "2"]);
    assert_eq!(parse_run_args(&args), Err(ArgError::BadFiles));
}

#[test]
fn bad_threads_value() {
    let args = argv(&["prog", "--folder", "o", "--files", "3", "--threads", "-1"]);
    assert_eq!(parse_run_args(&args), Err(ArgError::BadThreads));
}

#[test]
fn bad_files_reported_before_missing_threads() {
    let args = argv(&["prog", "--folder", "o", "--files", "x"]);
    assert_eq!(parse_run_args(&args), Err(ArgError::BadFiles));
}

#[test]
fn zero_files_and_threads_parse() {
    let args = argv(&["prog", "--folder", "o", "--files", "0", "--threads", "0"]);
    let p = parse_run_args(&args).unwrap();
    assert_eq!(p.files, 0);
    assert_eq!(p.threads, 0);
}

#[test]
fn first_occurrence_of_flag_wins() {
    let args = argv(&["prog", "--files", "5", "--folder", "a", "--files", "9", "--threads", "1"]);
    let p = parse_run_args(&args).unwrap();
    assert_eq!(p.files, 5);
}

#[test]
fn find_flag_value_basics() {
    let args = argv(&["prog", "--folder", "out"]);
    assert_eq!(find_flag_value(&args, "--folder"), Some("out".to_string()));
    assert_eq!(find_flag_value(&args, "--files"), None);
    let tail = argv(&["prog", "--folder"]);
    assert_eq!(find_flag_value(&tail, "--folder"), None);
}

#[test]
fn error_messages() {
    assert_eq!(
        ArgError::Usage.message(),
        "Usage: --folder <folder_path> --files <number_of_files> --threads <number_of_threads>"
    );
    assert_eq!(ArgError::BadFiles.message(), "Invalid number for --files");
    assert_eq!(ArgError::BadThreads.message(), "Invalid number for --threads");
}
