use gutenfetch::report::{
    classify_status, failure_line, is_success_status, status_error, success_line,
};

#[test]
fn two_hundred_class_is_success() {
    assert!(is_success_status(200));
    assert!(is_success_status(204));
    assert!(is_success_status(299));
}

#[test]
fn other_classes_are_failures() {
    assert!(!is_success_status(199));
    assert!(!is_success_status(300));
    assert!(!is_success_status(301));
    assert!(!is_success_status(404));
    assert!(!is_success_status(500));
}

#[test]
fn status_error_names_the_code() {
    assert_eq!(status_error(404), "Failed to download file: HTTP 404");
    assert_eq!(status_error(503), "Failed to download file: HTTP 503");
}

#[test]
fn classify_matches_the_class() {
    assert_eq!(classify_status(200), Ok(()));
    assert_eq!(
        classify_status(418),
        Err("Failed to download file: HTTP 418".to_string())
    );
}

#[test]
fn per_file_lines() {
    assert_eq!(
        success_line(1, "./out/pg1.txt"),
        "File 1 downloaded successfully to ./out/pg1.txt"
    );
    assert_eq!(
        failure_line(2, "Failed to download file: HTTP 404"),
        "Failed to download file 2: Failed to download file: HTTP 404"
    );
}
