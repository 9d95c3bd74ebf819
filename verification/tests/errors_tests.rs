use spacefree::errors::DeleterError;

// ========== DeleterError tests ==========
#[test]
fn main_test_error_from_io() {
    let io_err = std::io::Error::new(std::io::ErrorKind::NotFound, "file not found");
    let err = DeleterError::Io(io_err.to_string());
    assert!(matches!(err, DeleterError::Io(_)));
    assert!(err.message().contains("IO error"));
}

#[test]
fn main_test_error_display() {
    let err = DeleterError::JobDir("/bad/path".to_string());
    assert!(err.message().contains("Invalid job directory"));
    assert!(err.message().contains("/bad/path"));

    let err = DeleterError::NoValidPaths;
    assert_eq!(err.message(), "No valid paths provided");

    let err = DeleterError::Cancelled;
    assert_eq!(err.message(), "User cancelled");

    let err = DeleterError::Join;
    assert_eq!(err.message(), "Task join error");

    let err = DeleterError::Glob("bad pattern".to_string());
    assert!(err.message().contains("Invalid glob"));
    assert!(err.message().contains("bad pattern"));
}

#[test]
fn main_test_error_debug() {
    let err = DeleterError::NoValidPaths;
    let debug = format!("{:?}", err);
    assert!(debug.contains("NoValidPaths"));
}

#[test]
fn test_test_error_from_io() {
    let io_err = std::io::Error::new(std::io::ErrorKind::NotFound, "file not found");
    let err = DeleterError::Io(io_err.to_string());
    assert!(matches!(err, DeleterError::Io(_)));
    assert!(err.message().contains("IO error"));
}

#[test]
fn test_test_error_display() {
    let err = DeleterError::JobDir("/bad/path".to_string());
    assert!(err.message().contains("Invalid job directory"));
    assert!(err.message().contains("/bad/path"));

    let err = DeleterError::NoValidPaths;
    assert_eq!(err.message(), "No valid paths provided");

    let err = DeleterError::Cancelled;
    assert_eq!(err.message(), "User cancelled");

    let err = DeleterError::Join;
    assert_eq!(err.message(), "Task join error");

    let err = DeleterError::Glob("bad pattern".to_string());
    assert!(err.message().contains("Invalid glob"));
    assert!(err.message().contains("bad pattern"));
}

#[test]
fn test_test_error_debug() {
    let err = DeleterError::NoValidPaths;
    let debug = format!("{:?}", err);
    assert!(debug.contains("NoValidPaths"));
}

#[test]
fn test_error_io_message_exact() {
    let err = DeleterError::Io("file not found".to_string());
    assert_eq!(err.message(), "IO error: file not found");
}
