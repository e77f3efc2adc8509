use fungus::FileError;
use fungus::PathError;

fn path_empty() -> Result<String, PathError> {
    Err(PathError::empty())
}

fn parent_not_found() -> Result<String, PathError> {
    Err(PathError::parent_not_found("foo"))
}

#[test]
fn test_new_path_empty() {
    assert!(path_empty().is_err());
    assert_eq!(path_empty().unwrap_err(), PathError::Empty);
}

#[test]
fn test_parent_not_found() {
    assert!(parent_not_found().is_err());
    assert_ne!(parent_not_found().unwrap_err(), PathError::parent_not_found("bar"));
    assert_eq!(parent_not_found().unwrap_err(), PathError::parent_not_found("foo"));
    assert_eq!(parent_not_found().unwrap_err().message(), "parent not found for path foo");
}

#[test]
fn test_backtrace() {
    let err = path_empty().unwrap_err();
    println!("{:?}", err);
}

#[test]
fn test_errors() {
    assert_eq!(FileError::FailedToExtractString.message(), "failed to extract string from file");
}

#[test]
fn test_error_messages() {
    assert_eq!(PathError::empty().message(), "path empty");
    assert_eq!(
        PathError::failed_to_string("/x").message(),
        "failed to convert to string for path /x"
    );
    assert_eq!(
        PathError::filename_not_found("/").message(),
        "filename not found for path /"
    );
    assert_eq!(
        PathError::home_not_found("~/x").message(),
        "home directory not found for path ~/x"
    );
    assert_eq!(
        PathError::invalid_expansion("~x").message(),
        "invalid path expansion for path ~x"
    );
    assert_eq!(
        PathError::multiple_home_symbols("~~").message(),
        "multiple home symbols for path ~~"
    );
}
