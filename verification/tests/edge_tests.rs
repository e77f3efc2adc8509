use fungus::path::abs;
use fungus::path::clean;
use fungus::path::dirname;
use fungus::path::expand;
use fungus::path::name;
use fungus::path::trim_protocol;
use fungus::tempdir::temp_dir_candidate;
use fungus::PathError;

#[test]
fn test_clean_idempotent_cases() {
    let cases = [
        "", "/", ".", "..", "/foo//bar", "a/./b", "a/b/../c", "/..", "../../a", "a/..", "/foo/",
        "foo///bar//", "./a", "~", "a/b/c/../../d", "//",
    ];
    for p in cases {
        let once = clean(p);
        assert_eq!(once, clean(&once));
    }
}

#[test]
fn test_clean_cases() {
    assert_eq!("/foo/bar", clean("/foo//bar"));
    assert_eq!(".", clean(""));
    assert_eq!("/", clean("/"));
    assert_eq!(".", clean("."));
    assert_eq!("..", clean(".."));
    assert_eq!("a/b", clean("a/./b"));
    assert_eq!("a/c", clean("a/b/../c"));
    assert_eq!("/", clean("/.."));
    assert_eq!("../../a", clean("../../a"));
    assert_eq!(".", clean("a/.."));
    assert_eq!("/foo", clean("/foo/"));
    assert_eq!("a/d", clean("a/b/c/../../d"));
}

#[test]
fn test_expand_errors() {
    // two tildes anywhere fail with the multiple-home-symbols error
    assert_eq!(
        PathError::multiple_home_symbols("~/foo~"),
        expand("~/foo~", Some("/home/u")).unwrap_err()
    );
    assert_eq!(
        PathError::multiple_home_symbols("~~"),
        expand("~~", Some("/home/u")).unwrap_err()
    );

    // a tilde not followed by a separator is an invalid expansion
    assert_eq!(
        PathError::invalid_expansion("~foo"),
        expand("~foo", Some("/home/u")).unwrap_err()
    );

    // a tilde with no home directory available
    assert_eq!(PathError::home_not_found("~/foo"), expand("~/foo", None).unwrap_err());

    // a single leading tilde expands
    assert_eq!("/home/u/foo", expand("~/foo", Some("/home/u")).unwrap());

    // the empty path passes through with no error
    assert_eq!("", expand("", Some("/home/u")).unwrap());
}

#[test]
fn test_abs_empty() {
    assert_eq!(PathError::empty(), abs("", Some("/home/u"), "/cwd").unwrap_err());
}

#[test]
fn test_abs_not_cleaned() {
    // the result is resolved but not lexically cleaned; cleaning is a
    // separate, explicit step
    let raw = abs("foo/../bar", Some("/home/u"), "/cwd").unwrap();
    assert_eq!("/cwd/foo/../bar", raw);
    assert_eq!("/cwd/bar", clean(&raw));
}

#[test]
fn test_dirname_errors() {
    assert_eq!(PathError::parent_not_found("/"), dirname("/").unwrap_err());
    assert_eq!(PathError::parent_not_found("foo"), dirname("foo").unwrap_err());
    assert_eq!("/", dirname("/foo").unwrap());
    assert_eq!("/foo", dirname("/foo/bar/").unwrap());
}

#[test]
fn test_name_errors() {
    assert_eq!(PathError::filename_not_found("/"), name("/").unwrap_err());
    assert_eq!(PathError::filename_not_found(""), name("").unwrap_err());
    assert_eq!(PathError::filename_not_found(".."), name("..").unwrap_err());
    assert_eq!("bar", name("/foo/bar").unwrap());
    assert_eq!("foo", name("foo").unwrap());
}

#[test]
fn test_trim_protocol_prop() {
    // case-insensitive strip of the scheme alone; anything else passes
    // through unchanged
    assert_eq!("x", trim_protocol("HTTPS://x").unwrap());
    assert_eq!("/x", trim_protocol("/x").unwrap());
    assert_eq!("Foo/Bar", trim_protocol("File://Foo/Bar").unwrap());
}

#[test]
fn test_temp_dir_candidate_shape() {
    let a = temp_dir_candidate("foo");
    assert!(a.starts_with("/tmp/foo-"));
    assert_eq!("/tmp/foo-".len() + 8, a.len());
    let suffix = &a["/tmp/foo-".len()..];
    assert!(suffix.chars().all(|c| c.is_ascii_alphanumeric()));

    // two draws give two distinct names
    let b = temp_dir_candidate("foo");
    assert_ne!(a, b);
}
