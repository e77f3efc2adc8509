use fungus::path::abs;
use fungus::path::clean;
use fungus::path::contains_str;
use fungus::path::dirname;
use fungus::path::empty;
use fungus::path::expand;
use fungus::path::name;
use fungus::path::starts_with_str;
use fungus::path::to_string;
use fungus::path::trim_end_matches;
use fungus::path::trim_protocol;

#[test]
fn test_first() {
    let path = String::from("/foo/bar");
    assert!(!path.is_empty());
}

#[test]
fn test_abs() {
    let home = "/home/u";
    let cwd = "/cwd/work";
    let prev = dirname(cwd).unwrap();

    // expand previous directory and drop slash
    assert_eq!(prev, abs("../", Some(home), cwd).unwrap());

    // expand previous directory
    assert_eq!(prev, abs("..", Some(home), cwd).unwrap());

    // expand current directory
    assert_eq!(cwd, abs(".", Some(home), cwd).unwrap());

    // expand relative directory
    assert_eq!("/cwd/work/foo", abs("foo", Some(home), cwd).unwrap());

    // expand home path
    assert_eq!("/home/u/foo", abs("~/foo", Some(home), cwd).unwrap());
}

#[test]
fn test_pathext_contains() {
    let path = "/foo/bar";
    assert!(contains_str(path, "foo"));
    assert!(contains_str(path, "/foo"));
    assert!(contains_str(path, "/"));
    assert!(contains_str(path, "/ba"));
    assert!(!contains_str(path, "bob"));
}

#[test]
fn test_pathext_starts_with() {
    let path = "/foo/bar";
    assert!(starts_with_str(path, "/foo"));
    assert!(starts_with_str(path, ""));
    assert!(!starts_with_str(path, "foo"));
}

#[test]
fn test_pathext_clean() {
    // remove uneeded double slashes
    {
        let path = "/foo//bar";
        assert_eq!("/foo/bar", clean(path));
    }
}

#[test]
fn test_pathext_dirname() {
    let path = "/foo/bar";
    assert_eq!("/foo", dirname(path).unwrap());
}

#[test]
fn test_pathext_empty() {
    // empty string
    {
        assert!(empty(""));
    }

    // false
    {
        assert!(!empty("/foo"));
    }
}

#[test]
fn test_pathext_expand() {
    // happy path
    {
        let home = "/home/u";
        assert_eq!("/home/u/foo", expand("~/foo", Some(home)).unwrap());
    }

    // More than one ~
    {
        assert!(expand("~/foo~", Some("/home/u")).is_err());
    }

    // invalid path
    {
        assert!(expand("~foo", Some("/home/u")).is_err());
    }

    // empty path - nothing to do but no error
    {
        assert_eq!("", expand("", Some("/home/u")).unwrap());
    }

    // home not set
    {
        assert!(expand("~/foo", None).is_err());
    }
}

#[test]
fn test_pathext_filename() {
    let path = "/foo/bar";
    assert_eq!("bar", name(path).unwrap());
}

#[test]
fn test_pathext_to_string() {
    assert_eq!("/foo".to_string(), to_string("/foo").unwrap());
}

#[test]
fn test_pathext_trim_protocol() {
    // no change
    {
        assert_eq!("/foo", trim_protocol("/foo").unwrap());
    }
    // file://
    {
        assert_eq!("/foo", trim_protocol("file:///foo").unwrap());
    }
    // ftp://
    {
        assert_eq!("foo", trim_protocol("ftp://foo").unwrap());
    }
    // http://
    {
        assert_eq!("foo", trim_protocol("http://foo").unwrap());
    }
    // https://
    {
        assert_eq!("foo", trim_protocol("https://foo").unwrap());
    }
    // HTTPS://
    {
        assert_eq!("foo", trim_protocol("HTTPS://foo").unwrap());
    }
}

#[test]
fn test_pathext_trim_end_matches() {
    // drop root
    {
        assert_eq!("", trim_end_matches("/", "/").unwrap());
    }

    // drop end
    {
        assert_eq!("/foo", trim_end_matches("/foo/", "/").unwrap());
    }

    // no change
    {
        assert_eq!("/foo", trim_end_matches("/foo", "/").unwrap());
    }
}
