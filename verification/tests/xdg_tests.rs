use fungus::xdg::cache_dir;
use fungus::xdg::config_dir;
use fungus::xdg::config_dirs;
use fungus::xdg::data_dir;
use fungus::xdg::data_dirs;
use fungus::xdg::home_dir;
use fungus::xdg::parse_paths;
use fungus::xdg::path_dirs;
use fungus::xdg::runtime_dir;
use fungus::UserError;

#[test]
fn test_home_dir() {
    assert_eq!("/home/u", home_dir(Some("/home/u")).unwrap());
    assert_eq!(
        UserError::EnvironmentVariableMissing("HOME".to_string()),
        home_dir(None).unwrap_err()
    );
}

#[test]
fn test_config_dir() {
    assert_eq!("/home/u/.config", config_dir(None, Some("/home/u")).unwrap());
    assert_eq!("/custom", config_dir(Some("/custom"), Some("/home/u")).unwrap());
    assert!(config_dir(None, None).is_err());
}

#[test]
fn test_cache_dir() {
    assert_eq!("/home/u/.cache", cache_dir(None, Some("/home/u")).unwrap());
    assert_eq!("/custom", cache_dir(Some("/custom"), None).unwrap());
}

#[test]
fn test_data_dir() {
    assert_eq!("/home/u/.local/share", data_dir(None, Some("/home/u")).unwrap());
    assert_eq!("/custom", data_dir(Some("/custom"), None).unwrap());
}

#[test]
fn test_runtime_dir() {
    assert_eq!("/run/user/1000", runtime_dir(Some("/run/user/1000")));
    assert_eq!("/tmp", runtime_dir(None));
}

#[test]
fn test_data_dirs() {
    // the override splits on the list separator
    assert_eq!(vec!["/a", "/b"], data_dirs(Some("/a:/b")));

    // the fallback is one unsplit entry
    assert_eq!(vec!["/usr/local/share:/usr/share"], data_dirs(None));
}

#[test]
fn test_config_dirs() {
    assert_eq!(vec!["/a", "/b"], config_dirs(Some("/a:/b")));
    assert_eq!(vec!["/etc/xdg"], config_dirs(None));
}

#[test]
fn test_path_dirs() {
    assert_eq!(vec!["/bin", "/usr/bin"], path_dirs(Some("/bin:/usr/bin")).unwrap());
    assert_eq!(
        UserError::EnvironmentVariableMissing("PATH".to_string()),
        path_dirs(None).unwrap_err()
    );
}

#[test]
fn test_parse_paths() {
    assert_eq!(vec!["a", "", "b"], parse_paths("a::b"));
    assert_eq!(vec![""], parse_paths(""));
    assert_eq!(vec!["/bin"], parse_paths("/bin"));
    assert_eq!(vec!["/bin", ""], parse_paths("/bin:"));
}
