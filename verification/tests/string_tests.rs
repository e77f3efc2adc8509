use fungus::path::to_string;
use fungus::strings::StringSizeExt;

#[test]
fn test_str_size() {
    assert_eq!("foo".size(), 3);
    assert_eq!("ƒoo".len(), 4); // fancy f!
    assert_eq!("ƒoo".size(), 3); // fancy f!
}

#[test]
fn test_string_size() {
    assert_eq!("foo".to_string().size(), 3);
    assert_eq!("ƒoo".to_string().len(), 4); // fancy f!
    assert_eq!("ƒoo".to_string().size(), 3); // fancy f!
}

#[test]
fn test_path_to_string() {
    assert_eq!("/foo".to_string(), to_string("/foo").unwrap());
}
