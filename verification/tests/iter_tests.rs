use fungus::iter::single;
use fungus::iter::IterError;

#[test]
fn test_single() {
    let none: Vec<&str> = vec![];
    assert!(single(none).is_err());
    let none: Vec<&str> = vec![];
    assert_eq!(IterError::ItemNotFound, single(none).unwrap_err());
    assert_eq!("foo", single(vec!["foo"]).unwrap());
    assert_eq!(IterError::MultipleFound, single(vec!["a", "b"]).unwrap_err());
}
