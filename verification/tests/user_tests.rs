use fungus::user::getrids;
use fungus::user::is_root;
use fungus::user::name;
use fungus::user::parse_u32;
use fungus::user::resolve_user;
use fungus::user::User;
use fungus::user::UserRecord;
use fungus::UserError;

fn record(uid: u32, gid: u32, name: &str, home: &str, shell: &str) -> UserRecord {
    UserRecord {
        uid,
        gid,
        name: name.to_string(),
        home: home.to_string(),
        shell: shell.to_string(),
    }
}

#[test]
fn test_parse_u32() {
    assert_eq!(Some(123), parse_u32("123"));
    assert_eq!(Some(7), parse_u32("+7"));
    assert_eq!(Some(0), parse_u32("0"));
    assert_eq!(Some(u32::MAX), parse_u32("4294967295"));
    assert_eq!(None, parse_u32("4294967296"));
    assert_eq!(None, parse_u32(""));
    assert_eq!(None, parse_u32("+"));
    assert_eq!(None, parse_u32("abc"));
    assert_eq!(None, parse_u32("12a"));
    assert_eq!(None, parse_u32("-1"));
}

#[test]
fn test_getrids() {
    // a non-privileged id keeps its own ids whatever the environment says
    assert_eq!((1000, 1000), getrids(1000, 1000, Some("42"), Some("42")));

    // the privileged id takes the recorded ids when both parse
    assert_eq!((1000, 100), getrids(0, 0, Some("1000"), Some("100")));

    // a missing or malformed recording leaves the ids unchanged
    assert_eq!((0, 0), getrids(0, 0, None, None));
    assert_eq!((0, 0), getrids(0, 0, Some("1000"), None));
    assert_eq!((0, 0), getrids(0, 0, Some("bad"), Some("100")));
}

#[test]
fn test_is_root() {
    assert!(is_root(0));
    assert!(!is_root(1000));
}

#[test]
fn test_user_is_root() {
    let rec = record(0, 0, "root", "/root", "/bin/bash");
    let user: User = resolve_user(rec, 0, 0, None);
    assert!(user.is_root());

    let rec = record(1000, 1000, "u", "/home/u", "/bin/bash");
    let user = resolve_user(rec, 1000, 1000, None);
    assert!(!user.is_root());
}

#[test]
fn test_resolve_user_plain() {
    // the looked-up id is the real id: the real fields mirror the primary
    // fields and no second record is consulted
    let rec = record(1000, 1000, "u", "/home/u", "/bin/bash");
    let user = resolve_user(rec, 1000, 1000, None);
    assert_eq!(1000, user.uid);
    assert_eq!(1000, user.gid);
    assert_eq!("u", user.name);
    assert_eq!("/home/u", user.home);
    assert_eq!("/bin/bash", user.shell);
    assert_eq!(1000, user.ruid);
    assert_eq!(1000, user.rgid);
    assert_eq!("u", user.realname);
    assert_eq!("/home/u", user.realhome);
    assert_eq!("/bin/bash", user.realshell);
}

#[test]
fn test_resolve_user_elevated() {
    // behind an elevation the real fields come from the real user's record
    let rec = record(0, 0, "root", "/root", "/bin/bash");
    let real = record(1000, 100, "u", "/home/u", "/bin/zsh");
    let user = resolve_user(rec, 1000, 100, Some(real));
    assert_eq!(0, user.uid);
    assert_eq!("root", user.name);
    assert_eq!(1000, user.ruid);
    assert_eq!(100, user.rgid);
    assert_eq!("u", user.realname);
    assert_eq!("/home/u", user.realhome);
    assert_eq!("/bin/zsh", user.realshell);
}

#[test]
fn test_user_name() {
    let rec = record(1000, 1000, "u", "/home/u", "/bin/bash");
    let user = resolve_user(rec, 1000, 1000, None);
    assert_eq!("u", name(&user));
}

#[test]
fn test_user_error_eq() {
    assert_eq!(UserError::DoesNotExistById(42), UserError::DoesNotExistById(42));
    assert_ne!(UserError::DoesNotExistById(42), UserError::DoesNotExistById(43));
    assert_ne!(
        UserError::DoesNotExistById(42),
        UserError::EnvironmentVariableMissing("HOME".to_string())
    );
}
