use fungus::switch::apply_switch;
use fungus::switch::drop_sudo;
use fungus::switch::pause_sudo;
use fungus::switch::sudo;
use fungus::switch::IdentityTriple;
use fungus::switch::ProcessIds;

fn triple(real_id: u32, effective: u32, saved: u32) -> IdentityTriple {
    IdentityTriple { real_id, effective, saved }
}

#[test]
fn test_drop_sudo() {
    // not elevated: nothing to switch
    assert_eq!(None, drop_sudo(1000, Some("1000"), Some("100")));

    // elevated: all three slots move to the recorded real ids
    let req = drop_sudo(0, Some("1000"), Some("100")).unwrap();
    assert_eq!(triple(1000, 1000, 1000), req.uid);
    assert_eq!(triple(100, 100, 100), req.gid);

    // elevated without a recording: the ids stay privileged
    let req = drop_sudo(0, None, None).unwrap();
    assert_eq!(triple(0, 0, 0), req.uid);
    assert_eq!(triple(0, 0, 0), req.gid);
}

#[test]
fn test_pause_sudo() {
    // not elevated: nothing to switch
    assert_eq!(None, pause_sudo(1000, Some("1000"), Some("100")));

    // elevated: real and effective move, the saved slots stay privileged
    let req = pause_sudo(0, Some("1000"), Some("100")).unwrap();
    assert_eq!(triple(1000, 1000, 0), req.uid);
    assert_eq!(triple(100, 100, 0), req.gid);
}

#[test]
fn test_sudo() {
    let req = sudo();
    assert_eq!(triple(0, 0, 0), req.uid);
    assert_eq!(triple(0, 0, 0), req.gid);
}

#[test]
fn test_switch_group_failure_leaves_user_ids() {
    // a failing group-set step leaves every id exactly as it was
    let ids = ProcessIds { uid: triple(1000, 0, 0), gid: triple(100, 0, 0) };
    let req = ProcessIds { uid: triple(1000, 1000, 1000), gid: triple(100, 100, 100) };
    let (after, ok) = apply_switch(ids, req, false, true);
    assert!(!ok);
    assert_eq!(ids, after);
}

#[test]
fn test_switch_user_failure_keeps_user_ids_only() {
    // groups were already set when the user-set step fails
    let ids = ProcessIds { uid: triple(1000, 0, 0), gid: triple(100, 0, 0) };
    let req = ProcessIds { uid: triple(1000, 1000, 1000), gid: triple(100, 100, 100) };
    let (after, ok) = apply_switch(ids, req, true, false);
    assert!(!ok);
    assert_eq!(ids.uid, after.uid);
    assert_eq!(req.gid, after.gid);
}

#[test]
fn test_switch_success() {
    let ids = ProcessIds { uid: triple(1000, 0, 0), gid: triple(100, 0, 0) };
    let req = ProcessIds { uid: triple(1000, 1000, 1000), gid: triple(100, 100, 100) };
    let (after, ok) = apply_switch(ids, req, true, true);
    assert!(ok);
    assert_eq!(req, after);
}
