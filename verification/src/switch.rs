//! The decision logic of sudo-style privilege switching.
//!
//! The OS keeps three ids each for user and group: real, effective and
//! saved. The functions here decide, from the current effective user id and
//! the elevation-tracking environment values, which ids an identity switch
//! must set; performing the actual switch is a single OS call per triple,
//! made by the embedding application. [`apply_switch`] is the model of that
//! switch: group ids change first, and a failure there leaves the user ids
//! untouched.

use vstd::prelude::*;

use crate::strings::opt_chars;
use crate::user::getrids;
use crate::user::rids_spec;

verus! {

/// One real/effective/saved id triple, for a user or a group.
#[derive(Debug, Clone, Copy, PartialEq, Eq, Structural)]
pub struct IdentityTriple {
    /// The real id: who actually invoked the process.
    pub real_id: u32,
    /// The effective id: the identity used for permission checks.
    pub effective: u32,
    /// The saved id: the identity that can be switched back to.
    pub saved: u32,
}

impl IdentityTriple {
    /// The triple holding one id in all three slots.
    pub fn uniform(id: u32) -> (r: IdentityTriple)
        ensures
            r.real_id == id && r.effective == id && r.saved == id,
    {
        IdentityTriple { real_id: id, effective: id, saved: id }
    }
}

/// The process-wide identity: one triple for the user ids and one for the
/// group ids. Used both for the current state and for the target of a
/// switch.
#[derive(Debug, Clone, Copy, PartialEq, Eq, Structural)]
pub struct ProcessIds {
    /// The user id triple.
    pub uid: IdentityTriple,
    /// The group id triple.
    pub gid: IdentityTriple,
}

/// The ids that dropping sudo must set: under an elevated effective user id,
/// all three user and group slots move to the real (pre-elevation) ids,
/// irreversibly; a process that is not elevated switches nothing.
pub fn drop_sudo(euid: u32, sudo_uid: Option<&str>, sudo_gid: Option<&str>) -> (r: Option<
    ProcessIds,
>)
    ensures
        euid != 0 ==> r is None,
        euid == 0 ==> (r matches Some(req) && ({
            let rids = rids_spec(0, 0, opt_chars(sudo_uid), opt_chars(sudo_gid));
            &&& req.uid.real_id == rids.0 && req.uid.effective == rids.0 && req.uid.saved
                == rids.0
            &&& req.gid.real_id == rids.1 && req.gid.effective == rids.1 && req.gid.saved
                == rids.1
        })),
{
    if euid == 0 {
        let (ruid, rgid) = getrids(0, 0, sudo_uid, sudo_gid);
        Some(ProcessIds { uid: IdentityTriple::uniform(ruid), gid: IdentityTriple::uniform(rgid) })
    } else {
        None
    }
}

/// The ids that pausing sudo must set: real and effective slots move to the
/// real (pre-elevation) ids while the saved slots keep the privileged id,
/// so that a later [`sudo`] can re-elevate; a process that is not elevated
/// switches nothing.
pub fn pause_sudo(euid: u32, sudo_uid: Option<&str>, sudo_gid: Option<&str>) -> (r: Option<
    ProcessIds,
>)
    ensures
        euid != 0 ==> r is None,
        euid == 0 ==> (r matches Some(req) && ({
            let rids = rids_spec(0, 0, opt_chars(sudo_uid), opt_chars(sudo_gid));
            &&& req.uid.real_id == rids.0 && req.uid.effective == rids.0 && req.uid.saved == 0
            &&& req.gid.real_id == rids.1 && req.gid.effective == rids.1 && req.gid.saved == 0
        })),
{
    if euid == 0 {
        let (ruid, rgid) = getrids(0, 0, sudo_uid, sudo_gid);
        Some(
            ProcessIds {
                uid: IdentityTriple { real_id: ruid, effective: ruid, saved: 0 },
                gid: IdentityTriple { real_id: rgid, effective: rgid, saved: 0 },
            },
        )
    } else {
        None
    }
}

/// The ids that raising sudo must set: the privileged id in every slot. The
/// OS grants the switch only when the saved id is already privileged.
pub fn sudo() -> (r: ProcessIds)
    ensures
        r.uid.real_id == 0 && r.uid.effective == 0 && r.uid.saved == 0,
        r.gid.real_id == 0 && r.gid.effective == 0 && r.gid.saved == 0,
{
    ProcessIds { uid: IdentityTriple::uniform(0), gid: IdentityTriple::uniform(0) }
}

/// The model of an identity switch against group- and user-set steps that
/// may each fail. The group ids are set first; when that step fails the
/// user ids are never touched, so a failure can never leave a partial
/// privilege change on the user side. The result is the identity state
/// after the switch and whether the whole switch succeeded.
pub fn apply_switch(ids: ProcessIds, req: ProcessIds, gid_ok: bool, uid_ok: bool) -> (r: (
    ProcessIds,
    bool,
))
    ensures
        !gid_ok ==> r.0 == ids && !r.1,
        gid_ok && !uid_ok ==> r.0.gid == req.gid && r.0.uid == ids.uid && !r.1,
        gid_ok && uid_ok ==> r.0 == req && r.1,
{
    if !gid_ok {
        (ids, false)
    } else if !uid_ok {
        (ProcessIds { uid: ids.uid, gid: req.gid }, false)
    } else {
        (req, true)
    }
}

} // verus!
