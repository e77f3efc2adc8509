//! User identity: the user record looked up from the OS user database, the
//! real identity behind a sudo-style elevation, and the numeric parsing the
//! elevation-tracking environment variables need.

use vstd::prelude::*;
use vstd::string::*;

use crate::strings::opt_chars;

verus! {

/// True when the character is an ASCII decimal digit.
pub open spec fn is_digit(c: char) -> bool {
    48 <= c as u32 <= 57
}

/// The numeric value of an ASCII decimal digit.
pub open spec fn digit_val(c: char) -> int {
    c as u32 - 48
}

/// True when every character is an ASCII decimal digit.
pub open spec fn all_digits(s: Seq<char>) -> bool {
    forall|i: int| 0 <= i < s.len() ==> is_digit(#[trigger] s[i])
}

/// The value of a decimal numeral.
pub open spec fn numeral_val(s: Seq<char>) -> int
    decreases s.len(),
{
    if s.len() == 0 {
        0
    } else {
        numeral_val(s.drop_last()) * 10 + digit_val(s.last())
    }
}

/// The numeral with an optional leading plus sign removed.
pub open spec fn digits_of(s: Seq<char>) -> Seq<char> {
    if s.len() >= 1 && s[0] == '+' {
        s.skip(1)
    } else {
        s
    }
}

/// What parsing the string as an unsigned 32-bit decimal yields: the value
/// when the string is an optional plus sign followed by one or more digits
/// and the value fits, nothing otherwise.
pub open spec fn parse_u32_spec(s: Seq<char>) -> Option<u32> {
    let t = digits_of(s);
    if t.len() > 0 && all_digits(t) && numeral_val(t) <= u32::MAX {
        Some(numeral_val(t) as u32)
    } else {
        None
    }
}

/// Once a numeral's prefix exceeds the 32-bit range, the whole numeral
/// does, whatever characters follow.
proof fn lemma_numeral_overflow(s: Seq<char>, i: int)
    requires
        0 <= i <= s.len(),
        numeral_val(s.take(i)) > u32::MAX,
    ensures
        numeral_val(s) > u32::MAX,
    decreases s.len() - i,
{
    if i < s.len() {
        assert(s.take(i + 1).drop_last() =~= s.take(i));
        assert(s.take(i + 1).last() == s[i]);
        assert(digit_val(s[i]) >= -48);
        lemma_numeral_overflow(s, i + 1);
    } else {
        assert(s.take(i) =~= s);
    }
}

/// Parse the string as an unsigned 32-bit decimal numeral.
pub fn parse_u32(s: &str) -> (r: Option<u32>)
    ensures
        r == parse_u32_spec(s@),
{
    let n = s.unicode_len();
    let start: usize = if n >= 1 && s.get_char(0) == '+' {
        1
    } else {
        0
    };
    let ghost t = digits_of(s@);
    proof {
        assert(t =~= s@.skip(start as int));
    }
    if n == start {
        return None;
    }
    let mut acc: u64 = 0;
    let mut i = start;
    proof {
        assert(t.take(0) =~= Seq::<char>::empty());
    }
    while i < n
        invariant
            n == s@.len(),
            start <= i <= n,
            t == digits_of(s@),
            t == s@.skip(start as int),
            t.len() == n - start,
            all_digits(t.take(i - start)),
            acc == numeral_val(t.take(i - start)),
            acc <= u32::MAX,
        decreases n - i,
    {
        let c = s.get_char(i);
        let cu = c as u32;
        proof {
            assert(t[i - start] == s@[i as int]);
        }
        if cu < 48 || cu > 57 {
            assert(!is_digit(t[i - start]));
            return None;
        }
        proof {
            assert(t.take(i - start + 1).drop_last() =~= t.take(i - start));
            assert(t.take(i - start + 1).last() == t[i - start]);
        }
        let d = (cu - 48) as u64;
        let acc2: u64 = acc * 10 + d;
        if acc2 > 0xFFFF_FFFF {
            proof {
                lemma_numeral_overflow(t, i - start + 1);
            }
            return None;
        }
        acc = acc2;
        i = i + 1;
        proof {
            assert(all_digits(t.take(i - start)));
        }
    }
    proof {
        assert(t.take(n - start) =~= t);
    }
    Some(acc as u32)
}

/// The real user and group ids behind an elevation: when the given user id
/// is the privileged id and both elevation-tracking values parse as
/// numbers, those numbers; the given ids unchanged otherwise.
pub open spec fn rids_spec(uid: u32, gid: u32, su: Option<Seq<char>>, sg: Option<Seq<char>>) -> (
    u32,
    u32,
) {
    if uid != 0 {
        (uid, gid)
    } else {
        match (su, sg) {
            (Some(u), Some(g)) => match (parse_u32_spec(u), parse_u32_spec(g)) {
                (Some(pu), Some(pg)) => (pu, pg),
                _ => (uid, gid),
            },
            _ => (uid, gid),
        }
    }
}

/// Returns the real ids for the given user: under the privileged id the
/// ids recorded by the elevation-tracking variables, when both parse;
/// the given ids unchanged in every other case.
pub fn getrids(uid: u32, gid: u32, sudo_uid: Option<&str>, sudo_gid: Option<&str>) -> (r: (
    u32,
    u32,
))
    ensures
        r == rids_spec(uid, gid, opt_chars(sudo_uid), opt_chars(sudo_gid)),
{
    if uid != 0 {
        return (uid, gid);
    }
    match (sudo_uid, sudo_gid) {
        (Some(u), Some(g)) => {
            match (parse_u32(u), parse_u32(g)) {
                (Some(pu), Some(pg)) => (pu, pg),
                _ => (uid, gid),
            }
        },
        _ => (uid, gid),
    }
}

/// Return true if the given user id is the privileged (root) id.
pub fn is_root(uid: u32) -> (r: bool)
    ensures
        r == (uid == 0),
{
    uid == 0
}

/// One record of the OS user database, as plain values.
pub struct UserRecord {
    /// The user id the record was looked up by.
    pub uid: u32,
    /// The user's primary group id.
    pub gid: u32,
    /// The user's name; empty when the database holds none.
    pub name: String,
    /// The user's home directory; empty when the database holds none.
    pub home: String,
    /// The user's shell; empty when the database holds none.
    pub shell: String,
}

/// Options for a specific user, together with the real identity behind a
/// sudo-style elevation. When no elevation is active the real fields mirror
/// the primary fields.
pub struct User {
    /// The user id.
    pub uid: u32,
    /// The user's group id.
    pub gid: u32,
    /// The user's name.
    pub name: String,
    /// The user's home directory.
    pub home: String,
    /// The user's shell.
    pub shell: String,
    /// The real user id behind sudo.
    pub ruid: u32,
    /// The real group id behind sudo.
    pub rgid: u32,
    /// The real user's name behind sudo.
    pub realname: String,
    /// The real user's home behind sudo.
    pub realhome: String,
    /// The real user's shell behind sudo.
    pub realshell: String,
}

impl User {
    /// Returns true if the user is root.
    pub fn is_root(&self) -> (r: bool)
        ensures
            r == (self.uid == 0),
    {
        self.uid == 0
    }
}

/// Assemble a user from its database record and its real ids. When the real
/// user id equals the record's own id, the real fields mirror the primary
/// fields and no second record is needed; otherwise the second record
/// fills them.
pub fn resolve_user(rec: UserRecord, ruid: u32, rgid: u32, real_rec: Option<UserRecord>) -> (u: User)
    requires
        ruid != rec.uid ==> real_rec is Some,
    ensures
        u.uid == rec.uid && u.gid == rec.gid,
        u.name@ == rec.name@ && u.home@ == rec.home@ && u.shell@ == rec.shell@,
        u.ruid == ruid && u.rgid == rgid,
        ruid == rec.uid ==> u.realname@ == rec.name@ && u.realhome@ == rec.home@ && u.realshell@
            == rec.shell@,
        ruid != rec.uid ==> (real_rec matches Some(rr) ==> u.realname@ == rr.name@ && u.realhome@
            == rr.home@ && u.realshell@ == rr.shell@),
{
    if ruid == rec.uid {
        User {
            uid: rec.uid,
            gid: rec.gid,
            name: rec.name.clone(),
            home: rec.home.clone(),
            shell: rec.shell.clone(),
            ruid,
            rgid,
            realname: rec.name,
            realhome: rec.home,
            realshell: rec.shell,
        }
    } else {
        match real_rec {
            Some(rr) => User {
                uid: rec.uid,
                gid: rec.gid,
                name: rec.name,
                home: rec.home,
                shell: rec.shell,
                ruid,
                rgid,
                realname: rr.name,
                realhome: rr.home,
                realshell: rr.shell,
            },
            None => vstd::pervasive::unreached(),
        }
    }
}

/// The user's name.
pub fn name(user: &User) -> (r: String)
    ensures
        r@ == user.name@,
{
    user.name.clone()
}

} // verus!
