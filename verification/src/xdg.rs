//! XDG base-directory resolution.
//!
//! Every function is a pure function of the environment values it is
//! handed: the override variable's value when set, a documented fallback
//! otherwise. Nothing is cached; the embedding application reads the
//! environment and passes the values in, so environment changes between
//! calls are immediately observable.

use vstd::prelude::*;
use vstd::string::*;

use crate::errors::UserError;
use crate::strings::chars_to_string;

verus! {

/// Split the remainder `s` on the list separator, with `cur` the piece read
/// so far. Empty pieces are kept.
pub open spec fn split_list_acc(s: Seq<char>, cur: Seq<char>) -> Seq<Seq<char>>
    decreases s.len(),
{
    if s.len() == 0 {
        seq![cur]
    } else if s[0] == ':' {
        seq![cur] + split_list_acc(s.skip(1), Seq::empty())
    } else {
        split_list_acc(s.skip(1), cur.push(s[0]))
    }
}

/// The pieces of a colon-separated directory list, in order, empty pieces
/// kept. The empty string is the list of one empty piece.
pub open spec fn split_list(s: Seq<char>) -> Seq<Seq<char>> {
    split_list_acc(s, Seq::empty())
}

/// The character sequences of a list of strings.
pub open spec fn str_views(v: Seq<String>) -> Seq<Seq<char>> {
    v.map_values(|p: String| p@)
}

/// Split a colon-separated directory list into its entries.
pub fn parse_paths(s: &str) -> (r: Vec<String>)
    ensures
        str_views(r@) == split_list(s@),
{
    let n = s.unicode_len();
    let mut out: Vec<String> = Vec::new();
    let mut cur: Vec<char> = Vec::new();
    let mut i: usize = 0;
    proof {
        assert(s@.skip(0) =~= s@);
        assert(str_views(out@) + split_list_acc(s@, cur@) =~= split_list_acc(s@, cur@));
    }
    while i < n
        invariant
            n == s@.len(),
            i <= n,
            split_list(s@) == str_views(out@) + split_list_acc(s@.skip(i as int), cur@),
        decreases n - i,
    {
        proof {
            assert(s@.skip(i as int)[0] == s@[i as int]);
            assert(s@.skip(i as int).skip(1) =~= s@.skip(i + 1));
        }
        if s.get_char(i) == ':' {
            let ghost old_out = out@;
            let ghost old_cur = cur@;
            let piece = chars_to_string(&cur);
            out.push(piece);
            cur = Vec::new();
            proof {
                assert(str_views(out@) =~= str_views(old_out).push(old_cur));
                assert(str_views(old_out) + (seq![old_cur] + split_list_acc(s@.skip(i + 1),
                Seq::empty())) =~= str_views(out@) + split_list_acc(s@.skip(i + 1), cur@));
            }
        } else {
            cur.push(s.get_char(i));
        }
        i = i + 1;
    }
    proof {
        assert(s@.skip(n as int) =~= Seq::<char>::empty());
    }
    let ghost old_out = out@;
    let ghost old_cur = cur@;
    let piece = chars_to_string(&cur);
    out.push(piece);
    proof {
        assert(str_views(out@) =~= str_views(old_out).push(old_cur));
        assert(str_views(old_out) + seq![old_cur] =~= str_views(out@));
    }
    out
}

/// The current user's home directory: the value of the home variable, which
/// has no fallback.
pub fn home_dir(home: Option<&str>) -> (r: Result<String, UserError>)
    ensures
        home matches Some(h) ==> (r matches Ok(d) && d@ == h@),
        home is None ==> (r matches Err(e) && e matches UserError::EnvironmentVariableMissing(v)
            && v@ == "HOME"@),
{
    match home {
        Some(h) => Ok(h.to_owned()),
        None => Err(UserError::EnvironmentVariableMissing(String::from_str("HOME"))),
    }
}

/// The current user's config directory: the override when set, else
/// `.config` under the home directory.
pub fn config_dir(xdg_config_home: Option<&str>, home: Option<&str>) -> (r: Result<
    String,
    UserError,
>)
    ensures
        xdg_config_home matches Some(x) ==> (r matches Ok(d) && d@ == x@),
        xdg_config_home is None ==> (home matches Some(h) ==> (r matches Ok(d) && d@ == h@
            + "/.config"@)),
        xdg_config_home is None && home is None ==> (r matches Err(e) && e
            matches UserError::EnvironmentVariableMissing(v) && v@ == "HOME"@),
{
    match xdg_config_home {
        Some(x) => Ok(x.to_owned()),
        None => match home {
            Some(h) => Ok(String::from_str(h).concat("/.config")),
            None => Err(UserError::EnvironmentVariableMissing(String::from_str("HOME"))),
        },
    }
}

/// The current user's cache directory: the override when set, else `.cache`
/// under the home directory.
pub fn cache_dir(xdg_cache_home: Option<&str>, home: Option<&str>) -> (r: Result<
    String,
    UserError,
>)
    ensures
        xdg_cache_home matches Some(x) ==> (r matches Ok(d) && d@ == x@),
        xdg_cache_home is None ==> (home matches Some(h) ==> (r matches Ok(d) && d@ == h@
            + "/.cache"@)),
        xdg_cache_home is None && home is None ==> (r matches Err(e) && e
            matches UserError::EnvironmentVariableMissing(v) && v@ == "HOME"@),
{
    match xdg_cache_home {
        Some(x) => Ok(x.to_owned()),
        None => match home {
            Some(h) => Ok(String::from_str(h).concat("/.cache")),
            None => Err(UserError::EnvironmentVariableMissing(String::from_str("HOME"))),
        },
    }
}

/// The current user's data directory: the override when set, else
/// `.local/share` under the home directory.
pub fn data_dir(xdg_data_home: Option<&str>, home: Option<&str>) -> (r: Result<String, UserError>)
    ensures
        xdg_data_home matches Some(x) ==> (r matches Ok(d) && d@ == x@),
        xdg_data_home is None ==> (home matches Some(h) ==> (r matches Ok(d) && d@ == h@
            + "/.local/share"@)),
        xdg_data_home is None && home is None ==> (r matches Err(e) && e
            matches UserError::EnvironmentVariableMissing(v) && v@ == "HOME"@),
{
    match xdg_data_home {
        Some(x) => Ok(x.to_owned()),
        None => match home {
            Some(h) => Ok(String::from_str(h).concat("/.local/share")),
            None => Err(UserError::EnvironmentVariableMissing(String::from_str("HOME"))),
        },
    }
}

/// The current user's runtime directory: the override when set, else the
/// shared temporary directory. Never fails.
pub fn runtime_dir(xdg_runtime_dir: Option<&str>) -> (r: String)
    ensures
        xdg_runtime_dir matches Some(x) ==> r@ == x@,
        xdg_runtime_dir is None ==> r@ == "/tmp"@,
{
    match xdg_runtime_dir {
        Some(x) => x.to_owned(),
        None => String::from_str("/tmp"),
    }
}

/// The current user's data directories: the override split on the list
/// separator when set, else a single fallback entry. The fallback is
/// deliberately one unsplit entry, unlike the override, which is split.
pub fn data_dirs(xdg_data_dirs: Option<&str>) -> (r: Vec<String>)
    ensures
        xdg_data_dirs matches Some(x) ==> str_views(r@) == split_list(x@),
        xdg_data_dirs is None ==> r@.len() == 1 && r@[0]@ == "/usr/local/share:/usr/share"@,
{
    match xdg_data_dirs {
        Some(x) => parse_paths(x),
        None => {
            let mut v: Vec<String> = Vec::new();
            v.push(String::from_str("/usr/local/share:/usr/share"));
            v
        },
    }
}

/// The current user's config directories: the override split on the list
/// separator when set, else a single fallback entry.
pub fn config_dirs(xdg_config_dirs: Option<&str>) -> (r: Vec<String>)
    ensures
        xdg_config_dirs matches Some(x) ==> str_views(r@) == split_list(x@),
        xdg_config_dirs is None ==> r@.len() == 1 && r@[0]@ == "/etc/xdg"@,
{
    match xdg_config_dirs {
        Some(x) => parse_paths(x),
        None => {
            let mut v: Vec<String> = Vec::new();
            v.push(String::from_str("/etc/xdg"));
            v
        },
    }
}

/// The current user's executable search directories: the search-path
/// variable split on the list separator. There is no fallback.
pub fn path_dirs(path_var: Option<&str>) -> (r: Result<Vec<String>, UserError>)
    ensures
        path_var matches Some(x) ==> (r matches Ok(v) && str_views(v@) == split_list(x@)),
        path_var is None ==> (r matches Err(e) && e matches UserError::EnvironmentVariableMissing(
            v,
        ) && v@ == "PATH"@),
{
    match path_var {
        Some(x) => Ok(parse_paths(x)),
        None => Err(UserError::EnvironmentVariableMissing(String::from_str("PATH"))),
    }
}

} // verus!
