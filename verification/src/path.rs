//! Lexical path operations: cleaning, tilde expansion, absolutization, and
//! component queries.
//!
//! Paths are strings; every operation here is purely lexical and never
//! consults the filesystem. Callers that need the current working directory
//! or the home directory pass them in as values.

use vstd::prelude::*;
use vstd::string::*;

use crate::errors::PathError;
use crate::path_model::clean_spec;
use crate::path_model::dot;
use crate::path_model::dotdot;
use crate::path_model::is_rooted;
use crate::path_model::join_segs;
use crate::path_model::lemma_join_snoc;
use crate::path_model::norm;
use crate::path_model::norm_from;
use crate::path_model::norm_step;
use crate::path_model::render;
use crate::path_model::seg_free;
use crate::path_model::split_acc;
use crate::path_model::split_path;
use crate::path_model::views;
use crate::path_model::wrap;
use crate::strings::chars_to_string;
use crate::strings::opt_chars;
use crate::strings::str_to_chars;

verus! {

/// True when the needle occurs in the haystack at position `i`.
pub open spec fn occurs_at(h: Seq<char>, n: Seq<char>, i: int) -> bool {
    0 <= i && i + n.len() <= h.len() && h.subrange(i, i + n.len()) == n
}

/// Returns true if the path is the empty string.
pub fn empty(path: &str) -> (r: bool)
    ensures
        r == (path@.len() == 0),
{
    path.unicode_len() == 0
}

/// Returns the path as an owned string. Paths handed to this library are
/// already valid text, so this never fails.
pub fn to_string(path: &str) -> (r: Result<String, PathError>)
    ensures
        r matches Ok(s) && s@ == path@,
{
    Ok(path.to_owned())
}

/// True when `value` occurs in `path` starting at position `i`.
fn matches_at(path: &str, value: &str, i: usize) -> (r: bool)
    requires
        i + value@.len() <= path@.len(),
    ensures
        r == occurs_at(path@, value@, i as int),
{
    let h = path.unicode_len();
    let n = value.unicode_len();
    let mut k: usize = 0;
    while k < n
        invariant
            h == path@.len(),
            n == value@.len(),
            i + n <= h,
            k <= n,
            forall|j: int| 0 <= j < k ==> path@[i + j] == value@[j],
        decreases n - k,
    {
        if path.get_char(i + k) != value.get_char(k) {
            assert(path@.subrange(i as int, i + n) != value@) by {
                assert(path@.subrange(i as int, i + n)[k as int] == path@[i + k]);
            }
            return false;
        }
        k = k + 1;
    }
    assert(path@.subrange(i as int, i + n) =~= value@);
    true
}

/// Returns true if the path contains the given string.
pub fn contains_str(path: &str, value: &str) -> (r: bool)
    ensures
        r == exists|i: int| occurs_at(path@, value@, i),
{
    let h = path.unicode_len();
    let n = value.unicode_len();
    if n > h {
        assert(forall|i: int| !occurs_at(path@, value@, i));
        return false;
    }
    if n == 0 {
        assert(path@.subrange(0, 0) =~= value@);
        assert(occurs_at(path@, value@, 0));
        return true;
    }
    let mut i: usize = 0;
    while i <= h - n
        invariant
            h == path@.len(),
            n == value@.len(),
            0 < n <= h,
            i <= h - n + 1,
            forall|j: int| 0 <= j < i ==> !occurs_at(path@, value@, j),
        decreases h + 1 - n - i,
    {
        if matches_at(path, value, i) {
            return true;
        }
        i = i + 1;
    }
    assert(forall|j: int| !occurs_at(path@, value@, j));
    false
}

/// Returns true if the path starts with the given string.
pub fn starts_with_str(path: &str, value: &str) -> (r: bool)
    ensures
        r == (path@.len() >= value@.len() && path@.take(value@.len() as int) == value@),
{
    let h = path.unicode_len();
    let n = value.unicode_len();
    if n > h {
        return false;
    }
    let r = matches_at(path, value, 0);
    assert(path@.subrange(0, n as int) =~= path@.take(n as int));
    r
}

/// The path with every trailing occurrence of `p` removed.
pub open spec fn trim_end_spec(s: Seq<char>, p: Seq<char>) -> Seq<char>
    decreases s.len(),
{
    if p.len() > 0 && s.len() >= p.len() && s.skip(s.len() - p.len()) == p {
        trim_end_spec(s.take(s.len() - p.len()), p)
    } else {
        s
    }
}

/// The path with trailing separators removed.
pub open spec fn strip_trailing(s: Seq<char>) -> Seq<char>
    decreases s.len(),
{
    if s.len() > 0 && s.last() == '/' {
        strip_trailing(s.drop_last())
    } else {
        s
    }
}

/// The index of the last separator in the path, or -1 if there is none.
pub open spec fn last_sep(s: Seq<char>) -> int
    decreases s.len(),
{
    if s.len() == 0 {
        -1
    } else if s.last() == '/' {
        s.len() - 1
    } else {
        last_sep(s.drop_last())
    }
}

/// True when the path has a parent: after ignoring trailing separators it is
/// neither empty nor the root nor a single segment.
pub open spec fn has_parent(s: Seq<char>) -> bool {
    strip_trailing(s).len() > 0 && last_sep(strip_trailing(s)) >= 0
}

/// The path without its final component; meaningful only when
/// [`has_parent`] holds.
pub open spec fn parent_of(s: Seq<char>) -> Seq<char> {
    let t = strip_trailing(s);
    let h = strip_trailing(t.take(last_sep(t)));
    if h.len() == 0 {
        seq!['/']
    } else {
        h
    }
}

/// How many times the character occurs in the path.
pub open spec fn count_char(s: Seq<char>, c: char) -> int
    decreases s.len(),
{
    if s.len() == 0 {
        0
    } else {
        count_char(s.drop_last(), c) + if s.last() == c {
            1int
        } else {
            0int
        }
    }
}

/// A character count is never negative.
pub proof fn lemma_count_nonneg(s: Seq<char>, c: char)
    ensures
        count_char(s, c) >= 0,
    decreases s.len(),
{
    if s.len() > 0 {
        lemma_count_nonneg(s.drop_last(), c);
    }
}

/// True when the path begins with the home symbol followed by a separator.
pub open spec fn tilde_prefixed(s: Seq<char>) -> bool {
    s.len() >= 2 && s[0] == '~' && s[1] == '/'
}

/// A string slice holding the characters of `path` from `from` on.
fn suffix_from(path: &str, from: usize) -> (r: String)
    requires
        from <= path@.len(),
    ensures
        r@ == path@.skip(from as int),
{
    let n = path.unicode_len();
    let r = path.substring_char(from, n).to_owned();
    assert(r@ =~= path@.skip(from as int));
    r
}

/// Returns the path with all suffixes that match `value` repeatedly removed.
pub fn trim_end_matches(path: &str, value: &str) -> (r: Result<String, PathError>)
    ensures
        r matches Ok(t) && t@ == trim_end_spec(path@, value@),
{
    let h = path.unicode_len();
    let n = value.unicode_len();
    if n == 0 {
        return Ok(path.to_owned());
    }
    let mut end: usize = h;
    proof {
        assert(path@.take(h as int) =~= path@);
    }
    let mut stop = false;
    while !stop
        invariant
            h == path@.len(),
            n == value@.len(),
            n > 0,
            end <= h,
            trim_end_spec(path@, value@) == trim_end_spec(path@.take(end as int), value@),
            stop ==> trim_end_spec(path@.take(end as int), value@) == path@.take(end as int),
        decreases end + (if stop {
            0int
        } else {
            1int
        }),
    {
        if end >= n && matches_at(path, value, end - n) {
            proof {
                let s = path@.take(end as int);
                assert(s.skip(end - n) =~= path@.subrange(end - n, end as int));
                assert(s.take(end - n) =~= path@.take(end - n));
            }
            end = end - n;
        } else {
            proof {
                let s = path@.take(end as int);
                if end >= n {
                    assert(s.skip(end - n) =~= path@.subrange(end - n, end as int));
                }
            }
            stop = true;
        }
    }
    let t = path.substring_char(0, end).to_owned();
    proof {
        assert(t@ =~= path@.take(end as int));
    }
    Ok(t)
}

/// Case-insensitive match of a character against a lowercase pattern
/// character.
pub open spec fn ci_match(c: char, p: char) -> bool {
    c == p || (97 <= p as u32 <= 122 && c as u32 == p as u32 - 32)
}

/// True when the path starts with the pattern, compared case-insensitively
/// against the lowercase pattern.
pub open spec fn has_prefix_ci(s: Seq<char>, p: Seq<char>) -> bool {
    s.len() >= p.len() && forall|i: int| 0 <= i < p.len() ==> ci_match(s[i], #[trigger] p[i])
}

/// The characters of the `file://` scheme prefix.
pub open spec fn file_scheme() -> Seq<char> {
    seq!['f', 'i', 'l', 'e', ':', '/', '/']
}

/// The characters of the `ftp://` scheme prefix.
pub open spec fn ftp_scheme() -> Seq<char> {
    seq!['f', 't', 'p', ':', '/', '/']
}

/// The characters of the `http://` scheme prefix.
pub open spec fn http_scheme() -> Seq<char> {
    seq!['h', 't', 't', 'p', ':', '/', '/']
}

/// The characters of the `https://` scheme prefix.
pub open spec fn https_scheme() -> Seq<char> {
    seq!['h', 't', 't', 'p', 's', ':', '/', '/']
}

/// The path with one well-known protocol prefix removed, case-insensitively.
pub open spec fn trim_protocol_spec(s: Seq<char>) -> Seq<char> {
    if has_prefix_ci(s, file_scheme()) {
        s.skip(7)
    } else if has_prefix_ci(s, ftp_scheme()) {
        s.skip(6)
    } else if has_prefix_ci(s, http_scheme()) {
        s.skip(7)
    } else if has_prefix_ci(s, https_scheme()) {
        s.skip(8)
    } else {
        s
    }
}

/// True when the path starts with the given lowercase pattern, compared
/// case-insensitively.
fn prefix_ci(path: &str, pat: &Vec<char>) -> (r: bool)
    ensures
        r == has_prefix_ci(path@, pat@),
{
    let h = path.unicode_len();
    let n = pat.len();
    if n > h {
        return false;
    }
    let mut i: usize = 0;
    while i < n
        invariant
            h == path@.len(),
            n == pat@.len(),
            n <= h,
            i <= n,
            forall|j: int| 0 <= j < i ==> ci_match(path@[j], #[trigger] pat@[j]),
        decreases n - i,
    {
        let c = path.get_char(i);
        let p = pat[i];
        let pu = p as u32;
        let ok = c == p || (pu >= 97 && pu <= 122 && c as u32 == pu - 32);
        if !ok {
            assert(!ci_match(path@[i as int], pat@[i as int]));
            return false;
        }
        i = i + 1;
    }
    true
}

/// Returns the path with one well-known protocol prefix (`file://`,
/// `ftp://`, `http://`, `https://`) removed, compared case-insensitively;
/// a path with no such prefix passes through unchanged.
pub fn trim_protocol(path: &str) -> (r: Result<String, PathError>)
    ensures
        r matches Ok(t) && t@ == trim_protocol_spec(path@),
{
    let file_p: Vec<char> = vec!['f', 'i', 'l', 'e', ':', '/', '/'];
    let ftp_p: Vec<char> = vec!['f', 't', 'p', ':', '/', '/'];
    let http_p: Vec<char> = vec!['h', 't', 't', 'p', ':', '/', '/'];
    let https_p: Vec<char> = vec!['h', 't', 't', 'p', 's', ':', '/', '/'];
    proof {
        assert(file_p@ =~= file_scheme());
        assert(ftp_p@ =~= ftp_scheme());
        assert(http_p@ =~= http_scheme());
        assert(https_p@ =~= https_scheme());
    }
    if prefix_ci(path, &file_p) {
        Ok(suffix_from(path, 7))
    } else if prefix_ci(path, &ftp_p) {
        Ok(suffix_from(path, 6))
    } else if prefix_ci(path, &http_p) {
        Ok(suffix_from(path, 7))
    } else if prefix_ci(path, &https_p) {
        Ok(suffix_from(path, 8))
    } else {
        Ok(path.to_owned())
    }
}

/// The number of characters that remain once trailing separators of
/// `path`'s first `from` characters are removed.
fn strip_trailing_end(path: &str, from: usize) -> (end: usize)
    requires
        from <= path@.len(),
    ensures
        end <= from,
        strip_trailing(path@.take(from as int)) == path@.take(end as int),
        end > 0 ==> path@[end - 1] != '/',
{
    let mut end = from;
    while end > 0 && path.get_char(end - 1) == '/'
        invariant
            end <= from <= path@.len(),
            strip_trailing(path@.take(from as int)) == strip_trailing(path@.take(end as int)),
        decreases end,
    {
        proof {
            let s = path@.take(end as int);
            assert(s.last() == path@[end - 1]);
            assert(s.drop_last() =~= path@.take(end - 1));
        }
        end = end - 1;
    }
    proof {
        let s = path@.take(end as int);
        if end > 0 {
            assert(s.last() == path@[end - 1]);
        }
    }
    end
}

/// The position just past the last separator among `path`'s first `from`
/// characters: `k == 0` when there is no separator, else the separator
/// stands at `k - 1`.
fn scan_last_sep(path: &str, from: usize) -> (k: usize)
    requires
        from <= path@.len(),
    ensures
        k <= from,
        k == 0 ==> last_sep(path@.take(from as int)) == -1,
        k > 0 ==> last_sep(path@.take(from as int)) == k - 1 && path@[k - 1] == '/',
{
    let mut k = from;
    while k > 0 && path.get_char(k - 1) != '/'
        invariant
            k <= from <= path@.len(),
            last_sep(path@.take(from as int)) == last_sep(path@.take(k as int)),
        decreases k,
    {
        proof {
            let s = path@.take(k as int);
            assert(s.last() == path@[k - 1]);
            assert(s.drop_last() =~= path@.take(k - 1));
        }
        k = k - 1;
    }
    proof {
        let s = path@.take(k as int);
        if k > 0 {
            assert(s.last() == path@[k - 1]);
        }
    }
    k
}

/// Returns the path without its final component. Fails when no parent
/// exists: for the empty path, the root, and a single relative segment.
pub fn dirname(path: &str) -> (r: Result<String, PathError>)
    ensures
        !has_parent(path@) ==> (r matches Err(e) && e matches PathError::ParentNotFound(p) && p@
            == path@),
        has_parent(path@) ==> (r matches Ok(d) && d@ == parent_of(path@)),
{
    let h = path.unicode_len();
    proof {
        assert(path@.take(h as int) =~= path@);
    }
    let end = strip_trailing_end(path, h);
    if end == 0 {
        return Err(PathError::parent_not_found(path));
    }
    let k = scan_last_sep(path, end);
    if k == 0 {
        return Err(PathError::parent_not_found(path));
    }
    let ls = k - 1;
    proof {
        assert(path@.take(end as int).take(ls as int) =~= path@.take(ls as int));
    }
    let end2 = strip_trailing_end(path, ls);
    if end2 == 0 {
        proof {
            reveal_strlit("/");
        }
        let d = String::from_str("/");
        assert(d@ =~= seq!['/']);
        Ok(d)
    } else {
        let d = path.substring_char(0, end2).to_owned();
        proof {
            assert(d@ =~= path@.take(end2 as int));
        }
        Ok(d)
    }
}

/// Returns the final component of the path as text. Fails when the path has
/// no final component: the empty path, the root, and the current- and
/// parent-directory markers.
pub fn name(path: &str) -> (r: Result<String, PathError>)
    ensures
        ({
            let t = strip_trailing(path@);
            let g = t.skip(last_sep(t) + 1);
            &&& (t.len() == 0 || g == dot() || g == dotdot()) ==> (r matches Err(e) && e
                matches PathError::FileNameNotFound(p) && p@ == path@)
            &&& (t.len() > 0 && g != dot() && g != dotdot()) ==> (r matches Ok(s) && s@ == g)
        }),
{
    let h = path.unicode_len();
    proof {
        assert(path@.take(h as int) =~= path@);
    }
    let end = strip_trailing_end(path, h);
    if end == 0 {
        return Err(PathError::filename_not_found(path));
    }
    let k = scan_last_sep(path, end);
    proof {
        let t = strip_trailing(path@);
        assert(t.skip(last_sep(t) + 1) =~= path@.subrange(k as int, end as int));
    }
    let len = end - k;
    let is_dot_seg = len == 1 && path.get_char(k) == '.';
    let is_dotdot_seg = len == 2 && path.get_char(k) == '.' && path.get_char(k + 1) == '.';
    proof {
        let g = path@.subrange(k as int, end as int);
        if is_dot_seg {
            assert(g =~= dot());
        }
        if is_dotdot_seg {
            assert(g =~= dotdot());
        }
        if !is_dot_seg && g == dot() {
            assert(g[0] == path@[k as int]);
        }
        if !is_dotdot_seg && g == dotdot() {
            assert(g[0] == path@[k as int] && g[1] == path@[k + 1]);
        }
    }
    if is_dot_seg || is_dotdot_seg {
        return Err(PathError::filename_not_found(path));
    }
    let s = path.substring_char(k, end).to_owned();
    Ok(s)
}

/// True if the vector holds the current-directory marker.
fn is_dot_vec(v: &Vec<char>) -> (r: bool)
    ensures
        r == (v@ == dot()),
{
    let r = v.len() == 1 && v[0] == '.';
    proof {
        if r {
            assert(v@ =~= dot());
        }
        if v@ == dot() {
            assert(v@.len() == 1 && v@[0] == '.');
        }
    }
    r
}

/// True if the vector holds the parent-directory marker.
fn is_dotdot_vec(v: &Vec<char>) -> (r: bool)
    ensures
        r == (v@ == dotdot()),
{
    let r = v.len() == 2 && v[0] == '.' && v[1] == '.';
    proof {
        if r {
            assert(v@ =~= dotdot());
        }
        if v@ == dotdot() {
            assert(v@.len() == 2 && v@[0] == '.' && v@[1] == '.');
        }
    }
    r
}

/// A copy of the character vector.
fn copy_chars(v: &Vec<char>) -> (r: Vec<char>)
    ensures
        r@ == v@,
{
    let mut r: Vec<char> = Vec::new();
    let mut i: usize = 0;
    while i < v.len()
        invariant
            i <= v@.len(),
            r@ == v@.take(i as int),
        decreases v@.len() - i,
    {
        r.push(v[i]);
        i = i + 1;
        proof {
            assert(r@ =~= v@.take(i as int));
        }
    }
    proof {
        assert(r@ =~= v@);
    }
    r
}

/// Append the characters of `seg` to `out`.
fn append_chars(out: &mut Vec<char>, seg: &Vec<char>)
    ensures
        final(out)@ == old(out)@ + seg@,
{
    let mut i: usize = 0;
    while i < seg.len()
        invariant
            i <= seg@.len(),
            out@ == old(out)@ + seg@.take(i as int),
        decreases seg@.len() - i,
    {
        out.push(seg[i]);
        i = i + 1;
        proof {
            assert(old(out)@ + seg@.take(i as int) =~= (old(out)@ + seg@.take(i - 1)).push(
                seg@[i - 1],
            ));
        }
    }
    proof {
        assert(seg@.take(seg@.len() as int) =~= seg@);
    }
}

/// Return the shortest path equivalent to the given path by purely lexical
/// processing: repeated separators collapse, current-directory markers
/// disappear, a parent-directory marker removes the real segment before it,
/// markers that would climb above the root disappear, markers that lead a
/// relative path stay, and a trailing separator is dropped unless the path
/// is the root. An empty result becomes the current-directory marker. Links
/// are not consulted; use an OS-level canonicalization where links matter.
pub fn clean(path: &str) -> (r: String)
    ensures
        r@ == clean_spec(path@),
{
    let chars = str_to_chars(path);
    let n = chars.len();
    let rooted = n > 0 && chars[0] == '/';
    // split into segments
    let mut segs: Vec<Vec<char>> = Vec::new();
    let mut cur: Vec<char> = Vec::new();
    let mut i: usize = 0;
    proof {
        assert(path@.skip(0) =~= path@);
        assert(views(segs@) + split_acc(path@, cur@) =~= split_acc(path@, cur@));
    }
    while i < n
        invariant
            chars@ == path@,
            n == chars@.len(),
            i <= n,
            seg_free(cur@),
            split_path(path@) == views(segs@) + split_acc(path@.skip(i as int), cur@),
        decreases n - i,
    {
        proof {
            assert(path@.skip(i as int)[0] == path@[i as int]);
            assert(path@.skip(i as int).skip(1) =~= path@.skip(i + 1));
        }
        if chars[i] == '/' {
            if cur.len() > 0 {
                let ghost old_segs = segs@;
                let ghost old_cur = cur@;
                segs.push(cur);
                cur = Vec::new();
                proof {
                    assert(views(segs@) =~= views(old_segs).push(old_cur));
                    assert(views(old_segs) + (wrap(old_cur) + split_acc(path@.skip(i + 1),
                    Seq::empty())) =~= views(segs@) + split_acc(path@.skip(i + 1), cur@));
                }
            } else {
                proof {
                    assert(cur@ =~= Seq::<char>::empty());
                    assert(wrap(cur@) + split_acc(path@.skip(i + 1), Seq::empty()) =~= split_acc(
                        path@.skip(i + 1),
                        cur@,
                    ));
                }
            }
        } else {
            cur.push(chars[i]);
        }
        i = i + 1;
    }
    proof {
        assert(path@.skip(n as int) =~= Seq::<char>::empty());
    }
    if cur.len() > 0 {
        let ghost old_segs = segs@;
        let ghost old_cur = cur@;
        segs.push(cur);
        proof {
            assert(views(segs@) =~= views(old_segs).push(old_cur));
            assert(views(old_segs) + wrap(old_cur) =~= views(segs@));
        }
    } else {
        proof {
            assert(views(segs@) + wrap(cur@) =~= views(segs@));
        }
    }
    assert(views(segs@) == split_path(path@));
    // normalize against a stack
    let m = segs.len();
    let mut stack: Vec<Vec<char>> = Vec::new();
    let mut k: usize = 0;
    proof {
        assert(views(segs@).skip(0) =~= views(segs@));
        assert(views(stack@) =~= Seq::<Seq<char>>::empty());
    }
    while k < m
        invariant
            m == segs@.len(),
            k <= m,
            norm(split_path(path@), rooted) == norm_from(
                views(stack@),
                views(segs@).skip(k as int),
                rooted,
            ),
        decreases m - k,
    {
        proof {
            assert(views(segs@).skip(k as int)[0] == segs@[k as int]@);
            assert(views(segs@).skip(k as int).skip(1) =~= views(segs@).skip(k + 1));
        }
        let ghost old_stack = stack@;
        let g = &segs[k];
        if is_dot_vec(g) {
        } else if is_dotdot_vec(g) {
            let pop = stack.len() > 0 && !is_dotdot_vec(&stack[stack.len() - 1]);
            proof {
                if stack@.len() > 0 {
                    assert(views(stack@).last() == stack@.last()@);
                }
            }
            if pop {
                let _ = stack.pop();
                proof {
                    assert(views(stack@) =~= views(old_stack).drop_last());
                }
            } else if !rooted {
                stack.push(copy_chars(g));
                proof {
                    assert(views(stack@) =~= views(old_stack).push(dotdot()));
                }
            }
        } else {
            stack.push(copy_chars(g));
            proof {
                assert(views(stack@) =~= views(old_stack).push(segs@[k as int]@));
            }
        }
        proof {
            assert(views(stack@) == norm_step(views(old_stack), segs@[k as int]@, rooted));
        }
        k = k + 1;
    }
    proof {
        assert(views(segs@).skip(m as int) =~= Seq::<Seq<char>>::empty());
        assert(norm(split_path(path@), rooted) == views(stack@));
    }
    // render
    let mut out: Vec<char> = Vec::new();
    if rooted {
        out.push('/');
    }
    let s = stack.len();
    let mut j: usize = 0;
    proof {
        assert(views(stack@).take(0) =~= Seq::<Seq<char>>::empty());
        if rooted {
            assert(out@ =~= seq!['/'] + join_segs(views(stack@).take(0)));
        } else {
            assert(out@ =~= Seq::<char>::empty() + join_segs(views(stack@).take(0)));
        }
    }
    while j < s
        invariant
            s == stack@.len(),
            j <= s,
            out@ == (if rooted {
                seq!['/']
            } else {
                Seq::<char>::empty()
            }) + join_segs(views(stack@).take(j as int)),
        decreases s - j,
    {
        let ghost pre = (if rooted {
            seq!['/']
        } else {
            Seq::<char>::empty()
        });
        if j > 0 {
            out.push('/');
        }
        append_chars(&mut out, &stack[j]);
        proof {
            let u = views(stack@).take(j as int);
            let g = stack@[j as int]@;
            lemma_join_snoc(u, g);
            assert(views(stack@).take(j + 1) =~= u.push(g));
            if j == 0 {
                assert(out@ =~= pre + join_segs(views(stack@).take(j + 1)));
            } else {
                assert(pre + join_segs(u) + seq!['/'] + g =~= pre + (join_segs(u) + seq!['/']
                    + g));
                assert(out@ =~= pre + join_segs(views(stack@).take(j + 1)));
            }
        }
        j = j + 1;
    }
    proof {
        assert(views(stack@).take(s as int) =~= views(stack@));
    }
    if !rooted && s == 0 {
        out.push('.');
        proof {
            assert(out@ =~= dot());
        }
    }
    proof {
        if rooted {
            assert(out@ == render(rooted, views(stack@)));
        } else if s == 0 {
            assert(out@ == render(rooted, views(stack@)));
        } else {
            assert(Seq::<char>::empty() + join_segs(views(stack@)) =~= join_segs(views(stack@)));
            assert(out@ == render(rooted, views(stack@)));
        }
    }
    chars_to_string(&out)
}

/// Expand a leading tilde to the home directory. A path without a tilde
/// passes through unchanged, so the empty path is no error. A tilde in any
/// other position, a second tilde, or a missing home directory is an error.
pub fn expand(path: &str, home: Option<&str>) -> (r: Result<String, PathError>)
    ensures
        count_char(path@, '~') == 0 ==> (r matches Ok(q) && q@ == path@),
        count_char(path@, '~') > 1 ==> (r matches Err(e) && e
            matches PathError::MultipleHomeSymbols(p) && p@ == path@),
        count_char(path@, '~') == 1 && !tilde_prefixed(path@) ==> (r matches Err(e) && e
            matches PathError::InvalidExpansion(p) && p@ == path@),
        count_char(path@, '~') == 1 && tilde_prefixed(path@) && home is None ==> (r matches Err(e)
            && e matches PathError::HomeNotFound(p) && p@ == path@),
        count_char(path@, '~') == 1 && tilde_prefixed(path@) ==> (home matches Some(hm) ==> (r
            matches Ok(q) && q@ == hm@ + path@.skip(1))),
{
    let h = path.unicode_len();
    let mut cnt: usize = 0;
    let mut i: usize = 0;
    while i < h
        invariant
            h == path@.len(),
            i <= h,
            cnt <= i,
            cnt == count_char(path@.take(i as int), '~'),
        decreases h - i,
    {
        proof {
            let s = path@.take(i + 1);
            assert(s.drop_last() =~= path@.take(i as int));
            assert(s.last() == path@[i as int]);
        }
        if path.get_char(i) == '~' {
            cnt = cnt + 1;
        }
        i = i + 1;
    }
    proof {
        assert(path@.take(h as int) =~= path@);
    }
    if cnt == 0 {
        return Ok(path.to_owned());
    }
    if cnt > 1 {
        return Err(PathError::multiple_home_symbols(path));
    }
    let prefixed = h >= 2 && path.get_char(0) == '~' && path.get_char(1) == '/';
    if !prefixed {
        return Err(PathError::invalid_expansion(path));
    }
    match home {
        None => Err(PathError::home_not_found(path)),
        Some(hm) => {
            let rest = suffix_from(path, 1);
            Ok(String::from_str(hm).concat(rest.as_str()))
        },
    }
}

/// True when tilde expansion succeeds: no tilde at all, or exactly one
/// leading `~/` with a home directory available.
pub open spec fn expand_ok(s: Seq<char>, home: Option<Seq<char>>) -> bool {
    count_char(s, '~') == 0 || (count_char(s, '~') == 1 && tilde_prefixed(s) && home is Some)
}

/// The expanded path, when [`expand_ok`] holds.
pub open spec fn expand_val(s: Seq<char>, home: Option<Seq<char>>) -> Seq<char> {
    if count_char(s, '~') == 0 {
        s
    } else {
        home.unwrap() + s.skip(1)
    }
}

/// The path with a single trailing separator removed, unless it is the root.
pub open spec fn trim_one_trailing(s: Seq<char>) -> Seq<char> {
    if s.len() > 1 && s.last() == '/' {
        s.drop_last()
    } else {
        s
    }
}

/// `b` joined under the directory `a` with a single separator between.
pub open spec fn join_path(a: Seq<char>, b: Seq<char>) -> Seq<char> {
    if a.len() > 0 && a.last() == '/' {
        a + b
    } else {
        a + seq!['/'] + b
    }
}

/// True when the path's first segment is the current-directory marker.
pub open spec fn leads_dot(q: Seq<char>) -> bool {
    q.len() >= 1 && q[0] == '.' && (q.len() == 1 || q[1] == '/')
}

/// True when the path's first segment is the parent-directory marker.
pub open spec fn leads_dotdot(q: Seq<char>) -> bool {
    q.len() >= 2 && q[0] == '.' && q[1] == '.' && (q.len() == 2 || q[2] == '/')
}

/// `rest` joined under the directory `base`, with a separator added unless
/// `base` already ends in one.
fn join_under(base: &str, rest: &str) -> (r: String)
    ensures
        r@ == join_path(base@, rest@),
{
    let bn = base.unicode_len();
    if bn > 0 && base.get_char(bn - 1) == '/' {
        String::from_str(base).concat(rest)
    } else {
        proof {
            reveal_strlit("/");
        }
        let mut s = String::from_str(base);
        s.append("/");
        s.append(rest);
        proof {
            assert(s@ =~= base@ + seq!['/'] + rest@);
        }
        s
    }
}

/// Make the path absolute. The empty path is rejected; a tilde prefix is
/// expanded against the home directory; a single trailing separator is
/// trimmed unless the path is the root; a path that is then rooted stands as
/// it is, and a relative path is resolved against the working directory,
/// with a leading current-directory segment dropped and a leading
/// parent-directory segment resolved against the working directory's
/// parent. The result is not lexically cleaned; callers that need a fully
/// normalized path clean it explicitly.
pub fn abs(path: &str, home: Option<&str>, cwd: &str) -> (r: Result<String, PathError>)
    ensures
        path@.len() == 0 ==> (r matches Err(e) && e is Empty),
        path@.len() > 0 && count_char(path@, '~') > 1 ==> (r matches Err(e) && e
            matches PathError::MultipleHomeSymbols(p) && p@ == path@),
        path@.len() > 0 && count_char(path@, '~') == 1 && !tilde_prefixed(path@) ==> (r
            matches Err(e) && e matches PathError::InvalidExpansion(p) && p@ == path@),
        path@.len() > 0 && count_char(path@, '~') == 1 && tilde_prefixed(path@) && home is None
            ==> (r matches Err(e) && e matches PathError::HomeNotFound(p) && p@ == path@),
        path@.len() > 0 && expand_ok(path@, opt_chars(home)) ==> ({
            let q = trim_one_trailing(expand_val(path@, opt_chars(home)));
            &&& is_rooted(q) ==> (r matches Ok(a) && a@ == q)
            &&& !is_rooted(q) && leads_dot(q) ==> (r matches Ok(a) && a@ == (if q.len() == 1 {
                cwd@
            } else {
                join_path(cwd@, q.skip(2))
            }))
            &&& !is_rooted(q) && leads_dotdot(q) && has_parent(cwd@) ==> (r matches Ok(a) && a@
                == (if q.len() == 2 {
                parent_of(cwd@)
            } else {
                join_path(parent_of(cwd@), q.skip(3))
            }))
            &&& !is_rooted(q) && leads_dotdot(q) && !has_parent(cwd@) ==> (r matches Err(e) && e
                matches PathError::ParentNotFound(p) && p@ == cwd@)
            &&& !is_rooted(q) && !leads_dot(q) && !leads_dotdot(q) ==> (r matches Ok(a) && a@
                == join_path(cwd@, q))
        }),
{
    if path.unicode_len() == 0 {
        return Err(PathError::empty());
    }
    let expanded = match expand(path, home) {
        Ok(x) => x,
        Err(e) => {
            return Err(e);
        },
    };
    let exn = expanded.as_str().unicode_len();
    let trim = exn > 1 && expanded.as_str().get_char(exn - 1) == '/';
    let q: String = if trim {
        let t = expanded.as_str().substring_char(0, exn - 1).to_owned();
        proof {
            assert(t@ =~= expanded@.drop_last());
        }
        t
    } else {
        expanded
    };
    let ghost qq = trim_one_trailing(expand_val(path@, opt_chars(home)));
    proof {
        let hv = opt_chars(home);
        if count_char(path@, '~') == 0 {
        } else {
            lemma_count_nonneg(path@, '~');
            assert(count_char(path@, '~') == 1 && tilde_prefixed(path@));
            assert(home is Some);
            assert(hv.unwrap() == home.unwrap()@);
        }
        assert(expanded@ == expand_val(path@, hv));
        assert(q@ == trim_one_trailing(expanded@));
        assert(q@ == qq);
    }
    let qn = q.as_str().unicode_len();
    let rooted = qn > 0 && q.as_str().get_char(0) == '/';
    if rooted {
        return Ok(q);
    }
    let l_dot = qn >= 1 && q.as_str().get_char(0) == '.' && (qn == 1 || q.as_str().get_char(1)
        == '/');
    let l_dd = qn >= 2 && q.as_str().get_char(0) == '.' && q.as_str().get_char(1) == '.' && (qn
        == 2 || q.as_str().get_char(2) == '/');
    if l_dot {
        if qn == 1 {
            return Ok(cwd.to_owned());
        }
        let rest = q.as_str().substring_char(2, qn).to_owned();
        proof {
            assert(rest@ =~= q@.skip(2));
        }
        return Ok(join_under(cwd, rest.as_str()));
    }
    if l_dd {
        let parent = match dirname(cwd) {
            Ok(p) => p,
            Err(e) => {
                return Err(e);
            },
        };
        if qn == 2 {
            return Ok(parent);
        }
        let rest = q.as_str().substring_char(3, qn).to_owned();
        proof {
            assert(rest@ =~= q@.skip(3));
        }
        return Ok(join_under(parent.as_str(), rest.as_str()));
    }
    Ok(join_under(cwd, q.as_str()))
}

} // verus!
