//! The mathematical model of lexical path cleaning.
//!
//! A path is a sequence of characters. Cleaning splits it into nonempty,
//! separator-free segments, normalizes the current-directory and
//! parent-directory markers against a stack, and renders the result back to a
//! character sequence. The model is shared by [`crate::path::clean`] and by
//! the idempotence proof [`lemma_clean_idempotent`].

use vstd::prelude::*;

verus! {

/// True when the path begins with the separator, i.e. is absolute.
pub open spec fn is_rooted(s: Seq<char>) -> bool {
    s.len() > 0 && s[0] == '/'
}

/// The current-directory marker segment.
pub open spec fn dot() -> Seq<char> {
    seq!['.']
}

/// The parent-directory marker segment.
pub open spec fn dotdot() -> Seq<char> {
    seq!['.', '.']
}

/// True when the sequence contains no separator.
pub open spec fn seg_free(g: Seq<char>) -> bool {
    forall|i: int| 0 <= i < g.len() ==> g[i] != '/'
}

/// A well-formed segment: nonempty and separator-free.
pub open spec fn wf_seg(g: Seq<char>) -> bool {
    g.len() > 0 && seg_free(g)
}

/// All segments of the list are well formed.
pub open spec fn wf_segs(segs: Seq<Seq<char>>) -> bool {
    forall|i: int| 0 <= i < segs.len() ==> wf_seg(#[trigger] segs[i])
}

/// The pending segment as a segment list: a singleton when nonempty.
pub open spec fn wrap(cur: Seq<char>) -> Seq<Seq<char>> {
    if cur.len() > 0 {
        seq![cur]
    } else {
        Seq::empty()
    }
}

/// Split the remainder `s` into segments, with `cur` the segment read so far.
/// Repeated separators yield no empty segments.
pub open spec fn split_acc(s: Seq<char>, cur: Seq<char>) -> Seq<Seq<char>>
    decreases s.len(),
{
    if s.len() == 0 {
        wrap(cur)
    } else if s[0] == '/' {
        wrap(cur) + split_acc(s.skip(1), Seq::empty())
    } else {
        split_acc(s.skip(1), cur.push(s[0]))
    }
}

/// The nonempty segments of a path, in order.
pub open spec fn split_path(s: Seq<char>) -> Seq<Seq<char>> {
    split_acc(s, Seq::empty())
}

/// One normalization step: fold the segment `g` onto the stack `acc`.
/// A `.` disappears; a `..` pops a preceding real segment, disappears at the
/// root, and survives at the head of a relative path; anything else is kept.
pub open spec fn norm_step(acc: Seq<Seq<char>>, g: Seq<char>, rooted: bool) -> Seq<Seq<char>> {
    if g == dot() {
        acc
    } else if g == dotdot() {
        if acc.len() > 0 && acc.last() != dotdot() {
            acc.drop_last()
        } else if rooted {
            acc
        } else {
            acc.push(dotdot())
        }
    } else {
        acc.push(g)
    }
}

/// Normalize the segments `segs` onto the stack `acc`.
pub open spec fn norm_from(acc: Seq<Seq<char>>, segs: Seq<Seq<char>>, rooted: bool) -> Seq<
    Seq<char>,
>
    decreases segs.len(),
{
    if segs.len() == 0 {
        acc
    } else {
        norm_from(norm_step(acc, segs[0], rooted), segs.skip(1), rooted)
    }
}

/// The normalized form of a segment list.
pub open spec fn norm(segs: Seq<Seq<char>>, rooted: bool) -> Seq<Seq<char>> {
    norm_from(Seq::empty(), segs, rooted)
}

/// The segments joined by single separators.
pub open spec fn join_segs(segs: Seq<Seq<char>>) -> Seq<char>
    decreases segs.len(),
{
    if segs.len() == 0 {
        Seq::empty()
    } else if segs.len() == 1 {
        segs[0]
    } else {
        segs[0] + seq!['/'] + join_segs(segs.skip(1))
    }
}

/// Render a segment list back to a path. An absolute path keeps its leading
/// separator; an empty relative result is the current-directory marker.
pub open spec fn render(rooted: bool, segs: Seq<Seq<char>>) -> Seq<char> {
    if rooted {
        seq!['/'] + join_segs(segs)
    } else if segs.len() == 0 {
        dot()
    } else {
        join_segs(segs)
    }
}

/// The cleaned form of a path: the shortest lexical equivalent.
pub open spec fn clean_spec(s: Seq<char>) -> Seq<char> {
    render(is_rooted(s), norm(split_path(s), is_rooted(s)))
}

/// A segment list is canonical when it is exactly what normalization can
/// produce: well-formed segments, no current-directory markers, all
/// parent-directory markers at the front, and none at all under a root.
pub open spec fn canonical(segs: Seq<Seq<char>>, rooted: bool) -> bool {
    &&& wf_segs(segs)
    &&& forall|i: int| 0 <= i < segs.len() ==> #[trigger] segs[i] != dot()
    &&& forall|i: int, j: int|
        0 <= i <= j < segs.len() && #[trigger] segs[j] == dotdot() ==> #[trigger] segs[i]
            == dotdot()
    &&& rooted ==> forall|i: int| 0 <= i < segs.len() ==> #[trigger] segs[i] != dotdot()
}

/// The character sequences of a list of character vectors.
pub open spec fn views(segs: Seq<Vec<char>>) -> Seq<Seq<char>> {
    segs.map_values(|v: Vec<char>| v@)
}

/// Joining a list extended by one segment appends a separator and the
/// segment, unless the list was empty.
pub proof fn lemma_join_snoc(u: Seq<Seq<char>>, g: Seq<char>)
    ensures
        join_segs(u.push(g)) == if u.len() == 0 {
            g
        } else {
            join_segs(u) + seq!['/'] + g
        },
    decreases u.len(),
{
    if u.len() == 0 {
        assert(u.push(g)[0] == g);
    } else {
        assert(u.push(g)[0] == u[0]);
        assert(u.push(g).skip(1) =~= u.skip(1).push(g));
        lemma_join_snoc(u.skip(1), g);
        if u.len() == 1 {
            assert(u.skip(1).len() == 0);
        } else {
            assert(u[0] + seq!['/'] + (join_segs(u.skip(1)) + seq!['/'] + g) =~= (u[0] + seq!['/']
                + join_segs(u.skip(1))) + seq!['/'] + g);
        }
    }
}

/// Splitting only ever produces well-formed segments.
proof fn lemma_split_wf(s: Seq<char>, cur: Seq<char>)
    requires
        seg_free(cur),
    ensures
        wf_segs(split_acc(s, cur)),
    decreases s.len(),
{
    if s.len() == 0 {
    } else if s[0] == '/' {
        lemma_split_wf(s.skip(1), Seq::empty());
    } else {
        assert(seg_free(cur.push(s[0])));
        lemma_split_wf(s.skip(1), cur.push(s[0]));
    }
}

/// Reading separator-free characters only grows the pending segment.
proof fn lemma_split_chain(a: Seq<char>, b: Seq<char>, cur: Seq<char>)
    requires
        seg_free(a),
    ensures
        split_acc(a + b, cur) == split_acc(b, cur + a),
    decreases a.len(),
{
    if a.len() == 0 {
        assert(a + b =~= b);
        assert(cur + a =~= cur);
    } else {
        assert((a + b)[0] == a[0]);
        assert((a + b).skip(1) =~= a.skip(1) + b);
        lemma_split_chain(a.skip(1), b, cur.push(a[0]));
        assert(cur.push(a[0]) + a.skip(1) =~= cur + a);
    }
}

/// A separator flushes the pending segment.
proof fn lemma_split_sep(b: Seq<char>, cur: Seq<char>)
    ensures
        split_acc(seq!['/'] + b, cur) == wrap(cur) + split_acc(b, Seq::empty()),
{
    assert((seq!['/'] + b)[0] == '/');
    assert((seq!['/'] + b).skip(1) =~= b);
}

/// Splitting a joined well-formed segment list recovers the list.
proof fn lemma_split_join(segs: Seq<Seq<char>>)
    requires
        wf_segs(segs),
    ensures
        split_path(join_segs(segs)) == segs,
    decreases segs.len(),
{
    if segs.len() == 0 {
        assert(split_acc(Seq::<char>::empty(), Seq::<char>::empty()) =~= Seq::<Seq<char>>::empty());
        assert(split_path(join_segs(segs)) =~= segs);
    } else if segs.len() == 1 {
        let g = segs[0];
        assert(wf_seg(g));
        assert(g + Seq::<char>::empty() =~= g);
        lemma_split_chain(g, Seq::empty(), Seq::empty());
        assert(Seq::<char>::empty() + g =~= g);
        assert(split_acc(Seq::<char>::empty(), g) == wrap(g));
        assert(wrap(g) =~= segs);
    } else {
        let g = segs[0];
        let t = seq!['/'] + join_segs(segs.skip(1));
        assert(join_segs(segs) =~= g + t);
        lemma_split_chain(g, t, Seq::empty());
        assert(Seq::<char>::empty() + g =~= g);
        lemma_split_sep(join_segs(segs.skip(1)), g);
        assert(wf_segs(segs.skip(1)));
        lemma_split_join(segs.skip(1));
        assert(wrap(g) =~= seq![g]);
        assert(seq![g] + segs.skip(1) =~= segs);
    }
}

/// Normalization keeps the stack canonical.
proof fn lemma_norm_canonical(acc: Seq<Seq<char>>, segs: Seq<Seq<char>>, rooted: bool)
    requires
        canonical(acc, rooted),
        wf_segs(segs),
    ensures
        canonical(norm_from(acc, segs, rooted), rooted),
    decreases segs.len(),
{
    if segs.len() > 0 {
        let g = segs[0];
        assert(wf_seg(g));
        let acc2 = norm_step(acc, g, rooted);
        if g == dot() {
        } else if g == dotdot() {
            if acc.len() > 0 && acc.last() != dotdot() {
                assert(canonical(acc.drop_last(), rooted)) by {
                    assert(forall|i: int|
                        0 <= i < acc.drop_last().len() ==> acc.drop_last()[i] == acc[i]);
                }
            } else if rooted {
            } else {
                assert(canonical(acc.push(dotdot()), rooted)) by {
                    if acc.len() > 0 {
                        assert(acc.last() == dotdot());
                        assert(forall|i: int| 0 <= i < acc.len() ==> #[trigger] acc[i]
                            == dotdot()) by {
                            assert(forall|i: int|
                                0 <= i < acc.len() ==> acc[i] == #[trigger] acc[i] && 0 <= i <= (
                                acc.len() - 1) < acc.len() && acc[acc.len() - 1] == dotdot());
                        }
                    }
                }
            }
        } else {
            assert(canonical(acc.push(g), rooted)) by {
                assert(forall|i: int| 0 <= i < acc.len() ==> acc.push(g)[i] == acc[i]);
                assert(acc.push(g)[acc.len() as int] == g);
            }
        }
        assert(wf_segs(segs.skip(1)));
        lemma_norm_canonical(acc2, segs.skip(1), rooted);
    }
}

/// A canonical segment list is a fixed point of normalization.
proof fn lemma_norm_fixed(acc: Seq<Seq<char>>, segs: Seq<Seq<char>>, rooted: bool)
    requires
        canonical(acc + segs, rooted),
    ensures
        norm_from(acc, segs, rooted) == acc + segs,
    decreases segs.len(),
{
    if segs.len() == 0 {
        assert(acc + segs =~= acc);
    } else {
        let g = segs[0];
        let all = acc + segs;
        assert(all[acc.len() as int] == g);
        assert(wf_seg(g) && g != dot());
        let acc2 = norm_step(acc, g, rooted);
        if g == dotdot() {
            assert(!rooted);
            assert(forall|i: int| 0 <= i < acc.len() ==> #[trigger] all[i] == dotdot());
            assert(forall|i: int| 0 <= i < acc.len() ==> #[trigger] acc[i] == all[i]);
            if acc.len() > 0 {
                assert(acc.last() == dotdot());
            }
            assert(acc2 =~= acc.push(g));
        } else {
            assert(acc2 =~= acc.push(g));
        }
        assert(acc2 + segs.skip(1) =~= acc + segs);
        lemma_norm_fixed(acc2, segs.skip(1), rooted);
    }
}

/// A joined well-formed nonempty segment list starts with the first
/// character of its first segment.
proof fn lemma_join_head(segs: Seq<Seq<char>>)
    requires
        wf_segs(segs),
        segs.len() > 0,
    ensures
        join_segs(segs).len() > 0,
        join_segs(segs)[0] == segs[0][0],
{
    assert(wf_seg(segs[0]));
    if segs.len() == 1 {
    } else {
        assert((segs[0] + seq!['/'] + join_segs(segs.skip(1)))[0] == segs[0][0]);
    }
}

/// Rendering a canonical segment list and cleaning the result changes
/// nothing: the rendered path keeps its rootedness and normalizes back to
/// the same segments.
proof fn lemma_render_clean(segs: Seq<Seq<char>>, rooted: bool)
    requires
        canonical(segs, rooted),
    ensures
        is_rooted(render(rooted, segs)) == rooted,
        norm(split_path(render(rooted, segs)), rooted) == segs,
{
    let out = render(rooted, segs);
    if rooted {
        assert(out[0] == '/');
        assert(out.skip(1) =~= join_segs(segs));
        lemma_split_sep(join_segs(segs), Seq::empty());
        assert(out =~= seq!['/'] + join_segs(segs));
        lemma_split_join(segs);
        assert(wrap(Seq::<char>::empty()) + segs =~= segs);
        assert(split_path(out) == segs);
        assert(Seq::<Seq<char>>::empty() + segs =~= segs);
        lemma_norm_fixed(Seq::empty(), segs, rooted);
    } else if segs.len() == 0 {
        assert(out =~= dot());
        assert(!is_rooted(out));
        // the rendered current-directory marker splits to a single `.`
        // segment, which normalization drops again
        assert(out[0] == '.');
        assert(out.skip(1) =~= Seq::<char>::empty());
        assert(split_acc(out, Seq::empty()) == split_acc(
            Seq::<char>::empty(),
            Seq::<char>::empty().push('.'),
        ));
        assert(Seq::<char>::empty().push('.') =~= dot());
        assert(split_path(out) =~= seq![dot()]);
        assert(seq![dot()][0] == dot());
        assert(norm_step(Seq::empty(), dot(), rooted) =~= Seq::<Seq<char>>::empty());
        assert(seq![dot()].skip(1) =~= Seq::<Seq<char>>::empty());
        assert(norm_from(Seq::empty(), seq![dot()], rooted) == norm_from(
            norm_step(Seq::empty(), seq![dot()][0], rooted),
            seq![dot()].skip(1),
            rooted,
        ));
        assert(norm_from(Seq::<Seq<char>>::empty(), Seq::<Seq<char>>::empty(), rooted)
            =~= Seq::<Seq<char>>::empty());
        assert(norm(split_path(out), rooted) =~= Seq::<Seq<char>>::empty());
    } else {
        lemma_join_head(segs);
        assert(out == join_segs(segs));
        assert(wf_seg(segs[0]));
        assert(out[0] != '/');
        assert(!is_rooted(out));
        lemma_split_join(segs);
        assert(Seq::<Seq<char>>::empty() + segs =~= segs);
        lemma_norm_fixed(Seq::empty(), segs, rooted);
    }
}

/// Cleaning is idempotent: cleaning an already cleaned path returns it
/// unchanged.
pub proof fn lemma_clean_idempotent(s: Seq<char>)
    ensures
        clean_spec(clean_spec(s)) == clean_spec(s),
{
    let rooted = is_rooted(s);
    lemma_split_wf(s, Seq::empty());
    let segs = norm(split_path(s), rooted);
    lemma_norm_canonical(Seq::empty(), split_path(s), rooted);
    lemma_render_clean(segs, rooted);
}

} // verus!
