//! Lexical cleaning of `/`-separated paths, as theme files are located.
use vstd::prelude::*;
use crate::text::{chars_of, copy_range, string_of, views};

verus! {

/// How many characters at the start of `s` come before a `/`.
pub open spec fn segment_len(s: Seq<char>) -> nat
    decreases s.len(),
{
    if s.len() == 0 || s[0] == '/' {
        0
    } else {
        1 + segment_len(s.drop_first())
    }
}

proof fn lemma_segment_len_bound(s: Seq<char>)
    ensures
        segment_len(s) <= s.len(),
    decreases s.len(),
{
    if s.len() > 0 && s[0] != '/' {
        lemma_segment_len_bound(s.drop_first());
    }
}

#[via_fn]
proof fn segments_decreases(s: Seq<char>) {
    lemma_segment_len_bound(s);
}

/// The non-empty runs of characters between `/` separators.
pub open spec fn segments(s: Seq<char>) -> Seq<Seq<char>>
    decreases s.len() via segments_decreases
{
    if s.len() == 0 {
        seq![]
    } else if s[0] == '/' {
        segments(s.drop_first())
    } else {
        let w = segment_len(s);
        seq![s.subrange(0, w as int)] + segments(s.subrange(w as int, s.len() as int))
    }
}

/// One step of cleaning: `.` is dropped; `..` removes the part before it,
/// is dropped right after the root, and is kept where nothing can be removed.
pub open spec fn clean_step(out: Seq<Seq<char>>, p: Seq<char>, rooted: bool) -> Seq<Seq<char>> {
    if p == seq!['.'] {
        out
    } else if p == seq!['.', '.'] {
        if out.len() > 0 && out.last() != seq!['.', '.'] {
            out.drop_last()
        } else if rooted {
            out
        } else {
            out.push(p)
        }
    } else {
        out.push(p)
    }
}

/// The parts left after cleaning `parts` from left to right.
pub open spec fn clean_parts(parts: Seq<Seq<char>>, rooted: bool) -> Seq<Seq<char>>
    decreases parts.len(),
{
    if parts.len() == 0 {
        seq![]
    } else {
        clean_step(clean_parts(parts.drop_last(), rooted), parts.last(), rooted)
    }
}

/// The parts joined with `/`.
pub open spec fn join(parts: Seq<Seq<char>>) -> Seq<char>
    decreases parts.len(),
{
    if parts.len() == 0 {
        seq![]
    } else if parts.len() == 1 {
        parts[0]
    } else {
        join(parts.drop_last()) + seq!['/'] + parts.last()
    }
}

/// The cleaned form of a path: repeated `/` and `.` parts removed, each `..`
/// folded into the part before it, a `..` just after the root dropped, and
/// `.` for a relative path with nothing left.
pub open spec fn cleaned(s: Seq<char>) -> Seq<char> {
    let rooted = s.len() > 0 && s[0] == '/';
    let out = clean_parts(segments(s), rooted);
    if rooted {
        seq!['/'] + join(out)
    } else if out.len() == 0 {
        seq!['.']
    } else {
        join(out)
    }
}

proof fn lemma_segment_step(s: Seq<char>, i: int, j: int)
    requires
        0 <= i <= j < s.len(),
        s[j] != '/',
        segment_len(s.subrange(j, s.len() as int)) + (j - i) == segment_len(s.subrange(i, s.len() as int)),
    ensures
        segment_len(s.subrange(j + 1, s.len() as int)) + (j + 1 - i) == segment_len(
            s.subrange(i, s.len() as int),
        ),
{
    assert(s.subrange(j, s.len() as int).drop_first() =~= s.subrange(j + 1, s.len() as int));
}

fn split_path(v: &Vec<char>) -> (r: Vec<Vec<char>>)
    ensures
        views(r@) == segments(v@),
{
    let n = v.len();
    let mut r: Vec<Vec<char>> = Vec::new();
    let mut i: usize = 0;
    assert(v@.subrange(0, n as int) =~= v@);
    while i < n
        invariant
            i <= n == v@.len(),
            views(r@) + segments(v@.subrange(i as int, n as int)) == segments(v@),
        decreases n - i,
    {
        let ghost before = views(r@);
        let ghost rest = v@.subrange(i as int, n as int);
        if v[i] == '/' {
            assert(rest.drop_first() =~= v@.subrange(i + 1, n as int));
            i = i + 1;
        } else {
            let mut j: usize = i;
            assert(v@.subrange(j as int, n as int) =~= rest);
            while j < n && v[j] != '/'
                invariant
                    i <= j <= n == v@.len(),
                    rest == v@.subrange(i as int, n as int),
                    segment_len(v@.subrange(j as int, n as int)) + (j - i) == segment_len(rest),
                decreases n - j,
            {
                proof {
                    lemma_segment_step(v@, i as int, j as int);
                }
                j = j + 1;
            }
            assert(segment_len(v@.subrange(j as int, n as int)) == 0);
            let w = copy_range(v, i, j);
            r.push(w);
            proof {
                assert(rest.subrange(0, (j - i) as int) =~= w@);
                assert(rest.subrange((j - i) as int, rest.len() as int) =~= v@.subrange(
                    j as int,
                    n as int,
                ));
                assert(views(r@) =~= before.push(w@));
                assert(segments(rest) == seq![w@] + segments(v@.subrange(j as int, n as int)));
                assert(views(r@) + segments(v@.subrange(j as int, n as int)) =~= before + segments(
                    rest,
                ));
            }
            i = j;
        }
    }
    assert(segments(v@.subrange(n as int, n as int)) =~= seq![]);
    assert(views(r@) =~= views(r@) + seq![]);
    r
}

fn is_dot(p: &Vec<char>) -> (r: bool)
    ensures
        r == (p@ == seq!['.']),
{
    let b = p.len() == 1 && p[0] == '.';
    assert(b ==> p@ =~= seq!['.']);
    b
}

fn is_dot_dot(p: &Vec<char>) -> (r: bool)
    ensures
        r == (p@ == seq!['.', '.']),
{
    let b = p.len() == 2 && p[0] == '.' && p[1] == '.';
    assert(b ==> p@ =~= seq!['.', '.']);
    b
}

fn fold_parts(parts: Vec<Vec<char>>, rooted: bool) -> (r: Vec<Vec<char>>)
    ensures
        views(r@) == clean_parts(views(parts@), rooted),
{
    let ghost ps = views(parts@);
    let mut out: Vec<Vec<char>> = Vec::new();
    let mut i: usize = 0;
    while i < parts.len()
        invariant
            i <= parts@.len(),
            ps == views(parts@),
            views(out@) == clean_parts(ps.subrange(0, i as int), rooted),
        decreases parts@.len() - i,
    {
        let ghost prev = views(out@);
        assert(ps.subrange(0, i + 1).drop_last() =~= ps.subrange(0, i as int));
        let p = copy_range(&parts[i], 0, parts[i].len());
        assert(parts@[i as int]@.subrange(0, parts@[i as int]@.len() as int) =~= parts@[i as int]@);
        if is_dot(&p) {
        } else if is_dot_dot(&p) {
            let k = out.len();
            if k > 0 && !is_dot_dot(&out[k - 1]) {
                out.pop();
                assert(views(out@) =~= prev.drop_last());
            } else if rooted {
            } else {
                out.push(p);
                assert(views(out@) =~= prev.push(seq!['.', '.']));
            }
        } else {
            let ghost pv = p@;
            out.push(p);
            assert(views(out@) =~= prev.push(pv));
        }
        i = i + 1;
    }
    assert(ps.subrange(0, ps.len() as int) =~= ps);
    out
}

fn join_parts(parts: &Vec<Vec<char>>, out: &mut Vec<char>)
    ensures
        final(out)@ == old(out)@ + join(views(parts@)),
{
    let ghost ps = views(parts@);
    let ghost start = old(out)@;
    let mut i: usize = 0;
    while i < parts.len()
        invariant
            i <= parts@.len(),
            ps == views(parts@),
            out@ == start + join(ps.subrange(0, i as int)),
        decreases parts@.len() - i,
    {
        let ghost prev = out@;
        assert(ps.subrange(0, i + 1).drop_last() =~= ps.subrange(0, i as int));
        if i > 0 {
            out.push('/');
        }
        let p = &parts[i];
        let mut k: usize = 0;
        let ghost mid = out@;
        while k < p.len()
            invariant
                k <= p@.len(),
                out@ == mid + p@.subrange(0, k as int),
            decreases p@.len() - k,
        {
            out.push(p[k]);
            assert(p@.subrange(0, k + 1) =~= p@.subrange(0, k as int).push(p@[k as int]));
            k = k + 1;
        }
        assert(p@.subrange(0, p@.len() as int) =~= p@);
        if i == 0 {
            assert(join(ps.subrange(0, 1)) == ps[0]);
            assert(out@ =~= start + join(ps.subrange(0, i + 1)));
        } else {
            assert(out@ =~= start + join(ps.subrange(0, i + 1)));
        }
        i = i + 1;
    }
    assert(ps.subrange(0, ps.len() as int) =~= ps);
}

/// Cleans a `/`-separated path lexically (see `cleaned`).
pub fn clean(path: &str) -> (r: String)
    ensures
        r@ == cleaned(path@),
{
    let v = chars_of(path);
    let rooted = v.len() > 0 && v[0] == '/';
    let parts = split_path(&v);
    let out = fold_parts(parts, rooted);
    let mut text: Vec<char> = Vec::new();
    if rooted {
        text.push('/');
        join_parts(&out, &mut text);
    } else if out.len() == 0 {
        text.push('.');
        assert(text@ =~= seq!['.']);
    } else {
        join_parts(&out, &mut text);
        assert(text@ =~= join(views(out@)));
    }
    string_of(text.as_slice())
}

} // verus!
