//! Character-level helpers shared by the parsers: trimming, case folding,
//! prefix and suffix tests, tokenizing and searching, all over `Vec<char>`.
use vstd::prelude::*;
use vstd::std_specs::iter::IteratorSpec;

verus! {

/// The characters with Unicode's White_Space property, as `char::is_whitespace` has them.
pub open spec fn is_space(c: char) -> bool {
    c == '\t' || c == '\n' || c == '\u{0B}' || c == '\u{0C}' || c == '\r' || c == ' '
        || c == '\u{85}' || c == '\u{A0}' || c == '\u{1680}' || ('\u{2000}' <= c
        && c <= '\u{200A}') || c == '\u{2028}' || c == '\u{2029}' || c == '\u{202F}'
        || c == '\u{205F}' || c == '\u{3000}'
}

pub fn space(c: char) -> (r: bool)
    ensures
        r == is_space(c),
{
    c == '\t' || c == '\n' || c == '\u{0B}' || c == '\u{0C}' || c == '\r' || c == ' '
        || c == '\u{85}' || c == '\u{A0}' || c == '\u{1680}' || ('\u{2000}' <= c
        && c <= '\u{200A}') || c == '\u{2028}' || c == '\u{2029}' || c == '\u{202F}'
        || c == '\u{205F}' || c == '\u{3000}'
}

/// `s` without its leading white space.
pub open spec fn trim_start(s: Seq<char>) -> Seq<char>
    decreases s.len(),
{
    if s.len() > 0 && is_space(s[0]) {
        trim_start(s.drop_first())
    } else {
        s
    }
}

/// `s` without its trailing white space.
pub open spec fn trim_end(s: Seq<char>) -> Seq<char>
    decreases s.len(),
{
    if s.len() > 0 && is_space(s.last()) {
        trim_end(s.drop_last())
    } else {
        s
    }
}

/// `s` without white space at either end.
pub open spec fn trimmed(s: Seq<char>) -> Seq<char> {
    trim_end(trim_start(s))
}

pub open spec fn lower_char(c: char) -> char {
    if 'A' <= c && c <= 'Z' {
        (((c as u32) + 32) as u8) as char
    } else {
        c
    }
}

/// ASCII case folding: only `A`..`Z` change.
pub open spec fn ascii_lower(s: Seq<char>) -> Seq<char> {
    s.map_values(|c: char| lower_char(c))
}

pub open spec fn has_prefix(s: Seq<char>, p: Seq<char>) -> bool {
    p.len() <= s.len() && s.subrange(0, p.len() as int) == p
}

pub open spec fn has_suffix(s: Seq<char>, p: Seq<char>) -> bool {
    p.len() <= s.len() && s.subrange(s.len() - p.len(), s.len() as int) == p
}

/// The separators between the arguments of a color function.
pub open spec fn is_arg_sep(c: char) -> bool {
    is_space(c) || c == ',' || c == '/'
}

/// How many characters at the start of `s` are not separators.
pub open spec fn word_len(s: Seq<char>) -> nat
    decreases s.len(),
{
    if s.len() == 0 || is_arg_sep(s[0]) {
        0
    } else {
        1 + word_len(s.drop_first())
    }
}

/// The arguments of a color function: the maximal runs of characters that are
/// not white space, `,` or `/`.
pub open spec fn arg_tokens(s: Seq<char>) -> Seq<Seq<char>>
    decreases s.len() via arg_tokens_decreases
{
    if s.len() == 0 {
        seq![]
    } else if is_arg_sep(s[0]) {
        arg_tokens(s.drop_first())
    } else {
        let w = word_len(s);
        seq![s.subrange(0, w as int)] + arg_tokens(s.subrange(w as int, s.len() as int))
    }
}

/// The character sequences of a list of character vectors.
pub open spec fn views(v: Seq<Vec<char>>) -> Seq<Seq<char>> {
    v.map_values(|w: Vec<char>| w@)
}

#[via_fn]
proof fn arg_tokens_decreases(s: Seq<char>) {
    lemma_word_len_bound(s);
}

/// The characters of `s`, in order.
pub(crate) fn chars_of(s: &str) -> (r: Vec<char>)
    ensures
        r@ == s@,
{
    broadcast use vstd::string::group_string_axioms;

    let mut it = s.chars();
    let mut r: Vec<char> = Vec::new();
    loop
        invariant
            r@ + IteratorSpec::remaining(&it) == s@,
        decreases s@.len() - r@.len(),
    {
        let ghost before = IteratorSpec::remaining(&it);
        match it.next() {
            Some(c) => {
                r.push(c);
                assert(r@ + IteratorSpec::remaining(&it) =~= s@) by {
                    assert(before =~= seq![c] + before.drop_first());
                }
            },
            None => {
                assert(r@ =~= s@);
                return r;
            },
        }
    }
}

/// Relies on `String`'s `FromIterator<char>`: the string made of the given characters.
#[verifier::external_body]
pub(crate) fn string_of(v: &[char]) -> (r: String)
    ensures
        r@ == v@,
{
    v.iter().collect()
}

pub fn copy_range(v: &Vec<char>, from: usize, to: usize) -> (r: Vec<char>)
    requires
        from <= to <= v@.len(),
    ensures
        r@ == v@.subrange(from as int, to as int),
{
    let mut r: Vec<char> = Vec::new();
    let mut i: usize = from;
    while i < to
        invariant
            from <= i <= to <= v@.len(),
            r@ == v@.subrange(from as int, i as int),
        decreases to - i,
    {
        r.push(v[i]);
        assert(r@ =~= v@.subrange(from as int, i + 1));
        i = i + 1;
    }
    r
}

proof fn lemma_trim_start_skip(s: Seq<char>, i: int)
    requires
        0 <= i < s.len(),
        is_space(s[i]),
    ensures
        trim_start(s.subrange(i, s.len() as int)) == trim_start(s.subrange(i + 1, s.len() as int)),
{
    let t = s.subrange(i, s.len() as int);
    assert(t.drop_first() =~= s.subrange(i + 1, s.len() as int));
}

proof fn lemma_trim_end_skip(s: Seq<char>, j: int)
    requires
        0 < j <= s.len(),
        is_space(s[j - 1]),
    ensures
        trim_end(s.subrange(0, j)) == trim_end(s.subrange(0, j - 1)),
{
    let t = s.subrange(0, j);
    assert(t.drop_last() =~= s.subrange(0, j - 1));
}

/// The number of white-space characters at the start of `v`.
fn leading_space(v: &Vec<char>) -> (i: usize)
    ensures
        i <= v@.len(),
        trim_start(v@) == v@.subrange(i as int, v@.len() as int),
{
    let n = v.len();
    let mut i: usize = 0;
    assert(v@.subrange(0, n as int) =~= v@);
    while i < n && space(v[i])
        invariant
            i <= n == v@.len(),
            trim_start(v@) == trim_start(v@.subrange(i as int, n as int)),
        decreases n - i,
    {
        proof {
            lemma_trim_start_skip(v@, i as int);
        }
        i = i + 1;
    }
    i
}

/// The end of `v[from..]` once its trailing white space is dropped.
fn trailing_end(v: &Vec<char>, from: usize) -> (j: usize)
    requires
        from <= v@.len(),
    ensures
        from <= j <= v@.len(),
        trim_end(v@.subrange(from as int, v@.len() as int)) == v@.subrange(from as int, j as int),
{
    let n = v.len();
    let ghost rest = v@.subrange(from as int, n as int);
    let mut j: usize = n;
    assert(rest.subrange(0, (j - from) as int) =~= rest);
    while j > from && space(v[j - 1])
        invariant
            from <= j <= n == v@.len(),
            rest == v@.subrange(from as int, n as int),
            trim_end(rest) == trim_end(rest.subrange(0, (j - from) as int)),
        decreases j,
    {
        proof {
            lemma_trim_end_skip(rest, (j - from) as int);
        }
        j = j - 1;
    }
    assert(rest.subrange(0, (j - from) as int) =~= v@.subrange(from as int, j as int));
    j
}

/// `v` with white space removed from both ends.
pub fn trim(v: &Vec<char>) -> (r: Vec<char>)
    ensures
        r@ == trimmed(v@),
{
    let i = leading_space(v);
    let j = trailing_end(v, i);
    copy_range(v, i, j)
}

/// `v` with `A`..`Z` turned into `a`..`z`.
pub fn to_ascii_lowercase(v: &Vec<char>) -> (r: Vec<char>)
    ensures
        r@ == ascii_lower(v@),
{
    let mut r: Vec<char> = Vec::new();
    let mut i: usize = 0;
    while i < v.len()
        invariant
            i <= v@.len(),
            r@ =~= ascii_lower(v@.subrange(0, i as int)),
        decreases v@.len() - i,
    {
        let c = v[i];
        let l = if 'A' <= c && c <= 'Z' {
            (((c as u32) + 32) as u8) as char
        } else {
            c
        };
        r.push(l);
        assert(ascii_lower(v@.subrange(0, i + 1)) =~= ascii_lower(v@.subrange(0, i as int)).push(
            lower_char(c),
        ));
        i = i + 1;
    }
    assert(v@.subrange(0, v@.len() as int) =~= v@);
    r
}

/// Whether `s` begins with `p`.
pub fn starts_with(s: &Vec<char>, p: &Vec<char>) -> (r: bool)
    ensures
        r == has_prefix(s@, p@),
{
    if p.len() > s.len() {
        return false;
    }
    let mut i: usize = 0;
    while i < p.len()
        invariant
            p@.len() <= s@.len(),
            i <= p@.len(),
            forall|k: int| 0 <= k < i ==> s@[k] == p@[k],
        decreases p@.len() - i,
    {
        if s[i] != p[i] {
            assert(s@.subrange(0, p@.len() as int)[i as int] != p@[i as int]);
            return false;
        }
        i = i + 1;
    }
    assert(s@.subrange(0, p@.len() as int) =~= p@);
    true
}

/// Whether `s` ends with `p`.
pub fn ends_with(s: &Vec<char>, p: &Vec<char>) -> (r: bool)
    ensures
        r == has_suffix(s@, p@),
{
    if p.len() > s.len() {
        return false;
    }
    let sl = s.len();
    let off = sl - p.len();
    let mut i: usize = 0;
    while i < p.len()
        invariant
            p@.len() <= s@.len(),
            off + p@.len() == s@.len(),
            sl == s@.len(),
            i <= p@.len(),
            forall|k: int| 0 <= k < i ==> s@[off + k] == p@[k],
        decreases p@.len() - i,
    {
        if s[off + i] != p[i] {
            assert(s@.subrange(off as int, s@.len() as int)[i as int] != p@[i as int]);
            return false;
        }
        i = i + 1;
    }
    assert(s@.subrange(off as int, s@.len() as int) =~= p@);
    true
}

/// Whether `s` equals the literal `lit`.
pub fn equals_str(s: &Vec<char>, lit: &str) -> (r: bool)
    ensures
        r == (s@ == lit@),
{
    let l = chars_of(lit);
    if s.len() != l.len() {
        return false;
    }
    let mut i: usize = 0;
    while i < s.len()
        invariant
            s@.len() == l@.len(),
            l@ == lit@,
            i <= s@.len(),
            forall|k: int| 0 <= k < i ==> s@[k] == l@[k],
        decreases s@.len() - i,
    {
        if s[i] != l[i] {
            return false;
        }
        i = i + 1;
    }
    assert(s@ =~= l@);
    true
}

/// Whether `s` begins with the literal `lit`.
pub fn starts_with_str(s: &Vec<char>, lit: &str) -> (r: bool)
    ensures
        r == has_prefix(s@, lit@),
{
    let l = chars_of(lit);
    starts_with(s, &l)
}

/// Whether `s` ends with the literal `lit`.
pub fn ends_with_str(s: &Vec<char>, lit: &str) -> (r: bool)
    ensures
        r == has_suffix(s@, lit@),
{
    let l = chars_of(lit);
    ends_with(s, &l)
}

proof fn lemma_word_len_bound(s: Seq<char>)
    ensures
        word_len(s) <= s.len(),
    decreases s.len(),
{
    if s.len() > 0 && !is_arg_sep(s[0]) {
        lemma_word_len_bound(s.drop_first());
    }
}

proof fn lemma_word_len_step(s: Seq<char>, i: int, j: int)
    requires
        0 <= i <= j < s.len(),
        !is_arg_sep(s[j]),
        word_len(s.subrange(j, s.len() as int)) + (j - i) == word_len(s.subrange(i, s.len() as int)),
    ensures
        word_len(s.subrange(j + 1, s.len() as int)) + (j + 1 - i) == word_len(
            s.subrange(i, s.len() as int),
        ),
{
    assert(s.subrange(j, s.len() as int).drop_first() =~= s.subrange(j + 1, s.len() as int));
}

/// The arguments of a color function's argument list (see `arg_tokens`).
pub fn split_args(v: &Vec<char>) -> (r: Vec<Vec<char>>)
    ensures
        views(r@) == arg_tokens(v@),
{
    let n = v.len();
    let mut r: Vec<Vec<char>> = Vec::new();
    let mut i: usize = 0;
    assert(v@.subrange(0, n as int) =~= v@);
    while i < n
        invariant
            i <= n == v@.len(),
            views(r@) + arg_tokens(v@.subrange(i as int, n as int)) == arg_tokens(v@),
        decreases n - i,
    {
        let ghost before = views(r@);
        let ghost rest = v@.subrange(i as int, n as int);
        if space(v[i]) || v[i] == ',' || v[i] == '/' {
            assert(rest.drop_first() =~= v@.subrange(i + 1, n as int));
            i = i + 1;
        } else {
            let mut j: usize = i;
            assert(v@.subrange(j as int, n as int) =~= rest);
            while j < n && !(space(v[j]) || v[j] == ',' || v[j] == '/')
                invariant
                    i <= j <= n == v@.len(),
                    rest == v@.subrange(i as int, n as int),
                    word_len(v@.subrange(j as int, n as int)) + (j - i) == word_len(rest),
                    forall|k: int| i <= k < j ==> !is_arg_sep(v@[k]),
                decreases n - j,
            {
                proof {
                    lemma_word_len_step(v@, i as int, j as int);
                }
                j = j + 1;
            }
            assert(word_len(v@.subrange(j as int, n as int)) == 0);
            let w = copy_range(v, i, j);
            r.push(w);
            proof {
                assert(rest.subrange(0, (j - i) as int) =~= w@);
                assert(rest.subrange((j - i) as int, rest.len() as int) =~= v@.subrange(
                    j as int,
                    n as int,
                ));
                assert(views(r@) =~= before.push(w@));
                assert(arg_tokens(rest) == seq![w@] + arg_tokens(v@.subrange(j as int, n as int)));
                assert(views(r@) + arg_tokens(v@.subrange(j as int, n as int)) =~= before
                    + arg_tokens(rest));
            }
            i = j;
        }
    }
    assert(arg_tokens(v@.subrange(n as int, n as int)) =~= seq![]);
    assert(views(r@) =~= views(r@) + seq![]);
    r
}

/// The position of the first `c` in `s`, or -1.
pub open spec fn index_of(s: Seq<char>, c: char) -> int
    decreases s.len(),
{
    if s.len() == 0 {
        -1
    } else if s[0] == c {
        0
    } else {
        let k = index_of(s.drop_first(), c);
        if k < 0 {
            -1
        } else {
            k + 1
        }
    }
}

/// The position of the last `c` in `s`, or -1.
pub open spec fn last_index_of(s: Seq<char>, c: char) -> int
    decreases s.len(),
{
    if s.len() == 0 {
        -1
    } else if s.last() == c {
        s.len() - 1
    } else {
        last_index_of(s.drop_last(), c)
    }
}

pub(crate) proof fn lemma_index_of(s: Seq<char>, c: char, i: int)
    requires
        0 <= i <= s.len(),
        forall|j: int| 0 <= j < i ==> s[j] != c,
    ensures
        i < s.len() && s[i] == c ==> index_of(s, c) == i,
        i == s.len() ==> index_of(s, c) == -1,
    decreases i,
{
    if i > 0 {
        lemma_index_of(s.drop_first(), c, i - 1);
    }
}

pub(crate) proof fn lemma_index_of_bounds(s: Seq<char>, c: char)
    ensures
        -1 <= index_of(s, c) < s.len(),
        index_of(s, c) >= 0 ==> s[index_of(s, c)] == c,
    decreases s.len(),
{
    if s.len() > 0 && s[0] != c {
        lemma_index_of_bounds(s.drop_first(), c);
    }
}

/// The position of the first `c` in `v`, if any.
pub fn find_char(v: &Vec<char>, c: char) -> (r: Option<usize>)
    ensures
        match r {
            Some(i) => i == index_of(v@, c),
            None => index_of(v@, c) == -1,
        },
        r matches Some(i) ==> i < v@.len() && v@[i as int] == c,
{
    let mut i: usize = 0;
    while i < v.len()
        invariant
            i <= v@.len(),
            forall|j: int| 0 <= j < i ==> v@[j] != c,
        decreases v@.len() - i,
    {
        if v[i] == c {
            proof {
                lemma_index_of(v@, c, i as int);
            }
            return Some(i);
        }
        i = i + 1;
    }
    proof {
        lemma_index_of(v@, c, i as int);
    }
    None
}

pub(crate) proof fn lemma_last_index_of(s: Seq<char>, c: char, i: int)
    requires
        0 <= i <= s.len(),
        forall|j: int| i <= j < s.len() ==> s[j] != c,
    ensures
        last_index_of(s, c) == last_index_of(s.subrange(0, i), c),
    decreases s.len() - i,
{
    if i < s.len() {
        assert(s.drop_last() =~= s.subrange(0, s.len() - 1));
        lemma_last_index_of(s.drop_last(), c, i);
        assert(s.drop_last().subrange(0, i) =~= s.subrange(0, i));
    } else {
        assert(s.subrange(0, i) =~= s);
    }
}

/// The position of the last `c` in `v`, if any.
pub fn rfind_char(v: &Vec<char>, c: char) -> (r: Option<usize>)
    ensures
        match r {
            Some(i) => i == last_index_of(v@, c),
            None => last_index_of(v@, c) == -1,
        },
        r matches Some(i) ==> i < v@.len() && v@[i as int] == c,
{
    let mut i: usize = v.len();
    while i > 0
        invariant
            i <= v@.len(),
            forall|j: int| i <= j < v@.len() ==> v@[j] != c,
        decreases i,
    {
        if v[i - 1] == c {
            proof {
                lemma_last_index_of(v@, c, i as int);
                assert(v@.subrange(0, i as int).last() == c);
            }
            return Some(i - 1);
        }
        i = i - 1;
    }
    proof {
        lemma_last_index_of(v@, c, 0);
    }
    None
}

/// `v` without its trailing white space.
pub fn trim_end_chars(v: &Vec<char>) -> (r: Vec<char>)
    ensures
        r@ == trim_end(v@),
{
    let j = trailing_end(v, 0);
    assert(v@.subrange(0, v@.len() as int) =~= v@);
    copy_range(v, 0, j)
}

pub(crate) proof fn lemma_trim_start_len(s: Seq<char>)
    ensures
        trim_start(s).len() <= s.len(),
    decreases s.len(),
{
    if s.len() > 0 && is_space(s[0]) {
        lemma_trim_start_len(s.drop_first());
    }
}

pub(crate) proof fn lemma_trim_end_len(s: Seq<char>)
    ensures
        trim_end(s).len() <= s.len(),
    decreases s.len(),
{
    if s.len() > 0 && is_space(s.last()) {
        lemma_trim_end_len(s.drop_last());
    }
}

pub(crate) proof fn lemma_trimmed_len(s: Seq<char>)
    ensures
        trimmed(s).len() <= s.len(),
{
    lemma_trim_start_len(s);
    lemma_trim_end_len(trim_start(s));
}

/// `s` without the first of the prefixes `ps` that it starts with, if any.
pub open spec fn strip_first_prefix(s: Seq<char>, ps: Seq<Seq<char>>) -> Seq<char>
    decreases ps.len(),
{
    if ps.len() == 0 {
        s
    } else if has_prefix(s, ps[0]) {
        s.subrange(ps[0].len() as int, s.len() as int)
    } else {
        strip_first_prefix(s, ps.drop_first())
    }
}

/// `s` without the first matching prefix of `ps` and then without one
/// trailing `suffix`, each only where present.
pub open spec fn stripped(s: Seq<char>, ps: Seq<Seq<char>>, suffix: char) -> Seq<char> {
    let t = strip_first_prefix(s, ps);
    if t.len() > 0 && t.last() == suffix {
        t.drop_last()
    } else {
        t
    }
}

/// The views of a list of string slices.
pub open spec fn str_views(ps: Seq<&str>) -> Seq<Seq<char>> {
    ps.map_values(|p: &str| p@)
}

/// Removes the first of `prefixes` that `input` starts with, then one trailing
/// `suffix`, each only where present.
pub fn strip_string(input: String, prefixes: &[&str], suffix: char) -> (r: String)
    ensures
        r@ == stripped(input@, str_views(prefixes@), suffix),
{
    let v = chars_of(input.as_str());
    let ghost ps = str_views(prefixes@);
    let mut cut: usize = 0;
    let mut done = false;
    let mut i: usize = 0;
    assert(ps.subrange(0, ps.len() as int) =~= ps);
    while i < prefixes.len() && !done
        invariant
            i <= prefixes@.len(),
            ps == str_views(prefixes@),
            v@ == input@,
            cut <= v@.len(),
            !done ==> cut == 0,
            done ==> strip_first_prefix(v@, ps) == v@.subrange(cut as int, v@.len() as int),
            !done ==> strip_first_prefix(v@, ps) == strip_first_prefix(
                v@,
                ps.subrange(i as int, ps.len() as int),
            ),
        decreases prefixes@.len() - i + if done {
            0int
        } else {
            1int
        },
    {
        let p = chars_of(prefixes[i]);
        let ghost tail = ps.subrange(i as int, ps.len() as int);
        assert(tail[0] == p@);
        if starts_with(&v, &p) {
            cut = p.len();
            done = true;
        } else {
            assert(tail.drop_first() =~= ps.subrange(i + 1, ps.len() as int));
            i = i + 1;
        }
    }
    let ghost t = strip_first_prefix(v@, ps);
    assert(!done ==> ps.subrange(i as int, ps.len() as int) =~= Seq::<Seq<char>>::empty());
    let rest = copy_range(&v, cut, v.len());
    assert(!done ==> v@.subrange(0, v@.len() as int) =~= v@);
    assert(rest@ == t);
    let n = rest.len();
    if n > 0 && rest[n - 1] == suffix {
        let out = copy_range(&rest, 0, n - 1);
        assert(out@ =~= t.drop_last());
        string_of(out.as_slice())
    } else {
        string_of(rest.as_slice())
    }
}

pub(crate) proof fn lemma_word_len_prefix(x: Seq<char>, rest: Seq<char>)
    requires
        forall|i: int| 0 <= i < x.len() ==> !is_arg_sep(#[trigger] x[i]),
        rest.len() == 0 || is_arg_sep(rest[0]),
    ensures
        word_len(x + rest) == x.len(),
    decreases x.len(),
{
    if x.len() > 0 {
        assert((x + rest).drop_first() =~= x.drop_first() + rest);
        lemma_word_len_prefix(x.drop_first(), rest);
    } else {
        assert(x + rest =~= rest);
    }
}

/// A run of non-separators before a separator (or the end) is one argument.
pub(crate) proof fn lemma_tokens_cons(x: Seq<char>, rest: Seq<char>)
    requires
        x.len() > 0,
        forall|i: int| 0 <= i < x.len() ==> !is_arg_sep(#[trigger] x[i]),
        rest.len() == 0 || is_arg_sep(rest[0]),
    ensures
        arg_tokens(x + rest) == seq![x] + arg_tokens(rest),
{
    lemma_word_len_prefix(x, rest);
    let s = x + rest;
    assert(!is_arg_sep(s[0]));
    assert(s.subrange(0, x.len() as int) =~= x);
    assert(s.subrange(x.len() as int, s.len() as int) =~= rest);
}

/// A leading separator is skipped.
pub(crate) proof fn lemma_tokens_sep(rest: Seq<char>)
    requires
        rest.len() > 0,
        is_arg_sep(rest[0]),
    ensures
        arg_tokens(rest) == arg_tokens(rest.drop_first()),
{
}

} // verus!
