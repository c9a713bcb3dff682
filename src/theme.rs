//! Theme resolution: color strings kept under dotted keys (`text.dark.grey`),
//! consulted before the named colors.
use vstd::prelude::*;
use crate::error::Error;
use crate::solid::{Solid, agrees, normalized, parse_solid_chars, solid_of};
use crate::text::{chars_of, copy_range, equals_str, find_char, index_of, lemma_index_of_bounds, string_of, to_ascii_lowercase, trim};

verus! {

/// The colors of a theme, each under its dotted key. `insert` keeps one entry
/// per key; where a table does hold a key twice (the dotted keys of a
/// flattened theme can collide), the first entry counts.
pub struct ThemeColors {
    entries: Vec<(String, String)>,
}

/// The key and color string of each entry.
pub open spec fn entry_views(e: Seq<(String, String)>) -> Seq<(Seq<char>, Seq<char>)> {
    e.map_values(|p: (String, String)| (p.0@, p.1@))
}

/// The color string of the first entry under `key`.
pub open spec fn lookup(e: Seq<(Seq<char>, Seq<char>)>, key: Seq<char>) -> Option<Seq<char>>
    decreases e.len(),
{
    if e.len() == 0 {
        None
    } else if e[0].0 == key {
        Some(e[0].1)
    } else {
        lookup(e.drop_first(), key)
    }
}

/// The position of the first `key` in `keys`, or -1.
pub open spec fn key_position(keys: Seq<Seq<char>>, key: Seq<char>) -> int
    decreases keys.len(),
{
    if keys.len() == 0 {
        -1
    } else if keys[0] == key {
        0
    } else {
        let k = key_position(keys.drop_first(), key);
        if k < 0 {
            -1
        } else {
            k + 1
        }
    }
}

proof fn lemma_key_position(keys: Seq<Seq<char>>, key: Seq<char>, i: int)
    requires
        0 <= i <= keys.len(),
        forall|j: int| 0 <= j < i ==> keys[j] != key,
    ensures
        i < keys.len() && keys[i] == key ==> key_position(keys, key) == i,
        i == keys.len() ==> key_position(keys, key) == -1,
    decreases i,
{
    if i > 0 {
        lemma_key_position(keys.drop_first(), key, i - 1);
    }
}

/// `e` with `(key, value)` in place of the entry under `key`, or added at
/// the end when there is none.
pub open spec fn put<V>(e: Seq<(Seq<char>, V)>, key: Seq<char>, value: V) -> Seq<(Seq<char>, V)> {
    let k = key_position(keys_of(e), key);
    if k >= 0 {
        e.update(k, (key, value))
    } else {
        e.push((key, value))
    }
}

/// The keys of entries `e`, in order.
pub open spec fn keys_of<V>(e: Seq<(Seq<char>, V)>) -> Seq<Seq<char>> {
    e.map_values(|p: (Seq<char>, V)| p.0)
}

/// The entries of a theme with their keys as character sequences.
pub open spec fn keyed(e: Seq<(String, ThemeValue)>) -> Seq<(Seq<char>, ThemeValue)> {
    e.map_values(|p: (String, ThemeValue)| (p.0@, p.1))
}

/// The text that parsing `s` with a theme reads. The keywords `transparent`,
/// `accent` and `accent_inactive` come first; then a theme key stands for its
/// color string, which is parsed without the theme, so that no key can lead
/// to another and resolution always ends; anything else is `s` itself.
pub open spec fn theme_target(s: Seq<char>, e: Seq<(Seq<char>, Seq<char>)>) -> Seq<char> {
    let t = normalized(s);
    if t == "transparent"@ || t == "accent"@ || t == "accent_inactive"@ {
        s
    } else {
        match lookup(e, t) {
            Some(v) => v,
            None => s,
        }
    }
}

/// The result of parsing `s` with a theme (see `theme_target`).
pub open spec fn solid_in_theme(s: Seq<char>, e: Seq<(Seq<char>, Seq<char>)>) -> Result<Solid, crate::error::ErrorKind> {
    solid_of(theme_target(s, e))
}

impl ThemeColors {
    pub closed spec fn view(&self) -> Seq<(Seq<char>, Seq<char>)> {
        entry_views(self.entries@)
    }

    /// A theme without colors.
    pub fn new() -> (t: ThemeColors)
        ensures
            t.view() == Seq::<(Seq<char>, Seq<char>)>::empty(),
    {
        let t = ThemeColors { entries: Vec::new() };
        assert(t.view() =~= Seq::<(Seq<char>, Seq<char>)>::empty());
        t
    }

    /// Sets the color under `key`: in place of the one already there, or
    /// after the other entries when there is none.
    pub fn insert(&mut self, key: String, color: String)
        ensures
            final(self).view() == put(old(self).view(), key@, color@),
    {
        let ghost k = key@;
        let ghost c = color@;
        let ghost e = self.view();
        let ghost keys = keys_of(e);
        let kv = chars_of(key.as_str());
        let mut i: usize = 0;
        while i < self.entries.len()
            invariant
                i <= e.len(),
                e == self.view(),
                e == old(self).view(),
                keys == keys_of(e),
                kv@ == k,
                k == key@,
                c == color@,
                forall|j: int| 0 <= j < i ==> keys[j] != k,
            decreases e.len() - i,
        {
            let ek = chars_of(self.entries[i].0.as_str());
            assert(keys[i as int] == ek@);
            if same_chars(&ek, &kv) {
                proof {
                    lemma_key_position(keys, k, i as int);
                }
                self.entries.set(i, (key, color));
                assert(self.view() =~= put(e, k, c));
                return;
            }
            assert(keys[i as int] != k);
            i = i + 1;
        }
        proof {
            lemma_key_position(keys, k, i as int);
        }
        self.entries.push((key, color));
        assert(self.view() =~= put(e, k, c));
    }

    /// Adds an entry after the others, whether or not its key is there.
    fn append_entry(&mut self, key: String, color: String)
        ensures
            final(self).view() == old(self).view().push((key@, color@)),
    {
        let ghost k = key@;
        let ghost c = color@;
        self.entries.push((key, color));
        assert(final(self).view() =~= old(self).view().push((k, c)));
    }

    /// The number of entries.
    pub fn len(&self) -> (n: usize)
        ensures
            n == self.view().len(),
    {
        self.entries.len()
    }

    /// The key of entry `i`.
    pub fn key(&self, i: usize) -> (k: &String)
        requires
            i < self.view().len(),
        ensures
            k@ == self.view()[i as int].0,
    {
        &self.entries[i].0
    }

    /// The color string under `key`, if any.
    pub fn resolve(&self, key: &Vec<char>) -> (r: Option<&String>)
        ensures
            match lookup(self.view(), key@) {
                Some(v) => r is Some && r->Some_0@ == v,
                None => r is None,
            },
    {
        let ghost e = self.view();
        let mut i: usize = 0;
        assert(e.subrange(0, e.len() as int) =~= e);
        while i < self.entries.len()
            invariant
                i <= e.len(),
                e == self.view(),
                lookup(e, key@) == lookup(e.subrange(i as int, e.len() as int), key@),
            decreases e.len() - i,
        {
            let k = chars_of(self.entries[i].0.as_str());
            let ghost tail = e.subrange(i as int, e.len() as int);
            assert(tail[0] == e[i as int]);
            if same_chars(&k, key) {
                return Some(&self.entries[i].1);
            }
            assert(tail.drop_first() =~= e.subrange(i + 1, e.len() as int));
            i = i + 1;
        }
        None
    }
}

fn same_chars(a: &Vec<char>, b: &Vec<char>) -> (r: bool)
    ensures
        r == (a@ == b@),
{
    if a.len() != b.len() {
        return false;
    }
    let mut i: usize = 0;
    while i < a.len()
        invariant
            a@.len() == b@.len(),
            i <= a@.len(),
            forall|k: int| 0 <= k < i ==> a@[k] == b@[k],
        decreases a@.len() - i,
    {
        if a[i] != b[i] {
            return false;
        }
        i = i + 1;
    }
    assert(a@ =~= b@);
    true
}

/// Parses a solid color with a theme (see `solid_in_theme`).
pub fn parse_solid_with_theme(s: &str, theme: &ThemeColors) -> (r: Result<Solid, Error>)
    ensures
        agrees(r, theme_target(s@, theme.view())),
{
    let v = chars_of(s);
    let t = to_ascii_lowercase(&trim(&v));
    if equals_str(&t, "transparent") || equals_str(&t, "accent") || equals_str(&t, "accent_inactive") {
        return parse_solid_chars(&v);
    }
    match theme.resolve(&t) {
        Some(color) => {
            let c = chars_of(color.as_str());
            parse_solid_chars(&c)
        },
        None => parse_solid_chars(&v),
    }
}

/// A value of a theme: a color string or a nested theme.
pub enum ThemeValue {
    Color(String),
    Subtheme(Theme),
}

/// A theme: color strings and nested themes under keys, one entry per key.
pub struct Theme {
    entries: Vec<(String, ThemeValue)>,
}

/// No key occurs twice.
pub open spec fn unique_keys(keys: Seq<Seq<char>>) -> bool {
    forall|i: int, j: int| 0 <= i < j < keys.len() ==> keys[i] != keys[j]
}

/// The parts of a dotted key, empty ones included.
pub open spec fn dot_parts(s: Seq<char>) -> Seq<Seq<char>>
    decreases s.len(),
{
    let k = index_of(s, '.');
    if k < 0 || k >= s.len() {
        seq![s]
    } else {
        seq![s.subrange(0, k)] + dot_parts(s.subrange(k + 1, s.len() as int))
    }
}

/// The value of the first entry under `key`.
pub open spec fn value_under(e: Seq<(String, ThemeValue)>, key: Seq<char>) -> Option<ThemeValue>
    decreases e.len(),
{
    if e.len() == 0 {
        None
    } else if e[0].0@ == key {
        Some(e[0].1)
    } else {
        value_under(e.drop_first(), key)
    }
}

/// The value at a path of keys: each part but the last must name a nested theme.
pub open spec fn value_at(t: Theme, parts: Seq<Seq<char>>) -> Option<ThemeValue>
    decreases parts.len(),
{
    if parts.len() == 0 {
        None
    } else {
        match value_under(t.spec_entries(), parts[0]) {
            None => None,
            Some(v) => if parts.len() == 1 {
                Some(v)
            } else {
                match v {
                    ThemeValue::Subtheme(sub) => value_at(sub, parts.drop_first()),
                    ThemeValue::Color(_) => None,
                }
            },
        }
    }
}

/// `key` under `prefix`, joined with a `.`.
pub open spec fn dotted(prefix: Seq<char>, key: Seq<char>) -> Seq<char> {
    if prefix.len() == 0 {
        key
    } else {
        prefix + seq!['.'] + key
    }
}

/// The colors of entries `e`, nested ones included, each under its dotted
/// key below `prefix`, in the order of the entries.
pub open spec fn flat_colors(e: Seq<(String, ThemeValue)>, prefix: Seq<char>) -> Seq<(Seq<char>, Seq<char>)>
    decreases e via flat_colors_decreases
{
    if e.len() == 0 {
        seq![]
    } else {
        let key = dotted(prefix, e.last().0@);
        let head = flat_colors(e.drop_last(), prefix);
        match e.last().1 {
            ThemeValue::Color(c) => head.push((key, c@)),
            ThemeValue::Subtheme(sub) => head + flat_colors(sub.spec_entries(), key),
        }
    }
}

#[via_fn]
proof fn flat_colors_decreases(e: Seq<(String, ThemeValue)>, prefix: Seq<char>) {
    broadcast use vstd::std_specs::vec::axiom_vec_decreases_to_view, vstd::seq::axiom_seq_index_decreases, vstd::seq::axiom_seq_subrange_decreases;

    if e.len() > 0 {
        assert(decreases_to!(e => e.drop_last()));
        assert(decreases_to!(e => e[e.len() - 1]));
        match e.last().1 {
            ThemeValue::Subtheme(sub) => {
                assert(decreases_to!(e[e.len() - 1] => sub));
                assert(decreases_to!(sub.entries => sub.entries@));
                assert(sub.spec_entries() == sub.entries@);
            },
            _ => {},
        }
    }
}

/// Every dotted key below `prefix` of entries `e`, of colors and of nested
/// themes, each nested theme's key before its own keys.
pub open spec fn flat_keys(e: Seq<(String, ThemeValue)>, prefix: Seq<char>) -> Seq<Seq<char>>
    decreases e via flat_keys_decreases
{
    if e.len() == 0 {
        seq![]
    } else {
        let key = dotted(prefix, e.last().0@);
        let head = flat_keys(e.drop_last(), prefix).push(key);
        match e.last().1 {
            ThemeValue::Color(_) => head,
            ThemeValue::Subtheme(sub) => head + flat_keys(sub.spec_entries(), key),
        }
    }
}

#[via_fn]
proof fn flat_keys_decreases(e: Seq<(String, ThemeValue)>, prefix: Seq<char>) {
    broadcast use vstd::std_specs::vec::axiom_vec_decreases_to_view, vstd::seq::axiom_seq_index_decreases, vstd::seq::axiom_seq_subrange_decreases;

    if e.len() > 0 {
        assert(decreases_to!(e => e.drop_last()));
        assert(decreases_to!(e => e[e.len() - 1]));
        match e.last().1 {
            ThemeValue::Subtheme(sub) => {
                assert(decreases_to!(e[e.len() - 1] => sub));
                assert(decreases_to!(sub.entries => sub.entries@));
                assert(sub.spec_entries() == sub.entries@);
            },
            _ => {},
        }
    }
}

/// The views of a list of strings.
pub open spec fn key_views(v: Seq<String>) -> Seq<Seq<char>> {
    v.map_values(|s: String| s@)
}

fn split_dots(v: &Vec<char>) -> (r: Vec<Vec<char>>)
    ensures
        crate::text::views(r@) == dot_parts(v@),
    decreases v@.len(),
{
    proof {
        lemma_index_of_bounds(v@, '.');
    }
    match find_char(v, '.') {
        None => {
            let mut r: Vec<Vec<char>> = Vec::new();
            let whole = copy_range(v, 0, v.len());
            assert(v@.subrange(0, v@.len() as int) =~= v@);
            r.push(whole);
            assert(crate::text::views(r@) =~= seq![v@]);
            r
        },
        Some(k) => {
            let n = v.len();
            let head = copy_range(v, 0, k);
            let rest = copy_range(v, k + 1, n);
            let mut tail = split_dots(&rest);
            let mut r: Vec<Vec<char>> = Vec::new();
            r.push(head);
            let ghost h = r@;
            let ghost t = tail@;
            r.append(&mut tail);
            assert(r@ =~= h + t);
            assert(crate::text::views(r@) =~= seq![v@.subrange(0, k as int)] + crate::text::views(t));
            r
        },
    }
}

fn same_key(a: &String, b: &Vec<char>) -> (r: bool)
    ensures
        r == (a@ == b@),
{
    let k = chars_of(a.as_str());
    same_chars(&k, b)
}

fn find_value<'a>(e: &'a Vec<(String, ThemeValue)>, key: &Vec<char>) -> (r: Option<&'a ThemeValue>)
    ensures
        match value_under(e@, key@) {
            Some(v) => r is Some && *r->Some_0 == v,
            None => r is None,
        },
{
    let mut i: usize = 0;
    assert(e@.subrange(0, e@.len() as int) =~= e@);
    while i < e.len()
        invariant
            i <= e@.len(),
            value_under(e@, key@) == value_under(e@.subrange(i as int, e@.len() as int), key@),
        decreases e@.len() - i,
    {
        let ghost tail = e@.subrange(i as int, e@.len() as int);
        assert(tail[0] == e@[i as int]);
        if same_key(&e[i].0, key) {
            return Some(&e[i].1);
        }
        assert(tail.drop_first() =~= e@.subrange(i + 1, e@.len() as int));
        i = i + 1;
    }
    None
}

fn value_at_parts<'a>(t: &'a Theme, parts: &Vec<Vec<char>>, i: usize) -> (r: Option<&'a ThemeValue>)
    requires
        i <= parts@.len(),
    ensures
        match value_at(*t, crate::text::views(parts@).subrange(i as int, parts@.len() as int)) {
            Some(v) => r is Some && *r->Some_0 == v,
            None => r is None,
        },
    decreases parts@.len() - i,
{
    let ghost ps = crate::text::views(parts@).subrange(i as int, parts@.len() as int);
    if i == parts.len() {
        return None;
    }
    assert(ps[0] == parts@[i as int]@);
    match find_value(&t.entries, &parts[i]) {
        None => None,
        Some(v) => {
            if i + 1 == parts.len() {
                Some(v)
            } else {
                match v {
                    ThemeValue::Subtheme(sub) => {
                        assert(ps.drop_first() =~= crate::text::views(parts@).subrange(
                            i + 1,
                            parts@.len() as int,
                        ));
                        value_at_parts(sub, parts, i + 1)
                    },
                    ThemeValue::Color(_) => None,
                }
            }
        },
    }
}

fn push_dotted(prefix: &Vec<char>, key: &String) -> (r: Vec<char>)
    ensures
        r@ == dotted(prefix@, key@),
{
    let k = chars_of(key.as_str());
    if prefix.len() == 0 {
        return k;
    }
    let mut r = copy_range(prefix, 0, prefix.len());
    assert(prefix@.subrange(0, prefix@.len() as int) =~= prefix@);
    r.push('.');
    let mut i: usize = 0;
    let ghost start = r@;
    while i < k.len()
        invariant
            i <= k@.len(),
            r@ == start + k@.subrange(0, i as int),
        decreases k@.len() - i,
    {
        r.push(k[i]);
        assert(k@.subrange(0, i + 1) =~= k@.subrange(0, i as int).push(k@[i as int]));
        i = i + 1;
    }
    assert(k@.subrange(0, k@.len() as int) =~= k@);
    assert(r@ =~= dotted(prefix@, key@));
    r
}

impl Theme {
    /// The entries, in order.
    pub closed spec fn spec_entries(&self) -> Seq<(String, ThemeValue)> {
        self.entries@
    }

    /// One entry per key.
    #[verifier::type_invariant]
    spec fn one_per_key(&self) -> bool {
        unique_keys(keys_of(keyed(self.entries@)))
    }

    /// A theme without entries.
    pub fn new() -> (t: Theme)
        ensures
            t.spec_entries() == Seq::<(String, ThemeValue)>::empty(),
    {
        let t = Theme { entries: Vec::new() };
        assert(keys_of(keyed(t.entries@)) =~= Seq::<Seq<char>>::empty());
        t
    }

    /// Sets the value under `key`: in place of the one already there, or
    /// after the other entries when there is none.
    pub fn insert(&mut self, key: String, value: ThemeValue)
        ensures
            keyed(final(self).spec_entries()) == put(keyed(old(self).spec_entries()), key@, value),
    {
        proof {
            use_type_invariant(&*self);
        }
        let mut old_theme = Theme::new();
        core::mem::swap(self, &mut old_theme);
        proof {
            use_type_invariant(&old_theme);
        }
        assert(old_theme.spec_entries() == old(self).spec_entries());
        let mut entries = old_theme.entries;
        let ghost k = key@;
        let ghost v = value;
        let ghost e = keyed(entries@);
        let ghost keys = keys_of(e);
        let kv = chars_of(key.as_str());
        let mut i: usize = 0;
        while i < entries.len()
            invariant
                i <= e.len(),
                e == keyed(entries@),
                e == keyed(old(self).spec_entries()),
                keys == keys_of(e),
                kv@ == k,
                k == key@,
                v == value,
                unique_keys(keys),
                forall|j: int| 0 <= j < i ==> keys[j] != k,
            decreases e.len() - i,
        {
            assert(keys[i as int] == entries@[i as int].0@);
            if same_key(&entries[i].0, &kv) {
                proof {
                    lemma_key_position(keys, k, i as int);
                }
                entries.set(i, (key, value));
                assert(keyed(entries@) =~= put(e, k, v));
                assert(keys_of(keyed(entries@)) =~= keys);
                *self = Theme { entries };
                return;
            }
            assert(keys[i as int] != k);
            i = i + 1;
        }
        proof {
            lemma_key_position(keys, k, i as int);
        }
        entries.push((key, value));
        assert(keyed(entries@) =~= put(e, k, v));
        assert(keys_of(keyed(entries@)) =~= keys.push(k));
        *self = Theme { entries };
    }

    /// The value under a dotted key (`text.dark.grey`): each part but the
    /// last must name a nested theme.
    pub fn get(&self, key: &str) -> (r: Option<&ThemeValue>)
        ensures
            match value_at(*self, dot_parts(key@)) {
                Some(v) => r is Some && *r->Some_0 == v,
                None => r is None,
            },
    {
        let v = chars_of(key);
        let parts = split_dots(&v);
        assert(crate::text::views(parts@).subrange(0, parts@.len() as int) =~= crate::text::views(
            parts@,
        ));
        value_at_parts(self, &parts, 0)
    }

    /// The color string under a dotted key, if the key names a color.
    pub fn get_color(&self, key: &str) -> (r: Option<&String>)
        ensures
            match value_at(*self, dot_parts(key@)) {
                Some(ThemeValue::Color(c)) => r is Some && *r->Some_0 == c,
                _ => r is None,
            },
    {
        match self.get(key) {
            Some(ThemeValue::Color(c)) => Some(c),
            _ => None,
        }
    }

    fn collect_colors(&self, prefix: &Vec<char>, out: &mut ThemeColors)
        ensures
            final(out).view() == old(out).view() + flat_colors(self.spec_entries(), prefix@),
        decreases self,
    {
        let ghost e = self.spec_entries();
        let ghost start = out.view();
        let mut i: usize = 0;
        assert(flat_colors(e.subrange(0, 0), prefix@) =~= Seq::<(Seq<char>, Seq<char>)>::empty());
        while i < self.entries.len()
            invariant
                i <= e.len(),
                e == self.spec_entries(),
                out.view() == start + flat_colors(e.subrange(0, i as int), prefix@),
            decreases e.len() - i,
        {
            let ghost before = out.view();
            assert(e.subrange(0, i + 1).drop_last() =~= e.subrange(0, i as int));
            assert(e.subrange(0, i + 1).last() == e[i as int]);
            let key = push_dotted(prefix, &self.entries[i].0);
            match &self.entries[i].1 {
                ThemeValue::Color(c) => {
                    let name = string_of(key.as_slice());
                    out.append_entry(name, c.clone());
                    assert(out.view() =~= start + flat_colors(e.subrange(0, i + 1), prefix@));
                },
                ThemeValue::Subtheme(sub) => {
                    proof {
                        broadcast use vstd::std_specs::vec::axiom_vec_index_decreases;
                        assert(decreases_to!(self.entries => self.entries[i as int]));
                    }
                    sub.collect_colors(&key, out);
                    assert(out.view() =~= start + flat_colors(e.subrange(0, i + 1), prefix@));
                },
            }
            i = i + 1;
        }
        assert(e.subrange(0, e.len() as int) =~= e);
    }

    /// The colors of the theme, nested ones included, each under its dotted
    /// key, in the order of the entries.
    pub fn colors(&self) -> (r: ThemeColors)
        ensures
            r.view() == flat_colors(self.spec_entries(), Seq::empty()),
    {
        let mut out = ThemeColors::new();
        let prefix: Vec<char> = Vec::new();
        self.collect_colors(&prefix, &mut out);
        assert(out.view() =~= flat_colors(self.spec_entries(), prefix@));
        out
    }

    fn collect_keys(&self, prefix: &Vec<char>, out: &mut Vec<String>)
        ensures
            key_views(final(out)@) == key_views(old(out)@) + flat_keys(self.spec_entries(), prefix@),
        decreases self,
    {
        let ghost e = self.spec_entries();
        let ghost start = key_views(out@);
        let mut i: usize = 0;
        assert(flat_keys(e.subrange(0, 0), prefix@) =~= Seq::<Seq<char>>::empty());
        while i < self.entries.len()
            invariant
                i <= e.len(),
                e == self.spec_entries(),
                key_views(out@) == start + flat_keys(e.subrange(0, i as int), prefix@),
            decreases e.len() - i,
        {
            assert(e.subrange(0, i + 1).drop_last() =~= e.subrange(0, i as int));
            assert(e.subrange(0, i + 1).last() == e[i as int]);
            let key = push_dotted(prefix, &self.entries[i].0);
            let name = string_of(key.as_slice());
            let ghost prev = out@;
            out.push(name);
            assert(key_views(out@) =~= key_views(prev).push(key@));
            assert(key_views(out@) =~= start + flat_keys(e.subrange(0, i as int), prefix@).push(
                dotted(prefix@, e[i as int].0@),
            ));
            match &self.entries[i].1 {
                ThemeValue::Color(_) => {
                    assert(key_views(out@) =~= start + flat_keys(e.subrange(0, i + 1), prefix@));
                },
                ThemeValue::Subtheme(sub) => {
                    proof {
                        broadcast use vstd::std_specs::vec::axiom_vec_index_decreases;
                        assert(decreases_to!(self.entries => self.entries[i as int]));
                    }
                    sub.collect_keys(&key, out);
                    assert(key_views(out@) =~= start + flat_keys(e.subrange(0, i + 1), prefix@));
                },
            }
            i = i + 1;
        }
        assert(e.subrange(0, e.len() as int) =~= e);
    }

    /// Every dotted key of the theme, of colors and of nested themes.
    pub fn keys(&self) -> (r: Vec<String>)
        ensures
            key_views(r@) == flat_keys(self.spec_entries(), Seq::empty()),
    {
        let mut out: Vec<String> = Vec::new();
        let prefix: Vec<char> = Vec::new();
        self.collect_keys(&prefix, &mut out);
        assert(key_views(out@) =~= flat_keys(self.spec_entries(), prefix@));
        out
    }
}

} // verus!
