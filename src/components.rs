//! The component sampler: inline declarations and class of the first few
//! elements of each well-known category.

use vstd::prelude::*;
use crate::text::{char_seqs, split_chars, split_on, string_of, trim, trim_range};
use crate::model::ComponentStyle;
use crate::page::{opt_view, pair_views};

verus! {

/// Index of the first `c` in `s` at or after `i`, or `-1`.
pub open spec fn char_index(s: Seq<char>, c: char, i: int) -> int
    decreases s.len() - i,
{
    if i < 0 || i >= s.len() {
        -1
    } else if s[i] == c {
        i
    } else {
        char_index(s, c, i + 1)
    }
}

/// Index of the entry with key `k` in `m` at or after `i`, or `-1`.
pub open spec fn key_index(m: Seq<(Seq<char>, Seq<char>)>, k: Seq<char>, i: int) -> int
    decreases m.len() - i,
{
    if i < 0 || i >= m.len() {
        -1
    } else if m[i].0 == k {
        i
    } else {
        key_index(m, k, i + 1)
    }
}

/// `m` with `k` mapped to `v`: an entry with that key is overwritten in
/// place, else one is added at the end.
pub open spec fn put(m: Seq<(Seq<char>, Seq<char>)>, k: Seq<char>, v: Seq<char>) -> Seq<
    (Seq<char>, Seq<char>),
> {
    let i = key_index(m, k, 0);
    if i >= 0 {
        m.update(i, (k, v))
    } else {
        m.push((k, v))
    }
}

/// The declarations among `pieces`: each piece with a `:` is cut at the first
/// one into a trimmed key and a trimmed value.
pub open spec fn declarations(pieces: Seq<Seq<char>>) -> Seq<(Seq<char>, Seq<char>)>
    decreases pieces.len(),
{
    if pieces.len() == 0 {
        seq![]
    } else {
        let m = declarations(pieces.drop_last());
        let p = pieces.last();
        let c = char_index(p, ':', 0);
        if c >= 0 {
            put(m, trim(p.subrange(0, c)), trim(p.subrange(c + 1, p.len() as int)))
        } else {
            m
        }
    }
}

/// The style mapping of an element with the given `style` and `class`
/// attributes.
pub open spec fn element_styles(e: (Option<Seq<char>>, Option<Seq<char>>)) -> Seq<
    (Seq<char>, Seq<char>),
> {
    let m = match e.0 {
        Some(st) => declarations(split_on(st, ';')),
        None => seq![],
    };
    match e.1 {
        Some(c) => put(m, "class"@, c),
        None => m,
    }
}

pub open spec fn rank_digit(n: int) -> char {
    if n == 1 {
        '1'
    } else if n == 2 {
        '2'
    } else {
        '3'
    }
}

/// `"{category}-{n}"` for a rank `n` from 1 to 3.
pub open spec fn component_name(category: Seq<char>, n: int) -> Seq<char> {
    category + seq!['-', rank_digit(n)]
}

/// Components from the first `n` of `elems`: those with a non-empty mapping.
pub open spec fn sampled(
    category: Seq<char>,
    elems: Seq<(Option<Seq<char>>, Option<Seq<char>>)>,
    n: int,
) -> Seq<(Seq<char>, Seq<(Seq<char>, Seq<char>)>)>
    decreases n,
{
    if n <= 0 {
        seq![]
    } else {
        let prev = sampled(category, elems, n - 1);
        let st = element_styles(elems[n - 1]);
        if st.len() > 0 {
            prev.push((component_name(category, n), st))
        } else {
            prev
        }
    }
}

/// Most elements looked at per category.
pub open spec fn sample_limit(len: int) -> int {
    if len < 3 {
        len
    } else {
        3
    }
}

/// The components of one category, from its elements in the order given.
pub open spec fn category_samples(
    category: Seq<char>,
    elems: Seq<(Option<Seq<char>>, Option<Seq<char>>)>,
) -> Seq<(Seq<char>, Seq<(Seq<char>, Seq<char>)>)> {
    sampled(category, elems, sample_limit(elems.len() as int))
}

pub open spec fn entry_views(v: Seq<(String, String)>) -> Seq<(Seq<char>, Seq<char>)> {
    v.map_values(|e: (String, String)| (e.0@, e.1@))
}

pub open spec fn component_view(c: ComponentStyle) -> (Seq<char>, Seq<(Seq<char>, Seq<char>)>) {
    (c.name@, entry_views(c.styles@))
}

pub open spec fn component_views(v: Seq<ComponentStyle>) -> Seq<
    (Seq<char>, Seq<(Seq<char>, Seq<char>)>),
> {
    v.map_values(|c: ComponentStyle| component_view(c))
}

/// Maps `k` to `v` in `m`, overwriting an entry with that key.
fn put_entry(m: &mut Vec<(String, String)>, k: String, v: String)
    ensures
        entry_views(final(m)@) == put(entry_views(old(m)@), k@, v@),
{
    let ghost e = entry_views(m@);
    let mut i: usize = 0;
    while i < m.len()
        invariant
            i <= m@.len(),
            m@ == old(m)@,
            e == entry_views(m@),
            key_index(e, k@, i as int) == key_index(e, k@, 0),
        decreases m@.len() - i,
    {
        if m[i].0 == k {
            m[i] = (k, v);
            assert(entry_views(m@) =~= e.update(i as int, (k@, v@)));
            return;
        }
        i = i + 1;
    }
    m.push((k, v));
    assert(entry_views(m@) =~= e.push((k@, v@)));
}

/// Index of the first `:` in `p`, or its length.
fn colon_at(p: &Vec<char>) -> (r: usize)
    ensures
        r <= p@.len(),
        r < p@.len() ==> char_index(p@, ':', 0) == r as int,
        r == p@.len() ==> char_index(p@, ':', 0) == -1,
{
    let mut i: usize = 0;
    while i < p.len() && p[i] != ':'
        invariant
            i <= p@.len(),
            char_index(p@, ':', i as int) == char_index(p@, ':', 0),
        decreases p@.len() - i,
    {
        i = i + 1;
    }
    i
}

/// The declarations of an inline `style` attribute.
fn declarations_of(style: &str) -> (r: Vec<(String, String)>)
    ensures
        entry_views(r@) == declarations(split_on(style@, ';')),
{
    let pieces = split_chars(&crate::text::chars_of(style), ';');
    let ghost ps = char_seqs(pieces@);
    let mut r: Vec<(String, String)> = Vec::new();
    let mut k: usize = 0;
    while k < pieces.len()
        invariant
            k <= pieces@.len(),
            ps == char_seqs(pieces@),
            ps == split_on(style@, ';'),
            entry_views(r@) == declarations(ps.take(k as int)),
        decreases pieces@.len() - k,
    {
        let p = &pieces[k];
        assert(ps.take(k + 1).drop_last() =~= ps.take(k as int));
        assert(ps.take(k + 1).last() == p@);
        let c = colon_at(p);
        if c < p.len() {
            let key = string_of(&trim_range(p, 0, c));
            let value = string_of(&trim_range(p, c + 1, p.len()));
            put_entry(&mut r, key, value);
        }
        k = k + 1;
    }
    assert(ps.take(k as int) =~= ps);
    r
}

fn clone_opt(o: &Option<String>) -> (r: Option<String>)
    ensures
        opt_view(r) == opt_view(*o),
{
    match o {
        Some(s) => Some(s.clone()),
        None => None,
    }
}

/// The style mapping of one element: its inline declarations, then its
/// class under the key `class`.
pub fn element_style_map(style: &Option<String>, class: &Option<String>) -> (r: Vec<(String, String)>)
    ensures
        entry_views(r@) == element_styles((opt_view(*style), opt_view(*class))),
{
    let mut m: Vec<(String, String)> = match style {
        Some(st) => declarations_of(st.as_str()),
        None => Vec::new(),
    };
    proof {
        if style is None {
            assert(entry_views(m@) =~= Seq::<(Seq<char>, Seq<char>)>::empty());
        }
    }
    match class {
        Some(c) => {
            put_entry(&mut m, String::from_str("class"), c.clone());
        },
        None => {},
    }
    m
}

/// `"{category}-{n}"`.
fn rank_name(category: &str, n: usize) -> (r: String)
    requires
        1 <= n <= 3,
    ensures
        r@ == component_name(category@, n as int),
{
    let mut s = String::from_str(category);
    let digit: &str = if n == 1 {
        "-1"
    } else if n == 2 {
        "-2"
    } else {
        "-3"
    };
    proof {
        reveal_strlit("-1");
        reveal_strlit("-2");
        reveal_strlit("-3");
        assert(digit@ =~= seq!['-', rank_digit(n as int)]);
    }
    s.append(digit);
    s
}

/// The components of one category from its elements (style and class
/// attributes) in the order given: of the first three, those with any
/// declaration or a class, named by their rank among the three.
pub fn sample_category(category: &str, elems: &Vec<(Option<String>, Option<String>)>) -> (r: Vec<
    ComponentStyle,
>)
    ensures
        component_views(r@) == category_samples(category@, pair_views(elems@)),
{
    let limit: usize = if elems.len() < 3 {
        elems.len()
    } else {
        3
    };
    let ghost es = pair_views(elems@);
    let mut r: Vec<ComponentStyle> = Vec::new();
    let mut n: usize = 0;
    while n < limit
        invariant
            n <= limit <= 3,
            limit == sample_limit(elems@.len() as int),
            limit <= elems@.len(),
            es == pair_views(elems@),
            component_views(r@) == sampled(category@, es, n as int),
        decreases limit - n,
    {
        let styles = element_style_map(&elems[n].0, &elems[n].1);
        assert(es[n as int] == (opt_view(elems@[n as int].0), opt_view(elems@[n as int].1)));
        if styles.len() > 0 {
            let c = ComponentStyle { name: rank_name(category, n + 1), styles };
            assert(component_views(r@.push(c)) =~= component_views(r@).push(component_view(c)));
            r.push(c);
        }
        n = n + 1;
    }
    r
}

} // verus!
