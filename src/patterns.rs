//! The pattern library: color literals, length literals and named-property
//! lookup, each matched over raw style text.

use vstd::prelude::*;
use crate::text::{char_seqs, matches_at, slice_chars, trim, trim_range, word_at};

verus! {

pub open spec fn is_digit(c: char) -> bool {
    '0' <= c && c <= '9'
}

pub open spec fn is_hex(c: char) -> bool {
    is_digit(c) || ('a' <= c && c <= 'f') || ('A' <= c && c <= 'F')
}

/// `c` is the letter `lo` or its capital `up`.
pub open spec fn either(c: char, lo: char, up: char) -> bool {
    c == lo || c == up
}

/// Number of hexadecimal digits at `i + k` onwards, counting up to eight.
pub open spec fn hex_run(s: Seq<char>, i: int, k: int) -> int
    decreases 8 - k,
{
    if 0 <= k < 8 && 0 <= i + k < s.len() && is_hex(s[i + k]) {
        hex_run(s, i, k + 1)
    } else {
        k
    }
}

/// Longest allowed hex color length (3, 4, 6 or 8 digits) within a run of `n`.
pub open spec fn hex_digits_taken(n: int) -> int {
    if n >= 8 {
        8
    } else if n >= 6 {
        6
    } else if n >= 4 {
        4
    } else if n >= 3 {
        3
    } else {
        0
    }
}

/// Index of the first `)` at or after `j`, or `-1`.
pub open spec fn close_paren(s: Seq<char>, j: int) -> int
    decreases s.len() - j,
{
    if j < 0 || j >= s.len() {
        -1
    } else if s[j] == ')' {
        j
    } else {
        close_paren(s, j + 1)
    }
}

/// `rgb`, `hsl` (any case) at `i`.
pub open spec fn func_name_at(s: Seq<char>, i: int) -> bool {
    0 <= i && i + 2 < s.len() && ((either(s[i], 'r', 'R') && either(s[i + 1], 'g', 'G') && either(
        s[i + 2],
        'b',
        'B',
    )) || (either(s[i], 'h', 'H') && either(s[i + 1], 's', 'S') && either(s[i + 2], 'l', 'L')))
}

/// Index of the `(` that opens a color function at `i` (after an optional
/// `a`), or `-1`.
pub open spec fn func_open(s: Seq<char>, i: int) -> int {
    if !func_name_at(s, i) {
        -1
    } else if i + 4 < s.len() && either(s[i + 3], 'a', 'A') && s[i + 4] == '(' {
        i + 4
    } else if i + 3 < s.len() && s[i + 3] == '(' {
        i + 3
    } else {
        -1
    }
}

/// Length of the color literal that starts at `i`, or 0 when none does:
/// `#` with 3, 4, 6 or 8 hex digits, or `rgb(..)`, `rgba(..)`, `hsl(..)`,
/// `hsla(..)` with a non-empty argument text up to the first `)`.
pub open spec fn color_len(s: Seq<char>, i: int) -> int {
    if 0 <= i < s.len() && s[i] == '#' {
        let n = hex_digits_taken(hex_run(s, i + 1, 0));
        if n > 0 {
            n + 1
        } else {
            0
        }
    } else {
        let p = func_open(s, i);
        let q = close_paren(s, p + 1);
        if p >= 0 && q > p + 1 {
            q + 1 - i
        } else {
            0
        }
    }
}

/// Color literals of `s` from `i` on, leftmost first, not overlapping.
pub open spec fn colors_from(s: Seq<char>, i: int) -> Seq<Seq<char>>
    decreases s.len() - i,
{
    if i < 0 || i >= s.len() {
        seq![]
    } else {
        let n = color_len(s, i);
        if n > 0 && i + n <= s.len() {
            seq![s.subrange(i, i + n)] + colors_from(s, i + n)
        } else {
            colors_from(s, i + 1)
        }
    }
}

/// Every color literal in `s`.
pub open spec fn color_matches(s: Seq<char>) -> Seq<Seq<char>> {
    colors_from(s, 0)
}

/// Number of ASCII digits at `i` onwards.
pub open spec fn digit_run(s: Seq<char>, i: int) -> int
    decreases s.len() - i,
{
    if 0 <= i < s.len() && is_digit(s[i]) {
        1 + digit_run(s, i + 1)
    } else {
        0
    }
}

/// Length of the unit (`px`, `em`, `rem`, `%`, `vh`, `vw`) at `e`, or 0.
pub open spec fn unit_len(s: Seq<char>, e: int) -> int {
    if e < 0 || e >= s.len() {
        0
    } else if s[e] == '%' {
        1
    } else if e + 1 < s.len() && ((s[e] == 'p' && s[e + 1] == 'x') || (s[e] == 'e' && s[e + 1]
        == 'm') || (s[e] == 'v' && (s[e + 1] == 'h' || s[e + 1] == 'w'))) {
        2
    } else if e + 2 < s.len() && s[e] == 'r' && s[e + 1] == 'e' && s[e + 2] == 'm' {
        3
    } else {
        0
    }
}

/// End of the number at `i`: its digits, then `.` and digits if present.
pub open spec fn number_end(s: Seq<char>, i: int) -> int {
    let e = i + digit_run(s, i);
    if 0 <= e < s.len() && s[e] == '.' && digit_run(s, e + 1) > 0 {
        e + 1 + digit_run(s, e + 1)
    } else {
        e
    }
}

/// Length of the length literal (a number directly followed by a unit) that
/// starts at `i`, or 0.
pub open spec fn length_len(s: Seq<char>, i: int) -> int {
    if digit_run(s, i) == 0 {
        0
    } else {
        let e = number_end(s, i);
        let u = unit_len(s, e);
        if u > 0 {
            e + u - i
        } else {
            0
        }
    }
}

/// Length literals of `s` from `i` on, leftmost first, not overlapping.
pub open spec fn lengths_from(s: Seq<char>, i: int) -> Seq<Seq<char>>
    decreases s.len() - i,
{
    if i < 0 || i >= s.len() {
        seq![]
    } else {
        let n = length_len(s, i);
        if n > 0 && i + n <= s.len() {
            seq![s.subrange(i, i + n)] + lengths_from(s, i + n)
        } else {
            lengths_from(s, i + 1)
        }
    }
}

/// Every length literal in `s`.
pub open spec fn length_matches(s: Seq<char>) -> Seq<Seq<char>> {
    lengths_from(s, 0)
}

/// Index of the first `;` at or after `j`, or the length of `s`.
pub open spec fn semi_from(s: Seq<char>, j: int) -> int
    decreases s.len() - j,
{
    if j < 0 || j >= s.len() {
        s.len() as int
    } else if s[j] == ';' {
        j
    } else {
        semi_from(s, j + 1)
    }
}

/// `p:` stands at `i` and is followed by a character other than `;`.
pub open spec fn property_at(s: Seq<char>, p: Seq<char>, i: int) -> bool {
    word_at(s, p, i) && i + p.len() + 1 < s.len() && s[i + p.len()] == ':' && s[i + p.len() + 1]
        != ';'
}

/// Value of the first declaration of `p` at or after `i`: the text after
/// `p:` up to the next `;` or the end, trimmed.
pub open spec fn property_from(s: Seq<char>, p: Seq<char>, i: int) -> Option<Seq<char>>
    decreases s.len() - i,
{
    if i < 0 || i >= s.len() {
        None
    } else if property_at(s, p, i) {
        let j = i + p.len() + 1;
        Some(trim(s.subrange(j, semi_from(s, j))))
    } else {
        property_from(s, p, i + 1)
    }
}

/// Value of the first declaration of property `p` in `s`, if any.
pub open spec fn property_value(s: Seq<char>, p: Seq<char>) -> Option<Seq<char>> {
    property_from(s, p, 0)
}

fn is_digit_char(c: char) -> (r: bool)
    ensures
        r == is_digit(c),
{
    '0' <= c && c <= '9'
}

fn is_hex_char(c: char) -> (r: bool)
    ensures
        r == is_hex(c),
{
    is_digit_char(c) || ('a' <= c && c <= 'f') || ('A' <= c && c <= 'F')
}

/// Index of the first `)` at or after `j`, or the length of `s`.
fn find_close(s: &Vec<char>, j: usize) -> (r: usize)
    requires
        j <= s@.len(),
    ensures
        j <= r <= s@.len(),
        r < s@.len() ==> close_paren(s@, j as int) == r as int,
        r == s@.len() ==> close_paren(s@, j as int) == -1,
{
    let mut k: usize = j;
    while k < s.len() && s[k] != ')'
        invariant
            j <= k <= s@.len(),
            close_paren(s@, k as int) == close_paren(s@, j as int),
        decreases s@.len() - k,
    {
        k = k + 1;
    }
    k
}

/// Length of the color literal at `i`, or 0.
fn color_len_at(s: &Vec<char>, i: usize) -> (n: usize)
    requires
        i < s@.len(),
    ensures
        n as int == color_len(s@, i as int),
        n > 0 ==> i + n <= s@.len(),
{
    if s[i] == '#' {
        let mut k: usize = 0;
        while k < 8 && k < s.len() - i - 1 && is_hex_char(s[i + 1 + k])
            invariant
                i < s@.len(),
                0 <= k <= 8,
                k <= s@.len() - i - 1,
                hex_run(s@, i + 1, k as int) == hex_run(s@, i + 1, 0),
            decreases 8 - k,
        {
            k = k + 1;
        }
        let taken: usize = if k >= 8 {
            8
        } else if k >= 6 {
            6
        } else if k >= 4 {
            4
        } else if k >= 3 {
            3
        } else {
            0
        };
        if taken > 0 {
            taken + 1
        } else {
            0
        }
    } else {
        let len = s.len();
        let named = 2 < len - i && (((s[i] == 'r' || s[i] == 'R') && (s[i + 1] == 'g' || s[i + 1]
            == 'G') && (s[i + 2] == 'b' || s[i + 2] == 'B')) || ((s[i] == 'h' || s[i] == 'H') && (
        s[i + 1] == 's' || s[i + 1] == 'S') && (s[i + 2] == 'l' || s[i + 2] == 'L')));
        if !named {
            return 0;
        }
        let p: usize = if 4 < len - i && (s[i + 3] == 'a' || s[i + 3] == 'A') && s[i + 4] == '(' {
            i + 4
        } else if 3 < len - i && s[i + 3] == '(' {
            i + 3
        } else {
            return 0;
        };
        let q = find_close(s, p + 1);
        if q < len && q > p + 1 {
            q + 1 - i
        } else {
            0
        }
    }
}

/// Every color literal in `s`, leftmost first.
pub fn color_literals(s: &Vec<char>) -> (r: Vec<Vec<char>>)
    ensures
        char_seqs(r@) == color_matches(s@),
{
    let mut r: Vec<Vec<char>> = Vec::new();
    let mut i: usize = 0;
    while i < s.len()
        invariant
            i <= s@.len(),
            char_seqs(r@) + colors_from(s@, i as int) == color_matches(s@),
        decreases s@.len() - i,
    {
        let n = color_len_at(s, i);
        if n > 0 {
            let lit = slice_chars(s, i, i + n);
            proof {
                assert(char_seqs(r@.push(lit)) =~= char_seqs(r@).push(lit@));
                assert(char_seqs(r@).push(lit@) + colors_from(s@, i + n) =~= char_seqs(r@) + (
                seq![lit@] + colors_from(s@, i + n)));
            }
            r.push(lit);
            i = i + n;
        } else {
            i = i + 1;
        }
    }
    assert(char_seqs(r@) + seq![] =~= char_seqs(r@));
    r
}

/// Number of ASCII digits at `i` onwards.
fn digits_at(s: &Vec<char>, i: usize) -> (d: usize)
    requires
        i <= s@.len(),
    ensures
        d as int == digit_run(s@, i as int),
        i + d <= s@.len(),
{
    let mut d: usize = 0;
    while d < s.len() - i && is_digit_char(s[i + d])
        invariant
            i + d <= s@.len(),
            digit_run(s@, i as int) == d + digit_run(s@, (i + d) as int),
        decreases s@.len() - i - d,
    {
        d = d + 1;
    }
    d
}

/// Length of the length literal at `i`, or 0.
fn length_len_at(s: &Vec<char>, i: usize) -> (n: usize)
    requires
        i < s@.len(),
    ensures
        n as int == length_len(s@, i as int),
        n > 0 ==> i + n <= s@.len(),
{
    let len = s.len();
    let d = digits_at(s, i);
    if d == 0 {
        return 0;
    }
    let e0 = i + d;
    let e: usize = if e0 < len && s[e0] == '.' {
        let f = digits_at(s, e0 + 1);
        if f > 0 {
            e0 + 1 + f
        } else {
            e0
        }
    } else {
        e0
    };
    let u: usize = if e >= len {
        0
    } else if s[e] == '%' {
        1
    } else if 1 < len - e && ((s[e] == 'p' && s[e + 1] == 'x') || (s[e] == 'e' && s[e + 1] == 'm')
        || (s[e] == 'v' && (s[e + 1] == 'h' || s[e + 1] == 'w'))) {
        2
    } else if 2 < len - e && s[e] == 'r' && s[e + 1] == 'e' && s[e + 2] == 'm' {
        3
    } else {
        0
    };
    if u > 0 {
        e + u - i
    } else {
        0
    }
}

/// Every length literal in `s`, leftmost first.
pub fn length_literals(s: &Vec<char>) -> (r: Vec<Vec<char>>)
    ensures
        char_seqs(r@) == length_matches(s@),
{
    let mut r: Vec<Vec<char>> = Vec::new();
    let mut i: usize = 0;
    while i < s.len()
        invariant
            i <= s@.len(),
            char_seqs(r@) + lengths_from(s@, i as int) == length_matches(s@),
        decreases s@.len() - i,
    {
        let n = length_len_at(s, i);
        if n > 0 {
            let lit = slice_chars(s, i, i + n);
            proof {
                assert(char_seqs(r@.push(lit)) =~= char_seqs(r@).push(lit@));
                assert(char_seqs(r@).push(lit@) + lengths_from(s@, i + n) =~= char_seqs(r@) + (
                seq![lit@] + lengths_from(s@, i + n)));
            }
            r.push(lit);
            i = i + n;
        } else {
            i = i + 1;
        }
    }
    assert(char_seqs(r@) + seq![] =~= char_seqs(r@));
    r
}

/// The view of an optional character vector.
pub open spec fn opt_chars(o: Option<Vec<char>>) -> Option<Seq<char>> {
    match o {
        Some(v) => Some(v@),
        None => None,
    }
}

/// Value of the first declaration of property `p` in `s`, trimmed.
pub fn property_lookup(s: &Vec<char>, p: &str) -> (r: Option<Vec<char>>)
    ensures
        opt_chars(r) == property_value(s@, p@),
{
    let len = s.len();
    let plen = p.unicode_len();
    let mut i: usize = 0;
    while i < len
        invariant
            len == s@.len(),
            plen == p@.len(),
            i <= len,
            property_from(s@, p@, i as int) == property_value(s@, p@),
        decreases len - i,
    {
        if matches_at(s, p, i) && plen < len - i - 1 && s[i + plen] == ':' && s[i + plen + 1] != ';' {
            let j = i + plen + 1;
            let mut k: usize = j;
            while k < len && s[k] != ';'
                invariant
                    len == s@.len(),
                    j <= k <= len,
                    semi_from(s@, k as int) == semi_from(s@, j as int),
                decreases len - k,
            {
                k = k + 1;
            }
            return Some(trim_range(s, j, k));
        }
        i = i + 1;
    }
    None
}

} // verus!
