//! Selector expressions: a small CSS-like language of tag names, `.class`,
//! `[attr]`, `[attr*='text']` and `[attr^='text']`, joined without spaces into
//! compound selectors, and compound selectors separated by commas.
use vstd::prelude::*;
use crate::text::{is_alnum, is_ascii_ws, is_ascii_ws_exec, slice};
use crate::document::{Cond, CondView, Selector, group_view, sel_view};

verus! {

pub open spec fn is_ident_char(c: char) -> bool {
    is_alnum(c) || c == '-' || c == '_'
}

/// End of the run of identifier characters from `i` on.
pub open spec fn ident_end(s: Seq<char>, i: int) -> int
    decreases s.len() - i,
{
    if 0 <= i < s.len() && is_ident_char(s[i]) {
        ident_end(s, i + 1)
    } else {
        i
    }
}

/// Index of the first character at or after `i` that is not ASCII whitespace.
pub open spec fn skip_space(s: Seq<char>, i: int) -> int
    decreases s.len() - i,
{
    if 0 <= i < s.len() && is_ascii_ws(s[i]) {
        skip_space(s, i + 1)
    } else {
        i
    }
}

/// Position of the first `q` at or after `i`, or `s.len()`.
pub open spec fn quote_end(s: Seq<char>, i: int, q: char) -> int
    decreases s.len() - i,
{
    if 0 <= i < s.len() && s[i] != q {
        quote_end(s, i + 1, q)
    } else {
        i
    }
}

/// An attribute condition whose opening bracket stands at `i`, and the position after it.
pub open spec fn parse_attr(s: Seq<char>, i: int) -> Option<(CondView, int)> {
    let e = ident_end(s, i + 1);
    let name = s.subrange(i + 1, e);
    if e == i + 1 || e >= s.len() {
        None
    } else if s[e] == ']' {
        Some((CondView::AttrPresent(name), e + 1))
    } else if (s[e] == '*' || s[e] == '^') && e + 2 < s.len() && s[e + 1] == '=' && (s[e + 2] == '\'' || s[e + 2] == '"') {
        let c = quote_end(s, e + 3, s[e + 2]);
        let v = s.subrange(e + 3, c);
        if c + 1 < s.len() && s[c + 1] == ']' {
            if s[e] == '*' {
                Some((CondView::AttrContains(name, v), c + 2))
            } else {
                Some((CondView::AttrPrefix(name, v), c + 2))
            }
        } else {
            None
        }
    } else {
        None
    }
}

/// One condition starting at `i`; a tag name only as the first of a compound.
pub open spec fn parse_simple(s: Seq<char>, i: int, first: bool) -> Option<(CondView, int)> {
    if i < 0 || i >= s.len() {
        None
    } else if s[i] == '.' {
        let e = ident_end(s, i + 1);
        if e > i + 1 {
            Some((CondView::Class(s.subrange(i + 1, e)), e))
        } else {
            None
        }
    } else if s[i] == '[' {
        parse_attr(s, i)
    } else if first && is_ident_char(s[i]) {
        let e = ident_end(s, i);
        Some((CondView::Tag(s.subrange(i, e)), e))
    } else {
        None
    }
}

/// The compound selector that continues `acc` from `i`, up to a comma, a
/// space or the end, and the position where it stops.
pub open spec fn compound_from(s: Seq<char>, i: int, acc: Seq<CondView>) -> Option<(Seq<CondView>, int)>
    decreases s.len() - i,
{
    if i < 0 || i > s.len() {
        None
    } else if i == s.len() || s[i] == ',' || is_ascii_ws(s[i]) {
        if acc.len() > 0 {
            Some((acc, i))
        } else {
            None
        }
    } else {
        match parse_simple(s, i, acc.len() == 0) {
            Some((c, j)) => if i < j <= s.len() {
                compound_from(s, j, acc.push(c))
            } else {
                None
            },
            None => None,
        }
    }
}

/// The selector group that continues `acc` from `i` to the end of `s`.
pub open spec fn group_from(s: Seq<char>, i: int, acc: Seq<Seq<CondView>>) -> Option<Seq<Seq<CondView>>>
    decreases s.len() - i,
{
    if i < 0 || i > s.len() {
        None
    } else {
        match compound_from(s, skip_space(s, i), Seq::empty()) {
            Some((c, j)) => {
                let b = skip_space(s, j);
                if b >= s.len() {
                    Some(acc.push(c))
                } else if s[b] == ',' && i < b + 1 <= s.len() {
                    group_from(s, b + 1, acc.push(c))
                } else {
                    None
                }
            },
            None => None,
        }
    }
}

/// The selector group that a selector expression denotes, or `None` when it is malformed.
pub open spec fn parse_selector_spec(s: Seq<char>) -> Option<Seq<Seq<CondView>>> {
    group_from(s, 0, Seq::empty())
}

/// The group of a selector expression; a malformed one matches nothing.
pub open spec fn expr_group(s: Seq<char>) -> Seq<Seq<CondView>> {
    match parse_selector_spec(s) {
        Some(g) => g,
        None => Seq::empty(),
    }
}

fn is_ident_char_exec(c: char) -> (r: bool)
    ensures
        r == is_ident_char(c),
{
    ('0' <= c && c <= '9') || ('A' <= c && c <= 'Z') || ('a' <= c && c <= 'z') || c == '-' || c == '_'
}

fn ident_end_exec(s: &Vec<char>, i: usize) -> (r: usize)
    requires
        i <= s@.len(),
    ensures
        r == ident_end(s@, i as int),
        i <= r <= s@.len(),
{
    let mut j: usize = i;
    while j < s.len() && is_ident_char_exec(s[j])
        invariant
            i <= j <= s@.len(),
            ident_end(s@, j as int) == ident_end(s@, i as int),
        decreases s.len() - j,
    {
        j += 1;
    }
    j
}

fn quote_end_exec(s: &Vec<char>, i: usize, q: char) -> (r: usize)
    requires
        i <= s@.len(),
    ensures
        r == quote_end(s@, i as int, q),
        i <= r <= s@.len(),
{
    let mut j: usize = i;
    while j < s.len() && s[j] != q
        invariant
            i <= j <= s@.len(),
            quote_end(s@, j as int, q) == quote_end(s@, i as int, q),
        decreases s.len() - j,
    {
        j += 1;
    }
    j
}

fn skip_space_exec(s: &Vec<char>, i: usize) -> (r: usize)
    requires
        i <= s@.len(),
    ensures
        r == skip_space(s@, i as int),
        i <= r <= s@.len(),
{
    let mut j: usize = i;
    while j < s.len() && is_ascii_ws_exec(s[j])
        invariant
            i <= j <= s@.len(),
            skip_space(s@, j as int) == skip_space(s@, i as int),
        decreases s.len() - j,
    {
        j += 1;
    }
    j
}

fn parse_attr_exec(s: &Vec<char>, i: usize) -> (r: Option<(Cond, usize)>)
    requires
        i < s@.len(),
    ensures
        match r {
            Some((c, j)) => parse_attr(s@, i as int) == Some((c@, j as int)),
            None => parse_attr(s@, i as int) is None,
        },
{
    let n = s.len();
    let e = ident_end_exec(s, i + 1);
    if e == i + 1 || e >= n {
        return None;
    }
    let name = slice(s, i + 1, e);
    if s[e] == ']' {
        return Some((Cond::AttrPresent(name), e + 1));
    }
    if (s[e] == '*' || s[e] == '^') && n - e > 2 && s[e + 1] == '=' && (s[e + 2] == '\'' || s[e + 2] == '"') {
        let c = quote_end_exec(s, e + 3, s[e + 2]);
        if c < n - 1 && s[c + 1] == ']' {
            let v = slice(s, e + 3, c);
            if s[e] == '*' {
                return Some((Cond::AttrContains(name, v), c + 2));
            } else {
                return Some((Cond::AttrPrefix(name, v), c + 2));
            }
        }
    }
    None
}

fn parse_simple_exec(s: &Vec<char>, i: usize, first: bool) -> (r: Option<(Cond, usize)>)
    requires
        i < s@.len(),
    ensures
        match r {
            Some((c, j)) => parse_simple(s@, i as int, first) == Some((c@, j as int)),
            None => parse_simple(s@, i as int, first) is None,
        },
{
    let n = s.len();
    if s[i] == '.' {
        let e = ident_end_exec(s, i + 1);
        if e > i + 1 {
            Some((Cond::Class(slice(s, i + 1, e)), e))
        } else {
            None
        }
    } else if s[i] == '[' {
        parse_attr_exec(s, i)
    } else if first && is_ident_char_exec(s[i]) {
        let e = ident_end_exec(s, i);
        Some((Cond::Tag(slice(s, i, e)), e))
    } else {
        None
    }
}

fn parse_compound(s: &Vec<char>, i: usize) -> (r: Option<(Selector, usize)>)
    requires
        i <= s@.len(),
    ensures
        match r {
            Some((sel, j)) => compound_from(s@, i as int, Seq::empty()) == Some((sel_view(sel), j as int))
                && i <= j <= s@.len(),
            None => compound_from(s@, i as int, Seq::empty()) is None,
        },
{
    let n = s.len();
    let mut conds: Vec<Cond> = Vec::new();
    let mut k: usize = i;
    assert(conds@.map_values(|c: Cond| c@) =~= Seq::<CondView>::empty());
    loop
        invariant
            n == s@.len(),
            i <= k <= n,
            compound_from(s@, k as int, conds@.map_values(|c: Cond| c@)) == compound_from(s@, i as int, Seq::empty()),
        decreases n - k,
    {
        let ghost cv = conds@.map_values(|c: Cond| c@);
        if k == n || s[k] == ',' || is_ascii_ws_exec(s[k]) {
            if conds.len() > 0 {
                let sel = Selector { conds };
                assert(sel_view(sel) == cv);
                return Some((sel, k));
            } else {
                return None;
            }
        }
        match parse_simple_exec(s, k, conds.len() == 0) {
            Some((c, j)) => {
                if !(k < j && j <= n) {
                    return None;
                }
                let ghost c_view = c@;
                conds.push(c);
                assert(conds@.map_values(|c: Cond| c@) =~= cv.push(c_view));
                k = j;
            },
            None => {
                return None;
            },
        }
    }
}

/// Parses a selector expression into its selector group; `None` when it is malformed.
pub fn parse_selector(s: &Vec<char>) -> (r: Option<Vec<Selector>>)
    ensures
        match r {
            Some(g) => parse_selector_spec(s@) == Some(group_view(g@)),
            None => parse_selector_spec(s@) is None,
        },
{
    let n = s.len();
    let mut g: Vec<Selector> = Vec::new();
    let mut i: usize = 0;
    assert(group_view(g@) =~= Seq::<Seq<CondView>>::empty());
    loop
        invariant
            n == s@.len(),
            i <= n,
            group_from(s@, i as int, group_view(g@)) == parse_selector_spec(s@),
        decreases n - i,
    {
        let ghost gv = group_view(g@);
        let a = skip_space_exec(s, i);
        match parse_compound(s, a) {
            None => {
                return None;
            },
            Some((sel, j)) => {
                let b = skip_space_exec(s, j);
                let ghost sv = sel_view(sel);
                g.push(sel);
                assert(group_view(g@) =~= gv.push(sv));
                if b >= n {
                    return Some(g);
                } else if s[b] == ',' {
                    i = b + 1;
                } else {
                    return None;
                }
            },
        }
    }
}

/// The selector group of an expression, empty when the expression is malformed.
pub fn selector_group(s: &Vec<char>) -> (r: Vec<Selector>)
    ensures
        group_view(r@) == expr_group(s@),
{
    match parse_selector(s) {
        Some(g) => g,
        None => {
            let g: Vec<Selector> = Vec::new();
            assert(group_view(g@) =~= Seq::<Seq<CondView>>::empty());
            g
        },
    }
}

} // verus!
