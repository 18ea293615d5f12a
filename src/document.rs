//! The document model: a parsed HTML body as a sequence of nodes in document
//! order, each carrying its depth, so that the subtree of a node is the run of
//! nodes after it that lie deeper. Element nodes have a non-empty tag; text
//! nodes have an empty tag and carry their characters in `text`.
use vstd::prelude::*;
use crate::selector::{expr_group, selector_group};
use crate::text::{chars_of, contains, contains_exec, is_ascii_ws, is_ascii_ws_exec, occurs_at, occurs_at_exec, trim, trimmed, push_all};

verus! {

#[derive(Debug)]
pub struct Attr {
    pub name: Vec<char>,
    pub value: Vec<char>,
}

#[derive(Debug)]
pub struct Node {
    pub depth: usize,
    pub tag: Vec<char>,
    pub attrs: Vec<Attr>,
    pub text: Vec<char>,
}

#[derive(Debug)]
pub struct Document {
    pub nodes: Vec<Node>,
}

/// One condition of a compound selector.
#[derive(Debug)]
pub enum Cond {
    /// The element's tag is exactly this name.
    Tag(Vec<char>),
    /// The `class` attribute holds this whitespace-separated token.
    Class(Vec<char>),
    /// The attribute exists and its value contains the given text.
    AttrContains(Vec<char>, Vec<char>),
    /// The attribute exists and its value starts with the given text.
    AttrPrefix(Vec<char>, Vec<char>),
    /// The attribute exists.
    AttrPresent(Vec<char>),
}

/// A compound selector: an element matches when every condition holds.
#[derive(Debug)]
pub struct Selector {
    pub conds: Vec<Cond>,
}

/// A selector condition as values.
pub enum CondView {
    Tag(Seq<char>),
    Class(Seq<char>),
    AttrContains(Seq<char>, Seq<char>),
    AttrPrefix(Seq<char>, Seq<char>),
    AttrPresent(Seq<char>),
}

impl View for Cond {
    type V = CondView;

    open spec fn view(&self) -> CondView {
        match self {
            Cond::Tag(t) => CondView::Tag(t@),
            Cond::Class(t) => CondView::Class(t@),
            Cond::AttrContains(a, v) => CondView::AttrContains(a@, v@),
            Cond::AttrPrefix(a, v) => CondView::AttrPrefix(a@, v@),
            Cond::AttrPresent(a) => CondView::AttrPresent(a@),
        }
    }
}

pub open spec fn sel_view(s: Selector) -> Seq<CondView> {
    s.conds@.map_values(|c: Cond| c@)
}

pub open spec fn group_view(g: Seq<Selector>) -> Seq<Seq<CondView>> {
    g.map_values(|s: Selector| sel_view(s))
}

pub open spec fn is_element(n: Node) -> bool {
    n.tag@.len() > 0
}

/// End of the run of nodes from `j` on that lie deeper than `d`.
pub open spec fn scan_end(nodes: Seq<Node>, d: int, j: int) -> int
    decreases nodes.len() - j,
{
    if 0 <= j < nodes.len() && nodes[j].depth > d {
        scan_end(nodes, d, j + 1)
    } else {
        j
    }
}

/// One past the last node of the subtree rooted at `i`.
pub open spec fn end_of(nodes: Seq<Node>, i: int) -> int {
    scan_end(nodes, nodes[i].depth as int, i + 1)
}

/// The text of nodes `lo .. hi`, concatenated in document order.
pub open spec fn text_upto(nodes: Seq<Node>, lo: int, hi: int) -> Seq<char>
    decreases hi - lo,
{
    if hi <= lo {
        Seq::empty()
    } else {
        text_upto(nodes, lo, hi - 1) + nodes[hi - 1].text@
    }
}

/// All descendant text of node `i` (not normalized).
pub open spec fn text_of(nodes: Seq<Node>, i: int) -> Seq<char> {
    text_upto(nodes, i, end_of(nodes, i))
}

/// The value of the first attribute named `name` at or after position `k`.
pub open spec fn attr_from(attrs: Seq<Attr>, name: Seq<char>, k: int) -> Option<Seq<char>>
    decreases attrs.len() - k,
{
    if k < 0 || k >= attrs.len() {
        None
    } else if attrs[k].name@ == name {
        Some(attrs[k].value@)
    } else {
        attr_from(attrs, name, k + 1)
    }
}

pub open spec fn attribute(n: Node, name: Seq<char>) -> Option<Seq<char>> {
    attr_from(n.attrs@, name, 0)
}

/// `t` stands in `v` as a token delimited by ASCII whitespace.
pub open spec fn has_token(v: Seq<char>, t: Seq<char>) -> bool {
    t.len() > 0 && exists|k: int| #[trigger] token_at(v, t, k)
}

pub open spec fn token_at(v: Seq<char>, t: Seq<char>, k: int) -> bool {
    &&& occurs_at(v, t, k)
    &&& (k == 0 || is_ascii_ws(v[k - 1]))
    &&& (k + t.len() == v.len() || is_ascii_ws(v[k + t.len()]))
}

pub open spec fn attr_holds(n: Node, name: Seq<char>, f: spec_fn(Seq<char>) -> bool) -> bool {
    match attribute(n, name) {
        Some(v) => f(v),
        None => false,
    }
}

pub open spec fn cond_holds(n: Node, c: CondView) -> bool {
    match c {
        CondView::Tag(t) => n.tag@ == t,
        CondView::Class(t) => attr_holds(n, "class"@, |v: Seq<char>| has_token(v, t)),
        CondView::AttrContains(a, s) => attr_holds(n, a, |v: Seq<char>| contains(v, s)),
        CondView::AttrPrefix(a, s) => attr_holds(n, a, |v: Seq<char>| occurs_at(v, s, 0)),
        CondView::AttrPresent(a) => attribute(n, a) is Some,
    }
}

pub open spec fn sel_holds(n: Node, s: Seq<CondView>) -> bool {
    is_element(n) && forall|i: int| 0 <= i < s.len() ==> cond_holds(n, #[trigger] s[i])
}

/// The element matches one of the selectors of the group.
pub open spec fn group_holds(n: Node, g: Seq<Seq<CondView>>) -> bool {
    exists|i: int| 0 <= i < g.len() && sel_holds(n, #[trigger] g[i])
}

/// Positions in `lo .. hi` of the elements that the group matches, in document order.
pub open spec fn matches_upto(nodes: Seq<Node>, g: Seq<Seq<CondView>>, lo: int, hi: int) -> Seq<int>
    decreases hi - lo,
{
    if hi <= lo {
        Seq::empty()
    } else {
        let m = matches_upto(nodes, g, lo, hi - 1);
        if group_holds(nodes[hi - 1], g) {
            m.push(hi - 1)
        } else {
            m
        }
    }
}

/// The trimmed texts of the matched elements, the empty ones left out.
pub open spec fn nonempty_texts(nodes: Seq<Node>, m: Seq<int>) -> Seq<Seq<char>>
    decreases m.len(),
{
    if m.len() == 0 {
        Seq::empty()
    } else {
        let r = nonempty_texts(nodes, m.drop_last());
        let t = trim(text_of(nodes, m.last()));
        if t.len() > 0 {
            r.push(t)
        } else {
            r
        }
    }
}

pub proof fn lemma_scan_end_bounds(nodes: Seq<Node>, d: int, j: int)
    requires
        0 <= j <= nodes.len(),
    ensures
        j <= scan_end(nodes, d, j) <= nodes.len(),
    decreases nodes.len() - j,
{
    if j < nodes.len() && nodes[j].depth > d {
        lemma_scan_end_bounds(nodes, d, j + 1);
    }
}

/// Matches come in strictly increasing document order and lie in the range searched.
pub proof fn lemma_matches_ordered(nodes: Seq<Node>, g: Seq<Seq<CondView>>, lo: int, hi: int)
    requires
        0 <= lo,
        hi <= nodes.len(),
    ensures
        ({
            let m = matches_upto(nodes, g, lo, hi);
            &&& forall|a: int| 0 <= a < m.len() ==> lo <= #[trigger] m[a] < hi
            &&& forall|a: int, b: int| 0 <= a < b < m.len() ==> #[trigger] m[a] < #[trigger] m[b]
            &&& forall|a: int| 0 <= a < m.len() ==> group_holds(nodes[#[trigger] m[a]], g)
        }),
    decreases hi - lo,
{
    if hi > lo {
        lemma_matches_ordered(nodes, g, lo, hi - 1);
        let m0 = matches_upto(nodes, g, lo, hi - 1);
        let m = matches_upto(nodes, g, lo, hi);
        assert forall|a: int| 0 <= a < m.len() implies lo <= #[trigger] m[a] < hi && group_holds(nodes[m[a]], g) by {
            if a < m0.len() {
                assert(m[a] == m0[a]);
            }
        }
        assert forall|a: int, b: int| 0 <= a < b < m.len() implies #[trigger] m[a] < #[trigger] m[b] by {
            assert(m[a] == m0[a]);
            if b < m0.len() {
                assert(m[b] == m0[b]);
            }
        }
    }
}

impl Document {
    pub fn new() -> (r: Document)
        ensures
            r.nodes@.len() == 0,
    {
        Document { nodes: Vec::new() }
    }

    /// Appends an element node at the given depth.
    pub fn push_element(&mut self, depth: usize, tag: Vec<char>, attrs: Vec<Attr>)
        ensures
            final(self).nodes@.len() == old(self).nodes@.len() + 1,
            final(self).nodes@.drop_last() == old(self).nodes@,
            final(self).nodes@.last().depth == depth,
            final(self).nodes@.last().tag == tag,
            final(self).nodes@.last().attrs == attrs,
            final(self).nodes@.last().text@.len() == 0,
    {
        self.nodes.push(Node { depth, tag, attrs, text: Vec::new() });
        assert(self.nodes@.drop_last() =~= old(self).nodes@);
    }

    /// Appends a text node at the given depth.
    pub fn push_text(&mut self, depth: usize, text: Vec<char>)
        ensures
            final(self).nodes@.len() == old(self).nodes@.len() + 1,
            final(self).nodes@.drop_last() == old(self).nodes@,
            final(self).nodes@.last().depth == depth,
            final(self).nodes@.last().tag@.len() == 0,
            final(self).nodes@.last().attrs@.len() == 0,
            final(self).nodes@.last().text == text,
    {
        self.nodes.push(Node { depth, tag: Vec::new(), attrs: Vec::new(), text });
        assert(self.nodes@.drop_last() =~= old(self).nodes@);
    }
}

/// Character-wise equality of two texts.
pub fn same_text(a: &Vec<char>, b: &Vec<char>) -> (r: bool)
    ensures
        r == (a@ == b@),
{
    if a.len() != b.len() {
        return false;
    }
    let mut i: usize = 0;
    while i < a.len()
        invariant
            a@.len() == b@.len(),
            i <= a@.len(),
            forall|j: int| 0 <= j < i ==> a@[j] == b@[j],
        decreases a.len() - i,
    {
        if a[i] != b[i] {
            return false;
        }
        i += 1;
    }
    assert(a@ =~= b@);
    true
}

fn token_at_exec(v: &Vec<char>, t: &Vec<char>, k: usize) -> (r: bool)
    ensures
        r == token_at(v@, t@, k as int),
{
    let n = v.len();
    if !occurs_at_exec(v, t, k) {
        return false;
    }
    (k == 0 || is_ascii_ws_exec(v[k - 1])) && (k + t.len() == n || is_ascii_ws_exec(v[k + t.len()]))
}

pub fn has_token_exec(v: &Vec<char>, t: &Vec<char>) -> (r: bool)
    ensures
        r == has_token(v@, t@),
{
    if t.len() == 0 {
        return false;
    }
    let n = v.len();
    let mut k: usize = 0;
    while k < n
        invariant
            n == v@.len(),
            t@.len() > 0,
            k <= n,
            forall|j: int| 0 <= j < k ==> !token_at(v@, t@, j),
        decreases n - k,
    {
        if token_at_exec(v, t, k) {
            assert(token_at(v@, t@, k as int));
            return true;
        }
        k += 1;
    }
    if token_at_exec(v, t, n) {
        assert(token_at(v@, t@, n as int));
        return true;
    }
    assert forall|j: int| !token_at(v@, t@, j) by {
        if 0 <= j && j <= n {
            assert(j < k || j == n);
        }
    }
    false
}

/// Position of the first attribute of `n` named `name`.
pub fn find_attr(n: &Node, name: &Vec<char>) -> (r: Option<usize>)
    ensures
        match r {
            Some(k) => k < n.attrs@.len() && attribute(*n, name@) == Some(n.attrs@[k as int].value@),
            None => attribute(*n, name@) is None,
        },
{
    let mut k: usize = 0;
    while k < n.attrs.len()
        invariant
            k <= n.attrs@.len(),
            attr_from(n.attrs@, name@, k as int) == attribute(*n, name@),
        decreases n.attrs.len() - k,
    {
        if same_text(&n.attrs[k].name, name) {
            return Some(k);
        }
        k += 1;
    }
    None
}

/// The value of the attribute `name` of node `i`, if it has one.
pub fn attribute_of(doc: &Document, i: usize, name: &Vec<char>) -> (r: Option<Vec<char>>)
    requires
        i < doc.nodes@.len(),
    ensures
        match r {
            Some(v) => attribute(doc.nodes@[i as int], name@) == Some(v@),
            None => attribute(doc.nodes@[i as int], name@) is None,
        },
{
    let n = &doc.nodes[i];
    match find_attr(n, name) {
        Some(k) => {
            let mut v: Vec<char> = Vec::new();
            push_all(&mut v, &n.attrs[k].value);
            Some(v)
        },
        None => None,
    }
}

pub fn cond_holds_exec(n: &Node, c: &Cond) -> (r: bool)
    ensures
        r == cond_holds(*n, c@),
{
    match c {
        Cond::Tag(t) => same_text(&n.tag, t),
        Cond::Class(t) => {
            let class: Vec<char> = vec!['c', 'l', 'a', 's', 's'];
            assert(class@ =~= "class"@) by {
                reveal_strlit("class");
            }
            match find_attr(n, &class) {
                Some(k) => has_token_exec(&n.attrs[k].value, t),
                None => false,
            }
        },
        Cond::AttrContains(a, sub) => match find_attr(n, a) {
            Some(k) => contains_exec(&n.attrs[k].value, sub),
            None => false,
        },
        Cond::AttrPrefix(a, pre) => match find_attr(n, a) {
            Some(k) => occurs_at_exec(&n.attrs[k].value, pre, 0),
            None => false,
        },
        Cond::AttrPresent(a) => find_attr(n, a).is_some(),
    }
}

pub fn sel_holds_exec(n: &Node, s: &Selector) -> (r: bool)
    ensures
        r == sel_holds(*n, sel_view(*s)),
{
    if n.tag.len() == 0 {
        return false;
    }
    let mut i: usize = 0;
    while i < s.conds.len()
        invariant
            i <= s.conds@.len(),
            sel_view(*s).len() == s.conds@.len(),
            forall|j: int| 0 <= j < i ==> cond_holds(*n, #[trigger] sel_view(*s)[j]),
        decreases s.conds.len() - i,
    {
        assert(sel_view(*s)[i as int] == s.conds@[i as int]@);
        if !cond_holds_exec(n, &s.conds[i]) {
            return false;
        }
        i += 1;
    }
    true
}

pub fn group_holds_exec(n: &Node, g: &Vec<Selector>) -> (r: bool)
    ensures
        r == group_holds(*n, group_view(g@)),
{
    let mut i: usize = 0;
    while i < g.len()
        invariant
            i <= g@.len(),
            group_view(g@).len() == g@.len(),
            forall|j: int| 0 <= j < i ==> !sel_holds(*n, #[trigger] group_view(g@)[j]),
        decreases g.len() - i,
    {
        assert(group_view(g@)[i as int] == sel_view(g@[i as int]));
        if sel_holds_exec(n, &g[i]) {
            return true;
        }
        i += 1;
    }
    false
}

impl Document {
    /// One past the last node of the subtree rooted at `i`.
    pub fn subtree_end(&self, i: usize) -> (r: usize)
        requires
            i < self.nodes@.len(),
        ensures
            r == end_of(self.nodes@, i as int),
            i < r <= self.nodes@.len(),
    {
        let n = self.nodes.len();
        let d = self.nodes[i].depth;
        let mut j: usize = i + 1;
        while j < self.nodes.len() && self.nodes[j].depth > d
            invariant
                i < j <= self.nodes@.len(),
                scan_end(self.nodes@, d as int, j as int) == end_of(self.nodes@, i as int),
            decreases self.nodes.len() - j,
        {
            j += 1;
        }
        j
    }

    /// All descendant text of node `i`, concatenated in document order.
    pub fn text(&self, i: usize) -> (r: Vec<char>)
        requires
            i < self.nodes@.len(),
        ensures
            r@ == text_of(self.nodes@, i as int),
    {
        let e = self.subtree_end(i);
        let mut r: Vec<char> = Vec::new();
        let mut j: usize = i;
        while j < e
            invariant
                i <= j <= e <= self.nodes@.len(),
                e == end_of(self.nodes@, i as int),
                r@ == text_upto(self.nodes@, i as int, j as int),
            decreases e - j,
        {
            push_all(&mut r, &self.nodes[j].text);
            j += 1;
        }
        r
    }

    /// Positions of the elements in `lo .. hi` that the group matches, in document order.
    pub fn query_range(&self, g: &Vec<Selector>, lo: usize, hi: usize) -> (r: Vec<usize>)
        requires
            lo <= hi <= self.nodes@.len(),
        ensures
            r@.map_values(|x: usize| x as int) == matches_upto(self.nodes@, group_view(g@), lo as int, hi as int),
    {
        let mut r: Vec<usize> = Vec::new();
        let mut j: usize = lo;
        while j < hi
            invariant
                lo <= j <= hi <= self.nodes@.len(),
                r@.map_values(|x: usize| x as int) == matches_upto(self.nodes@, group_view(g@), lo as int, j as int),
            decreases hi - j,
        {
            if group_holds_exec(&self.nodes[j], g) {
                r.push(j);
            }
            j += 1;
            assert(r@.map_values(|x: usize| x as int) =~= matches_upto(self.nodes@, group_view(g@), lo as int, j as int));
        }
        r
    }

    /// Positions of all elements of the document that the group matches, in document order.
    pub fn query(&self, g: &Vec<Selector>) -> (r: Vec<usize>)
        ensures
            r@.map_values(|x: usize| x as int) == matches_upto(self.nodes@, group_view(g@), 0, self.nodes@.len() as int),
    {
        self.query_range(g, 0, self.nodes.len())
    }

    /// Positions of the descendants of node `i` that the group matches, in document order.
    pub fn select_within(&self, i: usize, g: &Vec<Selector>) -> (r: Vec<usize>)
        requires
            i < self.nodes@.len(),
        ensures
            r@.map_values(|x: usize| x as int) == matches_upto(self.nodes@, group_view(g@), i + 1, end_of(self.nodes@, i as int)),
    {
        let e = self.subtree_end(i);
        self.query_range(g, i + 1, e)
    }
}

/// Positions of the descendants of node `e` that the group matches.
pub open spec fn matches_within(nodes: Seq<Node>, g: Seq<Seq<CondView>>, e: int) -> Seq<int> {
    matches_upto(nodes, g, e + 1, end_of(nodes, e))
}

/// The trimmed text of the first descendant of `e` that the group matches, or empty.
pub open spec fn first_text(nodes: Seq<Node>, g: Seq<Seq<CondView>>, e: int) -> Seq<char> {
    let m = matches_within(nodes, g, e);
    if m.len() > 0 {
        trim(text_of(nodes, m[0]))
    } else {
        Seq::empty()
    }
}

pub open spec fn views(v: Seq<Vec<char>>) -> Seq<Seq<char>> {
    v.map_values(|w: Vec<char>| w@)
}

/// The trimmed text of the first descendant of element `e` that the selector
/// group matches; empty when none does.
pub fn first_text_within(doc: &Document, e: usize, g: &Vec<Selector>) -> (r: Vec<char>)
    requires
        e < doc.nodes@.len(),
    ensures
        r@ == first_text(doc.nodes@, group_view(g@), e as int),
{
    let m = doc.select_within(e, g);
    proof {
        lemma_scan_end_bounds(doc.nodes@, doc.nodes@[e as int].depth as int, e + 1);
        lemma_matches_ordered(doc.nodes@, group_view(g@), e + 1, end_of(doc.nodes@, e as int));
        assert(m@.len() == matches_within(doc.nodes@, group_view(g@), e as int).len());
    }
    if m.len() > 0 {
        assert(m@[0] as int == matches_within(doc.nodes@, group_view(g@), e as int)[0]);
        let t = doc.text(m[0]);
        trimmed(&t)
    } else {
        Vec::new()
    }
}

/// The trimmed texts of all descendants of element `e` that the selector group
/// matches, in document order, the empty ones left out.
pub fn texts_within(doc: &Document, e: usize, g: &Vec<Selector>) -> (r: Vec<Vec<char>>)
    requires
        e < doc.nodes@.len(),
    ensures
        views(r@) == nonempty_texts(doc.nodes@, matches_within(doc.nodes@, group_view(g@), e as int)),
{
    let m = doc.select_within(e, g);
    let ghost mi = matches_within(doc.nodes@, group_view(g@), e as int);
    proof {
        lemma_scan_end_bounds(doc.nodes@, doc.nodes@[e as int].depth as int, e + 1);
        lemma_matches_ordered(doc.nodes@, group_view(g@), e + 1, end_of(doc.nodes@, e as int));
        assert(m@.len() == mi.len());
    }
    let mut tags: Vec<Vec<char>> = Vec::new();
    let mut i: usize = 0;
    while i < m.len()
        invariant
            i <= m@.len() == mi.len(),
            m@.map_values(|x: usize| x as int) == mi,
            forall|a: int| 0 <= a < mi.len() ==> #[trigger] mi[a] < doc.nodes@.len(),
            views(tags@) == nonempty_texts(doc.nodes@, mi.subrange(0, i as int)),
        decreases m.len() - i,
    {
        assert(m@[i as int] as int == mi[i as int]);
        let t = trimmed(&doc.text(m[i]));
        assert(mi.subrange(0, i + 1).drop_last() =~= mi.subrange(0, i as int));
        if t.len() > 0 {
            tags.push(t);
        }
        i += 1;
        assert(views(tags@) =~= nonempty_texts(doc.nodes@, mi.subrange(0, i as int)));
    }
    assert(mi.subrange(0, i as int) =~= mi);
    tags
}

/// The trimmed text of the first descendant of element `e` that the selector
/// expression matches; empty when none does or the expression is malformed.
pub fn extract_text(doc: &Document, e: usize, expr: &Vec<char>) -> (r: Vec<char>)
    requires
        e < doc.nodes@.len(),
    ensures
        r@ == first_text(doc.nodes@, expr_group(expr@), e as int),
{
    first_text_within(doc, e, &selector_group(expr))
}

/// The trimmed texts of the descendants of element `e` that the selector
/// expression matches, in document order, the empty ones left out; empty when
/// the expression is malformed.
pub fn extract_tags(doc: &Document, e: usize, expr: &Vec<char>) -> (r: Vec<Vec<char>>)
    requires
        e < doc.nodes@.len(),
    ensures
        views(r@) == nonempty_texts(doc.nodes@, matches_within(doc.nodes@, expr_group(expr@), e as int)),
{
    texts_within(doc, e, &selector_group(expr))
}

impl Document {
    /// Positions of the elements that the selector expression matches, in
    /// document order; none when the expression is malformed.
    pub fn select(&self, expr: &Vec<char>) -> (r: Vec<usize>)
        ensures
            r@.map_values(|x: usize| x as int) == matches_upto(self.nodes@, expr_group(expr@), 0, self.nodes@.len() as int),
    {
        self.query(&selector_group(expr))
    }
}

pub open spec fn class_has(n: Node, w: Seq<char>) -> bool {
    match attribute(n, "class"@) {
        Some(v) => contains(v, w),
        None => false,
    }
}

pub open spec fn class_token(n: Node, w: Seq<char>) -> bool {
    match attribute(n, "class"@) {
        Some(v) => has_token(v, w),
        None => false,
    }
}

/// The node's `class` attribute contains `w`.
pub fn class_has_exec(n: &Node, w: &str) -> (r: bool)
    ensures
        r == class_has(*n, w@),
{
    match find_attr(n, &chars_of("class")) {
        Some(k) => contains_exec(&n.attrs[k].value, &chars_of(w)),
        None => false,
    }
}

/// The node's `class` attribute holds the token `w`.
pub fn class_token_exec(n: &Node, w: &str) -> (r: bool)
    ensures
        r == class_token(*n, w@),
{
    match find_attr(n, &chars_of("class")) {
        Some(k) => has_token_exec(&n.attrs[k].value, &chars_of(w)),
        None => false,
    }
}

/// The node's tag is `t`.
pub fn tag_is(n: &Node, t: &str) -> (r: bool)
    ensures
        r == (n.tag@ == t@),
{
    same_text(&n.tag, &chars_of(t))
}

} // verus!
