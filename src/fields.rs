//! Per-field extractors. Each field is resolved by a chain: a structural step
//! over descendant elements, then textual steps over the flattened text.
use vstd::prelude::*;
use crate::text::{chars_of, contains_ci, contains_exec, find, find_from, is_alnum, is_digit, is_lower, is_upper, lemma_find_from_bounds, lower, push_all, slice, to_lower, trim, trimmed};
use crate::document::{views, Document, Node, class_has, class_has_exec, end_of, is_element, tag_is, text_of};
use crate::validate::{first_word, first_word_from, is_plausible_title, is_plausible_company, is_plausible_location, is_plausible_title_spec, is_plausible_company_spec, is_plausible_location_spec, domain_word};

verus! {

// ---------------------------------------------------------------- URL

pub open spec fn is_scheme_char(c: char) -> bool {
    is_alnum(c) || c == '+' || c == '-' || c == '.'
}

/// End of the run of scheme characters from `i` on.
pub open spec fn scheme_run(h: Seq<char>, i: int) -> int
    decreases h.len() - i,
{
    if 0 <= i < h.len() && is_scheme_char(h[i]) {
        scheme_run(h, i + 1)
    } else {
        i
    }
}

/// The href starts with a URI scheme: a letter, then letters, digits, `+`,
/// `-` or `.`, then a colon (`https:`, `mailto:`).
pub open spec fn has_scheme(h: Seq<char>) -> bool {
    h.len() > 0 && (is_upper(h[0]) || is_lower(h[0])) && scheme_run(h, 1) < h.len() && h[scheme_run(h, 1)] == ':'
}

fn has_scheme_exec(h: &Vec<char>) -> (r: bool)
    ensures
        r == has_scheme(h@),
{
    let n = h.len();
    if n == 0 || !(('A' <= h[0] && h[0] <= 'Z') || ('a' <= h[0] && h[0] <= 'z')) {
        return false;
    }
    let mut j: usize = 1;
    while j < n && (is_alnum_exec(h[j]) || h[j] == '+' || h[j] == '-' || h[j] == '.')
        invariant
            n == h@.len(),
            1 <= j <= n,
            scheme_run(h@, j as int) == scheme_run(h@, 1),
        decreases n - j,
    {
        j += 1;
    }
    j < n && h[j] == ':'
}

/// The base URL without one trailing slash.
pub open spec fn strip_slash(b: Seq<char>) -> Seq<char> {
    if b.len() > 0 && b.last() == '/' {
        b.drop_last()
    } else {
        b
    }
}

/// Resolves an anchor's href against the page's base URL: an absolute href is
/// kept, a rooted one is put after the base, any other is put after the base
/// and a slash; no href gives the empty text.
pub open spec fn resolve_url_spec(base: Seq<char>, href: Option<Seq<char>>) -> Seq<char> {
    match href {
        None => Seq::empty(),
        Some(h) => if has_scheme(h) {
            h
        } else if h.len() > 0 && h[0] == '/' {
            strip_slash(base) + h
        } else {
            strip_slash(base) + seq!['/'] + h
        },
    }
}

pub fn resolve_url(base: &Vec<char>, href: Option<&Vec<char>>) -> (r: Vec<char>)
    ensures
        r@ == resolve_url_spec(base@, match href { Some(h) => Some(h@), None => None }),
{
    match href {
        None => Vec::new(),
        Some(h) => {
            if has_scheme_exec(h) {
                let mut r: Vec<char> = Vec::new();
                push_all(&mut r, h);
                return r;
            }
            let mut r: Vec<char> = Vec::new();
            push_all(&mut r, base);
            if r.len() > 0 && r[r.len() - 1] == '/' {
                r.pop();
                assert(r@ =~= strip_slash(base@));
            }
            if !(h.len() > 0 && h[0] == '/') {
                r.push('/');
            }
            push_all(&mut r, h);
            r
        },
    }
}

// ---------------------------------------------------------------- vocabulary fields

/// The words of `vocab` that occur in `t` ignoring ASCII case, in vocabulary order.
pub open spec fn words_in(t: Seq<char>, vocab: Seq<Seq<char>>) -> Seq<Seq<char>>
    decreases vocab.len(),
{
    if vocab.len() == 0 {
        Seq::empty()
    } else {
        let r = words_in(t, vocab.drop_last());
        if contains_ci(t, vocab.last()) {
            r.push(vocab.last())
        } else {
            r
        }
    }
}

/// The first word of `vocab` that occurs in `t`, or the empty text.
pub open spec fn pick_word(t: Seq<char>, vocab: Seq<Seq<char>>) -> Seq<char> {
    let i = first_word_from(t, vocab, 0);
    if i < vocab.len() {
        vocab[i]
    } else {
        Seq::empty()
    }
}

pub open spec fn tech_words() -> Seq<Seq<char>> {
    seq![
        "Rust"@, "Docker"@, "AWS"@, "React"@, "Kubernetes"@, "PostgreSQL"@, "Python"@,
        "TypeScript"@, "WebAssembly"@, "Linux"@, "Tokio"@, "GraphQL"@, "Kafka"@, "Redis"@,
    ]
}

pub open spec fn job_type_words() -> Seq<Seq<char>> {
    seq!["full-time"@, "part-time"@, "contract"@, "freelance"@, "internship"@]
}

/// Location labels that the text may name, as they are reported.
pub open spec fn location_labels() -> Seq<Seq<char>> {
    seq![
        "Remote"@, "Hybrid"@, "On-site"@, "Worldwide"@, "Europe"@, "USA"@, "Canada"@,
        "Germany"@, "London"@, "Berlin"@, "New York"@,
    ]
}

pub open spec fn level_words() -> Seq<Seq<char>> {
    seq!["senior"@, "junior"@, "mid-level"@, "lead"@, "principal"@, "staff"@, "entry"@]
}

/// Every word of the vocabulary that occurs in the text, ignoring ASCII case,
/// once each, in vocabulary order.
pub fn technologies(t: &Vec<char>, vocab: &Vec<Vec<char>>) -> (r: Vec<Vec<char>>)
    ensures
        views(r@) == words_in(t@, views(vocab@)),
{
    let lt = to_lower(t);
    let mut r: Vec<Vec<char>> = Vec::new();
    let mut i: usize = 0;
    while i < vocab.len()
        invariant
            i <= vocab@.len(),
            lt@ == lower(t@),
            views(r@) == words_in(t@, views(vocab@).subrange(0, i as int)),
        decreases vocab.len() - i,
    {
        let ghost pre = views(vocab@).subrange(0, i as int + 1);
        assert(pre.drop_last() =~= views(vocab@).subrange(0, i as int));
        assert(pre.last() == vocab@[i as int]@);
        if contains_exec(&lt, &to_lower(&vocab[i])) {
            let mut w: Vec<char> = Vec::new();
            push_all(&mut w, &vocab[i]);
            r.push(w);
        }
        i += 1;
        assert(views(r@) =~= words_in(t@, views(vocab@).subrange(0, i as int)));
    }
    assert(views(vocab@).subrange(0, i as int) =~= views(vocab@));
    r
}

/// The first word of the vocabulary that occurs in the text, or the empty text.
pub fn pick(t: &Vec<char>, vocab: &Vec<Vec<char>>) -> (r: Vec<char>)
    ensures
        r@ == pick_word(t@, views(vocab@)),
{
    let i = first_word(t, vocab);
    let mut r: Vec<char> = Vec::new();
    if i < vocab.len() {
        push_all(&mut r, &vocab[i]);
    }
    r
}

pub fn tech_vocabulary() -> (r: Vec<Vec<char>>)
    ensures
        views(r@) == tech_words(),
{
    let mut r: Vec<Vec<char>> = Vec::new();
    r.push(chars_of("Rust"));
    r.push(chars_of("Docker"));
    r.push(chars_of("AWS"));
    r.push(chars_of("React"));
    r.push(chars_of("Kubernetes"));
    r.push(chars_of("PostgreSQL"));
    r.push(chars_of("Python"));
    r.push(chars_of("TypeScript"));
    r.push(chars_of("WebAssembly"));
    r.push(chars_of("Linux"));
    r.push(chars_of("Tokio"));
    r.push(chars_of("GraphQL"));
    r.push(chars_of("Kafka"));
    r.push(chars_of("Redis"));
    assert(views(r@) =~= tech_words());
    r
}

pub fn job_type_vocabulary() -> (r: Vec<Vec<char>>)
    ensures
        views(r@) == job_type_words(),
{
    let mut r: Vec<Vec<char>> = Vec::new();
    r.push(chars_of("full-time"));
    r.push(chars_of("part-time"));
    r.push(chars_of("contract"));
    r.push(chars_of("freelance"));
    r.push(chars_of("internship"));
    assert(views(r@) =~= job_type_words());
    r
}

pub fn location_label_vocabulary() -> (r: Vec<Vec<char>>)
    ensures
        views(r@) == location_labels(),
{
    let mut r: Vec<Vec<char>> = Vec::new();
    r.push(chars_of("Remote"));
    r.push(chars_of("Hybrid"));
    r.push(chars_of("On-site"));
    r.push(chars_of("Worldwide"));
    r.push(chars_of("Europe"));
    r.push(chars_of("USA"));
    r.push(chars_of("Canada"));
    r.push(chars_of("Germany"));
    r.push(chars_of("London"));
    r.push(chars_of("Berlin"));
    r.push(chars_of("New York"));
    assert(views(r@) =~= location_labels());
    r
}

pub fn level_vocabulary() -> (r: Vec<Vec<char>>)
    ensures
        views(r@) == level_words(),
{
    let mut r: Vec<Vec<char>> = Vec::new();
    r.push(chars_of("senior"));
    r.push(chars_of("junior"));
    r.push(chars_of("mid-level"));
    r.push(chars_of("lead"));
    r.push(chars_of("principal"));
    r.push(chars_of("staff"));
    r.push(chars_of("entry"));
    assert(views(r@) =~= level_words());
    r
}

// ---------------------------------------------------------------- textual patterns

pub open spec fn salary_at(s: Seq<char>, k: int) -> bool {
    0 <= k && k + 1 < s.len() && s[k] == '$' && is_digit(s[k + 1])
}

/// A digit, or a comma that a digit follows.
pub open spec fn salary_char(s: Seq<char>, j: int) -> bool {
    is_digit(s[j]) || (s[j] == ',' && j + 1 < s.len() && is_digit(s[j + 1]))
}

pub open spec fn salary_run(s: Seq<char>, j: int) -> int
    decreases s.len() - j,
{
    if 0 <= j < s.len() && salary_char(s, j) {
        salary_run(s, j + 1)
    } else {
        j
    }
}

pub open spec fn salary_from(s: Seq<char>, k: int) -> int
    decreases s.len() - k,
{
    if k < 0 || k >= s.len() {
        s.len() as int
    } else if salary_at(s, k) {
        k
    } else {
        salary_from(s, k + 1)
    }
}

/// The first amount written as `$` and digits, with the commas between them.
pub open spec fn salary_spec(s: Seq<char>) -> Seq<char> {
    let k = salary_from(s, 0);
    if k < s.len() {
        s.subrange(k, salary_run(s, k + 1))
    } else {
        Seq::empty()
    }
}

/// The first salary figure of the text (`$120,000`), or the empty text.
pub fn extract_salary(s: &Vec<char>) -> (r: Vec<char>)
    ensures
        r@ == salary_spec(s@),
{
    let n = s.len();
    let mut k: usize = 0;
    while k < n && !(k + 1 < n && s[k] == '$' && '0' <= s[k + 1] && s[k + 1] <= '9')
        invariant
            n == s@.len(),
            k <= n,
            salary_from(s@, k as int) == salary_from(s@, 0),
        decreases n - k,
    {
        k += 1;
    }
    if k >= n {
        return Vec::new();
    }
    let mut j: usize = k + 1;
    while j < n && (('0' <= s[j] && s[j] <= '9') || (s[j] == ',' && j + 1 < n && '0' <= s[j + 1] && s[j + 1] <= '9'))
        invariant
            n == s@.len(),
            k < j <= n,
            salary_run(s@, j as int) == salary_run(s@, k + 1),
        decreases n - j,
    {
        j += 1;
    }
    slice(s, k, j)
}

pub open spec fn iso_date_at(s: Seq<char>, k: int) -> bool {
    &&& 0 <= k && k + 10 <= s.len()
    &&& is_digit(s[k]) && is_digit(s[k + 1]) && is_digit(s[k + 2]) && is_digit(s[k + 3])
    &&& s[k + 4] == '-' && is_digit(s[k + 5]) && is_digit(s[k + 6])
    &&& s[k + 7] == '-' && is_digit(s[k + 8]) && is_digit(s[k + 9])
}

pub open spec fn date_from(s: Seq<char>, k: int) -> int
    decreases s.len() - k,
{
    if k < 0 || k >= s.len() {
        s.len() as int
    } else if iso_date_at(s, k) {
        k
    } else {
        date_from(s, k + 1)
    }
}

/// The first date written `YYYY-MM-DD`, or the empty text.
pub open spec fn date_spec(s: Seq<char>) -> Seq<char> {
    let k = date_from(s, 0);
    if k < s.len() {
        s.subrange(k, k + 10)
    } else {
        Seq::empty()
    }
}

fn digit_at(s: &Vec<char>, k: usize) -> (r: bool)
    requires
        k < s@.len(),
    ensures
        r == is_digit(s@[k as int]),
{
    '0' <= s[k] && s[k] <= '9'
}

fn iso_date_at_exec(s: &Vec<char>, k: usize) -> (r: bool)
    ensures
        r == iso_date_at(s@, k as int),
{
    let n = s.len();
    if k > n || n - k < 10 {
        return false;
    }
    digit_at(s, k) && digit_at(s, k + 1) && digit_at(s, k + 2) && digit_at(s, k + 3)
        && s[k + 4] == '-' && digit_at(s, k + 5) && digit_at(s, k + 6) && s[k + 7] == '-'
        && digit_at(s, k + 8) && digit_at(s, k + 9)
}

/// The first `YYYY-MM-DD` date of the text, or the empty text.
pub fn extract_date(s: &Vec<char>) -> (r: Vec<char>)
    ensures
        r@ == date_spec(s@),
{
    let n = s.len();
    let mut k: usize = 0;
    while k < n && !iso_date_at_exec(s, k)
        invariant
            n == s@.len(),
            k <= n,
            date_from(s@, k as int) == date_from(s@, 0),
        decreases n - k,
    {
        k += 1;
    }
    if k >= n {
        return Vec::new();
    }
    slice(s, k, k + 10)
}

/// A letter or digit, `&`, `.`, or a space that a capital follows.
pub open spec fn company_char(s: Seq<char>, j: int) -> bool {
    is_alnum(s[j]) || s[j] == '&' || s[j] == '.' || (s[j] == ' ' && j + 1 < s.len() && is_upper(s[j + 1]))
}

pub open spec fn company_run(s: Seq<char>, j: int) -> int
    decreases s.len() - j,
{
    if 0 <= j < s.len() && company_char(s, j) {
        company_run(s, j + 1)
    } else {
        j
    }
}

/// The capitalised words after the first ` at ` of the text, or the empty text.
pub open spec fn company_text_spec(s: Seq<char>) -> Seq<char> {
    let p = find_from(s, " at "@, 0);
    let k = p + 4;
    if p < s.len() && k < s.len() && is_upper(s[k]) {
        s.subrange(k, company_run(s, k))
    } else {
        Seq::empty()
    }
}

fn is_alnum_exec(c: char) -> (r: bool)
    ensures
        r == is_alnum(c),
{
    ('0' <= c && c <= '9') || ('A' <= c && c <= 'Z') || ('a' <= c && c <= 'z')
}

/// The company named after ` at ` in the text (`Senior Engineer at Acme Corp`).
pub fn extract_company_text(s: &Vec<char>) -> (r: Vec<char>)
    ensures
        r@ == company_text_spec(s@),
{
    let at = chars_of(" at ");
    proof {
        reveal_strlit(" at ");
        lemma_find_from_bounds(s@, at@, 0);
    }
    let n = s.len();
    let p = find(s, &at);
    if p >= n || n - p <= 4 || !('A' <= s[p + 4] && s[p + 4] <= 'Z') {
        return Vec::new();
    }
    let k = p + 4;
    let mut j: usize = k;
    while j < n && (is_alnum_exec(s[j]) || s[j] == '&' || s[j] == '.' || (s[j] == ' ' && j + 1 < n && 'A' <= s[j + 1] && s[j + 1] <= 'Z'))
        invariant
            n == s@.len(),
            k <= j <= n,
            company_run(s@, j as int) == company_run(s@, k as int),
        decreases n - j,
    {
        j += 1;
    }
    slice(s, k, j)
}

/// Start of the line that holds position `j`: just after the last line break before it.
pub open spec fn line_start(s: Seq<char>, j: int) -> int
    decreases j,
{
    if j <= 0 {
        0
    } else if s[j - 1] == '\n' {
        j
    } else {
        line_start(s, j - 1)
    }
}

/// The title written before the first ` at ` (`Senior Rust Engineer at Acme`):
/// the trimmed text from the start of that line, when it is a plausible title.
pub open spec fn title_at_spec(s: Seq<char>) -> Seq<char> {
    let p = find_from(s, " at "@, 0);
    let c = trim(s.subrange(line_start(s, p), p));
    if p < s.len() && is_plausible_title_spec(c) {
        c
    } else {
        Seq::empty()
    }
}

/// The title before the first ` at ` of the text, or the empty text.
pub fn extract_title_at(s: &Vec<char>) -> (r: Vec<char>)
    ensures
        r@ == title_at_spec(s@),
{
    let at = chars_of(" at ");
    proof {
        lemma_find_from_bounds(s@, at@, 0);
    }
    let p = find(s, &at);
    if p >= s.len() {
        return Vec::new();
    }
    let mut b: usize = p;
    while b > 0 && s[b - 1] != '\n'
        invariant
            b <= p < s@.len(),
            line_start(s@, b as int) == line_start(s@, p as int),
        decreases b,
    {
        b -= 1;
    }
    let c = trimmed(&slice(s, b, p));
    if is_plausible_title(&c) {
        c
    } else {
        Vec::new()
    }
}

/// Scans the lines of `s` from the line starting at `start`, with `j` the
/// position reached in it: the first line holding the domain keyword, trimmed.
pub open spec fn line_scan(s: Seq<char>, start: int, j: int) -> Seq<char>
    decreases s.len() - j,
{
    if j >= s.len() {
        let line = s.subrange(start, s.len() as int);
        if contains_ci(line, domain_word()) {
            trim(line)
        } else {
            Seq::empty()
        }
    } else if s[j] == '\n' {
        let line = s.subrange(start, j);
        if contains_ci(line, domain_word()) {
            trim(line)
        } else {
            line_scan(s, j + 1, j + 1)
        }
    } else {
        line_scan(s, start, j + 1)
    }
}

/// The first line of the text that holds the domain keyword, trimmed.
pub open spec fn title_line_spec(s: Seq<char>) -> Seq<char> {
    line_scan(s, 0, 0)
}

fn line_has_domain(s: &Vec<char>, lo: usize, hi: usize) -> (r: bool)
    requires
        lo <= hi <= s@.len(),
    ensures
        r == contains_ci(s@.subrange(lo as int, hi as int), domain_word()),
{
    let line = slice(s, lo, hi);
    contains_exec(&to_lower(&line), &to_lower(&chars_of("rust")))
}

/// The first line of the text holding the domain keyword, trimmed; empty if none.
pub fn extract_title_line(s: &Vec<char>) -> (r: Vec<char>)
    ensures
        r@ == title_line_spec(s@),
{
    let n = s.len();
    let mut start: usize = 0;
    let mut j: usize = 0;
    while j < n
        invariant
            n == s@.len(),
            start <= j <= n,
            line_scan(s@, start as int, j as int) == title_line_spec(s@),
        decreases n - j,
    {
        if s[j] == '\n' {
            if line_has_domain(s, start, j) {
                return trimmed(&slice(s, start, j));
            }
            start = j + 1;
        }
        j += 1;
    }
    if line_has_domain(s, start, n) {
        trimmed(&slice(s, start, n))
    } else {
        Vec::new()
    }
}

// ---------------------------------------------------------------- structural paths

/// The fields that have a structural step.
#[derive(Debug)]
pub enum Field {
    Title,
    Company,
    Location,
}

/// The element looks like it holds the field: a heading or a class name that says so.
pub open spec fn hint_spec(n: Node, f: Field) -> bool {
    is_element(n) && match f {
        Field::Title => n.tag@ == "h1"@ || n.tag@ == "h2"@ || n.tag@ == "h3"@ || class_has(n, "title"@),
        Field::Company => class_has(n, "company"@) || class_has(n, "firm"@) || class_has(n, "employer"@),
        Field::Location => class_has(n, "location"@) || class_has(n, "place"@),
    }
}

pub open spec fn plausible_spec(f: Field, t: Seq<char>) -> bool {
    match f {
        Field::Title => is_plausible_title_spec(t),
        Field::Company => is_plausible_company_spec(t),
        Field::Location => is_plausible_location_spec(t),
    }
}

/// The trimmed text of the first node of `j .. hi` that carries the field's hint
/// and whose text passes the field's validator; empty when there is none.
pub open spec fn structural_from(nodes: Seq<Node>, f: Field, j: int, hi: int) -> Seq<char>
    decreases hi - j,
{
    if j < 0 || j >= hi || hi > nodes.len() {
        Seq::empty()
    } else if hint_spec(nodes[j], f) && plausible_spec(f, trim(text_of(nodes, j))) {
        trim(text_of(nodes, j))
    } else {
        structural_from(nodes, f, j + 1, hi)
    }
}

/// The structural step of field `f` over the descendants of element `e`.
pub open spec fn structural(nodes: Seq<Node>, e: int, f: Field) -> Seq<char> {
    structural_from(nodes, f, e + 1, end_of(nodes, e))
}

pub fn hint_holds(n: &Node, f: &Field) -> (r: bool)
    ensures
        r == hint_spec(*n, *f),
{
    if n.tag.len() == 0 {
        return false;
    }
    match f {
        Field::Title => tag_is(n, "h1") || tag_is(n, "h2") || tag_is(n, "h3") || class_has_exec(n, "title"),
        Field::Company => class_has_exec(n, "company") || class_has_exec(n, "firm") || class_has_exec(n, "employer"),
        Field::Location => class_has_exec(n, "location") || class_has_exec(n, "place"),
    }
}

pub fn plausible(f: &Field, t: &Vec<char>) -> (r: bool)
    ensures
        r == plausible_spec(*f, t@),
{
    match f {
        Field::Title => is_plausible_title(t),
        Field::Company => is_plausible_company(t),
        Field::Location => is_plausible_location(t),
    }
}

/// The structural step of a field: the trimmed text of the first descendant of
/// `e` that carries the field's hint and passes the field's validator.
pub fn extract_structural(doc: &Document, e: usize, f: &Field) -> (r: Vec<char>)
    requires
        e < doc.nodes@.len(),
    ensures
        r@ == structural(doc.nodes@, e as int, *f),
{
    let hi = doc.subtree_end(e);
    let mut j: usize = e + 1;
    while j < hi
        invariant
            e < j <= hi <= doc.nodes@.len(),
            hi == end_of(doc.nodes@, e as int),
            structural_from(doc.nodes@, *f, j as int, hi as int) == structural(doc.nodes@, e as int, *f),
        decreases hi - j,
    {
        if hint_holds(&doc.nodes[j], f) {
            let t = trimmed(&doc.text(j));
            if plausible(f, &t) {
                return t;
            }
        }
        j += 1;
    }
    Vec::new()
}

} // verus!
