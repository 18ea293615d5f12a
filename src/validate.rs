//! Pure predicates that classify text as job-indicative, navigation noise, or
//! plausible as a field value. Each vocabulary is held as data.
use vstd::prelude::*;
use crate::text::{chars_of, contains_ci, contains_exec, is_upper, lower, to_lower};
use crate::document::views;

verus! {

/// Some word of the vocabulary occurs in `t`, ignoring ASCII case.
pub open spec fn contains_any(t: Seq<char>, vocab: Seq<Seq<char>>) -> bool {
    exists|i: int| 0 <= i < vocab.len() && contains_ci(t, #[trigger] vocab[i])
}

/// Index of the first word of the vocabulary at or after `i` that occurs in `t`,
/// or `vocab.len()` when there is none.
pub open spec fn first_word_from(t: Seq<char>, vocab: Seq<Seq<char>>, i: int) -> int
    decreases vocab.len() - i,
{
    if i < 0 || i >= vocab.len() {
        vocab.len() as int
    } else if contains_ci(t, vocab[i]) {
        i
    } else {
        first_word_from(t, vocab, i + 1)
    }
}

pub open spec fn job_words() -> Seq<Seq<char>> {
    seq!["rust"@, "developer"@, "engineer"@, "backend"@, "remote"@, "software"@, "programmer"@]
}

pub open spec fn nav_words() -> Seq<Seq<char>> {
    seq![
        "sign in"@, "log in"@, "login"@, "sign up"@, "post a job"@, "post job"@,
        "about us"@, "contact"@, "privacy"@, "cookie"@,
    ]
}

/// Words that mark a role or the domain: a company name holds none of them.
pub open spec fn role_words() -> Seq<Seq<char>> {
    seq!["rust"@, "developer"@, "engineer"@]
}

pub open spec fn location_words() -> Seq<Seq<char>> {
    seq![
        "remote"@, "hybrid"@, "on-site"@, "onsite"@, "usa"@, "europe"@, "uk"@, "canada"@,
        "germany"@, "london"@, "berlin"@, "new york"@, "worldwide"@,
    ]
}

/// The primary domain keyword.
pub open spec fn domain_word() -> Seq<char> {
    "rust"@
}

pub open spec fn has_job_indicators_spec(t: Seq<char>) -> bool {
    contains_any(t, job_words())
}

pub open spec fn is_navigation_noise_spec(t: Seq<char>) -> bool {
    contains_any(t, nav_words())
}

pub open spec fn is_plausible_title_spec(t: Seq<char>) -> bool {
    10 <= t.len() <= 150 && contains_ci(t, domain_word())
}

pub open spec fn is_plausible_company_spec(t: Seq<char>) -> bool {
    2 <= t.len() <= 50 && !contains_any(t, role_words()) && is_upper(t[0])
}

pub open spec fn is_plausible_location_spec(t: Seq<char>) -> bool {
    2 <= t.len() <= 30 && contains_any(t, location_words())
}

/// Index of the first word of `vocab` that occurs in `t` ignoring ASCII case,
/// or `vocab.len()` when none does.
pub fn first_word(t: &Vec<char>, vocab: &Vec<Vec<char>>) -> (r: usize)
    ensures
        r == first_word_from(t@, views(vocab@), 0),
        r < vocab@.len() <==> contains_any(t@, views(vocab@)),
{
    let lt = to_lower(t);
    let mut i: usize = 0;
    while i < vocab.len()
        invariant
            i <= vocab@.len(),
            lt@ == lower(t@),
            first_word_from(t@, views(vocab@), i as int) == first_word_from(t@, views(vocab@), 0),
            forall|j: int| 0 <= j < i ==> !contains_ci(t@, #[trigger] views(vocab@)[j]),
        decreases vocab.len() - i,
    {
        let lw = to_lower(&vocab[i]);
        assert(views(vocab@)[i as int] == vocab@[i as int]@);
        if contains_exec(&lt, &lw) {
            return i;
        }
        i += 1;
    }
    i
}

pub fn contains_any_exec(t: &Vec<char>, vocab: &Vec<Vec<char>>) -> (r: bool)
    ensures
        r == contains_any(t@, views(vocab@)),
{
    first_word(t, vocab) < vocab.len()
}

pub fn job_vocabulary() -> (r: Vec<Vec<char>>)
    ensures
        views(r@) == job_words(),
{
    let mut r: Vec<Vec<char>> = Vec::new();
    r.push(chars_of("rust"));
    r.push(chars_of("developer"));
    r.push(chars_of("engineer"));
    r.push(chars_of("backend"));
    r.push(chars_of("remote"));
    r.push(chars_of("software"));
    r.push(chars_of("programmer"));
    assert(views(r@) =~= job_words());
    r
}

pub fn navigation_vocabulary() -> (r: Vec<Vec<char>>)
    ensures
        views(r@) == nav_words(),
{
    let mut r: Vec<Vec<char>> = Vec::new();
    r.push(chars_of("sign in"));
    r.push(chars_of("log in"));
    r.push(chars_of("login"));
    r.push(chars_of("sign up"));
    r.push(chars_of("post a job"));
    r.push(chars_of("post job"));
    r.push(chars_of("about us"));
    r.push(chars_of("contact"));
    r.push(chars_of("privacy"));
    r.push(chars_of("cookie"));
    assert(views(r@) =~= nav_words());
    r
}

pub fn role_vocabulary() -> (r: Vec<Vec<char>>)
    ensures
        views(r@) == role_words(),
{
    let mut r: Vec<Vec<char>> = Vec::new();
    r.push(chars_of("rust"));
    r.push(chars_of("developer"));
    r.push(chars_of("engineer"));
    assert(views(r@) =~= role_words());
    r
}

pub fn location_vocabulary() -> (r: Vec<Vec<char>>)
    ensures
        views(r@) == location_words(),
{
    let mut r: Vec<Vec<char>> = Vec::new();
    r.push(chars_of("remote"));
    r.push(chars_of("hybrid"));
    r.push(chars_of("on-site"));
    r.push(chars_of("onsite"));
    r.push(chars_of("usa"));
    r.push(chars_of("europe"));
    r.push(chars_of("uk"));
    r.push(chars_of("canada"));
    r.push(chars_of("germany"));
    r.push(chars_of("london"));
    r.push(chars_of("berlin"));
    r.push(chars_of("new york"));
    r.push(chars_of("worldwide"));
    assert(views(r@) =~= location_words());
    r
}

/// True when the text holds a word of the job vocabulary, ignoring case.
pub fn has_job_indicators(t: &Vec<char>) -> (r: bool)
    ensures
        r == has_job_indicators_spec(t@),
{
    contains_any_exec(t, &job_vocabulary())
}

/// True when the text holds navigation or site-chrome vocabulary.
pub fn is_navigation_noise(t: &Vec<char>) -> (r: bool)
    ensures
        r == is_navigation_noise_spec(t@),
{
    contains_any_exec(t, &navigation_vocabulary())
}

/// Between 10 and 150 characters, and holds the domain keyword.
pub fn is_plausible_title(t: &Vec<char>) -> (r: bool)
    ensures
        r == is_plausible_title_spec(t@),
{
    if t.len() < 10 || t.len() > 150 {
        return false;
    }
    let lt = to_lower(t);
    let lw = to_lower(&chars_of("rust"));
    contains_exec(&lt, &lw)
}

/// Between 2 and 50 characters, no role keyword, and an upper-case first letter.
pub fn is_plausible_company(t: &Vec<char>) -> (r: bool)
    ensures
        r == is_plausible_company_spec(t@),
{
    if t.len() < 2 || t.len() > 50 {
        return false;
    }
    let c = t[0];
    'A' <= c && c <= 'Z' && !contains_any_exec(t, &role_vocabulary())
}

/// Between 2 and 30 characters, and holds a location or remote keyword.
pub fn is_plausible_location(t: &Vec<char>) -> (r: bool)
    ensures
        r == is_plausible_location_spec(t@),
{
    if t.len() < 2 || t.len() > 30 {
        return false;
    }
    contains_any_exec(t, &location_vocabulary())
}

} // verus!
