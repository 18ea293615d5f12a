//! The container-discovery strategies and the extraction of one page.
//! Strategies run in a fixed order over the whole document; each proposes the
//! elements it selects, in document order, and the accepted ones are enriched
//! into records.
use vstd::prelude::*;
use crate::text::{chars_of, occurs_at, occurs_at_exec, trim, trimmed};
use crate::document::{Document, Node, attribute, class_has, class_has_exec, class_token, class_token_exec, find_attr, is_element, tag_is, text_of, views};
use crate::validate::{contains_any, contains_any_exec, has_job_indicators, has_job_indicators_spec, is_navigation_noise, is_navigation_noise_spec};
use crate::fields::{level_vocabulary, level_words};
use crate::record::{JobRecord, RecordView, build_record, record_spec};

verus! {

#[derive(Debug)]
pub enum Strategy {
    /// Explicit or likely job containers: job or card classes, job data
    /// attributes, articles, and links into a jobs path.
    Container,
    /// Presentational class combinations that make a card.
    StyledCard,
    /// List items, for compact listings.
    ListItem,
    /// Generic blocks whose text reads like a job title.
    FullText,
}

pub open spec fn strategies() -> Seq<Strategy> {
    seq![Strategy::Container, Strategy::StyledCard, Strategy::ListItem, Strategy::FullText]
}

pub open spec fn href_prefix(n: Node, p: Seq<char>) -> bool {
    match attribute(n, "href"@) {
        Some(v) => occurs_at(v, p, 0),
        None => false,
    }
}

/// The elements that a strategy proposes.
pub open spec fn selects(n: Node, s: Strategy) -> bool {
    is_element(n) && match s {
        Strategy::Container => class_has(n, "job"@) || class_has(n, "card"@)
            || attribute(n, "data-job-id"@) is Some || n.tag@ == "article"@
            || (n.tag@ == "a"@ && href_prefix(n, "/jobs/"@)),
        Strategy::StyledCard => (class_token(n, "bg-white"@) && class_token(n, "rounded-lg"@)
            && class_token(n, "shadow"@)) || (class_token(n, "p-4"@) && class_token(n, "border"@)
            && class_token(n, "rounded"@)),
        Strategy::ListItem => n.tag@ == "li"@,
        Strategy::FullText => n.tag@ == "div"@ || n.tag@ == "section"@ || n.tag@ == "article"@,
    }
}

pub open spec fn role_title_words() -> Seq<Seq<char>> {
    seq!["developer"@, "engineer"@, "programmer"@, "architect"@]
}

/// Text shaped like a job title: a seniority word and a role word.
pub open spec fn title_shaped(t: Seq<char>) -> bool {
    contains_any(t, level_words()) && contains_any(t, role_title_words())
}

/// What a candidate's flattened text must satisfy under each strategy.
pub open spec fn text_passes(s: Strategy, t: Seq<char>) -> bool {
    let n = trim(t).len();
    match s {
        Strategy::Container => has_job_indicators_spec(t) && !is_navigation_noise_spec(t),
        Strategy::StyledCard => n > 50 && has_job_indicators_spec(t) && !is_navigation_noise_spec(t),
        Strategy::ListItem => n > 30 && has_job_indicators_spec(t) && !is_navigation_noise_spec(t),
        Strategy::FullText => n > 100 && title_shaped(t),
    }
}

/// The minimum title length of a valid record.
pub open spec fn min_title_len() -> nat {
    5
}

/// Element `j` is proposed by the strategy, its text passes, and its record is valid.
pub open spec fn accepted(nodes: Seq<Node>, s: Strategy, j: int, base: Seq<char>) -> bool {
    &&& selects(nodes[j], s)
    &&& text_passes(s, text_of(nodes, j))
    &&& record_spec(nodes, j, base).title.len() >= min_title_len()
}

/// The records that a strategy yields from nodes `0 .. hi`, in document order.
pub open spec fn strategy_records(nodes: Seq<Node>, s: Strategy, base: Seq<char>, hi: int) -> Seq<RecordView>
    decreases hi,
{
    if hi <= 0 {
        Seq::empty()
    } else {
        let r = strategy_records(nodes, s, base, hi - 1);
        if accepted(nodes, s, hi - 1, base) {
            r.push(record_spec(nodes, hi - 1, base))
        } else {
            r
        }
    }
}

/// The records of one page: each strategy's records, in strategy order.
pub open spec fn page_records(nodes: Seq<Node>, base: Seq<char>) -> Seq<RecordView> {
    let n = nodes.len() as int;
    strategy_records(nodes, Strategy::Container, base, n)
        + strategy_records(nodes, Strategy::StyledCard, base, n)
        + strategy_records(nodes, Strategy::ListItem, base, n)
        + strategy_records(nodes, Strategy::FullText, base, n)
}

pub open spec fn record_views(v: Seq<JobRecord>) -> Seq<RecordView> {
    v.map_values(|r: JobRecord| r@)
}

pub fn selects_exec(n: &Node, s: &Strategy) -> (r: bool)
    ensures
        r == selects(*n, *s),
{
    if n.tag.len() == 0 {
        return false;
    }
    match s {
        Strategy::Container => {
            let href_jobs = match find_attr(n, &chars_of("href")) {
                Some(k) => occurs_at_exec(&n.attrs[k].value, &chars_of("/jobs/"), 0),
                None => false,
            };
            class_has_exec(n, "job") || class_has_exec(n, "card")
                || find_attr(n, &chars_of("data-job-id")).is_some() || tag_is(n, "article")
                || (tag_is(n, "a") && href_jobs)
        },
        Strategy::StyledCard => (class_token_exec(n, "bg-white") && class_token_exec(n, "rounded-lg")
            && class_token_exec(n, "shadow")) || (class_token_exec(n, "p-4") && class_token_exec(n, "border")
            && class_token_exec(n, "rounded")),
        Strategy::ListItem => tag_is(n, "li"),
        Strategy::FullText => tag_is(n, "div") || tag_is(n, "section") || tag_is(n, "article"),
    }
}

pub fn role_title_vocabulary() -> (r: Vec<Vec<char>>)
    ensures
        views(r@) == role_title_words(),
{
    let mut r: Vec<Vec<char>> = Vec::new();
    r.push(chars_of("developer"));
    r.push(chars_of("engineer"));
    r.push(chars_of("programmer"));
    r.push(chars_of("architect"));
    assert(views(r@) =~= role_title_words());
    r
}

pub fn text_passes_exec(s: &Strategy, t: &Vec<char>) -> (r: bool)
    ensures
        r == text_passes(*s, t@),
{
    let n = trimmed(t).len();
    match s {
        Strategy::Container => has_job_indicators(t) && !is_navigation_noise(t),
        Strategy::StyledCard => n > 50 && has_job_indicators(t) && !is_navigation_noise(t),
        Strategy::ListItem => n > 30 && has_job_indicators(t) && !is_navigation_noise(t),
        Strategy::FullText => n > 100 && contains_any_exec(t, &level_vocabulary())
            && contains_any_exec(t, &role_title_vocabulary()),
    }
}

/// The records that one strategy yields from the document, in document order.
pub fn run_strategy(doc: &Document, s: &Strategy, base: &Vec<char>) -> (r: Vec<JobRecord>)
    ensures
        record_views(r@) == strategy_records(doc.nodes@, *s, base@, doc.nodes@.len() as int),
{
    let mut r: Vec<JobRecord> = Vec::new();
    let mut j: usize = 0;
    while j < doc.nodes.len()
        invariant
            j <= doc.nodes@.len(),
            record_views(r@) == strategy_records(doc.nodes@, *s, base@, j as int),
        decreases doc.nodes.len() - j,
    {
        if selects_exec(&doc.nodes[j], s) && text_passes_exec(s, &doc.text(j)) {
            let rec = build_record(doc, j, base);
            if rec.title.len() >= 5 {
                r.push(rec);
            }
        }
        j += 1;
        assert(record_views(r@) =~= strategy_records(doc.nodes@, *s, base@, j as int));
    }
    r
}

/// The records of one page at `base`: the strategies run in their fixed order
/// and their records are concatenated.
pub fn extract_page(doc: &Document, base: &Vec<char>) -> (r: Vec<JobRecord>)
    ensures
        record_views(r@) == page_records(doc.nodes@, base@),
{
    let mut r = run_strategy(doc, &Strategy::Container, base);
    let mut b = run_strategy(doc, &Strategy::StyledCard, base);
    r.append(&mut b);
    let mut c = run_strategy(doc, &Strategy::ListItem, base);
    r.append(&mut c);
    let mut d = run_strategy(doc, &Strategy::FullText, base);
    r.append(&mut d);
    assert(record_views(r@) =~= page_records(doc.nodes@, base@));
    r
}

} // verus!
