//! The job record and its enrichment from one container element.
use vstd::prelude::*;
use crate::text::{chars_of, contains_ci, contains_exec, push_all, to_lower};
use crate::document::{views, Document, attribute, end_of, find_attr, same_text, text_of};
use crate::fields::{Field, company_text_spec, date_spec, extract_company_text, extract_date, extract_salary, extract_structural, extract_title_at, extract_title_line, location_label_vocabulary, location_labels, title_at_spec, job_type_vocabulary, job_type_words, level_vocabulary, level_words, pick, pick_word, resolve_url, resolve_url_spec, salary_spec, structural, tech_vocabulary, tech_words, technologies, title_line_spec, words_in};

verus! {

#[derive(PartialEq, Eq, Structural, Clone, Copy, Debug)]
pub enum Remote {
    Yes,
    No,
}

/// One job posting. Every text field is empty when unknown; the description
/// stays empty until the posting's own page is read (`description_of`).
#[derive(Debug)]
pub struct JobRecord {
    pub title: Vec<char>,
    pub company: Vec<char>,
    pub location: Vec<char>,
    pub salary: Vec<char>,
    pub job_type: Vec<char>,
    pub experience_level: Vec<char>,
    pub remote: Remote,
    pub technologies: Vec<Vec<char>>,
    pub description: Vec<char>,
    pub url: Vec<char>,
    pub date_posted: Vec<char>,
}

pub struct RecordView {
    pub title: Seq<char>,
    pub company: Seq<char>,
    pub location: Seq<char>,
    pub salary: Seq<char>,
    pub job_type: Seq<char>,
    pub experience_level: Seq<char>,
    pub remote: Remote,
    pub technologies: Seq<Seq<char>>,
    pub description: Seq<char>,
    pub url: Seq<char>,
    pub date_posted: Seq<char>,
}

impl View for JobRecord {
    type V = RecordView;

    open spec fn view(&self) -> RecordView {
        RecordView {
            title: self.title@,
            company: self.company@,
            location: self.location@,
            salary: self.salary@,
            job_type: self.job_type@,
            experience_level: self.experience_level@,
            remote: self.remote,
            technologies: views(self.technologies@),
            description: self.description@,
            url: self.url@,
            date_posted: self.date_posted@,
        }
    }
}

/// First node of `j .. hi` whose tag is `t`.
pub open spec fn first_tag_from(nodes: Seq<crate::document::Node>, t: Seq<char>, j: int, hi: int) -> Option<int>
    decreases hi - j,
{
    if j < 0 || j >= hi || hi > nodes.len() {
        None
    } else if nodes[j].tag@ == t {
        Some(j)
    } else {
        first_tag_from(nodes, t, j + 1, hi)
    }
}

/// The container itself when it is an anchor, else its first anchor descendant.
pub open spec fn anchor_spec(nodes: Seq<crate::document::Node>, e: int) -> Option<int> {
    if nodes[e].tag@ == "a"@ {
        Some(e)
    } else {
        first_tag_from(nodes, "a"@, e + 1, end_of(nodes, e))
    }
}

pub open spec fn href_spec(nodes: Seq<crate::document::Node>, e: int) -> Option<Seq<char>> {
    match anchor_spec(nodes, e) {
        Some(a) => attribute(nodes[a], "href"@),
        None => None,
    }
}

/// A field's structural step, else its textual step.
pub open spec fn or_else(first: Seq<char>, second: Seq<char>) -> Seq<char> {
    if first.len() > 0 {
        first
    } else {
        second
    }
}

/// The record that the field extractors make of container `e` of a page at `base`.
pub open spec fn record_spec(nodes: Seq<crate::document::Node>, e: int, base: Seq<char>) -> RecordView {
    let t = text_of(nodes, e);
    RecordView {
        title: or_else(structural(nodes, e, Field::Title), or_else(title_at_spec(t), title_line_spec(t))),
        company: or_else(structural(nodes, e, Field::Company), company_text_spec(t)),
        location: or_else(structural(nodes, e, Field::Location), pick_word(t, location_labels())),
        salary: salary_spec(t),
        job_type: pick_word(t, job_type_words()),
        experience_level: pick_word(t, level_words()),
        remote: if contains_ci(t, "remote"@) {
            Remote::Yes
        } else {
            Remote::No
        },
        technologies: words_in(t, tech_words()),
        description: Seq::empty(),
        url: resolve_url_spec(base, href_spec(nodes, e)),
        date_posted: date_spec(t),
    }
}

/// The href of the container's anchor, if it has one.
pub fn container_href(doc: &Document, e: usize) -> (r: Option<Vec<char>>)
    requires
        e < doc.nodes@.len(),
    ensures
        match r {
            Some(h) => href_spec(doc.nodes@, e as int) == Some(h@),
            None => href_spec(doc.nodes@, e as int) is None,
        },
{
    let a_tag = chars_of("a");
    let mut a: usize = e;
    if !same_text(&doc.nodes[e].tag, &a_tag) {
        let hi = doc.subtree_end(e);
        let mut j: usize = e + 1;
        while j < hi && !same_text(&doc.nodes[j].tag, &a_tag)
            invariant
                e < j <= hi <= doc.nodes@.len(),
                hi == end_of(doc.nodes@, e as int),
                a_tag@ == "a"@,
                first_tag_from(doc.nodes@, "a"@, j as int, hi as int) == anchor_spec(doc.nodes@, e as int),
            decreases hi - j,
        {
            j += 1;
        }
        if j >= hi {
            return None;
        }
        a = j;
    }
    assert(anchor_spec(doc.nodes@, e as int) == Some(a as int));
    match find_attr(&doc.nodes[a], &chars_of("href")) {
        Some(k) => {
            let mut h: Vec<char> = Vec::new();
            push_all(&mut h, &doc.nodes[a].attrs[k].value);
            Some(h)
        },
        None => None,
    }
}

/// Runs every field's resolution chain over container `e` of a page at `base`.
pub fn build_record(doc: &Document, e: usize, base: &Vec<char>) -> (r: JobRecord)
    requires
        e < doc.nodes@.len(),
    ensures
        r@ == record_spec(doc.nodes@, e as int, base@),
{
    let t = doc.text(e);
    let mut title = extract_structural(doc, e, &Field::Title);
    if title.len() == 0 {
        title = extract_title_at(&t);
    }
    if title.len() == 0 {
        title = extract_title_line(&t);
    }
    let mut company = extract_structural(doc, e, &Field::Company);
    if company.len() == 0 {
        company = extract_company_text(&t);
    }
    let mut location = extract_structural(doc, e, &Field::Location);
    if location.len() == 0 {
        location = pick(&t, &location_label_vocabulary());
    }
    let remote = if contains_exec(&to_lower(&t), &to_lower(&chars_of("remote"))) {
        Remote::Yes
    } else {
        Remote::No
    };
    let href = container_href(doc, e);
    let url = match &href {
        Some(h) => resolve_url(base, Some(h)),
        None => resolve_url(base, None),
    };
    JobRecord {
        title,
        company,
        location,
        salary: extract_salary(&t),
        job_type: pick(&t, &job_type_vocabulary()),
        experience_level: pick(&t, &level_vocabulary()),
        remote,
        technologies: technologies(&t, &tech_vocabulary()),
        description: Vec::new(),
        url,
        date_posted: extract_date(&t),
    }
}

} // verus!
