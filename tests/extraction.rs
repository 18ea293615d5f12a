use rustjobs_scraper::document::{extract_tags, extract_text, Attr, Cond, Document, Selector};
use rustjobs_scraper::selector::parse_selector;
use rustjobs_scraper::fields::{
    extract_company_text, extract_date, extract_salary, extract_title_at, extract_title_line, pick, resolve_url,
    technologies,
};
use rustjobs_scraper::pipeline::{description_of, run_pipeline, ExtractError, Page};
use rustjobs_scraper::record::{JobRecord, Remote};
use rustjobs_scraper::strategy::extract_page;
use rustjobs_scraper::dedup::deduplicate;
use rustjobs_scraper::report::{remote_count, salary_count, technology_frequency};
use rustjobs_scraper::validate::{
    has_job_indicators, is_navigation_noise, is_plausible_company, is_plausible_location,
    is_plausible_title,
};

fn cv(s: &str) -> Vec<char> {
    s.chars().collect()
}

fn st(v: &[char]) -> String {
    v.iter().collect()
}

fn attr(name: &str, value: &str) -> Attr {
    Attr { name: cv(name), value: cv(value) }
}

fn words(ws: &[&str]) -> Vec<Vec<char>> {
    ws.iter().map(|w| cv(w)).collect()
}

/// `<div class="{class}">{text}<a href="{href}"></a></div>` at depth `d`.
fn push_card(doc: &mut Document, d: usize, class: &str, text: &str, href: &str) {
    doc.push_element(d, cv("div"), vec![attr("class", class)]);
    doc.push_text(d + 1, cv(text));
    doc.push_element(d + 1, cv("a"), vec![attr("href", href)]);
}

fn record(title: &str, company: &str) -> JobRecord {
    JobRecord {
        title: cv(title),
        company: cv(company),
        location: vec![],
        salary: vec![],
        job_type: vec![],
        experience_level: vec![],
        remote: Remote::No,
        technologies: vec![],
        description: vec![],
        url: vec![],
        date_posted: vec![],
    }
}

fn flat(r: &JobRecord) -> Vec<String> {
    let mut v = vec![
        st(&r.title),
        st(&r.company),
        st(&r.location),
        st(&r.salary),
        st(&r.job_type),
        st(&r.experience_level),
        format!("{:?}", r.remote),
        st(&r.description),
        st(&r.url),
        st(&r.date_posted),
    ];
    for t in &r.technologies {
        v.push(st(t));
    }
    v
}

#[test]
fn plausible_title_boundaries() {
    assert!(is_plausible_title(&cv("Rust abcde")));
    assert!(!is_plausible_title(&cv("Rust abcd")));
    let t150 = format!("Rust{}", "x".repeat(146));
    assert_eq!(t150.chars().count(), 150);
    assert!(is_plausible_title(&cv(&t150)));
    let t151 = format!("Rust{}", "x".repeat(147));
    assert!(!is_plausible_title(&cv(&t151)));
    assert!(!is_plausible_title(&cv("Go developer wanted")));
}

#[test]
fn navigation_text_is_suppressed() {
    let t = cv("Remote Rust Developer \u{2014} Sign In");
    assert!(has_job_indicators(&t));
    assert!(is_navigation_noise(&t));
    let mut doc = Document::new();
    doc.push_element(0, cv("div"), vec![attr("class", "job-card")]);
    doc.push_text(1, t.clone());
    doc.push_element(0, cv("ul"), vec![]);
    doc.push_element(1, cv("li"), vec![]);
    doc.push_text(2, cv("Remote Rust Developer position \u{2014} Sign In to apply now"));
    let recs = extract_page(&doc, &cv("https://example.com"));
    assert!(recs.is_empty());
}

#[test]
fn url_resolution() {
    let base = cv("https://example.com");
    assert_eq!(st(&resolve_url(&base, Some(&cv("/jobs/42")))), "https://example.com/jobs/42");
    assert_eq!(st(&resolve_url(&base, Some(&cv("https://other.com/x")))), "https://other.com/x");
    assert_eq!(st(&resolve_url(&base, None)), "");
    let slashed = cv("https://example.com/");
    assert_eq!(st(&resolve_url(&slashed, Some(&cv("/jobs/42")))), "https://example.com/jobs/42");
    assert_eq!(st(&resolve_url(&base, Some(&cv("jobs/7")))), "https://example.com/jobs/7");
    assert_eq!(st(&resolve_url(&base, Some(&cv("mailto:hr@acme.io")))), "mailto:hr@acme.io");
    assert_eq!(st(&resolve_url(&base, Some(&cv("/a:b")))), "https://example.com/a:b");
}

#[test]
fn technology_extraction() {
    let vocab = words(&["Rust", "Docker", "AWS", "React"]);
    let got: Vec<String> = technologies(&cv("Rust and Docker on AWS"), &vocab).iter().map(|w| st(w)).collect();
    assert_eq!(got, vec!["Rust", "Docker", "AWS"]);
    let got: Vec<String> = technologies(&cv("we use rust, DOCKER"), &vocab).iter().map(|w| st(w)).collect();
    assert_eq!(got, vec!["Rust", "Docker"]);
    assert!(technologies(&cv(""), &vocab).is_empty());
}

#[test]
fn end_to_end_single_card() {
    let mut doc = Document::new();
    push_card(&mut doc, 0, "job-card", "Senior Rust Engineer at Acme Corp - Remote - $120,000", "/jobs/1");
    let pages = vec![Page { doc, base: cv("https://example.com") }];
    let recs = run_pipeline(&pages).unwrap();
    assert_eq!(recs.len(), 1);
    let r = &recs[0];
    assert!(st(&r.title).contains("Senior Rust Engineer"));
    assert_eq!(r.remote, Remote::Yes);
    assert_eq!(st(&r.salary), "$120,000");
    assert_eq!(st(&r.url), "https://example.com/jobs/1");
    assert_eq!(st(&r.title), "Senior Rust Engineer");
    assert_eq!(st(&r.company), "Acme Corp");
    assert_eq!(st(&r.location), "Remote");
    assert_eq!(st(&r.experience_level), "senior");
    let techs: Vec<String> = r.technologies.iter().map(|w| st(w)).collect();
    assert_eq!(techs, vec!["Rust"]);
}

#[test]
fn dedup_keeps_first_of_each_key() {
    let mut a = record("Rust Engineer", "Acme");
    a.salary = cv("$1");
    let mut b = record("RUST engineer", "acme");
    b.salary = cv("$2");
    let c = record("Rust Engineer", "Other");
    let out = deduplicate(&vec![a, b, c]);
    assert_eq!(out.len(), 2);
    assert_eq!(st(&out[0].salary), "$1");
    assert_eq!(st(&out[1].company), "Other");
    let again = deduplicate(&out);
    assert_eq!(again.len(), 2);
}

#[test]
fn identical_input_gives_identical_output() {
    let build = || {
        let mut doc = Document::new();
        push_card(&mut doc, 0, "job-card", "Senior Rust Engineer at Acme Corp - Remote - $120,000", "/jobs/1");
        push_card(&mut doc, 0, "job-card", "Junior Rust Developer at Beta Labs - Berlin - 2024-05-01", "/jobs/2");
        vec![Page { doc, base: cv("https://example.com") }]
    };
    let first: Vec<Vec<String>> = run_pipeline(&build()).unwrap().iter().map(flat).collect();
    let second: Vec<Vec<String>> = run_pipeline(&build()).unwrap().iter().map(flat).collect();
    assert_eq!(first, second);
    assert_eq!(first.len(), 2);
}

#[test]
fn records_follow_strategy_then_document_order() {
    let mut doc = Document::new();
    doc.push_element(0, cv("ul"), vec![]);
    doc.push_element(1, cv("li"), vec![]);
    doc.push_text(2, cv("Backend Rust Programmer at Gamma Inc, full-time"));
    push_card(&mut doc, 0, "job-card", "Senior Rust Engineer at Acme Corp - Remote", "/jobs/1");
    push_card(&mut doc, 0, "job-card", "Junior Rust Developer at Beta Labs - Berlin", "/jobs/2");
    let recs = extract_page(&doc, &cv("https://example.com"));
    let companies: Vec<String> = recs.iter().map(|r| st(&r.company)).collect();
    assert_eq!(companies, vec!["Acme Corp", "Beta Labs", "Gamma Inc"]);
    assert_eq!(st(&recs[2].job_type), "full-time");
    assert_eq!(st(&recs[2].url), "");
}

#[test]
fn pages_concatenate_then_deduplicate() {
    let mut d1 = Document::new();
    push_card(&mut d1, 0, "job-card", "Senior Rust Engineer at Acme Corp", "/jobs/1");
    let mut d2 = Document::new();
    push_card(&mut d2, 0, "job-card", "Senior Rust Engineer at Acme Corp", "https://other.com/9");
    push_card(&mut d2, 0, "job-card", "Staff Rust Engineer at Delta", "/jobs/3");
    let pages = vec![
        Page { doc: d1, base: cv("https://a.com") },
        Page { doc: d2, base: cv("https://b.com") },
    ];
    let recs = run_pipeline(&pages).unwrap();
    let urls: Vec<String> = recs.iter().map(|r| st(&r.url)).collect();
    assert_eq!(urls, vec!["https://a.com/jobs/1", "https://b.com/jobs/3"]);
}

#[test]
fn empty_result_is_signalled() {
    let mut doc = Document::new();
    doc.push_element(0, cv("div"), vec![attr("class", "header")]);
    doc.push_text(1, cv("Welcome"));
    let pages = vec![Page { doc, base: cv("https://example.com") }];
    assert!(matches!(run_pipeline(&pages), Err(ExtractError::NoRecords)));
    assert!(matches!(run_pipeline(&vec![]), Err(ExtractError::NoRecords)));
}

#[test]
fn short_titles_are_discarded() {
    let mut doc = Document::new();
    doc.push_element(0, cv("div"), vec![attr("class", "job-card")]);
    doc.push_text(1, cv(" Rust "));
    assert!(extract_page(&doc, &cv("https://example.com")).is_empty());
    let mut kept = Document::new();
    kept.push_element(0, cv("div"), vec![attr("class", "job-card")]);
    kept.push_text(1, cv(" Rust! "));
    assert_eq!(extract_page(&kept, &cv("https://example.com")).len(), 1);
}

#[test]
fn structural_fields_win_over_text() {
    let mut doc = Document::new();
    doc.push_element(0, cv("article"), vec![]);
    doc.push_element(1, cv("h3"), vec![]);
    doc.push_text(2, cv("  Rust Backend Developer  "));
    doc.push_element(1, cv("span"), vec![attr("class", "company-name")]);
    doc.push_text(2, cv("Initech"));
    doc.push_element(1, cv("span"), vec![attr("class", "job-location")]);
    doc.push_text(2, cv("Remote, Europe"));
    doc.push_text(1, cv(" posted at Noise Maker"));
    let recs = extract_page(&doc, &cv("https://example.com"));
    assert!(!recs.is_empty());
    let r = &recs[0];
    assert_eq!(st(&r.title), "Rust Backend Developer");
    assert_eq!(st(&r.company), "Initech");
    assert_eq!(st(&r.location), "Remote, Europe");
}

#[test]
fn full_text_strategy_finds_plain_blocks() {
    let mut doc = Document::new();
    doc.push_element(0, cv("section"), vec![]);
    doc.push_text(1, cv("Senior Rust Engineer\nWe are hiring an engineer to build fast services in Rust. Contract role, apply soon please."));
    let recs = extract_page(&doc, &cv("https://example.com"));
    assert_eq!(recs.len(), 1);
    assert_eq!(st(&recs[0].title), "Senior Rust Engineer");
    assert_eq!(st(&recs[0].job_type), "contract");
}

#[test]
fn validators_for_company_and_location() {
    assert!(is_plausible_company(&cv("Acme")));
    assert!(!is_plausible_company(&cv("acme")));
    assert!(!is_plausible_company(&cv("A")));
    assert!(!is_plausible_company(&cv("Rust Corp")));
    assert!(is_plausible_location(&cv("Berlin")));
    assert!(!is_plausible_location(&cv("Somewhere")));
    assert!(!is_plausible_location(&cv("R")));
}

#[test]
fn textual_patterns() {
    assert_eq!(st(&extract_salary(&cv("pay: $95,500, plus bonus"))), "$95,500");
    assert_eq!(st(&extract_salary(&cv("no figure $ here"))), "");
    assert_eq!(st(&extract_date(&cv("posted 2024-03-09 by hr"))), "2024-03-09");
    assert_eq!(st(&extract_date(&cv("posted 2024-3-09"))), "");
    assert_eq!(st(&extract_company_text(&cv("Engineer at Foo&Bar Ltd. in town"))), "Foo&Bar Ltd.");
    assert_eq!(st(&extract_company_text(&cv("look at me"))), "");
    assert_eq!(st(&extract_title_line(&cv("Apply now\n  Rust Dev role \nmore"))), "Rust Dev role");
    assert_eq!(st(&extract_title_line(&cv("nothing here"))), "");
    assert_eq!(st(&extract_title_at(&cv("Jobs\n  Lead Rust Developer at Zed Inc"))), "Lead Rust Developer");
    assert_eq!(st(&extract_title_at(&cv("Rust at Zed"))), "");
    assert_eq!(st(&extract_title_at(&cv("no marker"))), "");
    let levels = words(&["senior", "junior"]);
    assert_eq!(st(&pick(&cv("A JUNIOR or Senior role"), &levels)), "senior");
}

#[test]
fn extract_text_and_tags() {
    let mut doc = Document::new();
    doc.push_element(0, cv("div"), vec![attr("class", "card")]);
    doc.push_element(1, cv("h2"), vec![]);
    doc.push_text(2, cv("  Title one "));
    doc.push_element(1, cv("span"), vec![attr("class", "tag blue")]);
    doc.push_text(2, cv(" rust "));
    doc.push_element(1, cv("span"), vec![attr("class", "tag")]);
    doc.push_text(2, cv("   "));
    doc.push_element(1, cv("span"), vec![attr("class", "badge")]);
    doc.push_text(2, cv("tokio"));
    doc.push_element(0, cv("h2"), vec![]);
    doc.push_text(1, cv("outside"));
    assert_eq!(st(&extract_text(&doc, 0, &cv("h2, h3, [class*='title']"))), "Title one");
    assert_eq!(st(&extract_text(&doc, 0, &cv("h4"))), "");
    assert_eq!(st(&extract_text(&doc, 0, &cv("h2[[["))), "");
    let got: Vec<String> = extract_tags(&doc, 0, &cv("[class*='tag'], .tag, .badge")).iter().map(|t| st(t)).collect();
    assert_eq!(got, vec!["rust", "tokio"]);
    assert!(extract_tags(&doc, 0, &cv(".tag,")).is_empty());
    let heading = vec![Selector { conds: vec![Cond::Tag(cv("h2"))] }];
    assert_eq!(doc.query(&heading), vec![1, 9]);
    assert_eq!(doc.select(&cv("h2")), vec![1, 9]);
    assert_eq!(st(&doc.text(0)), "  Title one  rust    tokio");
}

#[test]
fn selector_conditions() {
    let mut doc = Document::new();
    doc.push_element(0, cv("a"), vec![attr("href", "/jobs/5"), attr("class", "p-4 border rounded")]);
    doc.push_element(0, cv("a"), vec![attr("href", "/about")]);
    let prefix = vec![Selector { conds: vec![Cond::AttrPrefix(cv("href"), cv("/jobs/"))] }];
    assert_eq!(doc.query(&prefix), vec![0]);
    let compound = vec![Selector { conds: vec![Cond::Class(cv("border")), Cond::Class(cv("rounded"))] }];
    assert_eq!(doc.query(&compound), vec![0]);
    let partial = vec![Selector { conds: vec![Cond::Class(cv("round"))] }];
    assert!(doc.query(&partial).is_empty());
    let present = vec![Selector { conds: vec![Cond::AttrPresent(cv("href"))] }];
    assert_eq!(doc.query(&present), vec![0, 1]);
}

#[test]
fn description_picks_first_non_empty_kind() {
    let mut doc = Document::new();
    doc.push_element(0, cv("main"), vec![]);
    doc.push_text(1, cv("main text"));
    doc.push_element(0, cv("div"), vec![attr("class", "job-description")]);
    doc.push_text(1, cv("   "));
    doc.push_element(0, cv("article"), vec![]);
    doc.push_text(1, cv("  The article body "));
    assert_eq!(st(&description_of(&doc)), "The article body");
    assert_eq!(st(&description_of(&Document::new())), "");
}

#[test]
fn selector_expressions() {
    let g = parse_selector(&cv("div.bg-white.rounded-lg, a[href^='/jobs/'] , [data-id]")).unwrap();
    assert_eq!(g.len(), 3);
    assert_eq!(g[0].conds.len(), 3);
    assert!(matches!(&g[0].conds[0], Cond::Tag(t) if st(t) == "div"));
    assert!(matches!(&g[0].conds[2], Cond::Class(t) if st(t) == "rounded-lg"));
    assert!(matches!(&g[1].conds[1], Cond::AttrPrefix(a, v) if st(a) == "href" && st(v) == "/jobs/"));
    assert!(matches!(&g[2].conds[0], Cond::AttrPresent(a) if st(a) == "data-id"));
    let q = parse_selector(&cv("[class*=\"job\"]")).unwrap();
    assert!(matches!(&q[0].conds[0], Cond::AttrContains(a, v) if st(a) == "class" && st(v) == "job"));
    for bad in ["", "   ", "div >", ".", "[x*='open", "a,,b", "div .x", "[x=='y']", "div.a b"] {
        assert!(parse_selector(&cv(bad)).is_none(), "{}", bad);
    }
    let mut doc = Document::new();
    doc.push_element(0, cv("div"), vec![attr("class", "x")]);
    assert!(doc.select(&cv("div >")).is_empty());
    assert_eq!(doc.select(&cv("div.x")), vec![0]);
}

#[test]
fn report_counts() {
    let mut a = record("Rust Engineer", "Acme");
    a.remote = Remote::Yes;
    a.salary = cv("$10");
    a.technologies = words(&["Rust", "AWS"]);
    let mut b = record("Rust Dev", "Beta");
    b.technologies = words(&["Rust"]);
    let c = record("Rust Lead", "Gamma");
    let recs = vec![a, b, c];
    assert_eq!(remote_count(&recs), 1);
    assert_eq!(salary_count(&recs), 1);
    assert_eq!(technology_frequency(&recs, &words(&["Rust", "AWS", "React"])), vec![2, 1, 0]);
    assert_eq!(remote_count(&vec![]), 0);
}

#[test]
fn non_breaking_space_is_trimmed() {
    let mut doc = Document::new();
    doc.push_element(0, cv("div"), vec![]);
    doc.push_element(1, cv("p"), vec![attr("class", "tag")]);
    doc.push_text(2, cv("\u{a0}x\u{2003}"));
    doc.push_element(1, cv("p"), vec![attr("class", "tag")]);
    doc.push_text(2, cv("\u{a0}"));
    assert_eq!(st(&extract_text(&doc, 0, &cv("p"))), "x");
    let got: Vec<String> = extract_tags(&doc, 0, &cv("p")).iter().map(|t| st(t)).collect();
    assert_eq!(got, vec!["x"]);
    let mut page = Document::new();
    page.push_element(0, cv("main"), vec![]);
    page.push_text(1, cv("\u{a0}"));
    assert_eq!(st(&description_of(&page)), "");
    let mut tokens = Document::new();
    tokens.push_element(0, cv("div"), vec![attr("class", "a\u{c}b\u{a0}c")]);
    assert_eq!(tokens.select(&cv(".b")), Vec::<usize>::new());
    assert_eq!(tokens.select(&cv(".a")), vec![0]);
}

#[test]
fn records_leave_description_for_detail_page() {
    let mut doc = Document::new();
    push_card(&mut doc, 0, "job-card", "Senior Rust Engineer at Acme Corp", "/jobs/1");
    let recs = extract_page(&doc, &cv("https://example.com"));
    assert_eq!(recs.len(), 1);
    assert!(recs[0].description.is_empty());
}
