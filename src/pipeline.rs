//! The pipeline over a list of pages: every page is extracted on its own, the
//! records are concatenated in page order, and the deduplicator runs once.
use vstd::prelude::*;
use crate::text::{trim, trimmed};
use crate::document::{Document, Node, class_has, class_has_exec, class_token, class_token_exec, is_element, tag_is, text_of};
use crate::validate::{has_job_indicators_spec, is_navigation_noise_spec};
use crate::record::{JobRecord, RecordView, record_spec};
use crate::strategy::{Strategy, accepted, extract_page, page_records, record_views, strategy_records, text_passes};
use crate::dedup::{dedup_spec, deduplicate, lemma_dedup_correct};

verus! {

/// A fetched page: its parsed document and the base URL that relative links resolve against.
#[derive(Debug)]
pub struct Page {
    pub doc: Document,
    pub base: Vec<char>,
}

/// Why a run produced no records.
#[derive(PartialEq, Eq, Structural, Clone, Copy, Debug)]
pub enum ExtractError {
    /// No strategy found a record on any page: the markup probably does not
    /// hold the postings (they may be rendered on the client).
    NoRecords,
}

/// The records of all pages, in page order.
pub open spec fn all_records(pages: Seq<Page>) -> Seq<RecordView>
    decreases pages.len(),
{
    if pages.len() == 0 {
        Seq::empty()
    } else {
        all_records(pages.drop_last()) + page_records(pages.last().doc.nodes@, pages.last().base@)
    }
}

/// The final record sequence of a run.
pub open spec fn pipeline_spec(pages: Seq<Page>) -> Seq<RecordView> {
    dedup_spec(all_records(pages))
}

/// Extracts every page, concatenates the records in page order and
/// deduplicates them once; an empty result is reported as `NoRecords`.
pub fn run_pipeline(pages: &Vec<Page>) -> (r: Result<Vec<JobRecord>, ExtractError>)
    ensures
        match r {
            Ok(v) => record_views(v@) == pipeline_spec(pages@) && v@.len() > 0,
            Err(e) => e == ExtractError::NoRecords && pipeline_spec(pages@).len() == 0,
        },
{
    let mut all: Vec<JobRecord> = Vec::new();
    let mut i: usize = 0;
    while i < pages.len()
        invariant
            i <= pages@.len(),
            record_views(all@) == all_records(pages@.subrange(0, i as int)),
        decreases pages.len() - i,
    {
        let mut recs = extract_page(&pages[i].doc, &pages[i].base);
        all.append(&mut recs);
        let ghost sub = pages@.subrange(0, i as int + 1);
        assert(sub.drop_last() =~= pages@.subrange(0, i as int));
        i += 1;
        assert(record_views(all@) =~= all_records(pages@.subrange(0, i as int)));
    }
    assert(pages@.subrange(0, i as int) =~= pages@);
    let out = deduplicate(&all);
    if out.len() == 0 {
        Err(ExtractError::NoRecords)
    } else {
        Ok(out)
    }
}

/// The positions that a strategy accepts among nodes `0 .. hi`, in document order.
pub open spec fn strategy_positions(nodes: Seq<Node>, s: Strategy, base: Seq<char>, hi: int) -> Seq<int>
    decreases hi,
{
    if hi <= 0 {
        Seq::empty()
    } else {
        let p = strategy_positions(nodes, s, base, hi - 1);
        if accepted(nodes, s, hi - 1, base) {
            p.push(hi - 1)
        } else {
            p
        }
    }
}

/// A strategy's records follow document order: they are the records of the
/// accepted positions, and those positions strictly increase.
pub proof fn lemma_strategy_document_order(nodes: Seq<Node>, s: Strategy, base: Seq<char>, hi: int)
    requires
        0 <= hi <= nodes.len(),
    ensures
        ({
            let p = strategy_positions(nodes, s, base, hi);
            let r = strategy_records(nodes, s, base, hi);
            &&& r.len() == p.len()
            &&& forall|m: int| 0 <= m < p.len() ==> 0 <= #[trigger] p[m] < hi && accepted(nodes, s, p[m], base)
                && r[m] == record_spec(nodes, p[m], base)
            &&& forall|a: int, b: int| 0 <= a < b < p.len() ==> #[trigger] p[a] < #[trigger] p[b]
        }),
    decreases hi,
{
    if hi > 0 {
        lemma_strategy_document_order(nodes, s, base, hi - 1);
        let p0 = strategy_positions(nodes, s, base, hi - 1);
        let p = strategy_positions(nodes, s, base, hi);
        let r0 = strategy_records(nodes, s, base, hi - 1);
        let r = strategy_records(nodes, s, base, hi);
        assert forall|m: int| 0 <= m < p.len() implies 0 <= #[trigger] p[m] < hi && accepted(nodes, s, p[m], base)
            && r[m] == record_spec(nodes, p[m], base) by {
            if m < p0.len() {
                assert(p[m] == p0[m] && r[m] == r0[m]);
            }
        }
        assert forall|a: int, b: int| 0 <= a < b < p.len() implies #[trigger] p[a] < #[trigger] p[b] by {
            assert(p[a] == p0[a]);
            if b < p0.len() {
                assert(p[b] == p0[b]);
            }
        }
    }
}

/// No record of the container, styled-card or list-item strategies comes from
/// a container whose text holds navigation vocabulary, and each such container
/// holds a job indicator.
pub proof fn lemma_navigation_suppressed(nodes: Seq<Node>, s: Strategy, base: Seq<char>)
    requires
        !(s is FullText),
    ensures
        forall|m: int| 0 <= m < strategy_records(nodes, s, base, nodes.len() as int).len() ==> exists|j: int|
            0 <= j < nodes.len() && #[trigger] strategy_records(nodes, s, base, nodes.len() as int)[m] == #[trigger] record_spec(nodes, j, base)
                && !is_navigation_noise_spec(text_of(nodes, j)) && has_job_indicators_spec(text_of(nodes, j)),
{
    let n = nodes.len() as int;
    lemma_strategy_document_order(nodes, s, base, n);
    let p = strategy_positions(nodes, s, base, n);
    assert forall|m: int| 0 <= m < strategy_records(nodes, s, base, n).len() implies exists|j: int|
        0 <= j < nodes.len() && #[trigger] strategy_records(nodes, s, base, n)[m] == #[trigger] record_spec(nodes, j, base)
            && !is_navigation_noise_spec(text_of(nodes, j)) && has_job_indicators_spec(text_of(nodes, j)) by {
        let j = p[m];
        assert(accepted(nodes, s, j, base));
        assert(text_passes(s, text_of(nodes, j)));
    }
}

/// A run is a function of its pages, and its output is already free of
/// duplicates: running it again on the same pages gives the same sequence, and
/// deduplicating that sequence once more changes nothing.
pub proof fn lemma_pipeline_idempotent(a: Seq<Page>, b: Seq<Page>)
    requires
        a == b,
    ensures
        pipeline_spec(a) == pipeline_spec(b),
        dedup_spec(pipeline_spec(a)) == pipeline_spec(a),
{
    lemma_dedup_correct(all_records(a));
}

/// Pages contribute in input order: the records of a run, before
/// deduplication, are the first page's records followed by those of the rest.
pub proof fn lemma_all_records_page_order(pages: Seq<Page>)
    requires
        pages.len() > 0,
    ensures
        all_records(pages) == page_records(pages[0].doc.nodes@, pages[0].base@) + all_records(pages.drop_first()),
    decreases pages.len(),
{
    if pages.len() == 1 {
        assert(pages.drop_last() =~= Seq::<Page>::empty());
        assert(pages.drop_first() =~= Seq::<Page>::empty());
        assert(all_records(pages.drop_first()) =~= Seq::<RecordView>::empty());
        assert(all_records(pages) =~= page_records(pages[0].doc.nodes@, pages[0].base@));
    } else {
        lemma_all_records_page_order(pages.drop_last());
        assert(pages.drop_last()[0] == pages[0]);
        assert(pages.drop_last().drop_first() =~= pages.drop_first().drop_last());
        assert(pages.drop_first().last() == pages.last());
        assert(all_records(pages) =~= page_records(pages[0].doc.nodes@, pages[0].base@) + all_records(pages.drop_first()));
    }
}

// ---------------------------------------------------------------- descriptions

/// The element kinds that may hold a posting's full description, in the order tried.
pub open spec fn description_hint(i: int, n: Node) -> bool {
    is_element(n) && if i == 0 {
        n.tag@ == "div"@ && class_has(n, "description"@)
    } else if i == 1 {
        n.tag@ == "div"@ && class_has(n, "content"@)
    } else if i == 2 {
        n.tag@ == "article"@
    } else if i == 3 {
        n.tag@ == "div"@ && class_token(n, "prose"@)
    } else if i == 4 {
        n.tag@ == "div"@ && class_token(n, "job-description"@)
    } else if i == 5 {
        n.tag@ == "main"@
    } else {
        false
    }
}

pub open spec fn description_kinds() -> int {
    6
}

/// The first node at or after `j` of description kind `i`.
pub open spec fn first_of_kind(nodes: Seq<Node>, i: int, j: int) -> Option<int>
    decreases nodes.len() - j,
{
    if j < 0 || j >= nodes.len() {
        None
    } else if description_hint(i, nodes[j]) {
        Some(j)
    } else {
        first_of_kind(nodes, i, j + 1)
    }
}

/// Tries each description kind from `i` on: the trimmed text of the first
/// element of that kind, when it is not empty.
pub open spec fn description_from(nodes: Seq<Node>, i: int) -> Seq<char>
    decreases description_kinds() - i,
{
    if i < 0 || i >= description_kinds() {
        Seq::empty()
    } else {
        match first_of_kind(nodes, i, 0) {
            Some(j) => if trim(text_of(nodes, j)).len() > 0 {
                trim(text_of(nodes, j))
            } else {
                description_from(nodes, i + 1)
            },
            None => description_from(nodes, i + 1),
        }
    }
}

fn description_hint_exec(i: usize, n: &Node) -> (r: bool)
    ensures
        r == description_hint(i as int, *n),
{
    if n.tag.len() == 0 {
        return false;
    }
    if i == 0 {
        tag_is(n, "div") && class_has_exec(n, "description")
    } else if i == 1 {
        tag_is(n, "div") && class_has_exec(n, "content")
    } else if i == 2 {
        tag_is(n, "article")
    } else if i == 3 {
        tag_is(n, "div") && class_token_exec(n, "prose")
    } else if i == 4 {
        tag_is(n, "div") && class_token_exec(n, "job-description")
    } else if i == 5 {
        tag_is(n, "main")
    } else {
        false
    }
}

/// The description of a posting's own page: for each description kind in turn,
/// the trimmed text of the first element of that kind, the first that is not
/// empty; empty when none is found.
pub fn description_of(doc: &Document) -> (r: Vec<char>)
    ensures
        r@ == description_from(doc.nodes@, 0),
{
    let mut i: usize = 0;
    while i < 6
        invariant
            i <= 6,
            description_from(doc.nodes@, i as int) == description_from(doc.nodes@, 0),
        decreases 6 - i,
    {
        let mut j: usize = 0;
        while j < doc.nodes.len() && !description_hint_exec(i, &doc.nodes[j])
            invariant
                i < 6,
                j <= doc.nodes@.len(),
                first_of_kind(doc.nodes@, i as int, j as int) == first_of_kind(doc.nodes@, i as int, 0),
            decreases doc.nodes.len() - j,
        {
            j += 1;
        }
        if j < doc.nodes.len() {
            let t = trimmed(&doc.text(j));
            if t.len() > 0 {
                return t;
            }
        }
        i += 1;
    }
    Vec::new()
}

} // verus!
