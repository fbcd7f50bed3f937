use vstd::prelude::*;
use crate::file_discovery::{FileInfo, FileInfoV, infos_view, spec_language_keys,
    spec_total_size};
use crate::llm::{AnalysisResponse, AnalysisResponseV, Priority, RecommendationV, InsightV,
    responses_view};
use crate::simple_parser::{ParsedFile, ParsedFileV};
use crate::dependency_graph::{parsed_files_view, sat_add, spec_file_name};
use crate::strutil::{is_histogram, pairs_view, rfind_ch, strings_view};

verus! {

// The report assembler: the structural tables of the report are computed
// here, exactly; rendering them to documents, and every score that needs
// floating point, is the caller's business.

pub struct Reporter {}

impl Reporter {
    pub fn new() -> (r: Reporter) {
        Reporter {  }
    }
}

/// The report header: run identity and totals.
#[derive(Debug)]
pub struct ReportMetadata {
    pub generated_at: String,
    pub project_name: String,
    pub total_files: usize,
    pub total_size: u64,
    pub analysis_duration_ms: u128,
    pub version: String,
    pub llm_provider: String,
    pub llm_model: String,
}

/// The project name of a report: the bare name of the first file's parent
/// directory, or "unknown".
pub open spec fn spec_project_name(files: Seq<FileInfoV>) -> Seq<char> {
    if files.len() == 0 {
        "unknown"@
    } else {
        let path = files[0].path;
        let cut = rfind_ch(path, '/');
        let parent = if cut >= 0 {
            path.subrange(0, cut)
        } else {
            Seq::<char>::empty()
        };
        spec_file_name(parent)
    }
}

/// Builds the report header; the caller supplies the timestamp and the
/// tool identity.
pub fn create_metadata(
    files: &Vec<FileInfo>,
    generated_at: String,
    duration_ms: u128,
    version: &str,
    llm_provider: &str,
    llm_model: &str,
) -> (r: ReportMetadata)
    ensures
        r.generated_at@ == generated_at@,
        r.project_name@ == spec_project_name(infos_view(files@)),
        r.total_files == files@.len(),
        r.total_size == spec_total_size(infos_view(files@), 0, 0),
        r.analysis_duration_ms == duration_ms,
        r.version@ == version@,
        r.llm_provider@ == llm_provider@,
        r.llm_model@ == llm_model@,
{
    let ghost fv = infos_view(files@);
    let project_name: String = if files.len() == 0 {
        String::from_str("unknown")
    } else {
        proof {
            assert(fv[0] == files@[0]@);
        }
        let v = crate::strutil::chars_of(files[0].path.as_str());
        let cut: usize = match crate::strutil::rfind_char(&v, '/') {
            Option::Some(i) => i,
            Option::None => 0,
        };
        let parent = crate::strutil::string_range(&v, 0, cut);
        proof {
            if rfind_ch(fv[0].path, '/') >= 0 {
                assert(parent@ =~= fv[0].path.subrange(0, rfind_ch(fv[0].path, '/')));
            } else {
                assert(parent@ =~= Seq::<char>::empty());
            }
        }
        crate::dependency_graph::file_name_of(&parent)
    };
    let stats = crate::file_discovery::compute_file_stats(files);
    ReportMetadata {
        generated_at,
        project_name,
        total_files: files.len(),
        total_size: stats.total_size,
        analysis_duration_ms: duration_ms,
        version: String::from_str(version),
        llm_provider: String::from_str(llm_provider),
        llm_model: String::from_str(llm_model),
    }
}

/// Per-file size and declaration tallies for the report.
#[derive(Debug)]
pub struct FileStats {
    pub path: String,
    pub size: u64,
    pub language: String,
    pub functions: usize,
    pub classes: usize,
    pub complexity: usize,
}

/// The report's per-file complexity proxy: function count plus twice the
/// class count, saturating.
pub open spec fn spec_report_complexity(pf: ParsedFileV) -> int {
    sat_add(sat_add(pf.functions.len() as int, pf.classes.len() as int), pf.classes.len() as int)
}

/// One stats row per fact record, in order.
pub fn file_stats_of(parsed_files: &Vec<ParsedFile>) -> (r: Vec<FileStats>)
    ensures
        r@.len() == parsed_files@.len(),
        forall|i: int|
            0 <= i < r@.len() ==> {
                let pf = parsed_files_view(parsed_files@)[i];
                &&& (#[trigger] r@[i]).path@ == pf.file_info.path
                &&& r@[i].size == pf.file_info.size
                &&& r@[i].language@ == (match pf.file_info.language {
                    Option::Some(l) => l,
                    Option::None => "unknown"@,
                })
                &&& r@[i].functions == pf.functions.len()
                &&& r@[i].classes == pf.classes.len()
                &&& r@[i].complexity as int == spec_report_complexity(pf)
            },
{
    let n = parsed_files.len();
    let mut r: Vec<FileStats> = Vec::new();
    let mut i: usize = 0;
    while i < n
        invariant
            i <= n,
            n == parsed_files@.len(),
            r@.len() == i,
            forall|t: int|
                0 <= t < i ==> {
                    let pf = parsed_files_view(parsed_files@)[t];
                    &&& (#[trigger] r@[t]).path@ == pf.file_info.path
                    &&& r@[t].size == pf.file_info.size
                    &&& r@[t].language@ == (match pf.file_info.language {
                        Option::Some(l) => l,
                        Option::None => "unknown"@,
                    })
                    &&& r@[t].functions == pf.functions.len()
                    &&& r@[t].classes == pf.classes.len()
                    &&& r@[t].complexity as int == spec_report_complexity(pf)
                },
        decreases n - i,
    {
        let pf = &parsed_files[i];
        proof {
            assert(parsed_files_view(parsed_files@)[i as int] == parsed_files@[i as int]@);
        }
        let language = match &pf.file_info.language {
            Option::Some(l) => l.clone(),
            Option::None => String::from_str("unknown"),
        };
        let complexity = pf.functions.len().saturating_add(pf.classes.len()).saturating_add(
            pf.classes.len(),
        );
        let row = FileStats {
            path: pf.file_info.path.clone(),
            size: pf.file_info.size,
            language,
            functions: pf.functions.len(),
            classes: pf.classes.len(),
            complexity,
        };
        r.push(row);
        i = i + 1;
    }
    r
}

/// Sorts stats rows by size, largest first; the result is a permutation of
/// the input.
pub fn sort_file_stats(v: Vec<FileStats>) -> (r: Vec<FileStats>)
    ensures
        r@.len() == v@.len(),
        r@.to_multiset() == v@.to_multiset(),
        forall|a: int, b: int|
            0 <= a < b < r@.len() ==> (#[trigger] r@[a]).size >= (#[trigger] r@[b]).size,
{
    broadcast use vstd::seq_lib::group_to_multiset_ensures, vstd::seq_lib::to_multiset_insert,
        vstd::multiset::group_multiset_axioms;

    let mut rest = v;
    let mut out: Vec<FileStats> = Vec::new();
    proof {
        assert(out@.to_multiset().add(rest@.to_multiset()) =~= v@.to_multiset());
    }
    loop
        invariant
            out@.to_multiset().add(rest@.to_multiset()) == v@.to_multiset(),
            out@.len() + rest@.len() == v@.len(),
            forall|a: int, b: int|
                0 <= a < b < out@.len() ==> (#[trigger] out@[a]).size >= (#[trigger] out@[b]).size,
        ensures
            out@.to_multiset() == v@.to_multiset(),
            out@.len() == v@.len(),
            forall|a: int, b: int|
                0 <= a < b < out@.len() ==> (#[trigger] out@[a]).size >= (#[trigger] out@[b]).size,
        decreases rest@.len(),
    {
        let ghost restold = rest@;
        let popped = rest.pop();
        match popped {
            Option::Some(x) => {
                let m = out.len();
                let mut j: usize = 0;
                while j < m && out[j].size >= x.size
                    invariant
                        j <= m,
                        m == out@.len(),
                        forall|t: int| 0 <= t < j ==> (#[trigger] out@[t]).size >= x.size,
                    decreases m - j,
                {
                    j = j + 1;
                }
                proof {
                    if j < m {
                        assert(out@[j as int].size < x.size);
                    }
                }
                let ghost outpre = out@;
                out.insert(j, x);
                proof {
                    assert(out@ == outpre.insert(j as int, x));
                    vstd::seq_lib::to_multiset_insert(outpre, j as int, x);
                    assert(out@.to_multiset() =~= outpre.to_multiset().insert(x));
                    assert(restold =~= rest@.push(x));
                    vstd::seq_lib::to_multiset_build(rest@, x);
                    assert(restold.to_multiset() == rest@.to_multiset().insert(x));
                    assert(out@.to_multiset().add(rest@.to_multiset()) =~= v@.to_multiset());
                    assert forall|a: int, b: int|
                        0 <= a < b < out@.len() implies (#[trigger] out@[a]).size >= (
                    #[trigger] out@[b]).size by {
                        if b < j {
                        } else if a < j && b == j {
                        } else if a < j && b > j {
                        } else if a == j {
                            assert(out@[b] == outpre[b - 1]);
                            if j < outpre.len() {
                                assert(outpre[j as int].size < x.size);
                            }
                        } else {
                        }
                    }
                }
            },
            Option::None => {
                proof {
                    assert(rest@.len() == 0);
                    assert forall|e: FileStats|
                        out@.to_multiset().add(rest@.to_multiset()).count(e) == out@.to_multiset().count(
                            e,
                        ) by {
                        if rest@.to_multiset().count(e) > 0 {
                            vstd::seq_lib::to_multiset_contains(rest@, e);
                            assert(rest@.contains(e));
                        }
                    }
                    assert(out@.to_multiset().add(rest@.to_multiset()) =~= out@.to_multiset());
                }
                break;
            },
        }
    }
    out
}

/// The largest files of the report: the stats rows sorted by size, largest
/// first, cut to ten entries; the result is the head of a size-sorted
/// permutation of the input.
pub fn largest_files(stats: Vec<FileStats>) -> (r: Vec<FileStats>)
    ensures
        r@.len() == (if stats@.len() <= 10 {
            stats@.len() as int
        } else {
            10int
        }),
        forall|a: int, b: int|
            0 <= a < b < r@.len() ==> (#[trigger] r@[a]).size >= (#[trigger] r@[b]).size,
        exists|s: Seq<FileStats>|
            s.to_multiset() == stats@.to_multiset() && r@ == s.take(r@.len() as int) && (forall|
                a: int,
                b: int,
            |
                0 <= a < b < s.len() ==> (#[trigger] s[a]).size >= (#[trigger] s[b]).size),
{
    let ghost input = stats@;
    let mut sorted = sort_file_stats(stats);
    let ghost full = sorted@;
    let keep: usize = if sorted.len() <= 10 {
        sorted.len()
    } else {
        10
    };
    sorted.truncate(keep);
    proof {
        assert(sorted@ == full.take(keep as int));
        assert(full.to_multiset() == input.to_multiset() && sorted@ == full.take(
            sorted@.len() as int,
        ) && (forall|a: int, b: int|
            0 <= a < b < full.len() ==> (#[trigger] full[a]).size >= (#[trigger] full[b]).size));
    }
    sorted
}

/// One complexity bucket of the distribution: a labelled range and how
/// many files fall in it.
#[derive(Debug)]
pub struct ComplexityBucket {
    pub range: String,
    pub count: usize,
}

/// How many records from index `i` on have a report complexity in
/// `lo..=hi`.
pub open spec fn bucket_count(files: Seq<ParsedFileV>, i: int, lo: int, hi: int) -> int
    decreases files.len() - i,
{
    if i < 0 || i >= files.len() {
        0
    } else {
        (if lo <= spec_report_complexity(files[i]) <= hi {
            1int
        } else {
            0int
        }) + bucket_count(files, i + 1, lo, hi)
    }
}

proof fn lemma_bucket_count_le(files: Seq<ParsedFileV>, i: int, lo: int, hi: int)
    requires
        0 <= i <= files.len(),
    ensures
        0 <= bucket_count(files, i, lo, hi) <= files.len() - i,
    decreases files.len() - i,
{
    if i < files.len() {
        lemma_bucket_count_le(files, i + 1, lo, hi);
    }
}

fn count_bucket(parsed_files: &Vec<ParsedFile>, lo: usize, hi: usize) -> (r: usize)
    ensures
        r as int == bucket_count(parsed_files_view(parsed_files@), 0, lo as int, hi as int),
{
    let ghost fv = parsed_files_view(parsed_files@);
    let n = parsed_files.len();
    let mut count: usize = 0;
    let mut i: usize = 0;
    while i < n
        invariant
            i <= n,
            n == parsed_files@.len(),
            fv == parsed_files_view(parsed_files@),
            count as int + bucket_count(fv, i as int, lo as int, hi as int) == bucket_count(
                fv,
                0,
                lo as int,
                hi as int,
            ),
            count <= i,
        decreases n - i,
    {
        let pf = &parsed_files[i];
        proof {
            assert(fv[i as int] == parsed_files@[i as int]@);
        }
        let c = pf.functions.len().saturating_add(pf.classes.len()).saturating_add(
            pf.classes.len(),
        );
        if lo <= c && c <= hi {
            count = count + 1;
        }
        i = i + 1;
    }
    count
}

/// The four fixed complexity buckets of the report: 0-5, 6-15, 16-30 and
/// everything above.
pub fn calculate_complexity_distribution(parsed_files: &Vec<ParsedFile>) -> (r: Vec<
    ComplexityBucket,
>)
    ensures
        r@.len() == 4,
        r@[0].range@ == "0-5"@ && r@[0].count as int == bucket_count(
            parsed_files_view(parsed_files@),
            0,
            0,
            5,
        ),
        r@[1].range@ == "6-15"@ && r@[1].count as int == bucket_count(
            parsed_files_view(parsed_files@),
            0,
            6,
            15,
        ),
        r@[2].range@ == "16-30"@ && r@[2].count as int == bucket_count(
            parsed_files_view(parsed_files@),
            0,
            16,
            30,
        ),
        r@[3].range@ == "31+"@ && r@[3].count as int == bucket_count(
            parsed_files_view(parsed_files@),
            0,
            31,
            usize::MAX as int,
        ),
{
    let mut r: Vec<ComplexityBucket> = Vec::new();
    let c0 = count_bucket(parsed_files, 0, 5);
    let c1 = count_bucket(parsed_files, 6, 15);
    let c2 = count_bucket(parsed_files, 16, 30);
    let c3 = count_bucket(parsed_files, 31, usize::MAX);
    r.push(ComplexityBucket { range: String::from_str("0-5"), count: c0 });
    r.push(ComplexityBucket { range: String::from_str("6-15"), count: c1 });
    r.push(ComplexityBucket { range: String::from_str("16-30"), count: c2 });
    r.push(ComplexityBucket { range: String::from_str("31+"), count: c3 });
    r
}

/// The saturating total of per-file project complexity: functions plus
/// twice the classes plus the imports of each record.
pub open spec fn spec_total_complexity(files: Seq<ParsedFileV>, i: int, acc: int) -> int
    decreases files.len() - i,
{
    if i < 0 || i >= files.len() {
        acc
    } else {
        spec_total_complexity(
            files,
            i + 1,
            sat_add(acc, sat_add(spec_report_complexity(files[i]), files[i].imports.len() as int)),
        )
    }
}

/// The numerator of the project complexity score: the saturating total of
/// each record's functions + 2*classes + imports.  The score itself is
/// this total over the record count, capped at ten.
pub fn total_project_complexity(parsed_files: &Vec<ParsedFile>) -> (r: usize)
    ensures
        r as int == spec_total_complexity(parsed_files_view(parsed_files@), 0, 0),
{
    let ghost fv = parsed_files_view(parsed_files@);
    let n = parsed_files.len();
    let mut total: usize = 0;
    let mut i: usize = 0;
    while i < n
        invariant
            i <= n,
            n == parsed_files@.len(),
            fv == parsed_files_view(parsed_files@),
            spec_total_complexity(fv, i as int, total as int) == spec_total_complexity(fv, 0, 0),
        decreases n - i,
    {
        let pf = &parsed_files[i];
        proof {
            assert(fv[i as int] == parsed_files@[i as int]@);
        }
        let c = pf.functions.len().saturating_add(pf.classes.len()).saturating_add(
            pf.classes.len(),
        ).saturating_add(pf.imports.len());
        total = total.saturating_add(c);
        i = i + 1;
    }
    total
}

/// One prioritized recommendation row of the report.
#[derive(Debug)]
pub struct PrioritizedRecommendation {
    pub title: String,
    pub description: String,
    pub priority: Priority,
    pub category: String,
    pub estimated_effort: String,
    pub potential_impact: String,
    pub action_items: Vec<String>,
    pub affected_files: Vec<String>,
}

/// The sort rank of a priority: critical first, low last.
pub open spec fn priority_rank(p: Priority) -> int {
    match p {
        Priority::Critical => 0,
        Priority::High => 1,
        Priority::Medium => 2,
        Priority::Low => 3,
    }
}

fn rank_of(p: Priority) -> (r: usize)
    ensures
        r as int == priority_rank(p),
{
    match p {
        Priority::Critical => 0,
        Priority::High => 1,
        Priority::Medium => 2,
        Priority::Low => 3,
    }
}

/// Sorts recommendation rows by priority rank, most urgent first; the
/// result is a permutation of the input.
pub fn sort_recommendations(v: Vec<PrioritizedRecommendation>) -> (r: Vec<
    PrioritizedRecommendation,
>)
    ensures
        r@.len() == v@.len(),
        r@.to_multiset() == v@.to_multiset(),
        forall|a: int, b: int|
            0 <= a < b < r@.len() ==> priority_rank((#[trigger] r@[a]).priority) <= priority_rank(
                (#[trigger] r@[b]).priority,
            ),
{
    broadcast use vstd::seq_lib::group_to_multiset_ensures, vstd::seq_lib::to_multiset_insert,
        vstd::multiset::group_multiset_axioms;

    let mut rest = v;
    let mut out: Vec<PrioritizedRecommendation> = Vec::new();
    proof {
        assert(out@.to_multiset().add(rest@.to_multiset()) =~= v@.to_multiset());
    }
    loop
        invariant
            out@.to_multiset().add(rest@.to_multiset()) == v@.to_multiset(),
            out@.len() + rest@.len() == v@.len(),
            forall|a: int, b: int|
                0 <= a < b < out@.len() ==> priority_rank((#[trigger] out@[a]).priority)
                    <= priority_rank((#[trigger] out@[b]).priority),
        ensures
            out@.to_multiset() == v@.to_multiset(),
            out@.len() == v@.len(),
            forall|a: int, b: int|
                0 <= a < b < out@.len() ==> priority_rank((#[trigger] out@[a]).priority)
                    <= priority_rank((#[trigger] out@[b]).priority),
        decreases rest@.len(),
    {
        let ghost restold = rest@;
        let popped = rest.pop();
        match popped {
            Option::Some(x) => {
                let xr = rank_of(x.priority);
                let m = out.len();
                let mut j: usize = 0;
                loop
                    invariant
                        j <= m,
                        m == out@.len(),
                        xr as int == priority_rank(x.priority),
                        forall|t: int|
                            0 <= t < j ==> priority_rank((#[trigger] out@[t]).priority)
                                <= priority_rank(x.priority),
                    ensures
                        j <= m,
                        j == m || priority_rank(out@[j as int].priority) > priority_rank(
                            x.priority,
                        ),
                        forall|t: int|
                            0 <= t < j ==> priority_rank((#[trigger] out@[t]).priority)
                                <= priority_rank(x.priority),
                    decreases m - j,
                {
                    if j >= m {
                        break;
                    }
                    let or = rank_of(out[j].priority);
                    if or > xr {
                        break;
                    }
                    j = j + 1;
                }
                proof {
                    if j < m {
                        assert(priority_rank(out@[j as int].priority) > priority_rank(x.priority));
                    }
                }
                let ghost outpre = out@;
                out.insert(j, x);
                proof {
                    assert(out@ == outpre.insert(j as int, x));
                    vstd::seq_lib::to_multiset_insert(outpre, j as int, x);
                    assert(out@.to_multiset() =~= outpre.to_multiset().insert(x));
                    assert(restold =~= rest@.push(x));
                    vstd::seq_lib::to_multiset_build(rest@, x);
                    assert(restold.to_multiset() == rest@.to_multiset().insert(x));
                    assert(out@.to_multiset().add(rest@.to_multiset()) =~= v@.to_multiset());
                    assert forall|a: int, b: int|
                        0 <= a < b < out@.len() implies priority_rank(
                        (#[trigger] out@[a]).priority,
                    ) <= priority_rank((#[trigger] out@[b]).priority) by {
                        if a == j && b > j {
                            assert(out@[b] == outpre[b - 1]);
                            if j < outpre.len() {
                                assert(priority_rank(outpre[j as int].priority) > priority_rank(
                                    x.priority,
                                ));
                            }
                        }
                    }
                }
            },
            Option::None => {
                proof {
                    assert(rest@.len() == 0);
                    assert forall|e: PrioritizedRecommendation|
                        out@.to_multiset().add(rest@.to_multiset()).count(e) == out@.to_multiset().count(
                            e,
                        ) by {
                        if rest@.to_multiset().count(e) > 0 {
                            vstd::seq_lib::to_multiset_contains(rest@, e);
                            assert(rest@.contains(e));
                        }
                    }
                    assert(out@.to_multiset().add(rest@.to_multiset()) =~= out@.to_multiset());
                }
                break;
            },
        }
    }
    out
}

/// The titles of all insights, across the responses in order.
pub open spec fn titles_of(ins: Seq<InsightV>, k: int) -> Seq<Seq<char>>
    decreases ins.len() - k,
{
    if k < 0 || k >= ins.len() {
        Seq::empty()
    } else {
        seq![ins[k].title] + titles_of(ins, k + 1)
    }
}

pub open spec fn spec_key_findings(llm: Seq<AnalysisResponseV>, i: int) -> Seq<Seq<char>>
    decreases llm.len() - i,
{
    if i < 0 || i >= llm.len() {
        Seq::empty()
    } else {
        titles_of(llm[i].insights, 0) + spec_key_findings(llm, i + 1)
    }
}

/// The titles of all high- or critical-priority recommendations, across
/// the responses in order.
pub open spec fn crit_titles_of(recs: Seq<RecommendationV>, k: int) -> Seq<Seq<char>>
    decreases recs.len() - k,
{
    if k < 0 || k >= recs.len() {
        Seq::empty()
    } else {
        (if recs[k].priority == Priority::High || recs[k].priority == Priority::Critical {
            seq![recs[k].title]
        } else {
            Seq::empty()
        }) + crit_titles_of(recs, k + 1)
    }
}

pub open spec fn spec_critical_issues(llm: Seq<AnalysisResponseV>, i: int) -> Seq<Seq<char>>
    decreases llm.len() - i,
{
    if i < 0 || i >= llm.len() {
        Seq::empty()
    } else {
        crit_titles_of(llm[i].recommendations, 0) + spec_critical_issues(llm, i + 1)
    }
}

/// Every insight title across the responses, in order: the key findings of
/// the executive summary.
pub fn collect_key_findings(llm_analysis: &Vec<AnalysisResponse>) -> (r: Vec<String>)
    ensures
        strings_view(r@) == spec_key_findings(responses_view(llm_analysis@), 0),
{
    let ghost lv = responses_view(llm_analysis@);
    let n = llm_analysis.len();
    let mut r: Vec<String> = Vec::new();
    let mut i: usize = 0;
    proof {
        assert(strings_view(r@) + spec_key_findings(lv, 0) =~= spec_key_findings(lv, 0));
    }
    while i < n
        invariant
            i <= n,
            n == llm_analysis@.len(),
            lv == responses_view(llm_analysis@),
            spec_key_findings(lv, 0) == strings_view(r@) + spec_key_findings(lv, i as int),
        decreases n - i,
    {
        let resp = &llm_analysis[i];
        proof {
            assert(lv[i as int] == llm_analysis@[i as int]@);
        }
        let ghost rv = lv[i as int];
        let nk = resp.insights.len();
        let mut k: usize = 0;
        proof {
            assert(spec_key_findings(lv, i as int) == titles_of(rv.insights, 0) + spec_key_findings(
                lv,
                i + 1,
            ));
        }
        while k < nk
            invariant
                k <= nk,
                nk == resp.insights@.len(),
                i < llm_analysis@.len(),
                lv == responses_view(llm_analysis@),
                rv == lv[i as int],
                rv == resp@,
                rv.insights.len() == nk,
                spec_key_findings(lv, 0) == strings_view(r@) + titles_of(rv.insights, k as int)
                    + spec_key_findings(lv, i + 1),
            decreases nk - k,
        {
            proof {
                assert(rv.insights[k as int] == resp.insights@[k as int]@);
            }
            let t = resp.insights[k].title.clone();
            proof {
                assert(titles_of(rv.insights, k as int) == seq![t@] + titles_of(
                    rv.insights,
                    k + 1,
                ));
                assert(strings_view(r@.push(t)) =~= strings_view(r@).push(t@));
                assert(strings_view(r@).push(t@) + titles_of(rv.insights, k + 1)
                    + spec_key_findings(lv, i + 1) =~= strings_view(r@) + titles_of(
                    rv.insights,
                    k as int,
                ) + spec_key_findings(lv, i + 1));
            }
            r.push(t);
            k = k + 1;
        }
        proof {
            assert(titles_of(rv.insights, nk as int) =~= Seq::<Seq<char>>::empty());
            assert(strings_view(r@) + Seq::<Seq<char>>::empty() + spec_key_findings(lv, i + 1)
                =~= strings_view(r@) + spec_key_findings(lv, i + 1));
        }
        i = i + 1;
    }
    proof {
        assert(spec_key_findings(lv, n as int) =~= Seq::<Seq<char>>::empty());
        assert(strings_view(r@) + Seq::<Seq<char>>::empty() =~= strings_view(r@));
    }
    r
}

/// The titles of the high- and critical-priority recommendations, in
/// order: the critical issues of the executive summary.
pub fn collect_critical_issues(llm_analysis: &Vec<AnalysisResponse>) -> (r: Vec<String>)
    ensures
        strings_view(r@) == spec_critical_issues(responses_view(llm_analysis@), 0),
{
    let ghost lv = responses_view(llm_analysis@);
    let n = llm_analysis.len();
    let mut r: Vec<String> = Vec::new();
    let mut i: usize = 0;
    proof {
        assert(strings_view(r@) + spec_critical_issues(lv, 0) =~= spec_critical_issues(lv, 0));
    }
    while i < n
        invariant
            i <= n,
            n == llm_analysis@.len(),
            lv == responses_view(llm_analysis@),
            spec_critical_issues(lv, 0) == strings_view(r@) + spec_critical_issues(lv, i as int),
        decreases n - i,
    {
        let resp = &llm_analysis[i];
        proof {
            assert(lv[i as int] == llm_analysis@[i as int]@);
        }
        let ghost rv = lv[i as int];
        let nk = resp.recommendations.len();
        let mut k: usize = 0;
        proof {
            assert(spec_critical_issues(lv, i as int) == crit_titles_of(rv.recommendations, 0)
                + spec_critical_issues(lv, i + 1));
        }
        while k < nk
            invariant
                k <= nk,
                nk == resp.recommendations@.len(),
                i < llm_analysis@.len(),
                lv == responses_view(llm_analysis@),
                rv == lv[i as int],
                rv == resp@,
                rv.recommendations.len() == nk,
                spec_critical_issues(lv, 0) == strings_view(r@) + crit_titles_of(
                    rv.recommendations,
                    k as int,
                ) + spec_critical_issues(lv, i + 1),
            decreases nk - k,
        {
            proof {
                assert(rv.recommendations[k as int] == resp.recommendations@[k as int]@);
            }
            let rec = &resp.recommendations[k];
            let is_crit = match rec.priority {
                Priority::High => true,
                Priority::Critical => true,
                _ => false,
            };
            if is_crit {
                let t = rec.title.clone();
                proof {
                    assert(crit_titles_of(rv.recommendations, k as int) == seq![t@]
                        + crit_titles_of(rv.recommendations, k + 1));
                    assert(strings_view(r@.push(t)) =~= strings_view(r@).push(t@));
                    assert(strings_view(r@).push(t@) + crit_titles_of(rv.recommendations, k + 1)
                        + spec_critical_issues(lv, i + 1) =~= strings_view(r@) + crit_titles_of(
                        rv.recommendations,
                        k as int,
                    ) + spec_critical_issues(lv, i + 1));
                }
                r.push(t);
            } else {
                proof {
                    assert(crit_titles_of(rv.recommendations, k as int) == crit_titles_of(
                        rv.recommendations,
                        k + 1,
                    ));
                }
            }
            k = k + 1;
        }
        proof {
            assert(crit_titles_of(rv.recommendations, nk as int) =~= Seq::<Seq<char>>::empty());
            assert(strings_view(r@) + Seq::<Seq<char>>::empty() + spec_critical_issues(lv, i + 1)
                =~= strings_view(r@) + spec_critical_issues(lv, i + 1));
        }
        i = i + 1;
    }
    proof {
        assert(spec_critical_issues(lv, n as int) =~= Seq::<Seq<char>>::empty());
        assert(strings_view(r@) + Seq::<Seq<char>>::empty() =~= strings_view(r@));
    }
    r
}

/// The overview line of the executive summary: the first response's
/// analysis text, or a fixed note when there is none.
pub fn overview_of(llm_analysis: &Vec<AnalysisResponse>) -> (r: String)
    ensures
        llm_analysis@.len() == 0 ==> r@ == "No LLM analysis available"@,
        llm_analysis@.len() > 0 ==> r@ == responses_view(llm_analysis@)[0].analysis,
{
    if llm_analysis.len() == 0 {
        String::from_str("No LLM analysis available")
    } else {
        proof {
            assert(responses_view(llm_analysis@)[0] == llm_analysis@[0]@);
        }
        llm_analysis[0].analysis.clone()
    }
}

/// The saturating byte total of the files carrying one language tag.
pub open spec fn spec_lang_size(files: Seq<FileInfoV>, lang: Seq<char>, i: int, acc: u64) -> u64
    decreases files.len() - i,
{
    if i < 0 || i >= files.len() {
        acc
    } else {
        spec_lang_size(
            files,
            lang,
            i + 1,
            if files[i].language == Option::Some(lang) {
                if acc + files[i].size > u64::MAX {
                    u64::MAX
                } else {
                    (acc + files[i].size) as u64
                }
            } else {
                acc
            },
        )
    }
}

fn lang_size(files: &Vec<FileInfo>, lang: &String) -> (r: u64)
    ensures
        r == spec_lang_size(infos_view(files@), lang@, 0, 0),
{
    let ghost fv = infos_view(files@);
    let n = files.len();
    let mut acc: u64 = 0;
    let mut i: usize = 0;
    while i < n
        invariant
            i <= n,
            n == files@.len(),
            fv == infos_view(files@),
            spec_lang_size(fv, lang@, i as int, acc) == spec_lang_size(fv, lang@, 0, 0),
        decreases n - i,
    {
        proof {
            assert(fv[i as int] == files@[i as int]@);
        }
        let matched = match &files[i].language {
            Option::Some(l) => l.eq(lang),
            Option::None => false,
        };
        if matched {
            acc = acc.saturating_add(files[i].size);
        }
        i = i + 1;
    }
    acc
}

/// The per-language breakdown of the report: for each language tag in
/// first-occurrence order, how many files carry it and their saturating
/// byte total.
pub fn language_breakdown(files: &Vec<FileInfo>) -> (r: Vec<(String, usize, u64)>)
    ensures
        is_histogram(
            r@.map_values(|e: (String, usize, u64)| (e.0@, e.1 as int)),
            spec_language_keys(infos_view(files@), 0),
        ),
        forall|a: int|
            0 <= a < r@.len() ==> (#[trigger] r@[a]).2 == spec_lang_size(
                infos_view(files@),
                r@[a].0@,
                0,
                0,
            ),
{
    let ghost fv = infos_view(files@);
    let stats = crate::file_discovery::compute_file_stats(files);
    let m = stats.languages.len();
    let mut r: Vec<(String, usize, u64)> = Vec::new();
    let mut a: usize = 0;
    while a < m
        invariant
            a <= m,
            m == stats.languages@.len(),
            fv == infos_view(files@),
            is_histogram(pairs_view(stats.languages@), spec_language_keys(fv, 0)),
            r@.len() == a,
            forall|t: int|
                0 <= t < a ==> ((#[trigger] r@[t]).0@, r@[t].1 as int) == pairs_view(
                    stats.languages@,
                )[t] && r@[t].2 == spec_lang_size(fv, r@[t].0@, 0, 0),
        decreases m - a,
    {
        let entry = &stats.languages[a];
        let size = lang_size(files, &entry.0);
        proof {
            assert(pairs_view(stats.languages@)[a as int] == (
                stats.languages@[a as int].0@,
                stats.languages@[a as int].1 as int,
            ));
        }
        r.push((entry.0.clone(), entry.1, size));
        a = a + 1;
    }
    proof {
        let rv = r@.map_values(|e: (String, usize, u64)| (e.0@, e.1 as int));
        assert(rv =~= pairs_view(stats.languages@));
    }
    r
}

/// An entry of the circular-dependency table; detection is out of scope,
/// so reports carry it as an empty placeholder.
#[derive(Debug)]
pub struct CircularDependency {
    pub files: Vec<String>,
    pub severity: String,
}

/// An entry of the dependency-depth distribution; depth analysis is out of
/// scope, so reports carry it as an empty placeholder.
#[derive(Debug)]
pub struct DepthBucket {
    pub depth: usize,
    pub count: usize,
}

} // verus!
