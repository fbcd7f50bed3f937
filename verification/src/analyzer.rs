use vstd::prelude::*;
use crate::file_discovery::{FileInfo, FileInfoV, infos_view, opt_view, spec_total_size,
    spec_language_keys};
use crate::llm::ProjectInfo;
use crate::simple_parser::{ParsedFile, ParsedFileV, SimpleParser, spec_lang_of, spec_parse};
use crate::dependency_graph::{parsed_files_view, spec_file_name};
use crate::patterns::{LanguagePatternsV, registry_view};
use crate::strutil::{has_sub, is_histogram, pairs_view, strings_view};

verus! {

// The parse coordinator: the file list is cut into contiguous shards, each
// shard is parsed independently, and the shard results are concatenated.
// The shard arithmetic and the per-shard work are here; fanning the shards
// out to workers is the caller's business, and safe because the shards
// are disjoint and the parser shares no mutable state.

/// The shard width for a file count and a worker count: at least one.
pub fn shard_size(n_files: usize, workers: usize) -> (r: usize)
    requires
        workers >= 1,
    ensures
        r >= 1,
        n_files == 0 ==> r == 1,
        n_files > 0 ==> r as int == (n_files - 1) as int / workers as int + 1,
{
    if n_files == 0 {
        1
    } else {
        (n_files - 1) / workers + 1
    }
}

/// The contiguous shard bounds covering `0..n` with width `size`: shard
/// `k` spans `k*size .. min((k+1)*size, n)`.
pub fn shard_bounds(n: usize, size: usize) -> (r: Vec<(usize, usize)>)
    requires
        size >= 1,
    ensures
        forall|k: int|
            0 <= k < r@.len() ==> (#[trigger] r@[k]).0 == k * size && r@[k].1 == (if (k + 1) * size
                <= n {
                (k + 1) * size
            } else {
                n as int
            }),
        r@.len() == (n + size - 1) / (size as int),
        n > 0 ==> r@[r@.len() - 1].1 == n,
{
    let mut r: Vec<(usize, usize)> = Vec::new();
    let mut start: usize = 0;
    proof {
        assert(r@.len() as int * (size as int) == 0);
    }
    while start < n
        invariant
            size >= 1,
            start <= n,
            start as int == (if r@.len() as int * (size as int) <= n as int {
                r@.len() as int * (size as int)
            } else {
                n as int
            }),
            forall|k: int|
                0 <= k < r@.len() ==> (#[trigger] r@[k]).0 == k * size && r@[k].0 < n && r@[k].1
                    == (if (k + 1) * size <= n {
                    (k + 1) * size
                } else {
                    n as int
                }),
            r@.len() > 0 ==> r@[r@.len() - 1].1 == start,
        decreases n - start,
    {
        let end = if n - start < size {
            n
        } else {
            start + size
        };
        let ghost k = r@.len() as int;
        proof {
            assert((k + 1) * size == k * size + size) by (nonlinear_arith);
            assert(k * size <= n);
        }
        r.push((start, end));
        start = end;
    }
    proof {
        let m = r@.len() as int;
        if n == 0 {
            assert(m * size >= m) by (nonlinear_arith)
                requires size >= 1 && m >= 0;
            assert(m == 0);
            assert((n + size - 1) / (size as int) == 0) by (nonlinear_arith)
                requires size >= 1 && n == 0;
        } else {
            assert(m >= 1);
            assert(r@[m - 1].1 == n);
            assert((m - 1) * size < n);
            assert(n <= m * size) by {
                if m * size <= n {
                    assert(start as int == m as int * (size as int));
                }
            }
            assert(m == (n + size - 1) / (size as int)) by (nonlinear_arith)
                requires
                    size >= 1,
                    (m - 1) * size < n <= m * size,
            ;
        }
    }
    r
}

/// The parse of one batch: one fact record per input, in input order; a
/// pure function of each input's content and language.
pub open spec fn spec_parsed_file(
    reg: Seq<(Seq<char>, LanguagePatternsV)>,
    fi: FileInfoV,
    content: Seq<char>,
) -> ParsedFileV {
    let f = spec_parse(reg, spec_lang_of(fi), content);
    ParsedFileV {
        file_info: fi,
        imports: f.imports,
        exports: f.exports,
        functions: f.functions,
        classes: f.classes,
    }
}

pub open spec fn spec_parse_batch(
    reg: Seq<(Seq<char>, LanguagePatternsV)>,
    inputs: Seq<(FileInfoV, Seq<char>)>,
) -> Seq<ParsedFileV> {
    inputs.map_values(|p: (FileInfoV, Seq<char>)| spec_parsed_file(reg, p.0, p.1))
}

pub open spec fn inputs_view(s: Seq<(FileInfo, String)>) -> Seq<(FileInfoV, Seq<char>)> {
    s.map_values(|p: (FileInfo, String)| (p.0@, p.1@))
}

/// Parses one shard of (record, content) pairs in order.
pub fn parse_files(parser: &SimpleParser, inputs: &Vec<(FileInfo, String)>) -> (r: Vec<ParsedFile>)
    ensures
        parsed_files_view(r@) == spec_parse_batch(
            registry_view(parser.language_patterns@),
            inputs_view(inputs@),
        ),
{
    let ghost reg = registry_view(parser.language_patterns@);
    let ghost iv = inputs_view(inputs@);
    let n = inputs.len();
    let mut r: Vec<ParsedFile> = Vec::new();
    let mut i: usize = 0;
    proof {
        assert(parsed_files_view(r@) =~= spec_parse_batch(reg, iv).take(0));
    }
    while i < n
        invariant
            i <= n,
            n == inputs@.len(),
            reg == registry_view(parser.language_patterns@),
            iv == inputs_view(inputs@),
            parsed_files_view(r@) == spec_parse_batch(reg, iv).take(i as int),
        decreases n - i,
    {
        let entry = &inputs[i];
        let pf = parser.parse_file(&entry.0, entry.1.as_str());
        proof {
            assert(iv[i as int] == (inputs@[i as int].0@, inputs@[i as int].1@));
            assert(spec_parse_batch(reg, iv)[i as int] == spec_parsed_file(
                reg,
                iv[i as int].0,
                iv[i as int].1,
            ));
            assert(pf@ =~= spec_parse_batch(reg, iv)[i as int]);
            assert(parsed_files_view(r@.push(pf)) =~= parsed_files_view(r@).push(pf@));
            assert(parsed_files_view(r@).push(pf@) =~= spec_parse_batch(reg, iv).take(i + 1));
        }
        r.push(pf);
        i = i + 1;
    }
    proof {
        assert(spec_parse_batch(reg, iv).take(n as int) =~= spec_parse_batch(reg, iv));
    }
    r
}

/// Merging shard results in shard order reproduces the whole batch: the
/// batch parse of a concatenation is the concatenation of the batch
/// parses.
pub proof fn lemma_shard_merge(
    reg: Seq<(Seq<char>, LanguagePatternsV)>,
    left: Seq<(FileInfoV, Seq<char>)>,
    right: Seq<(FileInfoV, Seq<char>)>,
)
    ensures
        spec_parse_batch(reg, left + right) == spec_parse_batch(reg, left) + spec_parse_batch(
            reg,
            right,
        ),
{
    assert(spec_parse_batch(reg, left + right) =~= spec_parse_batch(reg, left) + spec_parse_batch(
        reg,
        right,
    ));
}

/// Merging two shard results in either order yields the same multiset of
/// fact records: a merge in completion order is set-equal to the in-order
/// merge.
pub proof fn lemma_shard_merge_any_order(
    reg: Seq<(Seq<char>, LanguagePatternsV)>,
    left: Seq<(FileInfoV, Seq<char>)>,
    right: Seq<(FileInfoV, Seq<char>)>,
)
    ensures
        (spec_parse_batch(reg, left) + spec_parse_batch(reg, right)).to_multiset() == (
        spec_parse_batch(reg, right) + spec_parse_batch(reg, left)).to_multiset(),
{
    vstd::seq_lib::lemma_seq_union_to_multiset_commutative(
        spec_parse_batch(reg, left),
        spec_parse_batch(reg, right),
    );
}

/// Filter criteria over discovered files: by language, size window, and a
/// path substring.
#[derive(Debug)]
pub struct FilterCriteria {
    pub language: Option<String>,
    pub min_size: Option<u64>,
    pub max_size: Option<u64>,
    pub path_contains: Option<String>,
}

#[verifier::ext_equal]
pub struct FilterCriteriaV {
    pub language: Option<Seq<char>>,
    pub min_size: Option<u64>,
    pub max_size: Option<u64>,
    pub path_contains: Option<Seq<char>>,
}

impl View for FilterCriteria {
    type V = FilterCriteriaV;

    open spec fn view(&self) -> FilterCriteriaV {
        FilterCriteriaV {
            language: opt_view(self.language),
            min_size: self.min_size,
            max_size: self.max_size,
            path_contains: opt_view(self.path_contains),
        }
    }
}

/// Whether a file record satisfies every given criterion.
pub open spec fn matches_criteria(f: FileInfoV, c: FilterCriteriaV) -> bool {
    &&& (c.language matches Option::Some(l) ==> f.language == Option::Some(l))
    &&& (c.min_size matches Option::Some(m) ==> f.size >= m)
    &&& (c.max_size matches Option::Some(m) ==> f.size <= m)
    &&& (c.path_contains matches Option::Some(p) ==> has_sub(f.path, p))
}

pub open spec fn spec_filter_criteria(
    files: Seq<FileInfoV>,
    c: FilterCriteriaV,
    i: int,
) -> Seq<FileInfoV>
    decreases files.len() - i,
{
    if i < 0 || i >= files.len() {
        Seq::empty()
    } else {
        (if matches_criteria(files[i], c) {
            seq![files[i]]
        } else {
            Seq::empty()
        }) + spec_filter_criteria(files, c, i + 1)
    }
}

/// The records that satisfy every given criterion, in order.
pub fn filter_files_by_criteria(files: &Vec<FileInfo>, criteria: &FilterCriteria) -> (r: Vec<
    FileInfo,
>)
    ensures
        infos_view(r@) == spec_filter_criteria(infos_view(files@), criteria@, 0),
{
    let ghost fv = infos_view(files@);
    let ghost cv = criteria@;
    let n = files.len();
    let mut r: Vec<FileInfo> = Vec::new();
    let mut i: usize = 0;
    proof {
        assert(infos_view(r@) + spec_filter_criteria(fv, cv, 0) =~= spec_filter_criteria(
            fv,
            cv,
            0,
        ));
    }
    while i < n
        invariant
            i <= n,
            n == files@.len(),
            fv == infos_view(files@),
            cv == criteria@,
            spec_filter_criteria(fv, cv, 0) == infos_view(r@) + spec_filter_criteria(
                fv,
                cv,
                i as int,
            ),
        decreases n - i,
    {
        let f = &files[i];
        proof {
            assert(fv[i as int] == files@[i as int]@);
        }
        let lang_ok = match &criteria.language {
            Option::Some(l) => match &f.language {
                Option::Some(fl) => crate::strutil::str_eq(fl.as_str(), l.as_str()),
                Option::None => false,
            },
            Option::None => true,
        };
        let min_ok = match criteria.min_size {
            Option::Some(m) => f.size >= m,
            Option::None => true,
        };
        let max_ok = match criteria.max_size {
            Option::Some(m) => f.size <= m,
            Option::None => true,
        };
        let path_ok = match &criteria.path_contains {
            Option::Some(p) => crate::strutil::contains_str(f.path.as_str(), p.as_str()),
            Option::None => true,
        };
        if lang_ok && min_ok && max_ok && path_ok {
            proof {
                assert(matches_criteria(fv[i as int], cv));
            }
            let c = f.clone();
            proof {
                assert(infos_view(r@.push(c)) =~= infos_view(r@).push(c@));
                assert(infos_view(r@).push(c@) + spec_filter_criteria(fv, cv, i + 1) =~= infos_view(
                    r@,
                ) + spec_filter_criteria(fv, cv, i as int));
            }
            r.push(c);
        } else {
            proof {
                assert(!matches_criteria(fv[i as int], cv));
                assert(Seq::<FileInfoV>::empty() + spec_filter_criteria(fv, cv, i + 1)
                    =~= spec_filter_criteria(fv, cv, i + 1));
            }
        }
        i = i + 1;
    }
    proof {
        assert(spec_filter_criteria(fv, cv, n as int) =~= Seq::<FileInfoV>::empty());
        assert(infos_view(r@) + Seq::<FileInfoV>::empty() =~= infos_view(r@));
    }
    r
}

/// The extension tags of the records that carry one, in order.
pub open spec fn spec_extension_keys(files: Seq<FileInfoV>, i: int) -> Seq<Seq<char>>
    decreases files.len() - i,
{
    if i < 0 || i >= files.len() {
        Seq::empty()
    } else {
        (match files[i].extension {
            Option::Some(e) => seq![e],
            Option::None => Seq::empty(),
        }) + spec_extension_keys(files, i + 1)
    }
}

/// Per-run totals over the discovered files, with language and extension
/// histograms.
#[derive(Debug)]
pub struct FileSummary {
    pub total_files: usize,
    pub total_size: u64,
    pub language_distribution: Vec<(String, usize)>,
    pub extension_distribution: Vec<(String, usize)>,
}

/// Totals and histograms over a discovered-file set.
pub fn get_file_summary(files: &Vec<FileInfo>) -> (r: FileSummary)
    ensures
        r.total_files == files@.len(),
        r.total_size == spec_total_size(infos_view(files@), 0, 0),
        is_histogram(
            pairs_view(r.language_distribution@),
            spec_language_keys(infos_view(files@), 0),
        ),
        is_histogram(
            pairs_view(r.extension_distribution@),
            spec_extension_keys(infos_view(files@), 0),
        ),
{
    let ghost fv = infos_view(files@);
    let n = files.len();
    let mut total_size: u64 = 0;
    let mut lang_keys: Vec<String> = Vec::new();
    let mut ext_keys: Vec<String> = Vec::new();
    let mut i: usize = 0;
    proof {
        assert(strings_view(lang_keys@) + spec_language_keys(fv, 0) =~= spec_language_keys(fv, 0));
        assert(strings_view(ext_keys@) + spec_extension_keys(fv, 0) =~= spec_extension_keys(
            fv,
            0,
        ));
    }
    while i < n
        invariant
            i <= n,
            n == files@.len(),
            fv == infos_view(files@),
            spec_total_size(fv, 0, 0) == spec_total_size(fv, i as int, total_size),
            spec_language_keys(fv, 0) == strings_view(lang_keys@) + spec_language_keys(
                fv,
                i as int,
            ),
            spec_extension_keys(fv, 0) == strings_view(ext_keys@) + spec_extension_keys(
                fv,
                i as int,
            ),
        decreases n - i,
    {
        proof {
            assert(fv[i as int] == files@[i as int]@);
        }
        total_size = total_size.saturating_add(files[i].size);
        match &files[i].language {
            Option::Some(l) => {
                let c = l.clone();
                proof {
                    assert(strings_view(lang_keys@.push(c)) =~= strings_view(lang_keys@).push(c@));
                    assert(strings_view(lang_keys@).push(c@) + spec_language_keys(fv, i + 1)
                        =~= strings_view(lang_keys@) + spec_language_keys(fv, i as int));
                }
                lang_keys.push(c);
            },
            Option::None => {
                proof {
                    assert(Seq::<Seq<char>>::empty() + spec_language_keys(fv, i + 1)
                        =~= spec_language_keys(fv, i + 1));
                }
            },
        }
        match &files[i].extension {
            Option::Some(e) => {
                let c = e.clone();
                proof {
                    assert(strings_view(ext_keys@.push(c)) =~= strings_view(ext_keys@).push(c@));
                    assert(strings_view(ext_keys@).push(c@) + spec_extension_keys(fv, i + 1)
                        =~= strings_view(ext_keys@) + spec_extension_keys(fv, i as int));
                }
                ext_keys.push(c);
            },
            Option::None => {
                proof {
                    assert(Seq::<Seq<char>>::empty() + spec_extension_keys(fv, i + 1)
                        =~= spec_extension_keys(fv, i + 1));
                }
            },
        }
        i = i + 1;
    }
    proof {
        assert(spec_language_keys(fv, n as int) =~= Seq::<Seq<char>>::empty());
        assert(strings_view(lang_keys@) + Seq::<Seq<char>>::empty() =~= strings_view(lang_keys@));
        assert(spec_extension_keys(fv, n as int) =~= Seq::<Seq<char>>::empty());
        assert(strings_view(ext_keys@) + Seq::<Seq<char>>::empty() =~= strings_view(ext_keys@));
    }
    let language_distribution = crate::strutil::histogram(&lang_keys);
    let extension_distribution = crate::strutil::histogram(&ext_keys);
    FileSummary { total_files: n, total_size, language_distribution, extension_distribution }
}

/// The first `max_chars` characters of a text, whole when it is short
/// enough; the cut never splits a character.
pub fn safe_truncate<'a>(s: &'a str, max_chars: usize) -> (r: &'a str)
    ensures
        s@.len() <= max_chars ==> r@ == s@,
        s@.len() > max_chars ==> r@ == s@.subrange(0, max_chars as int),
{
    let n = s.unicode_len();
    if n <= max_chars {
        s
    } else {
        s.substring_char(0, max_chars)
    }
}

/// The project header of the textual context: the target directory's bare
/// name, the file count, a rough line estimate, and the distinct language
/// tags.
pub fn build_project_info(target_directory: &String, files: &Vec<FileInfo>) -> (r: ProjectInfo)
    ensures
        r.name@ == spec_file_name(target_directory@),
        r.total_files == files@.len(),
        r.total_lines as int == (spec_total_size(infos_view(files@), 0, 0) as int) / 50 || (
        r.total_lines == usize::MAX && (spec_total_size(infos_view(files@), 0, 0) as int) / 50
            > usize::MAX),
        forall|a: int, b: int|
            0 <= a < b < r.languages@.len() ==> (#[trigger] r.languages@[a])@ != (
            #[trigger] r.languages@[b])@,
        forall|a: int|
            0 <= a < r.languages@.len() ==> crate::file_discovery::seq_has_str(
                spec_language_keys(infos_view(files@), 0),
                (#[trigger] r.languages@[a])@,
            ),
        r.architecture_patterns@.len() == 0,
{
    let ghost fv = infos_view(files@);
    let name = crate::dependency_graph::file_name_of(target_directory);
    let stats = crate::file_discovery::compute_file_stats(files);
    let sum = stats.total_size;
    let lines64 = sum / 50;
    let total_lines: usize = if lines64 > usize::MAX as u64 {
        usize::MAX
    } else {
        lines64 as usize
    };
    let mut languages: Vec<String> = Vec::new();
    let m = stats.languages.len();
    let mut a: usize = 0;
    while a < m
        invariant
            a <= m,
            m == stats.languages@.len(),
            is_histogram(pairs_view(stats.languages@), spec_language_keys(fv, 0)),
            languages@.len() == a,
            forall|t: int|
                0 <= t < a ==> (#[trigger] languages@[t])@ == pairs_view(stats.languages@)[t].0,
        decreases m - a,
    {
        let l = stats.languages[a].0.clone();
        proof {
            assert(pairs_view(stats.languages@)[a as int].0 == stats.languages@[a as int].0@);
        }
        languages.push(l);
        a = a + 1;
    }
    proof {
        assert forall|x: int, y: int| 0 <= x < y < languages@.len() implies (
        #[trigger] languages@[x])@ != (#[trigger] languages@[y])@ by {
            assert((pairs_view(stats.languages@)[x]).0 != (pairs_view(stats.languages@)[y]).0);
        }
        assert forall|x: int| 0 <= x < languages@.len() implies crate::file_discovery::seq_has_str(
            spec_language_keys(fv, 0),
            (#[trigger] languages@[x])@,
        ) by {
            assert((pairs_view(stats.languages@)[x]).1 == crate::strutil::count_eq(
                spec_language_keys(fv, 0),
                pairs_view(stats.languages@)[x].0,
            ));
            crate::strutil::lemma_count_eq_pos(
                spec_language_keys(fv, 0),
                pairs_view(stats.languages@)[x].0,
            );
        }
    }
    ProjectInfo {
        name,
        total_files: files.len(),
        total_lines,
        languages,
        architecture_patterns: Vec::new(),
    }
}

} // verus!
