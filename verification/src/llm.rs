use vstd::prelude::*;
use crate::simple_parser::{ParsedFile, ParsedFileV};
use crate::dependency_graph::parsed_files_view;
use crate::strutil::{dec_digits, strings_view, usize_to_string};

verus! {

// The insight-service collaborator consumes a textual context derived from
// the parsed facts.  The context derivation is pure and lives here; the
// service calls themselves do not.

#[derive(Debug, Clone, Copy, PartialEq, Eq, Structural)]
pub enum AnalysisType {
    Overview,
    Architecture,
    Dependencies,
    Security,
    Refactoring,
    Documentation,
}

#[derive(Debug, Clone, Copy, PartialEq, Eq, Structural)]
pub enum InsightCategory {
    Architecture,
    CodeQuality,
    Performance,
    Security,
    Maintainability,
    Testing,
}

#[derive(Debug, Clone, Copy, PartialEq, Eq, Structural)]
pub enum Priority {
    Low,
    Medium,
    High,
    Critical,
}

#[derive(Debug, Clone, Copy, PartialEq, Eq, Structural)]
pub enum Effort {
    Low,
    Medium,
    High,
}

#[derive(Debug, Clone, Copy, PartialEq, Eq, Structural)]
pub enum Impact {
    Low,
    Medium,
    High,
}

#[derive(Debug)]
pub struct Insight {
    pub title: String,
    pub description: String,
    pub category: InsightCategory,
    pub evidence: Vec<String>,
}

#[derive(Debug)]
pub struct Recommendation {
    pub title: String,
    pub description: String,
    pub priority: Priority,
    pub effort: Effort,
    pub impact: Impact,
    pub action_items: Vec<String>,
}

#[derive(Debug)]
pub struct AnalysisResponse {
    pub analysis: String,
    pub insights: Vec<Insight>,
    pub recommendations: Vec<Recommendation>,
}

#[derive(Debug)]
pub struct FileContext {
    pub path: String,
    pub language: String,
    pub content_summary: String,
    pub functions: Vec<String>,
    pub classes: Vec<String>,
    pub imports: Vec<String>,
}

#[derive(Debug)]
pub struct DocumentationContext {
    pub path: String,
    pub file_type: String,
    pub content: String,
    pub summary: String,
}

#[derive(Debug)]
pub struct DependencyContext {
    pub from_file: String,
    pub to_file: String,
    pub dependency_type: String,
}

#[derive(Debug)]
pub struct ProjectInfo {
    pub name: String,
    pub total_files: usize,
    pub total_lines: usize,
    pub languages: Vec<String>,
    pub architecture_patterns: Vec<String>,
}

#[derive(Debug)]
pub struct AnalysisContext {
    pub files: Vec<FileContext>,
    pub dependencies: Vec<DependencyContext>,
    pub project_info: ProjectInfo,
    pub documentation: Vec<DocumentationContext>,
}

#[derive(Debug)]
pub struct AnalysisRequest {
    pub prompt: String,
    pub context: AnalysisContext,
    pub analysis_type: AnalysisType,
}

#[verifier::ext_equal]
pub struct InsightV {
    pub title: Seq<char>,
    pub description: Seq<char>,
    pub category: InsightCategory,
    pub evidence: Seq<Seq<char>>,
}

impl View for Insight {
    type V = InsightV;

    open spec fn view(&self) -> InsightV {
        InsightV {
            title: self.title@,
            description: self.description@,
            category: self.category,
            evidence: strings_view(self.evidence@),
        }
    }
}

#[verifier::ext_equal]
pub struct RecommendationV {
    pub title: Seq<char>,
    pub description: Seq<char>,
    pub priority: Priority,
    pub effort: Effort,
    pub impact: Impact,
    pub action_items: Seq<Seq<char>>,
}

impl View for Recommendation {
    type V = RecommendationV;

    open spec fn view(&self) -> RecommendationV {
        RecommendationV {
            title: self.title@,
            description: self.description@,
            priority: self.priority,
            effort: self.effort,
            impact: self.impact,
            action_items: strings_view(self.action_items@),
        }
    }
}

#[verifier::ext_equal]
pub struct AnalysisResponseV {
    pub analysis: Seq<char>,
    pub insights: Seq<InsightV>,
    pub recommendations: Seq<RecommendationV>,
}

impl View for AnalysisResponse {
    type V = AnalysisResponseV;

    open spec fn view(&self) -> AnalysisResponseV {
        AnalysisResponseV {
            analysis: self.analysis@,
            insights: self.insights@.map_values(|x: Insight| x@),
            recommendations: self.recommendations@.map_values(|x: Recommendation| x@),
        }
    }
}

pub open spec fn responses_view(s: Seq<AnalysisResponse>) -> Seq<AnalysisResponseV> {
    s.map_values(|x: AnalysisResponse| x@)
}

#[verifier::ext_equal]
pub struct FileContextV {
    pub path: Seq<char>,
    pub language: Seq<char>,
    pub content_summary: Seq<char>,
    pub functions: Seq<Seq<char>>,
    pub classes: Seq<Seq<char>>,
    pub imports: Seq<Seq<char>>,
}

impl View for FileContext {
    type V = FileContextV;

    open spec fn view(&self) -> FileContextV {
        FileContextV {
            path: self.path@,
            language: self.language@,
            content_summary: self.content_summary@,
            functions: strings_view(self.functions@),
            classes: strings_view(self.classes@),
            imports: strings_view(self.imports@),
        }
    }
}

#[verifier::ext_equal]
pub struct DependencyContextV {
    pub from_file: Seq<char>,
    pub to_file: Seq<char>,
    pub dependency_type: Seq<char>,
}

impl View for DependencyContext {
    type V = DependencyContextV;

    open spec fn view(&self) -> DependencyContextV {
        DependencyContextV {
            from_file: self.from_file@,
            to_file: self.to_file@,
            dependency_type: self.dependency_type@,
        }
    }
}

/// The content summary line of a file context: its declaration tallies.
pub open spec fn spec_content_summary(pf: ParsedFileV) -> Seq<char> {
    dec_digits(pf.functions.len() as int) + " functions, "@ + dec_digits(pf.classes.len() as int)
        + " classes, "@ + dec_digits(pf.imports.len() as int) + " imports"@
}

/// The file context one fact record yields: its path, its language tag (or
/// "unknown"), a tally summary and its declared names.
pub open spec fn spec_file_context(pf: ParsedFileV) -> FileContextV {
    FileContextV {
        path: pf.file_info.path,
        language: match pf.file_info.language {
            Option::Some(l) => l,
            Option::None => "unknown"@,
        },
        content_summary: spec_content_summary(pf),
        functions: pf.functions.map_values(|f: crate::simple_parser::FunctionV| f.name),
        classes: pf.classes.map_values(|c: crate::simple_parser::ClassV| c.name),
        imports: pf.imports.map_values(|i: crate::simple_parser::ImportV| i.module),
    }
}

fn names_of_functions(v: &Vec<crate::simple_parser::Function>) -> (r: Vec<String>)
    ensures
        strings_view(r@) == crate::simple_parser::functions_view(v@).map_values(
            |f: crate::simple_parser::FunctionV| f.name,
        ),
{
    let ghost target = crate::simple_parser::functions_view(v@).map_values(
        |f: crate::simple_parser::FunctionV| f.name,
    );
    let n = v.len();
    let mut r: Vec<String> = Vec::new();
    let mut i: usize = 0;
    proof {
        assert(strings_view(r@) =~= target.take(0));
    }
    while i < n
        invariant
            i <= n,
            n == v@.len(),
            target == crate::simple_parser::functions_view(v@).map_values(
                |f: crate::simple_parser::FunctionV| f.name,
            ),
            strings_view(r@) == target.take(i as int),
        decreases n - i,
    {
        let s = v[i].name.clone();
        proof {
            assert(target[i as int] == crate::simple_parser::functions_view(v@)[i as int].name);
            assert(crate::simple_parser::functions_view(v@)[i as int] == v@[i as int]@);
            assert(strings_view(r@.push(s)) =~= strings_view(r@).push(s@));
            assert(strings_view(r@).push(s@) =~= target.take(i + 1));
        }
        r.push(s);
        i = i + 1;
    }
    proof {
        assert(target.take(n as int) =~= target);
    }
    r
}

fn names_of_classes(v: &Vec<crate::simple_parser::Class>) -> (r: Vec<String>)
    ensures
        strings_view(r@) == crate::simple_parser::classes_view(v@).map_values(
            |c: crate::simple_parser::ClassV| c.name,
        ),
{
    let ghost target = crate::simple_parser::classes_view(v@).map_values(
        |c: crate::simple_parser::ClassV| c.name,
    );
    let n = v.len();
    let mut r: Vec<String> = Vec::new();
    let mut i: usize = 0;
    proof {
        assert(strings_view(r@) =~= target.take(0));
    }
    while i < n
        invariant
            i <= n,
            n == v@.len(),
            target == crate::simple_parser::classes_view(v@).map_values(
                |c: crate::simple_parser::ClassV| c.name,
            ),
            strings_view(r@) == target.take(i as int),
        decreases n - i,
    {
        let s = v[i].name.clone();
        proof {
            assert(target[i as int] == crate::simple_parser::classes_view(v@)[i as int].name);
            assert(crate::simple_parser::classes_view(v@)[i as int] == v@[i as int]@);
            assert(strings_view(r@.push(s)) =~= strings_view(r@).push(s@));
            assert(strings_view(r@).push(s@) =~= target.take(i + 1));
        }
        r.push(s);
        i = i + 1;
    }
    proof {
        assert(target.take(n as int) =~= target);
    }
    r
}

fn modules_of_imports(v: &Vec<crate::simple_parser::Import>) -> (r: Vec<String>)
    ensures
        strings_view(r@) == crate::simple_parser::imports_view(v@).map_values(
            |i: crate::simple_parser::ImportV| i.module,
        ),
{
    let ghost target = crate::simple_parser::imports_view(v@).map_values(
        |i: crate::simple_parser::ImportV| i.module,
    );
    let n = v.len();
    let mut r: Vec<String> = Vec::new();
    let mut i: usize = 0;
    proof {
        assert(strings_view(r@) =~= target.take(0));
    }
    while i < n
        invariant
            i <= n,
            n == v@.len(),
            target == crate::simple_parser::imports_view(v@).map_values(
                |i: crate::simple_parser::ImportV| i.module,
            ),
            strings_view(r@) == target.take(i as int),
        decreases n - i,
    {
        let s = v[i].module.clone();
        proof {
            assert(target[i as int] == crate::simple_parser::imports_view(v@)[i as int].module);
            assert(crate::simple_parser::imports_view(v@)[i as int] == v@[i as int]@);
            assert(strings_view(r@.push(s)) =~= strings_view(r@).push(s@));
            assert(strings_view(r@).push(s@) =~= target.take(i + 1));
        }
        r.push(s);
        i = i + 1;
    }
    proof {
        assert(target.take(n as int) =~= target);
    }
    r
}

/// The file context of one fact record.
pub fn build_file_context(pf: &ParsedFile) -> (r: FileContext)
    ensures
        r@ == spec_file_context(pf@),
{
    let language = match &pf.file_info.language {
        Option::Some(l) => l.clone(),
        Option::None => String::from_str("unknown"),
    };
    let nf = usize_to_string(pf.functions.len());
    let nc = usize_to_string(pf.classes.len());
    let ni = usize_to_string(pf.imports.len());
    let content_summary = nf.concat(" functions, ").concat(nc.as_str()).concat(
        " classes, ",
    ).concat(ni.as_str()).concat(" imports");
    proof {
        assert(content_summary@ =~= spec_content_summary(pf@));
    }
    let functions = names_of_functions(&pf.functions);
    let classes = names_of_classes(&pf.classes);
    let imports = modules_of_imports(&pf.imports);
    let r = FileContext {
        path: pf.file_info.path.clone(),
        language,
        content_summary,
        functions,
        classes,
        imports,
    };
    proof {
        assert(r@ =~= spec_file_context(pf@));
    }
    r
}

/// The file contexts of a whole fact-record set, in order.
pub fn build_file_contexts(parsed_files: &Vec<ParsedFile>) -> (r: Vec<FileContext>)
    ensures
        r@.len() == parsed_files@.len(),
        forall|i: int|
            0 <= i < r@.len() ==> (#[trigger] r@[i])@ == spec_file_context(
                parsed_files_view(parsed_files@)[i],
            ),
{
    let n = parsed_files.len();
    let mut r: Vec<FileContext> = Vec::new();
    let mut i: usize = 0;
    while i < n
        invariant
            i <= n,
            n == parsed_files@.len(),
            r@.len() == i,
            forall|t: int|
                0 <= t < i ==> (#[trigger] r@[t])@ == spec_file_context(
                    parsed_files_view(parsed_files@)[t],
                ),
        decreases n - i,
    {
        let c = build_file_context(&parsed_files[i]);
        proof {
            assert(parsed_files_view(parsed_files@)[i as int] == parsed_files@[i as int]@);
        }
        r.push(c);
        i = i + 1;
    }
    r
}

/// The dependency contexts one fact record contributes: one entry per
/// import, from the file to the imported module, tagged "import".
pub open spec fn dep_contexts_of(pf: ParsedFileV, k: int) -> Seq<DependencyContextV>
    decreases pf.imports.len() - k,
{
    if k < 0 || k >= pf.imports.len() {
        Seq::empty()
    } else {
        seq![
            DependencyContextV {
                from_file: pf.file_info.path,
                to_file: pf.imports[k].module,
                dependency_type: "import"@,
            },
        ] + dep_contexts_of(pf, k + 1)
    }
}

pub open spec fn spec_dep_contexts(files: Seq<ParsedFileV>, i: int) -> Seq<DependencyContextV>
    decreases files.len() - i,
{
    if i < 0 || i >= files.len() {
        Seq::empty()
    } else {
        dep_contexts_of(files[i], 0) + spec_dep_contexts(files, i + 1)
    }
}

pub open spec fn deps_view(s: Seq<DependencyContext>) -> Seq<DependencyContextV> {
    s.map_values(|x: DependencyContext| x@)
}

/// One dependency context per import fact, across all records in order.
pub fn build_dependency_contexts(parsed_files: &Vec<ParsedFile>) -> (r: Vec<DependencyContext>)
    ensures
        deps_view(r@) == spec_dep_contexts(parsed_files_view(parsed_files@), 0),
{
    let ghost fv = parsed_files_view(parsed_files@);
    let n = parsed_files.len();
    let mut r: Vec<DependencyContext> = Vec::new();
    let mut i: usize = 0;
    proof {
        assert(deps_view(r@) + spec_dep_contexts(fv, 0) =~= spec_dep_contexts(fv, 0));
    }
    while i < n
        invariant
            i <= n,
            n == parsed_files@.len(),
            fv == parsed_files_view(parsed_files@),
            spec_dep_contexts(fv, 0) == deps_view(r@) + spec_dep_contexts(fv, i as int),
        decreases n - i,
    {
        let pf = &parsed_files[i];
        proof {
            assert(fv[i as int] == parsed_files@[i as int]@);
        }
        let ghost pv = pf@;
        let nk = pf.imports.len();
        let mut k: usize = 0;
        proof {
            assert(spec_dep_contexts(fv, i as int) == dep_contexts_of(pv, 0) + spec_dep_contexts(
                fv,
                i + 1,
            ));
        }
        while k < nk
            invariant
                k <= nk,
                nk == pf.imports@.len(),
                i < parsed_files@.len(),
                fv == parsed_files_view(parsed_files@),
                pv == pf@,
                spec_dep_contexts(fv, 0) == deps_view(r@) + dep_contexts_of(pv, k as int)
                    + spec_dep_contexts(fv, i + 1),
            decreases nk - k,
        {
            proof {
                assert(pv.imports[k as int] == pf.imports@[k as int]@);
            }
            let d = DependencyContext {
                from_file: pf.file_info.path.clone(),
                to_file: pf.imports[k].module.clone(),
                dependency_type: String::from_str("import"),
            };
            proof {
                assert(d@ =~= (DependencyContextV {
                    from_file: pv.file_info.path,
                    to_file: pv.imports[k as int].module,
                    dependency_type: "import"@,
                }));
                assert(dep_contexts_of(pv, k as int) == seq![d@] + dep_contexts_of(pv, k + 1));
                assert(deps_view(r@.push(d)) =~= deps_view(r@).push(d@));
                assert(deps_view(r@).push(d@) + dep_contexts_of(pv, k + 1) + spec_dep_contexts(
                    fv,
                    i + 1,
                ) =~= deps_view(r@) + dep_contexts_of(pv, k as int) + spec_dep_contexts(fv, i + 1));
            }
            r.push(d);
            k = k + 1;
        }
        proof {
            assert(dep_contexts_of(pv, nk as int) =~= Seq::<DependencyContextV>::empty());
            assert(deps_view(r@) + Seq::<DependencyContextV>::empty() + spec_dep_contexts(fv, i + 1)
                =~= deps_view(r@) + spec_dep_contexts(fv, i + 1));
        }
        i = i + 1;
    }
    proof {
        assert(spec_dep_contexts(fv, n as int) =~= Seq::<DependencyContextV>::empty());
        assert(deps_view(r@) + Seq::<DependencyContextV>::empty() =~= deps_view(r@));
    }
    r
}

} // verus!
