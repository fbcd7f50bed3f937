use vstd::prelude::*;
use crate::file_discovery::{FileInfo, FileInfoV, opt_view};
use crate::patterns::{
    FunctionRule, FunctionRuleV, LanguagePatterns, LanguagePatternsV, build_registry,
    fallback_function_rules, fallback_function_rules_v, fallback_import_patterns,
    fallback_import_patterns_v, lookup_from, lookup_lang, patterns_ok, registry_view, rules_view,
    spec_registry,
};
use crate::regexes::{captures_of, caps_view, regex_is_valid, regex_captures, regex_ok};
use crate::strutil::{
    charss_view, chars_of, contains_str, has_sub, spec_lines, spec_split, spec_trim, split_chars,
    split_lines, string_from_chars, strings_view, take_until, take_until_char, trim_chars,
};

verus! {

// The file parser: applies the registered rule lists of a language (or the
// generic fallback) to a file's text, line by line, and produces one
// structured fact record.  Extraction is total over arbitrary text: no
// content ever makes it fail.

/// A registry pattern did not compile: a configuration fault found at
/// start-up, fatal for the run.
#[derive(Debug)]
pub struct ConfigError {
    pub language: String,
}

#[derive(Debug, PartialEq)]
pub struct Import {
    pub module: String,
    pub items: Vec<String>,
    pub is_default: bool,
    pub line_number: usize,
}

#[derive(Debug, PartialEq)]
pub struct Export {
    pub name: String,
    pub is_default: bool,
    pub line_number: usize,
}

#[derive(Debug, PartialEq)]
pub struct Function {
    pub name: String,
    pub parameters: Vec<String>,
    pub return_type: Option<String>,
    pub line_number: usize,
    pub is_async: bool,
}

#[derive(Debug, PartialEq)]
pub struct Class {
    pub name: String,
    pub extends: Option<String>,
    pub implements: Vec<String>,
    pub methods: Vec<Function>,
    pub line_number: usize,
}

#[derive(Debug, PartialEq)]
pub struct ParsedFile {
    pub file_info: FileInfo,
    pub imports: Vec<Import>,
    pub exports: Vec<Export>,
    pub functions: Vec<Function>,
    pub classes: Vec<Class>,
}

#[verifier::ext_equal]
pub struct ImportV {
    pub module: Seq<char>,
    pub items: Seq<Seq<char>>,
    pub is_default: bool,
    pub line_number: int,
}

#[verifier::ext_equal]
pub struct ExportV {
    pub name: Seq<char>,
    pub is_default: bool,
    pub line_number: int,
}

#[verifier::ext_equal]
pub struct FunctionV {
    pub name: Seq<char>,
    pub parameters: Seq<Seq<char>>,
    pub return_type: Option<Seq<char>>,
    pub line_number: int,
    pub is_async: bool,
}

#[verifier::ext_equal]
pub struct ClassV {
    pub name: Seq<char>,
    pub extends: Option<Seq<char>>,
    pub implements: Seq<Seq<char>>,
    pub methods: Seq<FunctionV>,
    pub line_number: int,
}

#[verifier::ext_equal]
pub struct ParsedFileV {
    pub file_info: FileInfoV,
    pub imports: Seq<ImportV>,
    pub exports: Seq<ExportV>,
    pub functions: Seq<FunctionV>,
    pub classes: Seq<ClassV>,
}

impl View for Import {
    type V = ImportV;

    open spec fn view(&self) -> ImportV {
        ImportV {
            module: self.module@,
            items: strings_view(self.items@),
            is_default: self.is_default,
            line_number: self.line_number as int,
        }
    }
}

impl View for Export {
    type V = ExportV;

    open spec fn view(&self) -> ExportV {
        ExportV {
            name: self.name@,
            is_default: self.is_default,
            line_number: self.line_number as int,
        }
    }
}

impl View for Function {
    type V = FunctionV;

    open spec fn view(&self) -> FunctionV {
        FunctionV {
            name: self.name@,
            parameters: strings_view(self.parameters@),
            return_type: opt_view(self.return_type),
            line_number: self.line_number as int,
            is_async: self.is_async,
        }
    }
}

pub open spec fn functions_view(s: Seq<Function>) -> Seq<FunctionV> {
    s.map_values(|x: Function| x@)
}

impl View for Class {
    type V = ClassV;

    open spec fn view(&self) -> ClassV {
        ClassV {
            name: self.name@,
            extends: opt_view(self.extends),
            implements: strings_view(self.implements@),
            methods: functions_view(self.methods@),
            line_number: self.line_number as int,
        }
    }
}

pub open spec fn imports_view(s: Seq<Import>) -> Seq<ImportV> {
    s.map_values(|x: Import| x@)
}

pub open spec fn exports_view(s: Seq<Export>) -> Seq<ExportV> {
    s.map_values(|x: Export| x@)
}

pub open spec fn classes_view(s: Seq<Class>) -> Seq<ClassV> {
    s.map_values(|x: Class| x@)
}

impl View for ParsedFile {
    type V = ParsedFileV;

    open spec fn view(&self) -> ParsedFileV {
        ParsedFileV {
            file_info: self.file_info@,
            imports: imports_view(self.imports@),
            exports: exports_view(self.exports@),
            functions: functions_view(self.functions@),
            classes: classes_view(self.classes@),
        }
    }
}

// ---------------------------------------------------------------------------
// The parse specification: what facts a line yields under a rule list.
// ---------------------------------------------------------------------------

/// The name a parameter piece contributes: the text before a type annotation
/// or a default value, trimmed.
pub open spec fn param_of(piece: Seq<char>) -> Seq<char> {
    spec_trim(take_until(take_until(spec_trim(piece), ':'), '='))
}

pub open spec fn spec_params_pieces(pieces: Seq<Seq<char>>, k: int) -> Seq<Seq<char>>
    decreases pieces.len() - k,
{
    if k < 0 || k >= pieces.len() {
        Seq::empty()
    } else {
        (if param_of(pieces[k]).len() > 0 {
            seq![param_of(pieces[k])]
        } else {
            Seq::empty()
        }) + spec_params_pieces(pieces, k + 1)
    }
}

/// The parameter names of a parameter-list text: split on commas, each piece
/// cut before `:` or `=` and trimmed, empty pieces dropped.
pub open spec fn spec_params(s: Seq<char>) -> Seq<Seq<char>> {
    spec_params_pieces(spec_split(s, ','), 0)
}

/// The import facts one line yields under an import rule list, rules tried
/// in order from index `j`.
pub open spec fn import_facts_line(pats: Seq<Seq<char>>, line: Seq<char>, ln: int, j: int) -> Seq<
    ImportV,
>
    decreases pats.len() - j,
{
    if j < 0 || j >= pats.len() {
        Seq::empty()
    } else {
        (match captures_of(pats[j], line) {
            Option::Some(c) => {
                if 1 < c.len() {
                    match c[1] {
                        Option::Some(m) => seq![
                            ImportV {
                                module: m,
                                items: Seq::empty(),
                                is_default: false,
                                line_number: ln,
                            },
                        ],
                        Option::None => Seq::empty(),
                    }
                } else {
                    Seq::empty()
                }
            },
            Option::None => Seq::empty(),
        }) + import_facts_line(pats, line, ln, j + 1)
    }
}

pub open spec fn import_facts(pats: Seq<Seq<char>>, lines: Seq<Seq<char>>, i: int) -> Seq<ImportV>
    decreases lines.len() - i,
{
    if i < 0 || i >= lines.len() {
        Seq::empty()
    } else {
        import_facts_line(pats, lines[i], i + 1, 0) + import_facts(pats, lines, i + 1)
    }
}

/// The export facts one line yields: the last capture group names the
/// export, and the default flag is a substring check on the whole line.
pub open spec fn export_facts_line(pats: Seq<Seq<char>>, line: Seq<char>, ln: int, j: int) -> Seq<
    ExportV,
>
    decreases pats.len() - j,
{
    if j < 0 || j >= pats.len() {
        Seq::empty()
    } else {
        (match captures_of(pats[j], line) {
            Option::Some(c) => {
                if c.len() >= 1 {
                    match c[c.len() - 1] {
                        Option::Some(m) => seq![
                            ExportV {
                                name: m,
                                is_default: has_sub(line, "default"@),
                                line_number: ln,
                            },
                        ],
                        Option::None => Seq::empty(),
                    }
                } else {
                    Seq::empty()
                }
            },
            Option::None => Seq::empty(),
        }) + export_facts_line(pats, line, ln, j + 1)
    }
}

pub open spec fn export_facts(pats: Seq<Seq<char>>, lines: Seq<Seq<char>>, i: int) -> Seq<ExportV>
    decreases lines.len() - i,
{
    if i < 0 || i >= lines.len() {
        Seq::empty()
    } else {
        export_facts_line(pats, lines[i], i + 1, 0) + export_facts(pats, lines, i + 1)
    }
}

/// The declared name a function rule reads from a capture-group vector: the
/// rule's name group, or "unknown" when that group did not participate.
pub open spec fn rule_fn_name(r: FunctionRuleV, c: Seq<Option<Seq<char>>>) -> Seq<char> {
    if 0 <= r.name_group < c.len() {
        match c[r.name_group] {
            Option::Some(m) => m,
            Option::None => "unknown"@,
        }
    } else {
        "unknown"@
    }
}

/// The parameter names a function rule reads from a capture-group vector.
pub open spec fn rule_fn_params(r: FunctionRuleV, c: Seq<Option<Seq<char>>>) -> Seq<Seq<char>> {
    match r.params_group {
        Option::Some(g) => {
            if 0 <= g < c.len() {
                match c[g] {
                    Option::Some(m) => spec_params(m),
                    Option::None => Seq::empty(),
                }
            } else {
                Seq::empty()
            }
        },
        Option::None => Seq::empty(),
    }
}

/// The function facts one line yields.  The async flag is a substring check
/// on the whole line, independent of which rule captured the name.
pub open spec fn function_facts_line(
    rules: Seq<FunctionRuleV>,
    line: Seq<char>,
    ln: int,
    j: int,
) -> Seq<FunctionV>
    decreases rules.len() - j,
{
    if j < 0 || j >= rules.len() {
        Seq::empty()
    } else {
        (match captures_of(rules[j].pattern, line) {
            Option::Some(c) => seq![
                FunctionV {
                    name: rule_fn_name(rules[j], c),
                    parameters: rule_fn_params(rules[j], c),
                    return_type: Option::None,
                    line_number: ln,
                    is_async: has_sub(line, "async"@),
                },
            ],
            Option::None => Seq::empty(),
        }) + function_facts_line(rules, line, ln, j + 1)
    }
}

pub open spec fn function_facts(rules: Seq<FunctionRuleV>, lines: Seq<Seq<char>>, i: int) -> Seq<
    FunctionV,
>
    decreases lines.len() - i,
{
    if i < 0 || i >= lines.len() {
        Seq::empty()
    } else {
        function_facts_line(rules, lines[i], i + 1, 0) + function_facts(rules, lines, i + 1)
    }
}

/// The class facts one line yields: the first group names the class, a
/// second participating group names its superclass.
pub open spec fn class_facts_line(pats: Seq<Seq<char>>, line: Seq<char>, ln: int, j: int) -> Seq<
    ClassV,
>
    decreases pats.len() - j,
{
    if j < 0 || j >= pats.len() {
        Seq::empty()
    } else {
        (match captures_of(pats[j], line) {
            Option::Some(c) => {
                if 1 < c.len() {
                    match c[1] {
                        Option::Some(m) => seq![
                            ClassV {
                                name: m,
                                extends: if 2 < c.len() {
                                    c[2]
                                } else {
                                    Option::None
                                },
                                implements: Seq::empty(),
                                methods: Seq::empty(),
                                line_number: ln,
                            },
                        ],
                        Option::None => Seq::empty(),
                    }
                } else {
                    Seq::empty()
                }
            },
            Option::None => Seq::empty(),
        }) + class_facts_line(pats, line, ln, j + 1)
    }
}

pub open spec fn class_facts(pats: Seq<Seq<char>>, lines: Seq<Seq<char>>, i: int) -> Seq<ClassV>
    decreases lines.len() - i,
{
    if i < 0 || i >= lines.len() {
        Seq::empty()
    } else {
        class_facts_line(pats, lines[i], i + 1, 0) + class_facts(pats, lines, i + 1)
    }
}

/// The language tag a record is parsed under: its detected language, or
/// "unknown" when none was detected.
pub open spec fn spec_lang_of(fi: FileInfoV) -> Seq<char> {
    match fi.language {
        Option::Some(l) => l,
        Option::None => "unknown"@,
    }
}

#[verifier::ext_equal]
pub struct FactsV {
    pub imports: Seq<ImportV>,
    pub exports: Seq<ExportV>,
    pub functions: Seq<FunctionV>,
    pub classes: Seq<ClassV>,
}

/// The complete fact record a text yields under a registry: the registered
/// rule lists of its language, or the generic fallback (imports and bare
/// function names only) when the language has no entry.
pub open spec fn spec_parse(
    reg: Seq<(Seq<char>, LanguagePatternsV)>,
    language: Seq<char>,
    content: Seq<char>,
) -> FactsV {
    let lines = spec_lines(content);
    match lookup_lang(reg, language) {
        Option::Some(p) => FactsV {
            imports: import_facts(p.import_patterns, lines, 0),
            exports: export_facts(p.export_patterns, lines, 0),
            functions: function_facts(p.function_patterns, lines, 0),
            classes: class_facts(p.class_patterns, lines, 0),
        },
        Option::None => FactsV {
            imports: import_facts(fallback_import_patterns_v(), lines, 0),
            exports: Seq::empty(),
            functions: function_facts(fallback_function_rules_v(), lines, 0),
            classes: Seq::empty(),
        },
    }
}

/// The parse facts of `p` are exactly what its content and language yield
/// under the registry `reg`.
pub open spec fn parsed_matches(
    p: ParsedFileV,
    reg: Seq<(Seq<char>, LanguagePatternsV)>,
    content: Seq<char>,
) -> bool {
    let f = spec_parse(reg, spec_lang_of(p.file_info), content);
    &&& p.imports == f.imports
    &&& p.exports == f.exports
    &&& p.functions == f.functions
    &&& p.classes == f.classes
}

// ---------------------------------------------------------------------------
// Laws of the parse specification.
// ---------------------------------------------------------------------------

/// Parsing is a pure function of content and language: two fact records
/// parsed from the same content under the same registry agree field for
/// field.
pub proof fn lemma_parse_idempotent(
    p1: ParsedFileV,
    p2: ParsedFileV,
    reg: Seq<(Seq<char>, LanguagePatternsV)>,
    content: Seq<char>,
)
    requires
        p1.file_info == p2.file_info,
        parsed_matches(p1, reg, content),
        parsed_matches(p2, reg, content),
    ensures
        p1 == p2,
{
    assert(p1 =~= p2);
}

/// A line that matches any function rule yields a fact whose async flag is
/// the line-wide substring check, whichever rule captured the name.
pub proof fn lemma_async_flag(rules: Seq<FunctionRuleV>, line: Seq<char>, ln: int, j: int, k: int)
    requires
        0 <= j,
        0 <= k < function_facts_line(rules, line, ln, j).len(),
    ensures
        function_facts_line(rules, line, ln, j)[k].is_async == has_sub(line, "async"@),
    decreases rules.len() - j,
{
    if j < rules.len() {
        let head = match captures_of(rules[j].pattern, line) {
            Option::Some(c) => seq![
                FunctionV {
                    name: rule_fn_name(rules[j], c),
                    parameters: rule_fn_params(rules[j], c),
                    return_type: Option::None,
                    line_number: ln,
                    is_async: has_sub(line, "async"@),
                },
            ],
            Option::None => Seq::<FunctionV>::empty(),
        };
        if k >= head.len() {
            lemma_async_flag(rules, line, ln, j + 1, k - head.len());
        }
    }
}

// ---------------------------------------------------------------------------
// The parser.
// ---------------------------------------------------------------------------

/// The parameter names of a parameter-list text.
pub fn parse_parameters(params_str: &str) -> (r: Vec<String>)
    ensures
        strings_view(r@) == spec_params(params_str@),
{
    let v = chars_of(params_str);
    let pieces = split_chars(&v, ',');
    let ghost pv = charss_view(pieces@);
    let mut out: Vec<String> = Vec::new();
    let m = pieces.len();
    let mut k: usize = 0;
    proof {
        assert(strings_view(out@) =~= Seq::<Seq<char>>::empty());
        assert(spec_params_pieces(pv, 0) =~= strings_view(out@) + spec_params_pieces(pv, 0));
    }
    while k < m
        invariant
            k <= m,
            m == pieces@.len(),
            pv == charss_view(pieces@),
            pv == spec_split(params_str@, ','),
            spec_params_pieces(pv, 0) == strings_view(out@) + spec_params_pieces(pv, k as int),
        decreases m - k,
    {
        let t1 = trim_chars(&pieces[k]);
        let t2 = take_until_char(&t1, ':');
        let t3 = take_until_char(&t2, '=');
        let t4 = trim_chars(&t3);
        proof {
            assert(pv[k as int] == pieces@[k as int]@);
            assert(t4@ == param_of(pv[k as int]));
        }
        if t4.len() > 0 {
            let s = string_from_chars(&t4);
            proof {
                assert(strings_view(out@.push(s)) =~= strings_view(out@).push(s@));
                assert(strings_view(out@).push(s@) + spec_params_pieces(pv, k + 1) =~= strings_view(
                    out@,
                ) + spec_params_pieces(pv, k as int));
            }
            out.push(s);
        } else {
            proof {
                assert(spec_params_pieces(pv, k as int) == spec_params_pieces(pv, k + 1));
            }
        }
        k = k + 1;
    }
    proof {
        assert(spec_params_pieces(pv, m as int) == Seq::<Seq<char>>::empty());
        assert(strings_view(out@) + Seq::<Seq<char>>::empty() =~= strings_view(out@));
    }
    out
}

/// The heuristic multi-language parser: a registry of per-language rule
/// lists, applied line by line.
pub struct SimpleParser {
    pub language_patterns: Vec<(String, LanguagePatterns)>,
}

/// Every entry of the registry holds only patterns the regex engine
/// accepts.
pub open spec fn registry_ok(reg: Seq<(Seq<char>, LanguagePatternsV)>) -> bool {
    forall|i: int| 0 <= i < reg.len() ==> patterns_ok(#[trigger] reg[i].1)
}

fn pats_all_valid(v: &Vec<String>) -> (r: bool)
    ensures
        r == (forall|i: int| 0 <= i < v@.len() ==> regex_ok(#[trigger] strings_view(v@)[i])),
{
    let n = v.len();
    let mut i: usize = 0;
    while i < n
        invariant
            i <= n,
            n == v@.len(),
            forall|j: int| 0 <= j < i ==> regex_ok(#[trigger] strings_view(v@)[j]),
        decreases n - i,
    {
        let ok = regex_is_valid(v[i].as_str());
        proof {
            assert(strings_view(v@)[i as int] == v@[i as int]@);
        }
        if !ok {
            proof {
                assert(!regex_ok(strings_view(v@)[i as int]));
            }
            return false;
        }
        i = i + 1;
    }
    true
}

fn rules_all_valid(v: &Vec<FunctionRule>) -> (r: bool)
    ensures
        r == (forall|i: int|
            0 <= i < v@.len() ==> regex_ok(#[trigger] rules_view(v@)[i].pattern)),
{
    let n = v.len();
    let mut i: usize = 0;
    while i < n
        invariant
            i <= n,
            n == v@.len(),
            forall|j: int| 0 <= j < i ==> regex_ok(#[trigger] rules_view(v@)[j].pattern),
        decreases n - i,
    {
        let ok = regex_is_valid(v[i].pattern.as_str());
        proof {
            assert(rules_view(v@)[i as int] == v@[i as int]@);
            assert(rules_view(v@)[i as int].pattern == v@[i as int].pattern@);
        }
        if !ok {
            proof {
                assert(!regex_ok(rules_view(v@)[i as int].pattern));
            }
            return false;
        }
        i = i + 1;
    }
    true
}

fn patterns_all_valid(p: &LanguagePatterns) -> (r: bool)
    ensures
        r == patterns_ok(p@),
{
    let a = pats_all_valid(&p.import_patterns);
    let b = pats_all_valid(&p.export_patterns);
    let c = rules_all_valid(&p.function_patterns);
    let d = pats_all_valid(&p.class_patterns);
    let r = a && b && c && d;
    proof {
        let pv = p@;
        if r {
            assert forall|i: int| 0 <= i < pv.import_patterns.len() implies regex_ok(
                #[trigger] pv.import_patterns[i],
            ) by {
                assert(regex_ok(strings_view(p.import_patterns@)[i]));
            }
            assert forall|i: int| 0 <= i < pv.export_patterns.len() implies regex_ok(
                #[trigger] pv.export_patterns[i],
            ) by {
                assert(regex_ok(strings_view(p.export_patterns@)[i]));
            }
            assert forall|i: int| 0 <= i < pv.function_patterns.len() implies regex_ok(
                #[trigger] pv.function_patterns[i].pattern,
            ) by {
                assert(regex_ok(rules_view(p.function_patterns@)[i].pattern));
            }
            assert forall|i: int| 0 <= i < pv.class_patterns.len() implies regex_ok(
                #[trigger] pv.class_patterns[i],
            ) by {
                assert(regex_ok(strings_view(p.class_patterns@)[i]));
            }
            assert(patterns_ok(pv));
        }
        if patterns_ok(pv) {
            assert forall|i: int| 0 <= i < p.import_patterns@.len() implies regex_ok(
                #[trigger] strings_view(p.import_patterns@)[i],
            ) by {
                assert(regex_ok(pv.import_patterns[i]));
            }
            assert forall|i: int| 0 <= i < p.export_patterns@.len() implies regex_ok(
                #[trigger] strings_view(p.export_patterns@)[i],
            ) by {
                assert(regex_ok(pv.export_patterns[i]));
            }
            assert forall|i: int| 0 <= i < p.function_patterns@.len() implies regex_ok(
                #[trigger] rules_view(p.function_patterns@)[i].pattern,
            ) by {
                assert(regex_ok(pv.function_patterns[i].pattern));
            }
            assert forall|i: int| 0 <= i < p.class_patterns@.len() implies regex_ok(
                #[trigger] strings_view(p.class_patterns@)[i],
            ) by {
                assert(regex_ok(pv.class_patterns[i]));
            }
            assert(r);
        }
    }
    r
}

impl SimpleParser {
    /// Builds the registry and checks every built-in pattern against the
    /// regex engine; a pattern the engine refuses is a fatal configuration
    /// error naming the language.
    pub fn new() -> (r: Result<SimpleParser, ConfigError>)
        ensures
            r is Ok <==> registry_ok(spec_registry()),
            r matches Ok(p) ==> registry_view(p.language_patterns@) == spec_registry(),
            r matches Err(e) ==> exists|i: int|
                #![auto]
                0 <= i < spec_registry().len() && spec_registry()[i].0 == e.language@
                    && !patterns_ok(spec_registry()[i].1),
    {
        let language_patterns = build_registry();
        let n = language_patterns.len();
        let mut i: usize = 0;
        while i < n
            invariant
                i <= n,
                n == language_patterns@.len(),
                registry_view(language_patterns@) == spec_registry(),
                forall|j: int| 0 <= j < i ==> patterns_ok(#[trigger] spec_registry()[j].1),
            decreases n - i,
        {
            let entry = &language_patterns[i];
            let ok = patterns_all_valid(&entry.1);
            proof {
                assert(spec_registry()[i as int] == registry_view(language_patterns@)[i as int]);
                assert(registry_view(language_patterns@)[i as int].1 == entry.1@);
                assert(registry_view(language_patterns@)[i as int].0 == entry.0@);
            }
            if !ok {
                return Err(ConfigError { language: entry.0.clone() });
            }
            i = i + 1;
        }
        Ok(SimpleParser { language_patterns })
    }

    fn lookup(&self, lang: &str) -> (r: Option<&LanguagePatterns>)
        ensures
            match r {
                Option::Some(p) => lookup_lang(registry_view(self.language_patterns@), lang@)
                    == Option::Some(p@),
                Option::None => lookup_lang(registry_view(self.language_patterns@), lang@)
                    is None,
            },
    {
        let ghost reg = registry_view(self.language_patterns@);
        let n = self.language_patterns.len();
        let mut i: usize = 0;
        while i < n
            invariant
                i <= n,
                n == self.language_patterns@.len(),
                reg == registry_view(self.language_patterns@),
                lookup_lang(reg, lang@) == lookup_from(reg, lang@, i as int),
            decreases n - i,
        {
            let entry = &self.language_patterns[i];
            proof {
                assert(reg[i as int] == (entry.0@, entry.1@));
            }
            if crate::strutil::str_eq(entry.0.as_str(), lang) {
                return Option::Some(&entry.1);
            }
            i = i + 1;
        }
        Option::None
    }

    fn extract_imports_line(
        &self,
        patterns: &Vec<String>,
        line: &String,
        ln: usize,
        out: &mut Vec<Import>,
    )
        ensures
            imports_view(final(out)@) == imports_view(old(out)@) + import_facts_line(
                strings_view(patterns@),
                line@,
                ln as int,
                0,
            ),
    {
        let ghost pv = strings_view(patterns@);
        let np = patterns.len();
        let mut j: usize = 0;
        proof {
            assert(imports_view(out@) =~= imports_view(old(out)@));
        }
        while j < np
            invariant
                j <= np,
                np == patterns@.len(),
                pv == strings_view(patterns@),
                imports_view(out@) + import_facts_line(pv, line@, ln as int, j as int)
                    == imports_view(old(out)@) + import_facts_line(pv, line@, ln as int, 0),
            decreases np - j,
        {
            let caps = regex_captures(patterns[j].as_str(), line.as_str());
            let ghost co = captures_of(pv[j as int], line@);
            proof {
                assert(pv[j as int] == patterns@[j as int]@);
                assert(caps_view(caps) == co);
            }
            match caps {
                Option::Some(c) => {
                    if c.len() > 1 {
                        match &c[1] {
                            Option::Some(m) => {
                                let imp = Import {
                                    module: m.clone(),
                                    items: Vec::new(),
                                    is_default: false,
                                    line_number: ln,
                                };
                                proof {
                                    let cc = co->0;
                                    assert(cc[1] == Option::Some(m@));
                                    assert(imp@ =~= (ImportV {
                                        module: m@,
                                        items: Seq::empty(),
                                        is_default: false,
                                        line_number: ln as int,
                                    }));
                                    assert(import_facts_line(pv, line@, ln as int, j as int)
                                        == seq![imp@] + import_facts_line(
                                        pv,
                                        line@,
                                        ln as int,
                                        j + 1,
                                    ));
                                    assert(imports_view(out@.push(imp)) =~= imports_view(
                                        out@,
                                    ).push(imp@));
                                    assert(imports_view(out@).push(imp@) + import_facts_line(
                                        pv,
                                        line@,
                                        ln as int,
                                        j + 1,
                                    ) =~= imports_view(out@) + import_facts_line(
                                        pv,
                                        line@,
                                        ln as int,
                                        j as int,
                                    ));
                                }
                                out.push(imp);
                            },
                            Option::None => {
                                proof {
                                    let cc = co->0;
                                    assert(cc[1] is None);
                                    assert(import_facts_line(pv, line@, ln as int, j as int)
                                        == import_facts_line(pv, line@, ln as int, j + 1));
                                }
                            },
                        }
                    } else {
                        proof {
                            assert(import_facts_line(pv, line@, ln as int, j as int)
                                == import_facts_line(pv, line@, ln as int, j + 1));
                        }
                    }
                },
                Option::None => {
                    proof {
                        assert(import_facts_line(pv, line@, ln as int, j as int)
                            == import_facts_line(pv, line@, ln as int, j + 1));
                    }
                },
            }
            j = j + 1;
        }
    }

    fn extract_imports(&self, patterns: &Vec<String>, lines: &Vec<String>, out: &mut Vec<Import>)
        ensures
            imports_view(final(out)@) == imports_view(old(out)@) + import_facts(
                strings_view(patterns@),
                strings_view(lines@),
                0,
            ),
    {
        let ghost pv = strings_view(patterns@);
        let ghost lv = strings_view(lines@);
        let nl = lines.len();
        let mut i: usize = 0;
        proof {
            assert(imports_view(out@) =~= imports_view(old(out)@));
        }
        while i < nl
            invariant
                i <= nl,
                nl == lines@.len(),
                pv == strings_view(patterns@),
                lv == strings_view(lines@),
                imports_view(out@) + import_facts(pv, lv, i as int) == imports_view(old(out)@)
                    + import_facts(pv, lv, 0),
            decreases nl - i,
        {
            proof {
                assert(lv[i as int] == lines@[i as int]@);
            }
            self.extract_imports_line(patterns, &lines[i], i + 1, out);
            proof {
                assert(import_facts(pv, lv, i as int) == import_facts_line(
                    pv,
                    lv[i as int],
                    i + 1,
                    0,
                ) + import_facts(pv, lv, i + 1));
            }
            i = i + 1;
        }
        proof {
            assert(import_facts(pv, lv, nl as int) =~= Seq::<ImportV>::empty());
        }
    }

    fn extract_exports_line(
        &self,
        patterns: &Vec<String>,
        line: &String,
        ln: usize,
        out: &mut Vec<Export>,
    )
        ensures
            exports_view(final(out)@) == exports_view(old(out)@) + export_facts_line(
                strings_view(patterns@),
                line@,
                ln as int,
                0,
            ),
    {
        let ghost pv = strings_view(patterns@);
        let np = patterns.len();
        let mut j: usize = 0;
        proof {
            assert(exports_view(out@) =~= exports_view(old(out)@));
        }
        while j < np
            invariant
                j <= np,
                np == patterns@.len(),
                pv == strings_view(patterns@),
                exports_view(out@) + export_facts_line(pv, line@, ln as int, j as int)
                    == exports_view(old(out)@) + export_facts_line(pv, line@, ln as int, 0),
            decreases np - j,
        {
            let caps = regex_captures(patterns[j].as_str(), line.as_str());
            let ghost co = captures_of(pv[j as int], line@);
            proof {
                assert(pv[j as int] == patterns@[j as int]@);
                assert(caps_view(caps) == co);
            }
            match &caps {
                Option::Some(c) => {
                    let li = c.len() - 1;
                    match &c[li] {
                        Option::Some(m) => {
                            let is_default = contains_str(line.as_str(), "default");
                            let ex = Export { name: m.clone(), is_default, line_number: ln };
                            proof {
                                let cc = co->0;
                                assert(cc[cc.len() - 1] == Option::Some(m@));
                                assert(ex@ =~= (ExportV {
                                    name: m@,
                                    is_default: has_sub(line@, "default"@),
                                    line_number: ln as int,
                                }));
                                assert(export_facts_line(pv, line@, ln as int, j as int)
                                    == seq![ex@] + export_facts_line(pv, line@, ln as int, j + 1));
                                assert(exports_view(out@.push(ex)) =~= exports_view(out@).push(
                                    ex@,
                                ));
                                assert(exports_view(out@).push(ex@) + export_facts_line(
                                    pv,
                                    line@,
                                    ln as int,
                                    j + 1,
                                ) =~= exports_view(out@) + export_facts_line(
                                    pv,
                                    line@,
                                    ln as int,
                                    j as int,
                                ));
                            }
                            out.push(ex);
                        },
                        Option::None => {
                            proof {
                                let cc = co->0;
                                assert(cc[cc.len() - 1] is None);
                                assert(export_facts_line(pv, line@, ln as int, j as int)
                                    == export_facts_line(pv, line@, ln as int, j + 1));
                            }
                        },
                    }
                },
                Option::None => {
                    proof {
                        assert(export_facts_line(pv, line@, ln as int, j as int)
                            == export_facts_line(pv, line@, ln as int, j + 1));
                    }
                },
            }
            j = j + 1;
        }
    }

    fn extract_exports(&self, patterns: &Vec<String>, lines: &Vec<String>, out: &mut Vec<Export>)
        ensures
            exports_view(final(out)@) == exports_view(old(out)@) + export_facts(
                strings_view(patterns@),
                strings_view(lines@),
                0,
            ),
    {
        let ghost pv = strings_view(patterns@);
        let ghost lv = strings_view(lines@);
        let nl = lines.len();
        let mut i: usize = 0;
        proof {
            assert(exports_view(out@) =~= exports_view(old(out)@));
        }
        while i < nl
            invariant
                i <= nl,
                nl == lines@.len(),
                pv == strings_view(patterns@),
                lv == strings_view(lines@),
                exports_view(out@) + export_facts(pv, lv, i as int) == exports_view(old(out)@)
                    + export_facts(pv, lv, 0),
            decreases nl - i,
        {
            proof {
                assert(lv[i as int] == lines@[i as int]@);
            }
            self.extract_exports_line(patterns, &lines[i], i + 1, out);
            proof {
                assert(export_facts(pv, lv, i as int) == export_facts_line(
                    pv,
                    lv[i as int],
                    i + 1,
                    0,
                ) + export_facts(pv, lv, i + 1));
            }
            i = i + 1;
        }
        proof {
            assert(export_facts(pv, lv, nl as int) =~= Seq::<ExportV>::empty());
        }
    }

    fn extract_functions_line(
        &self,
        rules: &Vec<FunctionRule>,
        line: &String,
        ln: usize,
        out: &mut Vec<Function>,
    )
        ensures
            functions_view(final(out)@) == functions_view(old(out)@) + function_facts_line(
                rules_view(rules@),
                line@,
                ln as int,
                0,
            ),
    {
        let ghost rv = rules_view(rules@);
        let nr = rules.len();
        let mut j: usize = 0;
        proof {
            assert(functions_view(out@) =~= functions_view(old(out)@));
        }
        while j < nr
            invariant
                j <= nr,
                nr == rules@.len(),
                rv == rules_view(rules@),
                functions_view(out@) + function_facts_line(rv, line@, ln as int, j as int)
                    == functions_view(old(out)@) + function_facts_line(rv, line@, ln as int, 0),
            decreases nr - j,
        {
            let rule = &rules[j];
            let caps = regex_captures(rule.pattern.as_str(), line.as_str());
            let ghost co = captures_of(rv[j as int].pattern, line@);
            proof {
                assert(rv[j as int] == rules@[j as int]@);
                assert(caps_view(caps) == co);
            }
            match &caps {
                Option::Some(c) => {
                    let ghost cc = co->0;
                    let name: String = if rule.name_group < c.len() {
                        match &c[rule.name_group] {
                            Option::Some(m) => m.clone(),
                            Option::None => String::from_str("unknown"),
                        }
                    } else {
                        String::from_str("unknown")
                    };
                    proof {
                        assert(name@ == rule_fn_name(rv[j as int], cc));
                    }
                    let parameters: Vec<String> = match rule.params_group {
                        Option::Some(g) => {
                            if g < c.len() {
                                match &c[g] {
                                    Option::Some(m) => parse_parameters(m.as_str()),
                                    Option::None => Vec::new(),
                                }
                            } else {
                                Vec::new()
                            }
                        },
                        Option::None => Vec::new(),
                    };
                    proof {
                        assert(strings_view(Seq::<String>::empty()) =~= Seq::<Seq<char>>::empty());
                        assert(strings_view(parameters@) == rule_fn_params(rv[j as int], cc));
                    }
                    let is_async = contains_str(line.as_str(), "async");
                    let f = Function {
                        name,
                        parameters,
                        return_type: Option::None,
                        line_number: ln,
                        is_async,
                    };
                    proof {
                        assert(f@ =~= (FunctionV {
                            name: rule_fn_name(rv[j as int], cc),
                            parameters: rule_fn_params(rv[j as int], cc),
                            return_type: Option::None,
                            line_number: ln as int,
                            is_async: has_sub(line@, "async"@),
                        }));
                        assert(function_facts_line(rv, line@, ln as int, j as int) == seq![f@]
                            + function_facts_line(rv, line@, ln as int, j + 1));
                        assert(functions_view(out@.push(f)) =~= functions_view(out@).push(f@));
                        assert(functions_view(out@).push(f@) + function_facts_line(
                            rv,
                            line@,
                            ln as int,
                            j + 1,
                        ) =~= functions_view(out@) + function_facts_line(
                            rv,
                            line@,
                            ln as int,
                            j as int,
                        ));
                    }
                    out.push(f);
                },
                Option::None => {
                    proof {
                        assert(function_facts_line(rv, line@, ln as int, j as int)
                            == function_facts_line(rv, line@, ln as int, j + 1));
                    }
                },
            }
            j = j + 1;
        }
    }

    fn extract_functions(
        &self,
        rules: &Vec<FunctionRule>,
        lines: &Vec<String>,
        out: &mut Vec<Function>,
    )
        ensures
            functions_view(final(out)@) == functions_view(old(out)@) + function_facts(
                rules_view(rules@),
                strings_view(lines@),
                0,
            ),
    {
        let ghost rv = rules_view(rules@);
        let ghost lv = strings_view(lines@);
        let nl = lines.len();
        let mut i: usize = 0;
        proof {
            assert(functions_view(out@) =~= functions_view(old(out)@));
        }
        while i < nl
            invariant
                i <= nl,
                nl == lines@.len(),
                rv == rules_view(rules@),
                lv == strings_view(lines@),
                functions_view(out@) + function_facts(rv, lv, i as int) == functions_view(
                    old(out)@,
                ) + function_facts(rv, lv, 0),
            decreases nl - i,
        {
            proof {
                assert(lv[i as int] == lines@[i as int]@);
            }
            self.extract_functions_line(rules, &lines[i], i + 1, out);
            proof {
                assert(function_facts(rv, lv, i as int) == function_facts_line(
                    rv,
                    lv[i as int],
                    i + 1,
                    0,
                ) + function_facts(rv, lv, i + 1));
            }
            i = i + 1;
        }
        proof {
            assert(function_facts(rv, lv, nl as int) =~= Seq::<FunctionV>::empty());
        }
    }

    fn extract_classes_line(
        &self,
        patterns: &Vec<String>,
        line: &String,
        ln: usize,
        out: &mut Vec<Class>,
    )
        ensures
            classes_view(final(out)@) == classes_view(old(out)@) + class_facts_line(
                strings_view(patterns@),
                line@,
                ln as int,
                0,
            ),
    {
        let ghost pv = strings_view(patterns@);
        let np = patterns.len();
        let mut j: usize = 0;
        proof {
            assert(classes_view(out@) =~= classes_view(old(out)@));
        }
        while j < np
            invariant
                j <= np,
                np == patterns@.len(),
                pv == strings_view(patterns@),
                classes_view(out@) + class_facts_line(pv, line@, ln as int, j as int)
                    == classes_view(old(out)@) + class_facts_line(pv, line@, ln as int, 0),
            decreases np - j,
        {
            let caps = regex_captures(patterns[j].as_str(), line.as_str());
            let ghost co = captures_of(pv[j as int], line@);
            proof {
                assert(pv[j as int] == patterns@[j as int]@);
                assert(caps_view(caps) == co);
            }
            match &caps {
                Option::Some(c) => {
                    if c.len() > 1 {
                        match &c[1] {
                            Option::Some(m) => {
                                let ghost cc = co->0;
                                let extends: Option<String> = if c.len() > 2 {
                                    match &c[2] {
                                        Option::Some(e) => Option::Some(e.clone()),
                                        Option::None => Option::None,
                                    }
                                } else {
                                    Option::None
                                };
                                let cl = Class {
                                    name: m.clone(),
                                    extends,
                                    implements: Vec::new(),
                                    methods: Vec::new(),
                                    line_number: ln,
                                };
                                proof {
                                    assert(cc[1] == Option::Some(m@));
                                    if cc.len() > 2 {
                                        assert(cc[2] == (match c@[2] {
                                            Option::Some(e) => Option::Some(e@),
                                            Option::None => Option::<Seq<char>>::None,
                                        }));
                                    }
                                    assert(functions_view(Seq::<Function>::empty())
                                        =~= Seq::<FunctionV>::empty());
                                    assert(cl@ =~= (ClassV {
                                        name: m@,
                                        extends: if 2 < cc.len() {
                                            cc[2]
                                        } else {
                                            Option::None
                                        },
                                        implements: Seq::empty(),
                                        methods: Seq::empty(),
                                        line_number: ln as int,
                                    }));
                                    assert(class_facts_line(pv, line@, ln as int, j as int)
                                        == seq![cl@] + class_facts_line(
                                        pv,
                                        line@,
                                        ln as int,
                                        j + 1,
                                    ));
                                    assert(classes_view(out@.push(cl)) =~= classes_view(
                                        out@,
                                    ).push(cl@));
                                    assert(classes_view(out@).push(cl@) + class_facts_line(
                                        pv,
                                        line@,
                                        ln as int,
                                        j + 1,
                                    ) =~= classes_view(out@) + class_facts_line(
                                        pv,
                                        line@,
                                        ln as int,
                                        j as int,
                                    ));
                                }
                                out.push(cl);
                            },
                            Option::None => {
                                proof {
                                    let cc = co->0;
                                    assert(cc[1] is None);
                                    assert(class_facts_line(pv, line@, ln as int, j as int)
                                        == class_facts_line(pv, line@, ln as int, j + 1));
                                }
                            },
                        }
                    } else {
                        proof {
                            assert(class_facts_line(pv, line@, ln as int, j as int)
                                == class_facts_line(pv, line@, ln as int, j + 1));
                        }
                    }
                },
                Option::None => {
                    proof {
                        assert(class_facts_line(pv, line@, ln as int, j as int)
                            == class_facts_line(pv, line@, ln as int, j + 1));
                    }
                },
            }
            j = j + 1;
        }
    }

    fn extract_classes(&self, patterns: &Vec<String>, lines: &Vec<String>, out: &mut Vec<Class>)
        ensures
            classes_view(final(out)@) == classes_view(old(out)@) + class_facts(
                strings_view(patterns@),
                strings_view(lines@),
                0,
            ),
    {
        let ghost pv = strings_view(patterns@);
        let ghost lv = strings_view(lines@);
        let nl = lines.len();
        let mut i: usize = 0;
        proof {
            assert(classes_view(out@) =~= classes_view(old(out)@));
        }
        while i < nl
            invariant
                i <= nl,
                nl == lines@.len(),
                pv == strings_view(patterns@),
                lv == strings_view(lines@),
                classes_view(out@) + class_facts(pv, lv, i as int) == classes_view(old(out)@)
                    + class_facts(pv, lv, 0),
            decreases nl - i,
        {
            proof {
                assert(lv[i as int] == lines@[i as int]@);
            }
            self.extract_classes_line(patterns, &lines[i], i + 1, out);
            proof {
                assert(class_facts(pv, lv, i as int) == class_facts_line(
                    pv,
                    lv[i as int],
                    i + 1,
                    0,
                ) + class_facts(pv, lv, i + 1));
            }
            i = i + 1;
        }
        proof {
            assert(class_facts(pv, lv, nl as int) =~= Seq::<ClassV>::empty());
        }
    }

    /// Parses one file's text under the file's detected language.  Total
    /// over arbitrary text: no content makes it fail, and the facts are a
    /// pure function of the content and the language.
    pub fn parse_file(&self, file_info: &FileInfo, content: &str) -> (r: ParsedFile)
        ensures
            r@.file_info == file_info@,
            parsed_matches(r@, registry_view(self.language_patterns@), content@),
    {
        let ghost reg = registry_view(self.language_patterns@);
        let lines = split_lines(content);
        let default_language = String::from_str("unknown");
        let language: &String = match &file_info.language {
            Option::Some(l) => l,
            Option::None => &default_language,
        };
        proof {
            assert(language@ == spec_lang_of(file_info@));
            assert(strings_view(lines@) == spec_lines(content@));
        }
        let pats_opt = self.lookup(language.as_str());
        let mut imports: Vec<Import> = Vec::new();
        let mut exports: Vec<Export> = Vec::new();
        let mut functions: Vec<Function> = Vec::new();
        let mut classes: Vec<Class> = Vec::new();
        proof {
            assert(imports_view(imports@) =~= Seq::<ImportV>::empty());
            assert(exports_view(exports@) =~= Seq::<ExportV>::empty());
            assert(functions_view(functions@) =~= Seq::<FunctionV>::empty());
            assert(classes_view(classes@) =~= Seq::<ClassV>::empty());
        }
        match pats_opt {
            Option::Some(p) => {
                self.extract_imports(&p.import_patterns, &lines, &mut imports);
                self.extract_exports(&p.export_patterns, &lines, &mut exports);
                self.extract_functions(&p.function_patterns, &lines, &mut functions);
                self.extract_classes(&p.class_patterns, &lines, &mut classes);
            },
            Option::None => {
                let fallback_imports = fallback_import_patterns();
                self.extract_imports(&fallback_imports, &lines, &mut imports);
                let fallback_rules = fallback_function_rules();
                self.extract_functions(&fallback_rules, &lines, &mut functions);
            },
        }
        let r = ParsedFile {
            file_info: file_info.clone(),
            imports,
            exports,
            functions,
            classes,
        };
        proof {
            let f = spec_parse(reg, spec_lang_of(file_info@), content@);
            assert(r@.imports =~= f.imports);
            assert(r@.exports =~= f.exports);
            assert(r@.functions =~= f.functions);
            assert(r@.classes =~= f.classes);
        }
        r
    }

    /// All module names a fact record imports, in order.
    pub fn get_dependencies(&self, parsed_file: &ParsedFile) -> (r: Vec<String>)
        ensures
            strings_view(r@) == parsed_file@.imports.map_values(|im: ImportV| im.module),
    {
        let n = parsed_file.imports.len();
        let mut r: Vec<String> = Vec::new();
        let mut i: usize = 0;
        proof {
            assert(strings_view(r@) =~= parsed_file@.imports.map_values(
                |im: ImportV| im.module,
            ).take(0));
        }
        while i < n
            invariant
                i <= n,
                n == parsed_file.imports@.len(),
                strings_view(r@) == parsed_file@.imports.map_values(|im: ImportV| im.module).take(
                    i as int,
                ),
            decreases n - i,
        {
            let m = parsed_file.imports[i].module.clone();
            proof {
                let full = parsed_file@.imports.map_values(|im: ImportV| im.module);
                assert(full[i as int] == parsed_file.imports@[i as int]@.module);
                assert(strings_view(r@.push(m)) =~= strings_view(r@).push(m@));
                assert(strings_view(r@).push(m@) =~= full.take(i + 1));
            }
            r.push(m);
            i = i + 1;
        }
        proof {
            let full = parsed_file@.imports.map_values(|im: ImportV| im.module);
            assert(full.take(n as int) =~= full);
        }
        r
    }
}

} // verus!
