use vstd::prelude::*;
use crate::regexes::regex_ok;
use crate::strutil::strings_view;

verus! {

// The pattern registry: for each supported language tag, four ordered lists
// of detection rules (imports, exports, functions, classes), and a generic
// fallback set for everything else.  A function rule carries the positions
// of its name group and of its parameter-list group, so that a rule with an
// extra leading qualifier group still yields the declared name.

pub struct FunctionRule {
    pub pattern: String,
    pub name_group: usize,
    pub params_group: Option<usize>,
}

pub struct LanguagePatterns {
    pub import_patterns: Vec<String>,
    pub export_patterns: Vec<String>,
    pub function_patterns: Vec<FunctionRule>,
    pub class_patterns: Vec<String>,
}

pub struct FunctionRuleV {
    pub pattern: Seq<char>,
    pub name_group: int,
    pub params_group: Option<int>,
}

pub struct LanguagePatternsV {
    pub import_patterns: Seq<Seq<char>>,
    pub export_patterns: Seq<Seq<char>>,
    pub function_patterns: Seq<FunctionRuleV>,
    pub class_patterns: Seq<Seq<char>>,
}

impl View for FunctionRule {
    type V = FunctionRuleV;

    open spec fn view(&self) -> FunctionRuleV {
        FunctionRuleV {
            pattern: self.pattern@,
            name_group: self.name_group as int,
            params_group: match self.params_group {
                Option::Some(g) => Option::Some(g as int),
                Option::None => Option::None,
            },
        }
    }
}

pub open spec fn rules_view(s: Seq<FunctionRule>) -> Seq<FunctionRuleV> {
    s.map_values(|x: FunctionRule| x@)
}

impl View for LanguagePatterns {
    type V = LanguagePatternsV;

    open spec fn view(&self) -> LanguagePatternsV {
        LanguagePatternsV {
            import_patterns: strings_view(self.import_patterns@),
            export_patterns: strings_view(self.export_patterns@),
            function_patterns: rules_view(self.function_patterns@),
            class_patterns: strings_view(self.class_patterns@),
        }
    }
}

/// Every pattern of the four lists is acceptable to the regex engine.
pub open spec fn patterns_ok(p: LanguagePatternsV) -> bool {
    &&& forall|i: int| 0 <= i < p.import_patterns.len() ==> regex_ok(#[trigger] p.import_patterns[i])
    &&& forall|i: int| 0 <= i < p.export_patterns.len() ==> regex_ok(#[trigger] p.export_patterns[i])
    &&& forall|i: int|
        0 <= i < p.function_patterns.len() ==> regex_ok(#[trigger] p.function_patterns[i].pattern)
    &&& forall|i: int| 0 <= i < p.class_patterns.len() ==> regex_ok(#[trigger] p.class_patterns[i])
}

pub(crate) fn push_pat(v: &mut Vec<String>, p: &str)
    ensures
        final(v)@.len() == old(v)@.len() + 1,
        forall|i: int| 0 <= i < old(v)@.len() ==> final(v)@[i] == old(v)@[i],
        final(v)@[old(v)@.len() as int]@ == p@,
{
    let s = String::from_str(p);
    v.push(s);
}

fn push_rule(v: &mut Vec<FunctionRule>, p: &str, name_group: usize, params_group: Option<usize>)
    ensures
        final(v)@.len() == old(v)@.len() + 1,
        forall|i: int| 0 <= i < old(v)@.len() ==> final(v)@[i] == old(v)@[i],
        final(v)@[old(v)@.len() as int]@ == (FunctionRuleV {
            pattern: p@,
            name_group: name_group as int,
            params_group: match params_group {
                Option::Some(g) => Option::Some(g as int),
                Option::None => Option::None,
            },
        }),
{
    let s = String::from_str(p);
    v.push(FunctionRule { pattern: s, name_group, params_group });
}

pub open spec fn javascript_patterns_v() -> LanguagePatternsV {
    LanguagePatternsV {
        import_patterns: seq![
            r#"import\s+.*?\s+from\s+['"]([^'"]+)['"]"#@,
            r#"import\s+['"]([^'"]+)['"]"#@,
            r#"const\s+.*?\s*=\s*require\s*\(\s*['"]([^'"]+)['"]"#@,
        ],
        export_patterns: seq![
            r"export\s+(function|class|const|let|var)\s+(\w+)"@,
            r"export\s+default\s+(\w+)"@,
            r"export\s*\{\s*([^}]+)\s*\}"@,
        ],
        function_patterns: seq![
            FunctionRuleV {
                pattern: r"function\s+(\w+)\s*\(([^)]*)\)"@,
                name_group: 1,
                params_group: Option::Some(2),
            },
            FunctionRuleV {
                pattern: r"(\w+)\s*:\s*function\s*\(([^)]*)\)"@,
                name_group: 1,
                params_group: Option::Some(2),
            },
            FunctionRuleV { pattern: r"(\w+)\s*=>\s*"@, name_group: 1, params_group: Option::None },
            FunctionRuleV {
                pattern: r"(async\s+)?function\s+(\w+)"@,
                name_group: 2,
                params_group: Option::None,
            },
        ],
        class_patterns: seq![r"class\s+(\w+)(?:\s+extends\s+(\w+))?"@],
    }
}

pub fn javascript_patterns() -> (r: LanguagePatterns)
    ensures
        r@ == javascript_patterns_v(),
{
    let mut import_patterns: Vec<String> = Vec::new();
    push_pat(&mut import_patterns, r#"import\s+.*?\s+from\s+['"]([^'"]+)['"]"#);
    push_pat(&mut import_patterns, r#"import\s+['"]([^'"]+)['"]"#);
    push_pat(&mut import_patterns, r#"const\s+.*?\s*=\s*require\s*\(\s*['"]([^'"]+)['"]"#);
    let mut export_patterns: Vec<String> = Vec::new();
    push_pat(&mut export_patterns, r"export\s+(function|class|const|let|var)\s+(\w+)");
    push_pat(&mut export_patterns, r"export\s+default\s+(\w+)");
    push_pat(&mut export_patterns, r"export\s*\{\s*([^}]+)\s*\}");
    let mut function_patterns: Vec<FunctionRule> = Vec::new();
    push_rule(&mut function_patterns, r"function\s+(\w+)\s*\(([^)]*)\)", 1, Option::Some(2));
    push_rule(&mut function_patterns, r"(\w+)\s*:\s*function\s*\(([^)]*)\)", 1, Option::Some(2));
    push_rule(&mut function_patterns, r"(\w+)\s*=>\s*", 1, Option::None);
    push_rule(&mut function_patterns, r"(async\s+)?function\s+(\w+)", 2, Option::None);
    let mut class_patterns: Vec<String> = Vec::new();
    push_pat(&mut class_patterns, r"class\s+(\w+)(?:\s+extends\s+(\w+))?");
    let r = LanguagePatterns { import_patterns, export_patterns, function_patterns, class_patterns };
    proof {
        assert(r@.import_patterns =~= javascript_patterns_v().import_patterns);
        assert(r@.export_patterns =~= javascript_patterns_v().export_patterns);
        assert(r@.function_patterns =~= javascript_patterns_v().function_patterns);
        assert(r@.class_patterns =~= javascript_patterns_v().class_patterns);
    }
    r
}

pub open spec fn python_patterns_v() -> LanguagePatternsV {
    LanguagePatternsV {
        import_patterns: seq![r"from\s+([^\s]+)\s+import"@, r"import\s+([^\s,]+)"@],
        export_patterns: seq![r"__all__\s*=\s*\[([^\]]+)\]"@],
        function_patterns: seq![
            FunctionRuleV {
                pattern: r"def\s+(\w+)\s*\(([^)]*)\)"@,
                name_group: 1,
                params_group: Option::Some(2),
            },
            FunctionRuleV {
                pattern: r"async\s+def\s+(\w+)\s*\(([^)]*)\)"@,
                name_group: 1,
                params_group: Option::Some(2),
            },
        ],
        class_patterns: seq![r"class\s+(\w+)(?:\(([^)]+)\))?"@],
    }
}

pub fn python_patterns() -> (r: LanguagePatterns)
    ensures
        r@ == python_patterns_v(),
{
    let mut import_patterns: Vec<String> = Vec::new();
    push_pat(&mut import_patterns, r"from\s+([^\s]+)\s+import");
    push_pat(&mut import_patterns, r"import\s+([^\s,]+)");
    let mut export_patterns: Vec<String> = Vec::new();
    push_pat(&mut export_patterns, r"__all__\s*=\s*\[([^\]]+)\]");
    let mut function_patterns: Vec<FunctionRule> = Vec::new();
    push_rule(&mut function_patterns, r"def\s+(\w+)\s*\(([^)]*)\)", 1, Option::Some(2));
    push_rule(&mut function_patterns, r"async\s+def\s+(\w+)\s*\(([^)]*)\)", 1, Option::Some(2));
    let mut class_patterns: Vec<String> = Vec::new();
    push_pat(&mut class_patterns, r"class\s+(\w+)(?:\(([^)]+)\))?");
    let r = LanguagePatterns { import_patterns, export_patterns, function_patterns, class_patterns };
    proof {
        assert(r@.import_patterns =~= python_patterns_v().import_patterns);
        assert(r@.export_patterns =~= python_patterns_v().export_patterns);
        assert(r@.function_patterns =~= python_patterns_v().function_patterns);
        assert(r@.class_patterns =~= python_patterns_v().class_patterns);
    }
    r
}

pub open spec fn rust_crate_import_pattern() -> Seq<char> {
    "ext"@ + r"ern\s+crate\s+(\w+)"@
}

pub open spec fn rust_patterns_v() -> LanguagePatternsV {
    LanguagePatternsV {
        import_patterns: seq![r"use\s+([^;]+);"@, rust_crate_import_pattern()],
        export_patterns: seq![r"pub\s+(fn|struct|enum|trait|mod)\s+(\w+)"@],
        function_patterns: seq![
            FunctionRuleV {
                pattern: r"fn\s+(\w+)\s*\(([^)]*)\)"@,
                name_group: 1,
                params_group: Option::Some(2),
            },
            FunctionRuleV {
                pattern: r"pub\s+fn\s+(\w+)\s*\(([^)]*)\)"@,
                name_group: 1,
                params_group: Option::Some(2),
            },
            FunctionRuleV {
                pattern: r"async\s+fn\s+(\w+)"@,
                name_group: 1,
                params_group: Option::None,
            },
        ],
        class_patterns: seq![r"struct\s+(\w+)"@, r"enum\s+(\w+)"@, r"trait\s+(\w+)"@],
    }
}

pub fn rust_patterns() -> (r: LanguagePatterns)
    ensures
        r@ == rust_patterns_v(),
{
    let mut import_patterns: Vec<String> = Vec::new();
    push_pat(&mut import_patterns, r"use\s+([^;]+);");
    let crate_pat = String::from_str("ext").concat(r"ern\s+crate\s+(\w+)");
    import_patterns.push(crate_pat);
    let mut export_patterns: Vec<String> = Vec::new();
    push_pat(&mut export_patterns, r"pub\s+(fn|struct|enum|trait|mod)\s+(\w+)");
    let mut function_patterns: Vec<FunctionRule> = Vec::new();
    push_rule(&mut function_patterns, r"fn\s+(\w+)\s*\(([^)]*)\)", 1, Option::Some(2));
    push_rule(&mut function_patterns, r"pub\s+fn\s+(\w+)\s*\(([^)]*)\)", 1, Option::Some(2));
    push_rule(&mut function_patterns, r"async\s+fn\s+(\w+)", 1, Option::None);
    let mut class_patterns: Vec<String> = Vec::new();
    push_pat(&mut class_patterns, r"struct\s+(\w+)");
    push_pat(&mut class_patterns, r"enum\s+(\w+)");
    push_pat(&mut class_patterns, r"trait\s+(\w+)");
    let r = LanguagePatterns { import_patterns, export_patterns, function_patterns, class_patterns };
    proof {
        assert(r@.import_patterns =~= rust_patterns_v().import_patterns);
        assert(r@.export_patterns =~= rust_patterns_v().export_patterns);
        assert(r@.function_patterns =~= rust_patterns_v().function_patterns);
        assert(r@.class_patterns =~= rust_patterns_v().class_patterns);
    }
    r
}

/// The generic cross-language header-import shape, for files whose language
/// has no registry entry.
pub open spec fn c_header_import_pattern() -> Seq<char> {
    "#inc"@ + "lude\\s*[<\"]([^>\"]+)[>\"]"@
}

pub open spec fn fallback_import_patterns_v() -> Seq<Seq<char>> {
    seq![
        r#"import.*['"]([^'"]+)['"]"#@,
        c_header_import_pattern(),
        r#"require\s*\(['"]([^'"]+)['"]\)"#@,
    ]
}

pub fn fallback_import_patterns() -> (r: Vec<String>)
    ensures
        strings_view(r@) == fallback_import_patterns_v(),
{
    let mut v: Vec<String> = Vec::new();
    push_pat(&mut v, r#"import.*['"]([^'"]+)['"]"#);
    let header_pat = String::from_str("#inc").concat("lude\\s*[<\"]([^>\"]+)[>\"]");
    v.push(header_pat);
    push_pat(&mut v, r#"require\s*\(['"]([^'"]+)['"]\)"#);
    proof {
        assert(strings_view(v@) =~= fallback_import_patterns_v());
    }
    v
}

pub open spec fn fallback_function_rules_v() -> Seq<FunctionRuleV> {
    seq![
        FunctionRuleV {
            pattern: r"(function|def|fn)\s+(\w+)"@,
            name_group: 2,
            params_group: Option::None,
        },
        FunctionRuleV { pattern: r"(\w+)\s*\("@, name_group: 1, params_group: Option::None },
    ]
}

pub fn fallback_function_rules() -> (r: Vec<FunctionRule>)
    ensures
        rules_view(r@) == fallback_function_rules_v(),
{
    let mut v: Vec<FunctionRule> = Vec::new();
    push_rule(&mut v, r"(function|def|fn)\s+(\w+)", 2, Option::None);
    push_rule(&mut v, r"(\w+)\s*\(", 1, Option::None);
    proof {
        assert(rules_view(v@) =~= fallback_function_rules_v());
    }
    v
}

/// The full registry: language tag to rule lists, in a fixed order.
pub open spec fn spec_registry() -> Seq<(Seq<char>, LanguagePatternsV)> {
    seq![
        ("javascript"@, javascript_patterns_v()),
        ("typescript"@, javascript_patterns_v()),
        ("python"@, python_patterns_v()),
        ("rust"@, rust_patterns_v()),
    ]
}

pub open spec fn registry_view(r: Seq<(String, LanguagePatterns)>) -> Seq<
    (Seq<char>, LanguagePatternsV),
> {
    r.map_values(|e: (String, LanguagePatterns)| (e.0@, e.1@))
}

pub fn build_registry() -> (r: Vec<(String, LanguagePatterns)>)
    ensures
        registry_view(r@) == spec_registry(),
{
    let mut r: Vec<(String, LanguagePatterns)> = Vec::new();
    r.push((String::from_str("javascript"), javascript_patterns()));
    r.push((String::from_str("typescript"), javascript_patterns()));
    r.push((String::from_str("python"), python_patterns()));
    r.push((String::from_str("rust"), rust_patterns()));
    proof {
        assert(registry_view(r@) =~= spec_registry());
    }
    r
}

/// The lookup of a language tag among the registry entries, started at
/// entry `i`: the first entry at or after `i` whose tag matches.
pub open spec fn lookup_from(
    reg: Seq<(Seq<char>, LanguagePatternsV)>,
    lang: Seq<char>,
    i: int,
) -> Option<LanguagePatternsV>
    decreases reg.len() - i,
{
    if i < 0 || i >= reg.len() {
        Option::None
    } else if reg[i].0 == lang {
        Option::Some(reg[i].1)
    } else {
        lookup_from(reg, lang, i + 1)
    }
}

/// The registered rule lists for a language tag, if the tag has an entry:
/// the first entry with the tag.
pub open spec fn lookup_lang(reg: Seq<(Seq<char>, LanguagePatternsV)>, lang: Seq<char>) -> Option<
    LanguagePatternsV,
> {
    lookup_from(reg, lang, 0)
}

} // verus!
