use vstd::prelude::*;

verus! {

// The file-discovery collaborator walks the file system and supplies one
// record per candidate file; the record type and the pure decision logic
// live here, the walking itself does not.

/// The view of an optional string.
pub open spec fn opt_view(o: Option<String>) -> Option<Seq<char>> {
    match o {
        Option::Some(s) => Option::Some(s@),
        Option::None => Option::None,
    }
}

pub fn clone_opt_string(o: &Option<String>) -> (r: Option<String>)
    ensures
        opt_view(r) == opt_view(*o),
{
    match o {
        Option::Some(s) => Option::Some(s.clone()),
        Option::None => Option::None,
    }
}

/// One discovered file: its path, its size in bytes, its lower-cased
/// extension and its detected language, if any.
#[derive(Debug, PartialEq)]
pub struct FileInfo {
    pub path: String,
    pub size: u64,
    pub extension: Option<String>,
    pub language: Option<String>,
}

pub struct FileInfoV {
    pub path: Seq<char>,
    pub size: u64,
    pub extension: Option<Seq<char>>,
    pub language: Option<Seq<char>>,
}

impl View for FileInfo {
    type V = FileInfoV;

    open spec fn view(&self) -> FileInfoV {
        FileInfoV {
            path: self.path@,
            size: self.size,
            extension: opt_view(self.extension),
            language: opt_view(self.language),
        }
    }
}

impl Clone for FileInfo {
    fn clone(&self) -> (r: Self)
        ensures
            r@ == self@,
    {
        FileInfo {
            path: self.path.clone(),
            size: self.size,
            extension: clone_opt_string(&self.extension),
            language: clone_opt_string(&self.language),
        }
    }
}

pub open spec fn infos_view(s: Seq<FileInfo>) -> Seq<FileInfoV> {
    s.map_values(|x: FileInfo| x@)
}

/// The raw file name of a path: everything after the last slash.
pub open spec fn raw_file_name(path: Seq<char>) -> Seq<char> {
    path.subrange(crate::strutil::rfind_ch(path, '/') + 1, path.len() as int)
}

/// Whether a lower-cased bare file name counts as a text document.
pub open spec fn doc_filename(l: Seq<char>) -> bool {
    ||| l == "readme"@
    ||| l == "license"@
    ||| l == "changelog"@
    ||| l == "contributing"@
    ||| l == "authors"@
    ||| l == "install"@
    ||| l == "usage"@
    ||| l == "todo"@
    ||| l == "news"@
    ||| l == "history"@
    ||| l == "acknowledgments"@
    ||| l == "makefile"@
    ||| l == "dockerfile"@
}

/// The language a lower-cased extension maps to, if any.
pub open spec fn ext_language(e: Seq<char>) -> Option<Seq<char>> {
    if e == "rs"@ { Option::Some("rust"@) }
    else if e == "js"@ { Option::Some("javascript"@) }
    else if e == "ts"@ { Option::Some("typescript"@) }
    else if e == "tsx"@ { Option::Some("typescript"@) }
    else if e == "jsx"@ { Option::Some("javascript"@) }
    else if e == "py"@ { Option::Some("python"@) }
    else if e == "java"@ { Option::Some("java"@) }
    else if e == "go"@ { Option::Some("go"@) }
    else if e == "cpp"@ || e == "cc"@ || e == "cxx"@ { Option::Some("cpp"@) }
    else if e == "c"@ { Option::Some("c"@) }
    else if e == "h"@ || e == "hpp"@ { Option::Some("c"@) }
    else if e == "php"@ { Option::Some("php"@) }
    else if e == "rb"@ { Option::Some("ruby"@) }
    else if e == "cs"@ { Option::Some("csharp"@) }
    else if e == "swift"@ { Option::Some("swift"@) }
    else if e == "kt"@ { Option::Some("kotlin"@) }
    else if e == "scala"@ { Option::Some("scala"@) }
    else if e == "clj"@ || e == "cljs"@ { Option::Some("clojure"@) }
    else if e == "hs"@ { Option::Some("haskell"@) }
    else if e == "ml"@ || e == "mli"@ { Option::Some("ocaml"@) }
    else if e == "elm"@ { Option::Some("elm"@) }
    else if e == "ex"@ || e == "exs"@ { Option::Some("elixir"@) }
    else if e == "erl"@ || e == "hrl"@ { Option::Some("erlang"@) }
    else if e == "dart"@ { Option::Some("dart"@) }
    else if e == "lua"@ { Option::Some("lua"@) }
    else if e == "r"@ { Option::Some("r"@) }
    else if e == "m"@ { Option::Some("objective-c"@) }
    else if e == "mm"@ { Option::Some("objective-cpp"@) }
    else if e == "pl"@ || e == "pm"@ { Option::Some("perl"@) }
    else if e == "sh"@ || e == "bash"@ { Option::Some("bash"@) }
    else if e == "ps1"@ { Option::Some("powershell"@) }
    else if e == "sql"@ { Option::Some("sql"@) }
    else if e == "html"@ || e == "htm"@ { Option::Some("html"@) }
    else if e == "css"@ { Option::Some("css"@) }
    else if e == "scss"@ || e == "sass"@ { Option::Some("scss"@) }
    else if e == "xml"@ { Option::Some("xml"@) }
    else if e == "json"@ { Option::Some("json"@) }
    else if e == "yaml"@ || e == "yml"@ { Option::Some("yaml"@) }
    else if e == "toml"@ { Option::Some("toml"@) }
    else if e == "md"@ { Option::Some("markdown"@) }
    else if e == "txt"@ { Option::Some("text"@) }
    else if e == "tex"@ { Option::Some("latex"@) }
    else if e == "dockerfile"@ { Option::Some("dockerfile"@) }
    else if e == "makefile"@ { Option::Some("makefile"@) }
    else if e == "cmake"@ { Option::Some("cmake"@) }
    else { Option::None }
}

/// The language a file record is tagged with: by bare file name for files
/// without an extension, by lower-cased extension otherwise.
pub open spec fn spec_detect_language(path: Seq<char>, ext: Option<Seq<char>>) -> Option<
    Seq<char>,
> {
    match ext {
        Option::None => {
            if doc_filename(crate::strutil::lower_of(raw_file_name(path))) {
                Option::Some("text"@)
            } else {
                Option::None
            }
        },
        Option::Some(e) => ext_language(e),
    }
}

fn language_for_extension(e: &String) -> (r: Option<String>)
    ensures
        opt_view(r) == ext_language(e@),
{
    let s = e.as_str();
    if crate::strutil::str_eq(s, "rs") { Option::Some(String::from_str("rust")) }
    else if crate::strutil::str_eq(s, "js") { Option::Some(String::from_str("javascript")) }
    else if crate::strutil::str_eq(s, "ts") { Option::Some(String::from_str("typescript")) }
    else if crate::strutil::str_eq(s, "tsx") { Option::Some(String::from_str("typescript")) }
    else if crate::strutil::str_eq(s, "jsx") { Option::Some(String::from_str("javascript")) }
    else if crate::strutil::str_eq(s, "py") { Option::Some(String::from_str("python")) }
    else if crate::strutil::str_eq(s, "java") { Option::Some(String::from_str("java")) }
    else if crate::strutil::str_eq(s, "go") { Option::Some(String::from_str("go")) }
    else if crate::strutil::str_eq(s, "cpp") || crate::strutil::str_eq(s, "cc")
        || crate::strutil::str_eq(s, "cxx") { Option::Some(String::from_str("cpp")) }
    else if crate::strutil::str_eq(s, "c") { Option::Some(String::from_str("c")) }
    else if crate::strutil::str_eq(s, "h") || crate::strutil::str_eq(s, "hpp") {
        Option::Some(String::from_str("c"))
    }
    else if crate::strutil::str_eq(s, "php") { Option::Some(String::from_str("php")) }
    else if crate::strutil::str_eq(s, "rb") { Option::Some(String::from_str("ruby")) }
    else if crate::strutil::str_eq(s, "cs") { Option::Some(String::from_str("csharp")) }
    else if crate::strutil::str_eq(s, "swift") { Option::Some(String::from_str("swift")) }
    else if crate::strutil::str_eq(s, "kt") { Option::Some(String::from_str("kotlin")) }
    else if crate::strutil::str_eq(s, "scala") { Option::Some(String::from_str("scala")) }
    else if crate::strutil::str_eq(s, "clj") || crate::strutil::str_eq(s, "cljs") {
        Option::Some(String::from_str("clojure"))
    }
    else if crate::strutil::str_eq(s, "hs") { Option::Some(String::from_str("haskell")) }
    else if crate::strutil::str_eq(s, "ml") || crate::strutil::str_eq(s, "mli") {
        Option::Some(String::from_str("ocaml"))
    }
    else if crate::strutil::str_eq(s, "elm") { Option::Some(String::from_str("elm")) }
    else if crate::strutil::str_eq(s, "ex") || crate::strutil::str_eq(s, "exs") {
        Option::Some(String::from_str("elixir"))
    }
    else if crate::strutil::str_eq(s, "erl") || crate::strutil::str_eq(s, "hrl") {
        Option::Some(String::from_str("erlang"))
    }
    else if crate::strutil::str_eq(s, "dart") { Option::Some(String::from_str("dart")) }
    else if crate::strutil::str_eq(s, "lua") { Option::Some(String::from_str("lua")) }
    else if crate::strutil::str_eq(s, "r") { Option::Some(String::from_str("r")) }
    else if crate::strutil::str_eq(s, "m") { Option::Some(String::from_str("objective-c")) }
    else if crate::strutil::str_eq(s, "mm") { Option::Some(String::from_str("objective-cpp")) }
    else if crate::strutil::str_eq(s, "pl") || crate::strutil::str_eq(s, "pm") {
        Option::Some(String::from_str("perl"))
    }
    else if crate::strutil::str_eq(s, "sh") || crate::strutil::str_eq(s, "bash") {
        Option::Some(String::from_str("bash"))
    }
    else if crate::strutil::str_eq(s, "ps1") { Option::Some(String::from_str("powershell")) }
    else if crate::strutil::str_eq(s, "sql") { Option::Some(String::from_str("sql")) }
    else if crate::strutil::str_eq(s, "html") || crate::strutil::str_eq(s, "htm") {
        Option::Some(String::from_str("html"))
    }
    else if crate::strutil::str_eq(s, "css") { Option::Some(String::from_str("css")) }
    else if crate::strutil::str_eq(s, "scss") || crate::strutil::str_eq(s, "sass") {
        Option::Some(String::from_str("scss"))
    }
    else if crate::strutil::str_eq(s, "xml") { Option::Some(String::from_str("xml")) }
    else if crate::strutil::str_eq(s, "json") { Option::Some(String::from_str("json")) }
    else if crate::strutil::str_eq(s, "yaml") || crate::strutil::str_eq(s, "yml") {
        Option::Some(String::from_str("yaml"))
    }
    else if crate::strutil::str_eq(s, "toml") { Option::Some(String::from_str("toml")) }
    else if crate::strutil::str_eq(s, "md") { Option::Some(String::from_str("markdown")) }
    else if crate::strutil::str_eq(s, "txt") { Option::Some(String::from_str("text")) }
    else if crate::strutil::str_eq(s, "tex") { Option::Some(String::from_str("latex")) }
    else if crate::strutil::str_eq(s, "dockerfile") {
        Option::Some(String::from_str("dockerfile"))
    }
    else if crate::strutil::str_eq(s, "makefile") { Option::Some(String::from_str("makefile")) }
    else if crate::strutil::str_eq(s, "cmake") { Option::Some(String::from_str("cmake")) }
    else { Option::None }
}

/// Detects the language of a file from its path and lower-cased extension.
pub fn detect_language(path: &String, extension: &Option<String>) -> (r: Option<String>)
    ensures
        opt_view(r) == spec_detect_language(path@, opt_view(*extension)),
{
    match extension {
        Option::Some(e) => language_for_extension(e),
        Option::None => {
            let v = crate::strutil::chars_of(path.as_str());
            let n = v.len();
            let name_start: usize = match crate::strutil::rfind_char(&v, '/') {
                Option::Some(i) => i + 1,
                Option::None => 0,
            };
            proof {
                assert(name_start as int == crate::strutil::rfind_ch(path@, '/') + 1);
            }
            let name = crate::strutil::string_range(&v, name_start, n);
            let low = crate::strutil::to_lowercase(name.as_str());
            proof {
                assert(low@ == crate::strutil::lower_of(raw_file_name(path@)));
            }
            let s = low.as_str();
            if crate::strutil::str_eq(s, "readme") || crate::strutil::str_eq(s, "license")
                || crate::strutil::str_eq(s, "changelog") || crate::strutil::str_eq(
                s,
                "contributing",
            ) || crate::strutil::str_eq(s, "authors") || crate::strutil::str_eq(s, "install")
                || crate::strutil::str_eq(s, "usage") || crate::strutil::str_eq(s, "todo")
                || crate::strutil::str_eq(s, "news") || crate::strutil::str_eq(s, "history")
                || crate::strutil::str_eq(s, "acknowledgments") || crate::strutil::str_eq(
                s,
                "makefile",
            ) || crate::strutil::str_eq(s, "dockerfile") {
                Option::Some(String::from_str("text"))
            } else {
                Option::None
            }
        },
    }
}

/// The lower-cased extension of a path: the file name's text after its
/// final dot, none when there is no dot or only a leading one.
pub open spec fn spec_extension(path: Seq<char>) -> Option<Seq<char>> {
    let name = raw_file_name(path);
    let d = crate::strutil::rfind_ch(name, '.');
    if d <= 0 {
        Option::None
    } else {
        Option::Some(crate::strutil::lower_of(name.subrange(d + 1, name.len() as int)))
    }
}

/// The lower-cased extension of a path.
pub fn extension_of(path: &String) -> (r: Option<String>)
    ensures
        opt_view(r) == spec_extension(path@),
{
    let v = crate::strutil::chars_of(path.as_str());
    let n = v.len();
    let name_start: usize = match crate::strutil::rfind_char(&v, '/') {
        Option::Some(i) => i + 1,
        Option::None => 0,
    };
    proof {
        assert(name_start as int == crate::strutil::rfind_ch(path@, '/') + 1);
    }
    let name = crate::strutil::chars_range(&v, name_start, n);
    match crate::strutil::rfind_char(&name, '.') {
        Option::Some(d) => {
            if d == 0 {
                Option::None
            } else {
                let raw = crate::strutil::string_range(&name, d + 1, name.len());
                Option::Some(crate::strutil::to_lowercase(raw.as_str()))
            }
        },
        Option::None => Option::None,
    }
}

/// Whether some entry of `s` equals `x`.
pub open spec fn seq_has_str(s: Seq<Seq<char>>, x: Seq<char>) -> bool {
    exists|k: int| 0 <= k < s.len() && s[k] == x
}

fn strings_contain(v: &Vec<String>, x: &String) -> (r: bool)
    ensures
        r == seq_has_str(crate::strutil::strings_view(v@), x@),
{
    let n = v.len();
    let mut k: usize = 0;
    while k < n
        invariant
            k <= n,
            n == v@.len(),
            forall|t: int|
                0 <= t < k ==> #[trigger] crate::strutil::strings_view(v@)[t] != x@,
        decreases n - k,
    {
        proof {
            assert(crate::strutil::strings_view(v@)[k as int] == v@[k as int]@);
        }
        if v[k].eq(x) {
            return true;
        }
        k = k + 1;
    }
    false
}

/// The file records from a set that carry the given language tag.
pub open spec fn spec_filter_language(files: Seq<FileInfoV>, lang: Seq<char>, i: int) -> Seq<
    FileInfoV,
>
    decreases files.len() - i,
{
    if i < 0 || i >= files.len() {
        Seq::empty()
    } else {
        (if files[i].language == Option::Some(lang) {
            seq![files[i]]
        } else {
            Seq::empty()
        }) + spec_filter_language(files, lang, i + 1)
    }
}

/// The saturating byte-size total of a set of file records.
pub open spec fn spec_total_size(files: Seq<FileInfoV>, i: int, acc: u64) -> u64
    decreases files.len() - i,
{
    if i < 0 || i >= files.len() {
        acc
    } else {
        spec_total_size(
            files,
            i + 1,
            if acc + files[i].size > u64::MAX {
                u64::MAX
            } else {
                (acc + files[i].size) as u64
            },
        )
    }
}

/// The language tags of the records that carry one, in order.
pub open spec fn spec_language_keys(files: Seq<FileInfoV>, i: int) -> Seq<Seq<char>>
    decreases files.len() - i,
{
    if i < 0 || i >= files.len() {
        Seq::empty()
    } else {
        (match files[i].language {
            Option::Some(l) => seq![l],
            Option::None => Seq::empty(),
        }) + spec_language_keys(files, i + 1)
    }
}

/// Totals over the discovered files: a count, a saturating byte total, and
/// a histogram of language tags.
#[derive(Debug)]
pub struct FileStats {
    pub total_files: usize,
    pub total_size: u64,
    pub languages: Vec<(String, usize)>,
}

/// One ignore pattern's verdict on one path: a `*.`-pattern matches by file
/// name suffix, a pattern with a wildcard is tried as a regex on the path
/// and on the file name, anything else matches as a substring of the path
/// or as a whole path component.
pub open spec fn spec_ignore_one(pattern: Seq<char>, path: Seq<char>) -> bool {
    let name = raw_file_name(path);
    if crate::dependency_graph::starts_with(pattern, "*."@) {
        crate::strutil::ends_with(name, "."@ + pattern.subrange(2, pattern.len() as int))
    } else if crate::strutil::has_ch(pattern, '*') {
        let rp = crate::strutil::replace_all(pattern, '*', ".*"@);
        crate::regexes::match_of(rp, path) || crate::regexes::match_of(rp, name)
    } else {
        crate::strutil::has_sub(path, pattern) || (exists|k: int|
            0 <= k < crate::strutil::spec_split(path, '/').len() && crate::strutil::spec_split(
                path,
                '/',
            )[k] == pattern)
    }
}

/// Whether any configured ignore pattern matches the path.
pub open spec fn spec_should_ignore(patterns: Seq<Seq<char>>, path: Seq<char>) -> bool {
    exists|k: int| 0 <= k < patterns.len() && spec_ignore_one(#[trigger] patterns[k], path)
}

fn ignore_one(pattern: &String, path: &String) -> (r: bool)
    ensures
        r == spec_ignore_one(pattern@, path@),
{
    let pv = crate::strutil::chars_of(pattern.as_str());
    let v = crate::strutil::chars_of(path.as_str());
    let n = v.len();
    let name_start: usize = match crate::strutil::rfind_char(&v, '/') {
        Option::Some(i) => i + 1,
        Option::None => 0,
    };
    proof {
        assert(name_start as int == crate::strutil::rfind_ch(path@, '/') + 1);
    }
    let name = crate::strutil::chars_range(&v, name_start, n);
    let is_star_dot = pv.len() >= 2 && pv[0] == '*' && pv[1] == '.';
    proof {
        reveal_strlit("*.");
        if is_star_dot {
            assert(pattern@.subrange(0, 2) =~= "*."@);
        } else if crate::dependency_graph::starts_with(pattern@, "*."@) {
            assert(pattern@.subrange(0, 2)[0] == pattern@[0]);
            assert(pattern@.subrange(0, 2)[1] == pattern@[1]);
            assert(false);
        }
    }
    if is_star_dot {
        let mut suffix: Vec<char> = Vec::new();
        suffix.push('.');
        let mut t: usize = 2;
        while t < pv.len()
            invariant
                2 <= t <= pv@.len(),
                suffix@ == seq!['.'] + pv@.subrange(2, t as int),
            decreases pv@.len() - t,
        {
            suffix.push(pv[t]);
            t = t + 1;
            proof {
                assert(suffix@ =~= seq!['.'] + pv@.subrange(2, t as int));
            }
        }
        proof {
            reveal_strlit(".");
            assert(suffix@ =~= "."@ + pattern@.subrange(2, pattern@.len() as int));
        }
        crate::strutil::ends_with_chars(&name, &suffix)
    } else if crate::strutil::contains_char(&pv, '*') {
        let rp = crate::strutil::replace_char(&pv, '*', ".*");
        let name_str = crate::strutil::string_from_chars(&name);
        if crate::regexes::regex_is_match(rp.as_str(), path.as_str()) {
            true
        } else {
            crate::regexes::regex_is_match(rp.as_str(), name_str.as_str())
        }
    } else {
        if crate::strutil::contains_chars(&v, &pv) {
            return true;
        }
        let pieces = crate::strutil::split_chars(&v, '/');
        let ghost comps = crate::strutil::spec_split(path@, '/');
        let m = pieces.len();
        let mut k: usize = 0;
        while k < m
            invariant
                k <= m,
                m == pieces@.len(),
                pv@ == pattern@,
                v@ == path@,
                comps == crate::strutil::spec_split(path@, '/'),
                crate::strutil::charss_view(pieces@) == comps,
                !crate::dependency_graph::starts_with(pattern@, "*."@),
                !crate::strutil::has_ch(pattern@, '*'),
                forall|t: int| 0 <= t < k ==> comps[t] != pattern@,
            decreases m - k,
        {
            proof {
                assert(comps[k as int] == pieces@[k as int]@);
            }
            if crate::strutil::chars_eq(&pieces[k], &pv) {
                proof {
                    assert(comps[k as int] == pattern@);
                    assert(spec_ignore_one(pattern@, path@));
                }
                return true;
            }
            k = k + 1;
        }
        false
    }
}

/// The file-discovery component: holds the run configuration; the walking
/// itself is its caller's task.
pub struct FileDiscovery {
    pub config: crate::config::Config,
}

impl FileDiscovery {
    pub fn new(config: crate::config::Config) -> (r: FileDiscovery)
        ensures
            r.config@ == config@,
    {
        FileDiscovery { config }
    }

    /// Whether any configured ignore pattern matches the path.
    pub fn should_ignore_file(&self, path: &String) -> (r: bool)
        ensures
            r == spec_should_ignore(self.config@.ignore_patterns, path@),
    {
        let n = self.config.ignore_patterns.len();
        let mut k: usize = 0;
        while k < n
            invariant
                k <= n,
                n == self.config.ignore_patterns@.len(),
                forall|t: int|
                    0 <= t < k ==> !spec_ignore_one(
                        #[trigger] self.config@.ignore_patterns[t],
                        path@,
                    ),
            decreases n - k,
        {
            proof {
                assert(self.config@.ignore_patterns[k as int]
                    == self.config.ignore_patterns@[k as int]@);
            }
            if ignore_one(&self.config.ignore_patterns[k], path) {
                return true;
            }
            k = k + 1;
        }
        false
    }

    /// The decision part of file intake: a file larger than the size cap or
    /// with an extension outside the configured list is skipped; otherwise
    /// its record carries the lower-cased extension and detected language.
    pub fn process_file(&self, path: &String, size: u64) -> (r: Option<FileInfo>)
        ensures
            match r {
                Option::Some(fi) => {
                    &&& size <= self.config@.max_file_size as u64
                    &&& fi@.path == path@
                    &&& fi@.size == size
                    &&& fi@.extension == spec_extension(path@)
                    &&& fi@.language == spec_detect_language(path@, spec_extension(path@))
                    &&& (spec_extension(path@) matches Option::Some(e) ==> seq_has_str(
                        self.config@.file_extensions,
                        e,
                    ))
                },
                Option::None => size > self.config@.max_file_size as u64 || (spec_extension(path@)
                    matches Option::Some(e) && !seq_has_str(self.config@.file_extensions, e)),
            },
    {
        if size > self.config.max_file_size as u64 {
            return Option::None;
        }
        let extension = extension_of(path);
        match &extension {
            Option::Some(e) => {
                if !strings_contain(&self.config.file_extensions, e) {
                    return Option::None;
                }
            },
            Option::None => {},
        }
        let language = detect_language(path, &extension);
        Option::Some(FileInfo { path: path.clone(), size, extension, language })
    }

    /// The records carrying exactly the given language tag.
    pub fn filter_by_language(&self, files: &Vec<FileInfo>, language: &str) -> (r: Vec<FileInfo>)
        ensures
            infos_view(r@) == spec_filter_language(infos_view(files@), language@, 0),
    {
        let ghost fv = infos_view(files@);
        let n = files.len();
        let mut r: Vec<FileInfo> = Vec::new();
        let mut i: usize = 0;
        proof {
            assert(infos_view(r@) + spec_filter_language(fv, language@, 0) =~= spec_filter_language(
                fv,
                language@,
                0,
            ));
        }
        while i < n
            invariant
                i <= n,
                n == files@.len(),
                fv == infos_view(files@),
                spec_filter_language(fv, language@, 0) == infos_view(r@) + spec_filter_language(
                    fv,
                    language@,
                    i as int,
                ),
            decreases n - i,
        {
            proof {
                assert(fv[i as int] == files@[i as int]@);
            }
            let matched = match &files[i].language {
                Option::Some(l) => crate::strutil::str_eq(l.as_str(), language),
                Option::None => false,
            };
            if matched {
                let c = files[i].clone();
                proof {
                    assert(infos_view(r@.push(c)) =~= infos_view(r@).push(c@));
                    assert(infos_view(r@).push(c@) + spec_filter_language(fv, language@, i + 1)
                        =~= infos_view(r@) + spec_filter_language(fv, language@, i as int));
                }
                r.push(c);
            } else {
                proof {
                    assert(Seq::<FileInfoV>::empty() + spec_filter_language(fv, language@, i + 1)
                        =~= spec_filter_language(fv, language@, i + 1));
                }
            }
            i = i + 1;
        }
        proof {
            assert(spec_filter_language(fv, language@, n as int) =~= Seq::<FileInfoV>::empty());
            assert(infos_view(r@) + Seq::<FileInfoV>::empty() =~= infos_view(r@));
        }
        r
    }

    /// Totals over the discovered files: count, saturating size sum, and a
    /// histogram of language tags in first-occurrence order.
    pub fn get_stats(&self, files: &Vec<FileInfo>) -> (r: FileStats)
        ensures
            r.total_files == files@.len(),
            r.total_size == spec_total_size(infos_view(files@), 0, 0),
            crate::strutil::is_histogram(
                crate::strutil::pairs_view(r.languages@),
                spec_language_keys(infos_view(files@), 0),
            ),
    {
        compute_file_stats(files)
    }
}

/// Totals over a discovered-file set: count, saturating size sum, and a
/// histogram of language tags in first-occurrence order.
pub fn compute_file_stats(files: &Vec<FileInfo>) -> (r: FileStats)
    ensures
        r.total_files == files@.len(),
        r.total_size == spec_total_size(infos_view(files@), 0, 0),
        crate::strutil::is_histogram(
            crate::strutil::pairs_view(r.languages@),
            spec_language_keys(infos_view(files@), 0),
        ),
{
        let ghost fv = infos_view(files@);
        let n = files.len();
        let mut total_size: u64 = 0;
        let mut keys: Vec<String> = Vec::new();
        let mut i: usize = 0;
        proof {
            assert(crate::strutil::strings_view(keys@) + spec_language_keys(fv, 0)
                =~= spec_language_keys(fv, 0));
        }
        while i < n
            invariant
                i <= n,
                n == files@.len(),
                fv == infos_view(files@),
                spec_total_size(fv, 0, 0) == spec_total_size(fv, i as int, total_size),
                spec_language_keys(fv, 0) == crate::strutil::strings_view(keys@)
                    + spec_language_keys(fv, i as int),
            decreases n - i,
        {
            proof {
                assert(fv[i as int] == files@[i as int]@);
            }
            total_size = total_size.saturating_add(files[i].size);
            match &files[i].language {
                Option::Some(l) => {
                    let c = l.clone();
                    proof {
                        assert(crate::strutil::strings_view(keys@.push(c))
                            =~= crate::strutil::strings_view(keys@).push(c@));
                        assert(crate::strutil::strings_view(keys@).push(c@) + spec_language_keys(
                            fv,
                            i + 1,
                        ) =~= crate::strutil::strings_view(keys@) + spec_language_keys(
                            fv,
                            i as int,
                        ));
                    }
                    keys.push(c);
                },
                Option::None => {
                    proof {
                        assert(Seq::<Seq<char>>::empty() + spec_language_keys(fv, i + 1)
                            =~= spec_language_keys(fv, i + 1));
                    }
                },
            }
            i = i + 1;
        }
        proof {
            assert(spec_language_keys(fv, n as int) =~= Seq::<Seq<char>>::empty());
            assert(crate::strutil::strings_view(keys@) + Seq::<Seq<char>>::empty()
                =~= crate::strutil::strings_view(keys@));
        }
        let languages = crate::strutil::histogram(&keys);
        FileStats { total_files: n, total_size, languages }
}

} // verus!
