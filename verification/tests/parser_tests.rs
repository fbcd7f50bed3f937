use project_examer::file_discovery::FileInfo;
use project_examer::simple_parser::{ParsedFile, SimpleParser, parse_parameters};

fn info(path: &str, language: Option<&str>) -> FileInfo {
    FileInfo {
        path: path.to_string(),
        size: 100,
        extension: None,
        language: language.map(|l| l.to_string()),
    }
}

fn parser() -> SimpleParser {
    SimpleParser::new().expect("built-in patterns compile")
}

#[test]
fn registry_builds() {
    let p = SimpleParser::new();
    assert!(p.is_ok());
    let p = p.unwrap();
    assert_eq!(p.language_patterns.len(), 4);
    assert_eq!(p.language_patterns[0].0, "javascript");
    assert_eq!(p.language_patterns[3].0, "rust");
}

#[test]
fn totality_on_arbitrary_content() {
    let p = parser();
    let junk = "\u{0}\u{1}\u{fffd} ~~ ((( \n\n\r\n\tzzz) \u{263a}";
    let out = p.parse_file(&info("weird.bin", None), junk);
    assert_eq!(out.file_info.path, "weird.bin");
    let out2 = p.parse_file(&info("weird.xyz", Some("klingon")), junk);
    assert_eq!(out2.file_info.path, "weird.xyz");
}

#[test]
fn parse_is_idempotent() {
    let p = parser();
    let content = "import os\nfrom a import b\ndef foo(x, y=1):\nclass Bar(Base):\n";
    let a = p.parse_file(&info("a.py", Some("python")), content);
    let b = p.parse_file(&info("a.py", Some("python")), content);
    assert_eq!(a, b);
}

#[test]
fn python_import_and_function_and_class() {
    let p = parser();
    let content = "import os\ndef foo(x, y=1):\nclass Bar(Base):";
    let out = p.parse_file(&info("a.py", Some("python")), content);
    assert_eq!(out.imports.len(), 1);
    assert_eq!(out.imports[0].module, "os");
    assert_eq!(out.imports[0].line_number, 1);
    assert_eq!(out.functions.len(), 1);
    assert_eq!(out.functions[0].name, "foo");
    assert_eq!(out.functions[0].parameters, vec!["x".to_string(), "y".to_string()]);
    assert_eq!(out.functions[0].line_number, 2);
    assert!(!out.functions[0].is_async);
    assert_eq!(out.classes.len(), 1);
    assert_eq!(out.classes[0].name, "Bar");
    assert_eq!(out.classes[0].extends, Some("Base".to_string()));
    assert!(out.classes[0].methods.is_empty());
}

#[test]
fn async_flag_is_line_wide() {
    let p = parser();
    // Both an async keyword and a function-defining keyword on one line:
    // whichever rule captures the name, the flag is set.
    let out = p.parse_file(&info("a.py", Some("python")), "async def go(x):");
    assert!(out.functions.len() >= 1);
    for f in &out.functions {
        assert!(f.is_async);
    }
    let js = p.parse_file(&info("a.js", Some("javascript")), "async function go() {}");
    assert!(js.functions.len() >= 1);
    for f in &js.functions {
        assert!(f.is_async);
    }
    let plain = p.parse_file(&info("b.py", Some("python")), "def quiet(x):");
    assert!(!plain.functions[0].is_async);
}

#[test]
fn rust_use_line_yields_import() {
    let p = parser();
    let out = p.parse_file(&info("main.rs", Some("rust")), "use util;\n");
    assert_eq!(out.imports.len(), 1);
    assert_eq!(out.imports[0].module, "util");
}

#[test]
fn rust_pub_fn_duplicates_are_kept() {
    let p = parser();
    let out = p.parse_file(&info("lib.rs", Some("rust")), "pub fn foo(a, b) {}\n");
    // The plain fn rule and the pub fn rule both match: duplication is
    // intentional and not deduplicated.
    assert_eq!(out.functions.len(), 2);
    assert_eq!(out.functions[0].name, "foo");
    assert_eq!(out.functions[1].name, "foo");
    assert_eq!(out.exports.len(), 1);
    assert_eq!(out.exports[0].name, "foo");
}

#[test]
fn javascript_exports() {
    let p = parser();
    let out = p.parse_file(
        &info("m.js", Some("javascript")),
        "export default widget\nexport class Thing {}\n",
    );
    assert_eq!(out.exports.len(), 2);
    assert_eq!(out.exports[0].name, "widget");
    assert!(out.exports[0].is_default);
    assert_eq!(out.exports[1].name, "Thing");
    assert!(!out.exports[1].is_default);
}

#[test]
fn typescript_uses_javascript_rules() {
    let p = parser();
    let out = p.parse_file(
        &info("m.ts", Some("typescript")),
        "import { a } from 'mod'\nfunction f(x) {}\n",
    );
    assert_eq!(out.imports.len(), 1);
    assert_eq!(out.imports[0].module, "mod");
    // The plain function rule and the optional-async rule both match.
    assert_eq!(out.functions.len(), 2);
    assert_eq!(out.functions[0].name, "f");
    assert_eq!(out.functions[1].name, "f");
}

#[test]
fn fallback_for_unregistered_language() {
    let p = parser();
    let header_line = format!("#inc{} <stdio.h>", "lude");
    let content = format!("{}\nfunction blob(a)\nrequire('extra')\n", header_line);
    let out = p.parse_file(&info("x.c99", None), &content);
    assert_eq!(out.imports.len(), 2);
    assert_eq!(out.imports[0].module, "stdio.h");
    assert_eq!(out.imports[1].module, "extra");
    assert!(out.functions.iter().any(|f| f.name == "blob"));
    assert!(out.exports.is_empty());
    assert!(out.classes.is_empty());
}

#[test]
fn parse_parameters_strips_annotations_and_defaults() {
    assert_eq!(parse_parameters("x, y=1"), vec!["x".to_string(), "y".to_string()]);
    assert_eq!(parse_parameters("a: int, b: str = 'z'"), vec!["a".to_string(), "b".to_string()]);
    assert_eq!(parse_parameters(""), Vec::<String>::new());
    assert_eq!(parse_parameters("  spaced  "), vec!["spaced".to_string()]);
}

#[test]
fn get_dependencies_lists_modules() {
    let p = parser();
    let out = p.parse_file(&info("a.py", Some("python")), "import os\nimport sys\n");
    let deps = p.get_dependencies(&out);
    assert_eq!(deps, vec!["os".to_string(), "sys".to_string()]);
}

#[test]
fn multi_line_declarations_are_invisible() {
    let p = parser();
    // The name and the parameter list sit on different lines: the
    // line-by-line heuristic sees no function.
    let out = p.parse_file(&info("a.py", Some("python")), "def broken(\n    x):\n");
    assert!(out.functions.is_empty());
}

#[test]
fn crlf_lines_are_handled() {
    let p = parser();
    let out = p.parse_file(&info("a.py", Some("python")), "import os\r\nimport sys\r\n");
    assert_eq!(out.imports.len(), 2);
    assert_eq!(out.imports[1].line_number, 2);
}

#[test]
fn parsed_file_is_whole_even_without_matches() {
    let p = parser();
    let out = p.parse_file(&info("empty.py", Some("python")), "");
    assert!(out.imports.is_empty());
    assert!(out.exports.is_empty());
    assert!(out.functions.is_empty());
    assert!(out.classes.is_empty());
}
