use project_examer::analyzer::{FilterCriteria, build_project_info, filter_files_by_criteria,
    get_file_summary, parse_files, safe_truncate, shard_bounds, shard_size};
use project_examer::file_discovery::FileInfo;
use project_examer::llm::{build_dependency_contexts, build_file_context};
use project_examer::simple_parser::SimpleParser;

fn file(path: &str, size: u64, language: Option<&str>) -> FileInfo {
    FileInfo {
        path: path.to_string(),
        size,
        extension: None,
        language: language.map(|l| l.to_string()),
    }
}

#[test]
fn shard_sizes() {
    assert_eq!(shard_size(0, 4), 1);
    assert_eq!(shard_size(10, 4), 3);
    assert_eq!(shard_size(8, 4), 2);
    assert_eq!(shard_size(3, 8), 1);
}

#[test]
fn shard_bounds_cover_the_range() {
    let b = shard_bounds(10, 3);
    assert_eq!(b, vec![(0, 3), (3, 6), (6, 9), (9, 10)]);
    assert_eq!(shard_bounds(0, 3), Vec::<(usize, usize)>::new());
    assert_eq!(shard_bounds(6, 3), vec![(0, 3), (3, 6)]);
}

#[test]
fn batch_parse_matches_single_parse() {
    let p = SimpleParser::new().unwrap();
    let inputs = vec![
        (file("a.py", 1, Some("python")), "import os\n".to_string()),
        (file("b.rs", 2, Some("rust")), "use a;\n".to_string()),
    ];
    let batch = parse_files(&p, &inputs);
    assert_eq!(batch.len(), 2);
    let single = p.parse_file(&inputs[0].0, &inputs[0].1);
    assert_eq!(batch[0], single);
    assert_eq!(batch[1].imports[0].module, "a");
}

#[test]
fn sharded_parse_merges_to_the_same_set() {
    let p = SimpleParser::new().unwrap();
    let inputs = vec![
        (file("a.py", 1, Some("python")), "import os\n".to_string()),
        (file("b.py", 2, Some("python")), "import sys\n".to_string()),
        (file("c.py", 3, Some("python")), "import re\n".to_string()),
    ];
    let whole = parse_files(&p, &inputs);
    let bounds = shard_bounds(inputs.len(), shard_size(inputs.len(), 2));
    let mut merged = Vec::new();
    for (lo, hi) in bounds {
        let shard: Vec<(FileInfo, String)> = inputs[lo..hi]
            .iter()
            .map(|(f, c)| (f.clone(), c.clone()))
            .collect();
        merged.extend(parse_files(&p, &shard));
    }
    assert_eq!(whole, merged);
}

#[test]
fn truncate_respects_character_boundaries() {
    assert_eq!(safe_truncate("hello", 10), "hello");
    assert_eq!(safe_truncate("hello", 3), "hel");
    assert_eq!(safe_truncate("\u{263a}\u{263a}\u{263a}", 2), "\u{263a}\u{263a}");
    assert_eq!(safe_truncate("", 5), "");
}

#[test]
fn criteria_filtering() {
    let files = vec![
        file("src/a.rs", 10, Some("rust")),
        file("src/b.py", 200, Some("python")),
        file("lib/c.rs", 50, Some("rust")),
    ];
    let rust_only = filter_files_by_criteria(
        &files,
        &FilterCriteria { language: Some("rust".to_string()), min_size: None, max_size: None, path_contains: None },
    );
    assert_eq!(rust_only.len(), 2);
    let big = filter_files_by_criteria(
        &files,
        &FilterCriteria { language: None, min_size: Some(40), max_size: Some(100), path_contains: None },
    );
    assert_eq!(big.len(), 1);
    assert_eq!(big[0].path, "lib/c.rs");
    let in_src = filter_files_by_criteria(
        &files,
        &FilterCriteria { language: None, min_size: None, max_size: None, path_contains: Some("src/".to_string()) },
    );
    assert_eq!(in_src.len(), 2);
}

#[test]
fn file_summary_totals() {
    let files = vec![
        file("a.rs", 10, Some("rust")),
        file("b.rs", 20, Some("rust")),
        file("c", 5, None),
    ];
    let s = get_file_summary(&files);
    assert_eq!(s.total_files, 3);
    assert_eq!(s.total_size, 35);
    assert_eq!(s.language_distribution, vec![("rust".to_string(), 2)]);
    assert!(s.extension_distribution.is_empty());
}

#[test]
fn project_info_summarises_the_run() {
    let files = vec![
        file("a.rs", 100, Some("rust")),
        file("b.py", 150, Some("python")),
    ];
    let info = build_project_info(&"work/demo".to_string(), &files);
    assert_eq!(info.name, "demo");
    assert_eq!(info.total_files, 2);
    assert_eq!(info.total_lines, 5);
    assert_eq!(info.languages.len(), 2);
    assert!(info.languages.contains(&"rust".to_string()));
    assert!(info.architecture_patterns.is_empty());
}

#[test]
fn file_context_summary_line() {
    let p = SimpleParser::new().unwrap();
    let pf = p.parse_file(
        &file("a.py", 9, Some("python")),
        "import os\ndef f(x):\ndef g():\nclass C:",
    );
    let ctx = build_file_context(&pf);
    assert_eq!(ctx.content_summary, "2 functions, 1 classes, 1 imports");
    assert_eq!(ctx.functions, vec!["f".to_string(), "g".to_string()]);
    assert_eq!(ctx.classes, vec!["C".to_string()]);
    assert_eq!(ctx.imports, vec!["os".to_string()]);
    assert_eq!(ctx.language, "python");
}

#[test]
fn dependency_contexts_flatten_imports() {
    let p = SimpleParser::new().unwrap();
    let a = p.parse_file(&file("a.py", 1, Some("python")), "import os\nimport sys\n");
    let b = p.parse_file(&file("b.py", 1, Some("python")), "import re\n");
    let deps = build_dependency_contexts(&vec![a, b]);
    assert_eq!(deps.len(), 3);
    assert_eq!(deps[0].from_file, "a.py");
    assert_eq!(deps[0].to_file, "os");
    assert_eq!(deps[0].dependency_type, "import");
    assert_eq!(deps[2].from_file, "b.py");
    assert_eq!(deps[2].to_file, "re");
}
