use project_examer::config::{Config, LLMProvider};
use project_examer::file_discovery::{FileDiscovery, FileInfo, compute_file_stats,
    detect_language, extension_of};

fn file(path: &str, size: u64, language: Option<&str>) -> FileInfo {
    FileInfo {
        path: path.to_string(),
        size,
        extension: None,
        language: language.map(|l| l.to_string()),
    }
}

#[test]
fn default_config_values() {
    let c = Config::default();
    assert_eq!(c.target_directory, ".");
    assert_eq!(c.max_file_size, 1048576);
    assert_eq!(c.ignore_patterns.len(), 12);
    assert!(c.ignore_patterns.contains(&"node_modules".to_string()));
    assert!(c.ignore_patterns.contains(&"*.log".to_string()));
    assert_eq!(c.file_extensions.len(), 19);
    assert!(c.file_extensions.contains(&"rs".to_string()));
    assert!(matches!(c.llm.provider, LLMProvider::OpenAI));
    assert_eq!(c.llm.model, "gpt-4");
    assert_eq!(c.llm.max_tokens, 4000);
    assert_eq!(c.llm.timeout_seconds, 300);
    assert!(c.analysis.include_dependencies);
    assert!(!c.analysis.include_security_analysis);
    assert_eq!(c.analysis.max_depth, 10);
}

#[test]
fn language_detection_by_extension() {
    let lang = |p: &str, e: Option<&str>| {
        detect_language(&p.to_string(), &e.map(|x| x.to_string()))
    };
    assert_eq!(lang("a.rs", Some("rs")), Some("rust".to_string()));
    assert_eq!(lang("a.py", Some("py")), Some("python".to_string()));
    assert_eq!(lang("a.tsx", Some("tsx")), Some("typescript".to_string()));
    assert_eq!(lang("a.cc", Some("cc")), Some("cpp".to_string()));
    assert_eq!(lang("a.yml", Some("yml")), Some("yaml".to_string()));
    assert_eq!(lang("a.nope", Some("nope")), None);
}

#[test]
fn language_detection_by_bare_filename() {
    let lang = |p: &str| detect_language(&p.to_string(), &None);
    assert_eq!(lang("docs/README"), Some("text".to_string()));
    assert_eq!(lang("Makefile"), Some("text".to_string()));
    assert_eq!(lang("src/main"), None);
}

#[test]
fn extension_extraction_is_lowercased() {
    assert_eq!(extension_of(&"a/b/C.RS".to_string()), Some("rs".to_string()));
    assert_eq!(extension_of(&"noext".to_string()), None);
    assert_eq!(extension_of(&".hidden".to_string()), None);
}

#[test]
fn process_file_applies_size_and_extension_rules() {
    let d = FileDiscovery::new(Config::default());
    let ok = d.process_file(&"src/lib.rs".to_string(), 10).unwrap();
    assert_eq!(ok.extension, Some("rs".to_string()));
    assert_eq!(ok.language, Some("rust".to_string()));
    assert!(d.process_file(&"big.rs".to_string(), 2 * 1024 * 1024).is_none());
    assert!(d.process_file(&"binary.exe".to_string(), 10).is_none());
    // A file without an extension passes the extension filter.
    assert!(d.process_file(&"README".to_string(), 10).is_some());
}

#[test]
fn ignore_patterns_match_as_documented() {
    let d = FileDiscovery::new(Config::default());
    assert!(d.should_ignore_file(&"build/app.log".to_string()));
    assert!(d.should_ignore_file(&"node_modules/x/y.js".to_string()));
    assert!(d.should_ignore_file(&"src/test-one.rs".to_string()));
    assert!(d.should_ignore_file(&"a/.env".to_string()));
    assert!(!d.should_ignore_file(&"src/main.rs".to_string()));
}

#[test]
fn filter_by_language_keeps_only_matches() {
    let d = FileDiscovery::new(Config::default());
    let files = vec![
        file("a.rs", 1, Some("rust")),
        file("b.py", 2, Some("python")),
        file("c.rs", 3, Some("rust")),
        file("d", 4, None),
    ];
    let rust = d.filter_by_language(&files, "rust");
    assert_eq!(rust.len(), 2);
    assert_eq!(rust[0].path, "a.rs");
    assert_eq!(rust[1].path, "c.rs");
}

#[test]
fn stats_count_sizes_and_languages() {
    let files = vec![
        file("a.rs", 10, Some("rust")),
        file("b.rs", 20, Some("rust")),
        file("c.py", 5, Some("python")),
        file("d", 1, None),
    ];
    let stats = compute_file_stats(&files);
    assert_eq!(stats.total_files, 4);
    assert_eq!(stats.total_size, 36);
    let rust = stats.languages.iter().find(|e| e.0 == "rust").unwrap().1;
    let python = stats.languages.iter().find(|e| e.0 == "python").unwrap().1;
    assert_eq!((rust, python), (2, 1));
    assert_eq!(stats.languages.len(), 2);
    // First-occurrence order.
    assert_eq!(stats.languages[0].0, "rust");
}

#[test]
fn size_cap_is_inclusive() {
    let d = FileDiscovery::new(Config::default());
    assert!(d.process_file(&"edge.rs".to_string(), 1048576).is_some());
    assert!(d.process_file(&"edge.rs".to_string(), 1048577).is_none());
}

#[test]
fn size_totals_saturate() {
    let files = vec![
        file("a.rs", u64::MAX, Some("rust")),
        file("b.rs", 10, Some("rust")),
    ];
    let stats = compute_file_stats(&files);
    assert_eq!(stats.total_size, u64::MAX);
}
