use project_examer::file_discovery::FileInfo;
use project_examer::llm::{AnalysisResponse, Effort, Impact, Insight, InsightCategory, Priority,
    Recommendation};
use project_examer::reporter::{PrioritizedRecommendation, Reporter, calculate_complexity_distribution,
    collect_critical_issues, collect_key_findings, create_metadata, file_stats_of, language_breakdown,
    largest_files, overview_of, sort_recommendations, total_project_complexity};
use project_examer::simple_parser::SimpleParser;

fn file(path: &str, size: u64, language: Option<&str>) -> FileInfo {
    FileInfo {
        path: path.to_string(),
        size,
        extension: None,
        language: language.map(|l| l.to_string()),
    }
}

fn rec(title: &str, priority: Priority) -> Recommendation {
    Recommendation {
        title: title.to_string(),
        description: "d".to_string(),
        priority,
        effort: Effort::Low,
        impact: Impact::High,
        action_items: vec![],
    }
}

fn response(analysis: &str, insights: Vec<Insight>, recommendations: Vec<Recommendation>) -> AnalysisResponse {
    AnalysisResponse { analysis: analysis.to_string(), insights, recommendations }
}

fn insight(title: &str) -> Insight {
    Insight {
        title: title.to_string(),
        description: "x".to_string(),
        category: InsightCategory::Architecture,
        evidence: vec![],
    }
}

#[test]
fn reporter_constructs() {
    let _ = Reporter::new();
}

#[test]
fn metadata_carries_run_identity() {
    let files = vec![file("proj/src/a.rs", 30, Some("rust")), file("proj/src/b.rs", 12, None)];
    let m = create_metadata(&files, "2024-01-01T00:00:00Z".to_string(), 1234, "0.1.0", "OpenAI", "gpt-4");
    assert_eq!(m.project_name, "src");
    assert_eq!(m.total_files, 2);
    assert_eq!(m.total_size, 42);
    assert_eq!(m.analysis_duration_ms, 1234);
    assert_eq!(m.generated_at, "2024-01-01T00:00:00Z");
    assert_eq!(m.llm_provider, "OpenAI");
    assert_eq!(m.llm_model, "gpt-4");
    let none = create_metadata(&vec![], "t".to_string(), 0, "v", "p", "m");
    assert_eq!(none.project_name, "unknown");
}

#[test]
fn file_stats_and_largest() {
    let p = SimpleParser::new().unwrap();
    let a = p.parse_file(&file("a.py", 10, Some("python")), "def f(x):\nclass C:");
    let b = p.parse_file(&file("b.py", 99, Some("python")), "def g():\n");
    let rows = file_stats_of(&vec![a, b]);
    assert_eq!(rows.len(), 2);
    assert_eq!(rows[0].path, "a.py");
    assert_eq!(rows[0].functions, 1);
    assert_eq!(rows[0].classes, 1);
    // Report complexity: functions + 2 * classes.
    assert_eq!(rows[0].complexity, 3);
    let top = largest_files(rows);
    assert_eq!(top[0].path, "b.py");
    assert_eq!(top[1].path, "a.py");
}

#[test]
fn complexity_distribution_buckets() {
    let p = SimpleParser::new().unwrap();
    let small = p.parse_file(&file("s.py", 1, Some("python")), "def f(x):\n");
    let medium = p.parse_file(
        &file("m.py", 1, Some("python")),
        "def a():\ndef b():\ndef c():\ndef d():\ndef e():\ndef f():\ndef g():\n",
    );
    let buckets = calculate_complexity_distribution(&vec![small, medium]);
    assert_eq!(buckets.len(), 4);
    assert_eq!(buckets[0].range, "0-5");
    assert_eq!(buckets[0].count, 1);
    assert_eq!(buckets[1].range, "6-15");
    assert_eq!(buckets[1].count, 1);
    assert_eq!(buckets[2].count, 0);
    assert_eq!(buckets[3].count, 0);
}

#[test]
fn total_complexity_sums_declarations() {
    let p = SimpleParser::new().unwrap();
    let a = p.parse_file(&file("a.py", 1, Some("python")), "import os\ndef f(x):\nclass C:");
    // 1 function + 2 * 1 class + 1 import = 4
    assert_eq!(total_project_complexity(&vec![a]), 4);
}

#[test]
fn recommendations_sort_by_priority() {
    let rows: Vec<PrioritizedRecommendation> = vec![
        ("low", Priority::Low),
        ("crit", Priority::Critical),
        ("med", Priority::Medium),
        ("high", Priority::High),
    ]
    .into_iter()
    .map(|(t, p)| PrioritizedRecommendation {
        title: t.to_string(),
        description: String::new(),
        priority: p,
        category: "General".to_string(),
        estimated_effort: "Low".to_string(),
        potential_impact: "High".to_string(),
        action_items: vec![],
        affected_files: vec![],
    })
    .collect();
    let sorted = sort_recommendations(rows);
    let titles: Vec<&str> = sorted.iter().map(|r| r.title.as_str()).collect();
    assert_eq!(titles, vec!["crit", "high", "med", "low"]);
}

#[test]
fn executive_summary_parts() {
    let llm = vec![
        response(
            "overview text",
            vec![insight("finding one"), insight("finding two")],
            vec![rec("fix now", Priority::Critical), rec("later", Priority::Low)],
        ),
        response("second", vec![insight("finding three")], vec![rec("soon", Priority::High)]),
    ];
    assert_eq!(overview_of(&llm), "overview text");
    assert_eq!(
        collect_key_findings(&llm),
        vec!["finding one".to_string(), "finding two".to_string(), "finding three".to_string()]
    );
    assert_eq!(collect_critical_issues(&llm), vec!["fix now".to_string(), "soon".to_string()]);
    assert_eq!(overview_of(&vec![]), "No LLM analysis available");
    assert!(collect_key_findings(&vec![]).is_empty());
}

#[test]
fn language_breakdown_counts_and_sizes() {
    let files = vec![
        file("a.rs", 10, Some("rust")),
        file("b.py", 7, Some("python")),
        file("c.rs", 5, Some("rust")),
        file("d", 99, None),
    ];
    let rows = language_breakdown(&files);
    assert_eq!(rows.len(), 2);
    assert_eq!(rows[0], ("rust".to_string(), 2, 15));
    assert_eq!(rows[1], ("python".to_string(), 1, 7));
}
