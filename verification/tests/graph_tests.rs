use project_examer::dependency_graph::{EdgeType, GraphBuilder, NodeType};
use project_examer::file_discovery::FileInfo;
use project_examer::simple_parser::{Function, ParsedFile, SimpleParser};

fn info(path: &str, language: Option<&str>) -> FileInfo {
    FileInfo {
        path: path.to_string(),
        size: 42,
        extension: None,
        language: language.map(|l| l.to_string()),
    }
}

fn parse(path: &str, language: &str, content: &str) -> ParsedFile {
    let p = SimpleParser::new().unwrap();
    p.parse_file(&info(path, Some(language)), content)
}

#[test]
fn example_python_file_graph() {
    // File a.py with an import, a top-level function and a class holding
    // one method.
    let mut pf = parse("a.py", "python", "import os\ndef foo(x, y=1):\nclass Bar(Base):");
    pf.classes[0].methods.push(Function {
        name: "baz".to_string(),
        parameters: vec!["self".to_string()],
        return_type: None,
        line_number: 4,
        is_async: false,
    });
    let mut builder = GraphBuilder::new();
    builder.build_graph(&vec![pf]);
    let g = builder.get_graph();

    assert_eq!(g.nodes.len(), 5);
    assert_eq!(g.nodes[0].id, "file:a.py");
    assert!(matches!(g.nodes[0].node_type, NodeType::File));

    let imp = g.nodes.iter().position(|n| n.id == "import:a.py:os").unwrap();
    assert!(matches!(g.nodes[imp].node_type, NodeType::Import));
    // No local file has stem "os": the import stays dangling.
    assert!(!g.edges.iter().any(|e| matches!(e.edge.edge_type, EdgeType::DependsOn)));

    let foo = g.nodes.iter().position(|n| n.id == "function:a.py:foo").unwrap();
    assert_eq!(g.nodes[foo].metadata.name, "foo");
    assert_eq!(
        g.nodes[foo].metadata.parameters,
        vec!["x".to_string(), "y".to_string()]
    );
    // Function complexity: parameter count plus one for a synchronous
    // function.
    assert_eq!(g.nodes[foo].metadata.complexity, Some(3));

    let bar = g.nodes.iter().position(|n| n.id == "class:a.py:Bar").unwrap();
    assert!(matches!(g.nodes[bar].node_type, NodeType::Class));
    // Class complexity: 1 method + 0 interfaces + 1 superclass.
    assert_eq!(g.nodes[bar].metadata.complexity, Some(2));

    let baz = g.nodes.iter().position(|n| n.id == "method:a.py:Bar:baz").unwrap();
    assert!(matches!(g.nodes[baz].node_type, NodeType::Function));
    assert_eq!(g.nodes[baz].metadata.name, "Bar.baz");
    // The method's Contains edge comes from the class node, not the file
    // node.
    let owner: Vec<usize> = g
        .edges
        .iter()
        .filter(|e| matches!(e.edge.edge_type, EdgeType::Contains) && e.to == baz)
        .map(|e| e.from)
        .collect();
    assert_eq!(owner, vec![bar]);

    // File complexity: functions + classes + imports.
    assert_eq!(g.nodes[0].metadata.complexity, Some(3));
}

#[test]
fn cross_file_import_resolution() {
    let util = parse("util.rs", "rust", "pub fn helper(a) {}\n");
    let main = parse("main.rs", "rust", "use util;\n");
    let mut builder = GraphBuilder::new();
    builder.build_graph(&vec![util, main]);
    let g = builder.get_graph();

    let import_node = g.nodes.iter().position(|n| n.id == "import:main.rs:util").unwrap();
    let util_file = g.nodes.iter().position(|n| n.id == "file:util.rs").unwrap();
    let depends: Vec<(usize, usize)> = g
        .edges
        .iter()
        .filter(|e| matches!(e.edge.edge_type, EdgeType::DependsOn))
        .map(|e| (e.from, e.to))
        .collect();
    assert_eq!(depends, vec![(import_node, util_file)]);
}

#[test]
fn node_ids_are_distinct_for_distinct_inputs() {
    let a = parse("a.py", "python", "import os\ndef foo(x):\nclass C:");
    let b = parse("b.py", "python", "import sys\ndef foo(x):\nclass C:");
    let mut builder = GraphBuilder::new();
    builder.build_graph(&vec![a, b]);
    let g = builder.get_graph();
    for i in 0..g.nodes.len() {
        for j in (i + 1)..g.nodes.len() {
            assert_ne!(g.nodes[i].id, g.nodes[j].id);
        }
    }
}

#[test]
fn every_non_file_node_has_one_containing_edge() {
    let a = parse("a.py", "python", "import os\ndef foo(x):\nclass C(B):");
    let b = parse("util.rs", "rust", "use a;\nfn go(x) {}\n");
    let mut builder = GraphBuilder::new();
    builder.build_graph(&vec![a, b]);
    let g = builder.get_graph();
    for (i, node) in g.nodes.iter().enumerate() {
        let incoming = g
            .edges
            .iter()
            .filter(|e| matches!(e.edge.edge_type, EdgeType::Contains) && e.to == i)
            .count();
        if matches!(node.node_type, NodeType::File) {
            assert_eq!(incoming, 0);
        } else {
            assert_eq!(incoming, 1);
        }
    }
}

#[test]
fn empty_graph_average_degree_is_exactly_zero() {
    let builder = GraphBuilder::new();
    let analysis = builder.analyze_dependencies();
    assert_eq!(analysis.total_nodes, 0);
    assert_eq!(analysis.total_edges, 0);
    let (num, den) = analysis.avg_degree();
    assert_eq!((num, den), (0, 1));
    assert_eq!(num as f64 / den as f64, 0.0);
}

#[test]
fn analysis_counts_node_and_edge_types() {
    let a = parse("a.py", "python", "import os\ndef foo(x):\n");
    let mut builder = GraphBuilder::new();
    builder.build_graph(&vec![a]);
    let analysis = builder.analyze_dependencies();
    assert_eq!(analysis.total_nodes, 3);
    assert_eq!(analysis.total_edges, 2);
    assert_eq!(analysis.strongly_connected_components, 0);
    let file_count = analysis.node_types.iter().find(|e| e.0 == "File").unwrap().1;
    let import_count = analysis.node_types.iter().find(|e| e.0 == "Import").unwrap().1;
    let function_count = analysis.node_types.iter().find(|e| e.0 == "Function").unwrap().1;
    assert_eq!((file_count, import_count, function_count), (1, 1, 1));
    let contains = analysis.edge_types.iter().find(|e| e.0 == "Contains").unwrap().1;
    assert_eq!(contains, 2);
    let (num, den) = analysis.avg_degree();
    assert_eq!((num, den), (2, 3));
}

#[test]
fn exported_flag_is_a_pure_name_join() {
    let pf = parse("lib.rs", "rust", "pub fn foo(a) {}\nfn hidden(b) {}\n");
    let mut builder = GraphBuilder::new();
    builder.build_graph(&vec![pf]);
    let g = builder.get_graph();
    let foo = g.nodes.iter().position(|n| n.id == "function:lib.rs:foo").unwrap();
    let hidden = g.nodes.iter().position(|n| n.id == "function:lib.rs:hidden").unwrap();
    assert!(g.nodes[foo].metadata.is_exported);
    assert!(!g.nodes[hidden].metadata.is_exported);
}

#[test]
fn node_map_mirrors_nodes() {
    let a = parse("a.py", "python", "import os\n");
    let mut builder = GraphBuilder::new();
    builder.build_graph(&vec![a]);
    let nodes = builder.get_graph().nodes.len();
    let map = builder.get_node_map();
    assert_eq!(map.len(), nodes);
    for (k, entry) in map.iter().enumerate() {
        assert_eq!(entry.1, k);
        assert_eq!(entry.0, builder.get_graph().nodes[k].id);
    }
}

#[test]
fn repeated_imports_share_an_id() {
    // Two imports of the same module in one file keep both nodes, and the
    // id (kind + path + name) coincides: the lookup index keeps the later
    // node.
    let pf = parse("a.py", "python", "import os\nimport os\n");
    assert_eq!(pf.imports.len(), 2);
    assert_eq!(pf.imports[0].line_number, 1);
    assert_eq!(pf.imports[1].line_number, 2);
    let mut builder = GraphBuilder::new();
    builder.build_graph(&vec![pf]);
    let g = builder.get_graph();
    assert_eq!(g.nodes.len(), 3);
    assert_eq!(g.nodes[1].id, g.nodes[2].id);
    let map = builder.get_node_map();
    assert_eq!(map.len(), 3);
}
