use vstd::prelude::*;
use crate::file_discovery::{clone_opt_string, opt_view};
use crate::simple_parser::{ClassV, FunctionV, ImportV, ParsedFile, ParsedFileV};
use crate::strutil::{chars_of, chars_range, find_ch, is_histogram, pairs_view, rfind_ch,
    rfind_char, str_eq, string_range, strings_view, clone_strings};

verus! {

// The graph builder: one write-once pass over the parsed fact records,
// producing an arena of nodes and edges addressed by their indices, then a
// best-effort resolution pass that links each import to a local file whose
// filename stem equals the imported module name.

#[derive(Debug, Clone, Copy, PartialEq, Eq, Structural)]
pub enum NodeType {
    File,
    Module,
    Function,
    Class,
    Variable,
    Import,
    Export,
}

#[derive(Debug, Clone, Copy, PartialEq, Eq, Structural)]
pub enum EdgeType {
    Imports,
    Calls,
    Extends,
    Implements,
    Contains,
    References,
    DependsOn,
}

#[derive(Debug)]
pub struct NodeMetadata {
    pub name: String,
    pub language: Option<String>,
    pub size: Option<u64>,
    pub complexity: Option<usize>,
    pub parameters: Vec<String>,
    pub return_type: Option<String>,
    pub is_async: bool,
    pub is_exported: bool,
    pub docstring: Option<String>,
}

#[derive(Debug)]
pub struct Node {
    pub id: String,
    pub node_type: NodeType,
    pub file_path: String,
    pub line_number: usize,
    pub metadata: NodeMetadata,
}

#[derive(Debug)]
pub struct EdgeMetadata {
    pub call_count: usize,
    pub is_direct: bool,
    pub line_numbers: Vec<usize>,
}

#[derive(Debug)]
pub struct Edge {
    pub edge_type: EdgeType,
    pub metadata: EdgeMetadata,
}

/// One edge of the arena: the indices of its endpoints and its payload.
#[derive(Debug)]
pub struct GraphEdge {
    pub from: usize,
    pub to: usize,
    pub edge: Edge,
}

/// The dependency graph: an arena of nodes and directed edges, both
/// addressed by small indices.
#[derive(Debug)]
pub struct DependencyGraph {
    pub nodes: Vec<Node>,
    pub edges: Vec<GraphEdge>,
}

pub open spec fn usizes_view(s: Seq<usize>) -> Seq<int> {
    s.map_values(|x: usize| x as int)
}

#[verifier::ext_equal]
pub struct NodeMetadataV {
    pub name: Seq<char>,
    pub language: Option<Seq<char>>,
    pub size: Option<u64>,
    pub complexity: Option<int>,
    pub parameters: Seq<Seq<char>>,
    pub return_type: Option<Seq<char>>,
    pub is_async: bool,
    pub is_exported: bool,
    pub docstring: Option<Seq<char>>,
}

#[verifier::ext_equal]
pub struct NodeV {
    pub id: Seq<char>,
    pub node_type: NodeType,
    pub file_path: Seq<char>,
    pub line_number: int,
    pub metadata: NodeMetadataV,
}

#[verifier::ext_equal]
pub struct EdgeMetadataV {
    pub call_count: int,
    pub is_direct: bool,
    pub line_numbers: Seq<int>,
}

#[verifier::ext_equal]
pub struct GraphEdgeV {
    pub from: int,
    pub to: int,
    pub edge_type: EdgeType,
    pub metadata: EdgeMetadataV,
}

#[verifier::ext_equal]
pub struct GraphV {
    pub nodes: Seq<NodeV>,
    pub edges: Seq<GraphEdgeV>,
}

impl View for NodeMetadata {
    type V = NodeMetadataV;

    open spec fn view(&self) -> NodeMetadataV {
        NodeMetadataV {
            name: self.name@,
            language: opt_view(self.language),
            size: self.size,
            complexity: match self.complexity {
                Option::Some(c) => Option::Some(c as int),
                Option::None => Option::None,
            },
            parameters: strings_view(self.parameters@),
            return_type: opt_view(self.return_type),
            is_async: self.is_async,
            is_exported: self.is_exported,
            docstring: opt_view(self.docstring),
        }
    }
}

impl View for Node {
    type V = NodeV;

    open spec fn view(&self) -> NodeV {
        NodeV {
            id: self.id@,
            node_type: self.node_type,
            file_path: self.file_path@,
            line_number: self.line_number as int,
            metadata: self.metadata@,
        }
    }
}

impl View for GraphEdge {
    type V = GraphEdgeV;

    open spec fn view(&self) -> GraphEdgeV {
        GraphEdgeV {
            from: self.from as int,
            to: self.to as int,
            edge_type: self.edge.edge_type,
            metadata: EdgeMetadataV {
                call_count: self.edge.metadata.call_count as int,
                is_direct: self.edge.metadata.is_direct,
                line_numbers: usizes_view(self.edge.metadata.line_numbers@),
            },
        }
    }
}

pub open spec fn nodes_view(s: Seq<Node>) -> Seq<NodeV> {
    s.map_values(|x: Node| x@)
}

pub open spec fn edges_view(s: Seq<GraphEdge>) -> Seq<GraphEdgeV> {
    s.map_values(|x: GraphEdge| x@)
}

impl View for DependencyGraph {
    type V = GraphV;

    open spec fn view(&self) -> GraphV {
        GraphV { nodes: nodes_view(self.nodes@), edges: edges_view(self.edges@) }
    }
}

pub open spec fn parsed_files_view(s: Seq<ParsedFile>) -> Seq<ParsedFileV> {
    s.map_values(|x: ParsedFile| x@)
}

// ---------------------------------------------------------------------------
// Node identity: deterministic ids from kind, file path and name.
// ---------------------------------------------------------------------------

pub open spec fn file_id(path: Seq<char>) -> Seq<char> {
    "file:"@ + path
}

pub open spec fn import_id(path: Seq<char>, module: Seq<char>) -> Seq<char> {
    "import:"@ + path + ":"@ + module
}

pub open spec fn function_id(path: Seq<char>, name: Seq<char>) -> Seq<char> {
    "function:"@ + path + ":"@ + name
}

pub open spec fn class_id(path: Seq<char>, name: Seq<char>) -> Seq<char> {
    "class:"@ + path + ":"@ + name
}

pub open spec fn method_id(path: Seq<char>, cname: Seq<char>, mname: Seq<char>) -> Seq<char> {
    "method:"@ + path + ":"@ + cname + ":"@ + mname
}

/// The file name of a path: the part after the last slash, or "unknown"
/// when that part is empty.
pub open spec fn spec_file_name(path: Seq<char>) -> Seq<char> {
    let name = path.subrange(rfind_ch(path, '/') + 1, path.len() as int);
    if name.len() == 0 {
        "unknown"@
    } else {
        name
    }
}

/// Whether the filename stem of a path (its file name up to the final dot,
/// a leading dot not counting) equals a module name.
pub open spec fn spec_stem_matches(path: Seq<char>, module: Seq<char>) -> bool {
    let name = path.subrange(rfind_ch(path, '/') + 1, path.len() as int);
    if name.len() == 0 {
        false
    } else {
        let d = rfind_ch(name, '.');
        let stem = if d <= 0 {
            name
        } else {
            name.subrange(0, d)
        };
        stem == module
    }
}

// ---------------------------------------------------------------------------
// Heuristic complexity: declaration tallies, saturating at the integer
// limit, never control-flow-derived.
// ---------------------------------------------------------------------------

pub open spec fn sat_add(a: int, b: int) -> int {
    if a + b > usize::MAX {
        usize::MAX as int
    } else {
        a + b
    }
}

/// File complexity: function count + class count + import count.
pub open spec fn spec_file_complexity(pf: ParsedFileV) -> int {
    sat_add(
        sat_add(pf.functions.len() as int, pf.classes.len() as int),
        pf.imports.len() as int,
    )
}

/// Function complexity: parameter count, plus two when asynchronous and one
/// otherwise.
pub open spec fn spec_function_complexity(f: FunctionV) -> int {
    sat_add(
        f.parameters.len() as int,
        if f.is_async {
            2
        } else {
            1
        },
    )
}

/// Class complexity: method count + implemented-interface count + one for a
/// superclass.
pub open spec fn spec_class_complexity(c: ClassV) -> int {
    sat_add(
        sat_add(c.methods.len() as int, c.implements.len() as int),
        if c.extends is Some {
            1
        } else {
            0
        },
    )
}

/// Complexity values are never negative, and grow monotonically with the
/// declaration counts they tally.
pub proof fn lemma_complexity_monotonic(a: ParsedFileV, b: ParsedFileV)
    requires
        a.functions.len() <= b.functions.len(),
        a.classes.len() <= b.classes.len(),
        a.imports.len() <= b.imports.len(),
    ensures
        0 <= spec_file_complexity(a) <= spec_file_complexity(b),
{
}

/// Whether some export fact of the file declares exactly this name.
pub open spec fn spec_name_exported(pf: ParsedFileV, name: Seq<char>) -> bool {
    exists|k: int| 0 <= k < pf.exports.len() && (#[trigger] pf.exports[k]).name == name
}

// ---------------------------------------------------------------------------
// The nodes and edges each fact contributes.
// ---------------------------------------------------------------------------

pub open spec fn file_node_v(pf: ParsedFileV) -> NodeV {
    NodeV {
        id: file_id(pf.file_info.path),
        node_type: NodeType::File,
        file_path: pf.file_info.path,
        line_number: 1,
        metadata: NodeMetadataV {
            name: spec_file_name(pf.file_info.path),
            language: pf.file_info.language,
            size: Option::Some(pf.file_info.size),
            complexity: Option::Some(spec_file_complexity(pf)),
            parameters: Seq::empty(),
            return_type: Option::None,
            is_async: false,
            is_exported: false,
            docstring: Option::None,
        },
    }
}

pub open spec fn import_node_v(pf: ParsedFileV, im: ImportV) -> NodeV {
    NodeV {
        id: import_id(pf.file_info.path, im.module),
        node_type: NodeType::Import,
        file_path: pf.file_info.path,
        line_number: im.line_number,
        metadata: NodeMetadataV {
            name: im.module,
            language: pf.file_info.language,
            size: Option::None,
            complexity: Option::None,
            parameters: im.items,
            return_type: Option::None,
            is_async: false,
            is_exported: false,
            docstring: Option::None,
        },
    }
}

pub open spec fn function_node_v(pf: ParsedFileV, f: FunctionV) -> NodeV {
    NodeV {
        id: function_id(pf.file_info.path, f.name),
        node_type: NodeType::Function,
        file_path: pf.file_info.path,
        line_number: f.line_number,
        metadata: NodeMetadataV {
            name: f.name,
            language: pf.file_info.language,
            size: Option::None,
            complexity: Option::Some(spec_function_complexity(f)),
            parameters: f.parameters,
            return_type: f.return_type,
            is_async: f.is_async,
            is_exported: spec_name_exported(pf, f.name),
            docstring: Option::None,
        },
    }
}

pub open spec fn class_node_v(pf: ParsedFileV, c: ClassV) -> NodeV {
    NodeV {
        id: class_id(pf.file_info.path, c.name),
        node_type: NodeType::Class,
        file_path: pf.file_info.path,
        line_number: c.line_number,
        metadata: NodeMetadataV {
            name: c.name,
            language: pf.file_info.language,
            size: Option::None,
            complexity: Option::Some(spec_class_complexity(c)),
            parameters: Seq::empty(),
            return_type: Option::None,
            is_async: false,
            is_exported: spec_name_exported(pf, c.name),
            docstring: Option::None,
        },
    }
}

pub open spec fn method_node_v(pf: ParsedFileV, c: ClassV, m: FunctionV) -> NodeV {
    NodeV {
        id: method_id(pf.file_info.path, c.name, m.name),
        node_type: NodeType::Function,
        file_path: pf.file_info.path,
        line_number: m.line_number,
        metadata: NodeMetadataV {
            name: c.name + "."@ + m.name,
            language: pf.file_info.language,
            size: Option::None,
            complexity: Option::Some(spec_function_complexity(m)),
            parameters: m.parameters,
            return_type: m.return_type,
            is_async: m.is_async,
            is_exported: false,
            docstring: Option::None,
        },
    }
}

pub open spec fn contains_edge_v(from: int, to: int, ln: int) -> GraphEdgeV {
    GraphEdgeV {
        from,
        to,
        edge_type: EdgeType::Contains,
        metadata: EdgeMetadataV { call_count: 1, is_direct: true, line_numbers: seq![ln] },
    }
}

pub open spec fn depends_edge_v(from: int, to: int, ln: int) -> GraphEdgeV {
    GraphEdgeV {
        from,
        to,
        edge_type: EdgeType::DependsOn,
        metadata: EdgeMetadataV { call_count: 1, is_direct: true, line_numbers: seq![ln] },
    }
}

// ---------------------------------------------------------------------------
// The build, as a fold over the fact records.
// ---------------------------------------------------------------------------

/// Appends a node and the Contains edge from its owner.
pub open spec fn add_owned_node(g: GraphV, n: NodeV, from: int, ln: int) -> GraphV {
    GraphV {
        nodes: g.nodes.push(n),
        edges: g.edges.push(contains_edge_v(from, g.nodes.len() as int, ln)),
    }
}

pub open spec fn add_imports_v(g: GraphV, pf: ParsedFileV, fi: int, k: int) -> GraphV
    decreases pf.imports.len() - k,
{
    if k < 0 || k >= pf.imports.len() {
        g
    } else {
        add_imports_v(
            add_owned_node(g, import_node_v(pf, pf.imports[k]), fi, pf.imports[k].line_number),
            pf,
            fi,
            k + 1,
        )
    }
}

pub open spec fn add_functions_v(g: GraphV, pf: ParsedFileV, fi: int, k: int) -> GraphV
    decreases pf.functions.len() - k,
{
    if k < 0 || k >= pf.functions.len() {
        g
    } else {
        add_functions_v(
            add_owned_node(
                g,
                function_node_v(pf, pf.functions[k]),
                fi,
                pf.functions[k].line_number,
            ),
            pf,
            fi,
            k + 1,
        )
    }
}

pub open spec fn add_methods_v(g: GraphV, pf: ParsedFileV, c: ClassV, ci: int, k: int) -> GraphV
    decreases c.methods.len() - k,
{
    if k < 0 || k >= c.methods.len() {
        g
    } else {
        add_methods_v(
            add_owned_node(g, method_node_v(pf, c, c.methods[k]), ci, c.methods[k].line_number),
            pf,
            c,
            ci,
            k + 1,
        )
    }
}

pub open spec fn add_classes_v(g: GraphV, pf: ParsedFileV, fi: int, k: int) -> GraphV
    decreases pf.classes.len() - k,
{
    if k < 0 || k >= pf.classes.len() {
        g
    } else {
        let c = pf.classes[k];
        let ci = g.nodes.len() as int;
        let g1 = add_owned_node(g, class_node_v(pf, c), fi, c.line_number);
        let g2 = add_methods_v(g1, pf, c, ci, 0);
        add_classes_v(g2, pf, fi, k + 1)
    }
}

/// One file's contribution: its file node, then its imports, its top-level
/// functions, and its classes with their methods.
pub open spec fn add_file_v(g: GraphV, pf: ParsedFileV) -> GraphV {
    let fi = g.nodes.len() as int;
    let g1 = GraphV { nodes: g.nodes.push(file_node_v(pf)), edges: g.edges };
    let g2 = add_imports_v(g1, pf, fi, 0);
    let g3 = add_functions_v(g2, pf, fi, 0);
    add_classes_v(g3, pf, fi, 0)
}

pub open spec fn build_nodes_v(g: GraphV, files: Seq<ParsedFileV>, i: int) -> GraphV
    decreases files.len() - i,
{
    if i < 0 || i >= files.len() {
        g
    } else {
        build_nodes_v(add_file_v(g, files[i]), files, i + 1)
    }
}

/// The last node index carrying this id, or -1: the lookup index keeps the
/// latest insertion for a repeated id.
pub open spec fn last_idx_with_id(nodes: Seq<NodeV>, id: Seq<char>) -> int
    decreases nodes.len(),
{
    if nodes.len() == 0 {
        -1
    } else if nodes[nodes.len() - 1].id == id {
        nodes.len() - 1
    } else {
        last_idx_with_id(nodes.drop_last(), id)
    }
}

/// The last File-node index carrying this path, or -1.
pub open spec fn last_file_idx(nodes: Seq<NodeV>, path: Seq<char>) -> int
    decreases nodes.len(),
{
    if nodes.len() == 0 {
        -1
    } else if nodes[nodes.len() - 1].node_type == NodeType::File && nodes[nodes.len()
        - 1].file_path == path {
        nodes.len() - 1
    } else {
        last_file_idx(nodes.drop_last(), path)
    }
}

/// The first fact record whose filename stem equals the module name, or -1.
pub open spec fn find_stem_idx(files: Seq<ParsedFileV>, module: Seq<char>, j: int) -> int
    decreases files.len() - j,
{
    if j < 0 || j >= files.len() {
        -1
    } else if spec_stem_matches(files[j].file_info.path, module) {
        j
    } else {
        find_stem_idx(files, module, j + 1)
    }
}

/// One import's resolution: when some local file's stem equals the module
/// name, a DependsOn edge from the import node to that file's node.
pub open spec fn resolve_import_v(
    g: GraphV,
    files: Seq<ParsedFileV>,
    pf: ParsedFileV,
    im: ImportV,
) -> GraphV {
    let t = find_stem_idx(files, im.module, 0);
    if t == -1 {
        g
    } else {
        let ii = last_idx_with_id(g.nodes, import_id(pf.file_info.path, im.module));
        let fi = last_file_idx(g.nodes, files[t].file_info.path);
        if ii >= 0 && fi >= 0 {
            GraphV { nodes: g.nodes, edges: g.edges.push(depends_edge_v(ii, fi, im.line_number)) }
        } else {
            g
        }
    }
}

pub open spec fn resolve_imports_v(
    g: GraphV,
    files: Seq<ParsedFileV>,
    pf: ParsedFileV,
    k: int,
) -> GraphV
    decreases pf.imports.len() - k,
{
    if k < 0 || k >= pf.imports.len() {
        g
    } else {
        resolve_imports_v(resolve_import_v(g, files, pf, pf.imports[k]), files, pf, k + 1)
    }
}

pub open spec fn resolve_v(g: GraphV, files: Seq<ParsedFileV>, i: int) -> GraphV
    decreases files.len() - i,
{
    if i < 0 || i >= files.len() {
        g
    } else {
        resolve_v(resolve_imports_v(g, files, files[i], 0), files, i + 1)
    }
}

pub open spec fn empty_graph() -> GraphV {
    GraphV { nodes: Seq::empty(), edges: Seq::empty() }
}

/// The whole build: every file's nodes and Contains edges in order, then
/// the import-resolution pass.
pub open spec fn spec_build(files: Seq<ParsedFileV>) -> GraphV {
    resolve_v(build_nodes_v(empty_graph(), files, 0), files, 0)
}

// ---------------------------------------------------------------------------
// Executable helpers.
// ---------------------------------------------------------------------------

fn make_file_id(path: &String) -> (r: String)
    ensures
        r@ == file_id(path@),
{
    String::from_str("file:").concat(path.as_str())
}

fn make_import_id(path: &String, module: &String) -> (r: String)
    ensures
        r@ == import_id(path@, module@),
{
    let r = String::from_str("import:").concat(path.as_str()).concat(":").concat(module.as_str());
    proof {
        assert(r@ =~= import_id(path@, module@));
    }
    r
}

fn make_function_id(path: &String, name: &String) -> (r: String)
    ensures
        r@ == function_id(path@, name@),
{
    let r = String::from_str("function:").concat(path.as_str()).concat(":").concat(name.as_str());
    proof {
        assert(r@ =~= function_id(path@, name@));
    }
    r
}

fn make_class_id(path: &String, name: &String) -> (r: String)
    ensures
        r@ == class_id(path@, name@),
{
    let r = String::from_str("class:").concat(path.as_str()).concat(":").concat(name.as_str());
    proof {
        assert(r@ =~= class_id(path@, name@));
    }
    r
}

fn make_method_id(path: &String, cname: &String, mname: &String) -> (r: String)
    ensures
        r@ == method_id(path@, cname@, mname@),
{
    let r = String::from_str("method:").concat(path.as_str()).concat(":").concat(
        cname.as_str(),
    ).concat(":").concat(mname.as_str());
    proof {
        assert(r@ =~= method_id(path@, cname@, mname@));
    }
    r
}

/// The file name of a path, "unknown" when empty.
pub fn file_name_of(path: &String) -> (r: String)
    ensures
        r@ == spec_file_name(path@),
{
    let v = chars_of(path.as_str());
    let n = v.len();
    let name_start: usize = match rfind_char(&v, '/') {
        Option::Some(i) => i + 1,
        Option::None => 0,
    };
    proof {
        assert(name_start as int == rfind_ch(path@, '/') + 1);
    }
    if name_start == n {
        String::from_str("unknown")
    } else {
        let r = string_range(&v, name_start, n);
        r
    }
}

/// Whether the filename stem of a path equals a module name.
pub fn stem_matches(path: &String, module: &String) -> (r: bool)
    ensures
        r == spec_stem_matches(path@, module@),
{
    let v = chars_of(path.as_str());
    let n = v.len();
    let name_start: usize = match rfind_char(&v, '/') {
        Option::Some(i) => i + 1,
        Option::None => 0,
    };
    proof {
        assert(name_start as int == rfind_ch(path@, '/') + 1);
    }
    if name_start == n {
        return false;
    }
    let name = chars_range(&v, name_start, n);
    let stem_end: usize = match rfind_char(&name, '.') {
        Option::Some(p) => if p > 0 {
            p
        } else {
            name.len()
        },
        Option::None => name.len(),
    };
    let stem = string_range(&name, 0, stem_end);
    proof {
        let ghost nm = path@.subrange(rfind_ch(path@, '/') + 1, path@.len() as int);
        assert(name@ == nm);
        let d = rfind_ch(nm, '.');
        if d <= 0 {
            assert(stem@ =~= nm);
        } else {
            assert(stem@ =~= nm.subrange(0, d));
        }
    }
    str_eq(stem.as_str(), module.as_str())
}

/// File complexity: function count + class count + import count.
pub fn file_complexity(pf: &ParsedFile) -> (r: usize)
    ensures
        r as int == spec_file_complexity(pf@),
{
    pf.functions.len().saturating_add(pf.classes.len()).saturating_add(pf.imports.len())
}

/// Function complexity: parameter count plus two when asynchronous, else
/// plus one.
pub fn function_complexity(f: &crate::simple_parser::Function) -> (r: usize)
    ensures
        r as int == spec_function_complexity(f@),
{
    if f.is_async {
        f.parameters.len().saturating_add(2)
    } else {
        f.parameters.len().saturating_add(1)
    }
}

/// Class complexity: method count + interface count + one for a superclass.
pub fn class_complexity(c: &crate::simple_parser::Class) -> (r: usize)
    ensures
        r as int == spec_class_complexity(c@),
{
    let base = c.methods.len().saturating_add(c.implements.len());
    if c.extends.is_some() {
        base.saturating_add(1)
    } else {
        base.saturating_add(0)
    }
}

/// Whether some export fact of the file declares exactly this name.
pub fn name_exported(pf: &ParsedFile, name: &String) -> (r: bool)
    ensures
        r == spec_name_exported(pf@, name@),
{
    let n = pf.exports.len();
    let mut k: usize = 0;
    while k < n
        invariant
            k <= n,
            n == pf.exports@.len(),
            forall|t: int| 0 <= t < k ==> (#[trigger] pf@.exports[t]).name != name@,
        decreases n - k,
    {
        if pf.exports[k].name.eq(name) {
            proof {
                assert(pf@.exports[k as int].name == name@);
            }
            return true;
        }
        proof {
            assert(pf@.exports[k as int] == pf.exports@[k as int]@);
        }
        k = k + 1;
    }
    false
}

fn contains_edge(from: usize, to: usize, ln: usize) -> (e: GraphEdge)
    ensures
        e@ == contains_edge_v(from as int, to as int, ln as int),
{
    let mut line_numbers: Vec<usize> = Vec::new();
    line_numbers.push(ln);
    let e = GraphEdge {
        from,
        to,
        edge: Edge {
            edge_type: EdgeType::Contains,
            metadata: EdgeMetadata { call_count: 1, is_direct: true, line_numbers },
        },
    };
    proof {
        assert(e@.metadata.line_numbers =~= seq![ln as int]);
        assert(e@ =~= contains_edge_v(from as int, to as int, ln as int));
    }
    e
}

fn depends_edge(from: usize, to: usize, ln: usize) -> (e: GraphEdge)
    ensures
        e@ == depends_edge_v(from as int, to as int, ln as int),
{
    let mut line_numbers: Vec<usize> = Vec::new();
    line_numbers.push(ln);
    let e = GraphEdge {
        from,
        to,
        edge: Edge {
            edge_type: EdgeType::DependsOn,
            metadata: EdgeMetadata { call_count: 1, is_direct: true, line_numbers },
        },
    };
    proof {
        assert(e@.metadata.line_numbers =~= seq![ln as int]);
        assert(e@ =~= depends_edge_v(from as int, to as int, ln as int));
    }
    e
}

/// The first fact record whose filename stem equals the module name.
fn find_imported_file(parsed_files: &Vec<ParsedFile>, module: &String) -> (r: Option<usize>)
    ensures
        match r {
            Option::Some(j) => find_stem_idx(parsed_files_view(parsed_files@), module@, 0)
                == j as int && j < parsed_files@.len(),
            Option::None => find_stem_idx(parsed_files_view(parsed_files@), module@, 0) == -1,
        },
{
    let ghost fv = parsed_files_view(parsed_files@);
    let n = parsed_files.len();
    let mut j: usize = 0;
    while j < n
        invariant
            j <= n,
            n == parsed_files@.len(),
            fv == parsed_files_view(parsed_files@),
            find_stem_idx(fv, module@, 0) == find_stem_idx(fv, module@, j as int),
        decreases n - j,
    {
        proof {
            assert(fv[j as int] == parsed_files@[j as int]@);
        }
        if stem_matches(&parsed_files[j].file_info.path, module) {
            return Option::Some(j);
        }
        j = j + 1;
    }
    Option::None
}

/// The dependency graph builder: write-once, single pass, plus a lookup
/// index from node id to the latest node index carrying it.
pub struct GraphBuilder {
    pub graph: DependencyGraph,
    pub node_map: Vec<(String, usize)>,
}

impl GraphBuilder {
    /// The lookup index mirrors the node arena: one entry per node, in
    /// order, keyed by the node's id.
    pub open spec fn wf(self) -> bool {
        &&& self.node_map@.len() == self.graph@.nodes.len()
        &&& forall|k: int|
            0 <= k < self.node_map@.len() ==> ((#[trigger] self.node_map@[k]).0@
                == self.graph@.nodes[k].id && self.node_map@[k].1 == k as usize)
    }

    pub fn new() -> (r: GraphBuilder)
        ensures
            r.wf(),
            r.graph@ == empty_graph(),
    {
        let r = GraphBuilder {
            graph: DependencyGraph { nodes: Vec::new(), edges: Vec::new() },
            node_map: Vec::new(),
        };
        proof {
            assert(r.graph@ =~= empty_graph());
        }
        r
    }

    /// The built graph.
    pub fn get_graph(&self) -> (r: &DependencyGraph)
        ensures
            r@ == self.graph@,
    {
        &self.graph
    }

    /// The id-to-index lookup entries, one per node in insertion order.
    pub fn get_node_map(&self) -> (r: &Vec<(String, usize)>)
        ensures
            r@ == self.node_map@,
            self.wf() ==> r@.len() == self.graph@.nodes.len(),
    {
        &self.node_map
    }

    /// The last node index carrying this id.
    fn find_node_by_id(&self, id: &String) -> (r: Option<usize>)
        ensures
            match r {
                Option::Some(i) => last_idx_with_id(self.graph@.nodes, id@) == i as int,
                Option::None => last_idx_with_id(self.graph@.nodes, id@) == -1,
            },
    {
        let ghost nv = self.graph@.nodes;
        let n = self.graph.nodes.len();
        let mut i: usize = n;
        proof {
            assert(nv.take(n as int) =~= nv);
        }
        while i > 0
            invariant
                i <= n,
                n == self.graph.nodes@.len(),
                nv == self.graph@.nodes,
                last_idx_with_id(nv, id@) == last_idx_with_id(nv.take(i as int), id@),
            decreases i,
        {
            i = i - 1;
            proof {
                assert(nv.take(i + 1)[i as int] == nv[i as int]);
                assert(nv[i as int] == self.graph.nodes@[i as int]@);
            }
            if self.graph.nodes[i].id.eq(id) {
                proof {
                    assert(last_idx_with_id(nv.take(i + 1), id@) == i as int);
                }
                return Option::Some(i);
            }
            proof {
                assert(nv.take(i + 1).drop_last() =~= nv.take(i as int));
                assert(last_idx_with_id(nv.take(i + 1), id@) == last_idx_with_id(
                    nv.take(i as int),
                    id@,
                ));
            }
        }
        proof {
            assert(nv.take(0).len() == 0);
        }
        Option::None
    }

    /// The last File-node index carrying this path.
    fn find_file_node(&self, path: &String) -> (r: Option<usize>)
        ensures
            match r {
                Option::Some(i) => last_file_idx(self.graph@.nodes, path@) == i as int,
                Option::None => last_file_idx(self.graph@.nodes, path@) == -1,
            },
    {
        let ghost nv = self.graph@.nodes;
        let n = self.graph.nodes.len();
        let mut i: usize = n;
        proof {
            assert(nv.take(n as int) =~= nv);
        }
        while i > 0
            invariant
                i <= n,
                n == self.graph.nodes@.len(),
                nv == self.graph@.nodes,
                last_file_idx(nv, path@) == last_file_idx(nv.take(i as int), path@),
            decreases i,
        {
            i = i - 1;
            proof {
                assert(nv.take(i + 1)[i as int] == nv[i as int]);
                assert(nv[i as int] == self.graph.nodes@[i as int]@);
            }
            let node = &self.graph.nodes[i];
            if node.node_type == NodeType::File && node.file_path.eq(path) {
                proof {
                    assert(last_file_idx(nv.take(i + 1), path@) == i as int);
                }
                return Option::Some(i);
            }
            proof {
                assert(nv.take(i + 1).drop_last() =~= nv.take(i as int));
                assert(last_file_idx(nv.take(i + 1), path@) == last_file_idx(
                    nv.take(i as int),
                    path@,
                ));
            }
        }
        proof {
            assert(nv.take(0).len() == 0);
        }
        Option::None
    }

    fn push_node(&mut self, node: Node, id_for_map: String)
        requires
            old(self).wf(),
            id_for_map@ == node@.id,
        ensures
            final(self).wf(),
            final(self).graph@.nodes == old(self).graph@.nodes.push(node@),
            final(self).graph@.edges == old(self).graph@.edges,
    {
        let idx = self.graph.nodes.len();
        proof {
            assert(nodes_view(self.graph.nodes@.push(node)) =~= nodes_view(
                self.graph.nodes@,
            ).push(node@));
        }
        self.graph.nodes.push(node);
        self.node_map.push((id_for_map, idx));
    }

    fn add_file_node(&mut self, pf: &ParsedFile) -> (idx: usize)
        requires
            old(self).wf(),
        ensures
            final(self).wf(),
            idx as int == old(self).graph@.nodes.len(),
            final(self).graph@.nodes == old(self).graph@.nodes.push(file_node_v(pf@)),
            final(self).graph@.edges == old(self).graph@.edges,
    {
        let idx = self.graph.nodes.len();
        let id = make_file_id(&pf.file_info.path);
        let id_for_map = id.clone();
        let name = file_name_of(&pf.file_info.path);
        let complexity = file_complexity(pf);
        let node = Node {
            id,
            node_type: NodeType::File,
            file_path: pf.file_info.path.clone(),
            line_number: 1,
            metadata: NodeMetadata {
                name,
                language: clone_opt_string(&pf.file_info.language),
                size: Option::Some(pf.file_info.size),
                complexity: Option::Some(complexity),
                parameters: Vec::new(),
                return_type: Option::None,
                is_async: false,
                is_exported: false,
                docstring: Option::None,
            },
        };
        proof {
            assert(strings_view(Seq::<String>::empty()) =~= Seq::<Seq<char>>::empty());
            assert(node@ =~= file_node_v(pf@));
        }
        self.push_node(node, id_for_map);
        idx
    }

    fn add_imports(&mut self, pf: &ParsedFile, file_idx: usize)
        requires
            old(self).wf(),
        ensures
            final(self).wf(),
            final(self).graph@ == add_imports_v(old(self).graph@, pf@, file_idx as int, 0),
    {
        let ghost g0 = self.graph@;
        let ghost pv = pf@;
        let n = pf.imports.len();
        let mut k: usize = 0;
        while k < n
            invariant
                k <= n,
                n == pf.imports@.len(),
                pv == pf@,
                self.wf(),
                add_imports_v(g0, pv, file_idx as int, 0) == add_imports_v(
                    self.graph@,
                    pv,
                    file_idx as int,
                    k as int,
                ),
            decreases n - k,
        {
            let ghost gpre = self.graph@;
            let im = &pf.imports[k];
            proof {
                assert(pv.imports[k as int] == pf.imports@[k as int]@);
            }
            let idx = self.graph.nodes.len();
            let id = make_import_id(&pf.file_info.path, &im.module);
            let id_for_map = id.clone();
            let node = Node {
                id,
                node_type: NodeType::Import,
                file_path: pf.file_info.path.clone(),
                line_number: im.line_number,
                metadata: NodeMetadata {
                    name: im.module.clone(),
                    language: clone_opt_string(&pf.file_info.language),
                    size: Option::None,
                    complexity: Option::None,
                    parameters: clone_strings(&im.items),
                    return_type: Option::None,
                    is_async: false,
                    is_exported: false,
                    docstring: Option::None,
                },
            };
            proof {
                assert(node@ =~= import_node_v(pv, pv.imports[k as int]));
            }
            self.push_node(node, id_for_map);
            let e = contains_edge(file_idx, idx, im.line_number);
            proof {
                assert(edges_view(self.graph.edges@.push(e)) =~= edges_view(
                    self.graph.edges@,
                ).push(e@));
            }
            self.graph.edges.push(e);
            proof {
                assert(self.graph@ =~= add_owned_node(
                    gpre,
                    import_node_v(pv, pv.imports[k as int]),
                    file_idx as int,
                    pv.imports[k as int].line_number,
                ));
            }
            k = k + 1;
        }
    }

    fn add_functions(&mut self, pf: &ParsedFile, file_idx: usize)
        requires
            old(self).wf(),
        ensures
            final(self).wf(),
            final(self).graph@ == add_functions_v(old(self).graph@, pf@, file_idx as int, 0),
    {
        let ghost g0 = self.graph@;
        let ghost pv = pf@;
        let n = pf.functions.len();
        let mut k: usize = 0;
        while k < n
            invariant
                k <= n,
                n == pf.functions@.len(),
                pv == pf@,
                self.wf(),
                add_functions_v(g0, pv, file_idx as int, 0) == add_functions_v(
                    self.graph@,
                    pv,
                    file_idx as int,
                    k as int,
                ),
            decreases n - k,
        {
            let ghost gpre = self.graph@;
            let f = &pf.functions[k];
            proof {
                assert(pv.functions[k as int] == pf.functions@[k as int]@);
            }
            let idx = self.graph.nodes.len();
            let id = make_function_id(&pf.file_info.path, &f.name);
            let id_for_map = id.clone();
            let complexity = function_complexity(f);
            let exported = name_exported(pf, &f.name);
            let node = Node {
                id,
                node_type: NodeType::Function,
                file_path: pf.file_info.path.clone(),
                line_number: f.line_number,
                metadata: NodeMetadata {
                    name: f.name.clone(),
                    language: clone_opt_string(&pf.file_info.language),
                    size: Option::None,
                    complexity: Option::Some(complexity),
                    parameters: clone_strings(&f.parameters),
                    return_type: clone_opt_string(&f.return_type),
                    is_async: f.is_async,
                    is_exported: exported,
                    docstring: Option::None,
                },
            };
            proof {
                assert(node@ =~= function_node_v(pv, pv.functions[k as int]));
            }
            self.push_node(node, id_for_map);
            let e = contains_edge(file_idx, idx, f.line_number);
            proof {
                assert(edges_view(self.graph.edges@.push(e)) =~= edges_view(
                    self.graph.edges@,
                ).push(e@));
            }
            self.graph.edges.push(e);
            proof {
                assert(self.graph@ =~= add_owned_node(
                    gpre,
                    function_node_v(pv, pv.functions[k as int]),
                    file_idx as int,
                    pv.functions[k as int].line_number,
                ));
            }
            k = k + 1;
        }
    }

    fn add_classes(&mut self, pf: &ParsedFile, file_idx: usize)
        requires
            old(self).wf(),
        ensures
            final(self).wf(),
            final(self).graph@ == add_classes_v(old(self).graph@, pf@, file_idx as int, 0),
    {
        let ghost g0 = self.graph@;
        let ghost pv = pf@;
        let n = pf.classes.len();
        let mut k: usize = 0;
        while k < n
            invariant
                k <= n,
                n == pf.classes@.len(),
                pv == pf@,
                self.wf(),
                add_classes_v(g0, pv, file_idx as int, 0) == add_classes_v(
                    self.graph@,
                    pv,
                    file_idx as int,
                    k as int,
                ),
            decreases n - k,
        {
            let ghost gpre = self.graph@;
            let cl = &pf.classes[k];
            proof {
                assert(pv.classes[k as int] == pf.classes@[k as int]@);
            }
            let ghost cv = pv.classes[k as int];
            let class_idx = self.graph.nodes.len();
            let id = make_class_id(&pf.file_info.path, &cl.name);
            let id_for_map = id.clone();
            let complexity = class_complexity(cl);
            let exported = name_exported(pf, &cl.name);
            let node = Node {
                id,
                node_type: NodeType::Class,
                file_path: pf.file_info.path.clone(),
                line_number: cl.line_number,
                metadata: NodeMetadata {
                    name: cl.name.clone(),
                    language: clone_opt_string(&pf.file_info.language),
                    size: Option::None,
                    complexity: Option::Some(complexity),
                    parameters: Vec::new(),
                    return_type: Option::None,
                    is_async: false,
                    is_exported: exported,
                    docstring: Option::None,
                },
            };
            proof {
                assert(strings_view(Seq::<String>::empty()) =~= Seq::<Seq<char>>::empty());
                assert(node@ =~= class_node_v(pv, cv));
            }
            self.push_node(node, id_for_map);
            let e = contains_edge(file_idx, class_idx, cl.line_number);
            proof {
                assert(edges_view(self.graph.edges@.push(e)) =~= edges_view(
                    self.graph.edges@,
                ).push(e@));
            }
            self.graph.edges.push(e);
            let ghost gc = self.graph@;
            proof {
                assert(gc =~= add_owned_node(gpre, class_node_v(pv, cv), file_idx as int,
                    cv.line_number));
            }
            let nm = cl.methods.len();
            let mut m: usize = 0;
            while m < nm
                invariant
                    m <= nm,
                    nm == cl.methods@.len(),
                    pv == pf@,
                    cv == pv.classes[k as int],
                    k < pf.classes@.len(),
                    cl@ == cv,
                    self.wf(),
                    add_methods_v(gc, pv, cv, class_idx as int, 0) == add_methods_v(
                        self.graph@,
                        pv,
                        cv,
                        class_idx as int,
                        m as int,
                    ),
                decreases nm - m,
            {
                let ghost gmpre = self.graph@;
                let me = &cl.methods[m];
                proof {
                    assert(cv.methods[m as int] == cl.methods@[m as int]@);
                }
                let idx = self.graph.nodes.len();
                let mname = cl.name.clone().concat(".").concat(me.name.as_str());
                let id = make_method_id(&pf.file_info.path, &cl.name, &me.name);
                let id_for_map = id.clone();
                let complexity = function_complexity(me);
                let node = Node {
                    id,
                    node_type: NodeType::Function,
                    file_path: pf.file_info.path.clone(),
                    line_number: me.line_number,
                    metadata: NodeMetadata {
                        name: mname,
                        language: clone_opt_string(&pf.file_info.language),
                        size: Option::None,
                        complexity: Option::Some(complexity),
                        parameters: clone_strings(&me.parameters),
                        return_type: clone_opt_string(&me.return_type),
                        is_async: me.is_async,
                        is_exported: false,
                        docstring: Option::None,
                    },
                };
                proof {
                    assert(node@.metadata.name =~= cv.name + "."@ + cv.methods[m as int].name);
                    assert(node@ =~= method_node_v(pv, cv, cv.methods[m as int]));
                }
                self.push_node(node, id_for_map);
                let e = contains_edge(class_idx, idx, me.line_number);
                proof {
                    assert(edges_view(self.graph.edges@.push(e)) =~= edges_view(
                        self.graph.edges@,
                    ).push(e@));
                }
                self.graph.edges.push(e);
                proof {
                    assert(self.graph@ =~= add_owned_node(
                        gmpre,
                        method_node_v(pv, cv, cv.methods[m as int]),
                        class_idx as int,
                        cv.methods[m as int].line_number,
                    ));
                }
                m = m + 1;
            }
            k = k + 1;
        }
    }

    fn add_call_relationships(&mut self, parsed_files: &Vec<ParsedFile>)
        requires
            old(self).wf(),
        ensures
            final(self).wf(),
            final(self).graph@ == resolve_v(
                old(self).graph@,
                parsed_files_view(parsed_files@),
                0,
            ),
    {
        let ghost g0 = self.graph@;
        let ghost fv = parsed_files_view(parsed_files@);
        let n = parsed_files.len();
        let mut i: usize = 0;
        while i < n
            invariant
                i <= n,
                n == parsed_files@.len(),
                fv == parsed_files_view(parsed_files@),
                self.wf(),
                resolve_v(g0, fv, 0) == resolve_v(self.graph@, fv, i as int),
            decreases n - i,
        {
            let pf = &parsed_files[i];
            proof {
                assert(fv[i as int] == parsed_files@[i as int]@);
            }
            let ghost pv = pf@;
            let ghost genter = self.graph@;
            let nk = pf.imports.len();
            let mut k: usize = 0;
            while k < nk
                invariant
                    k <= nk,
                    nk == pf.imports@.len(),
                    i < parsed_files@.len(),
                    fv == parsed_files_view(parsed_files@),
                    pv == pf@,
                    self.wf(),
                    resolve_imports_v(genter, fv, pv, 0) == resolve_imports_v(
                        self.graph@,
                        fv,
                        pv,
                        k as int,
                    ),
                decreases nk - k,
            {
                let ghost gpre = self.graph@;
                let im = &pf.imports[k];
                proof {
                    assert(pv.imports[k as int] == pf.imports@[k as int]@);
                }
                match find_imported_file(parsed_files, &im.module) {
                    Option::Some(t) => {
                        proof {
                            assert(fv[t as int] == parsed_files@[t as int]@);
                        }
                        let id = make_import_id(&pf.file_info.path, &im.module);
                        let ii_opt = self.find_node_by_id(&id);
                        let fi_opt = self.find_file_node(&parsed_files[t].file_info.path);
                        match (ii_opt, fi_opt) {
                            (Option::Some(ii), Option::Some(fi)) => {
                                let e = depends_edge(ii, fi, im.line_number);
                                proof {
                                    assert(edges_view(self.graph.edges@.push(e)) =~= edges_view(
                                        self.graph.edges@,
                                    ).push(e@));
                                }
                                self.graph.edges.push(e);
                                proof {
                                    assert(self.graph@ =~= resolve_import_v(
                                        gpre,
                                        fv,
                                        pv,
                                        pv.imports[k as int],
                                    ));
                                }
                            },
                            _ => {
                                proof {
                                    assert(self.graph@ =~= resolve_import_v(
                                        gpre,
                                        fv,
                                        pv,
                                        pv.imports[k as int],
                                    ));
                                }
                            },
                        }
                    },
                    Option::None => {
                        proof {
                            assert(self.graph@ =~= resolve_import_v(
                                gpre,
                                fv,
                                pv,
                                pv.imports[k as int],
                            ));
                        }
                    },
                }
                k = k + 1;
            }
            i = i + 1;
        }
    }

    /// Builds the whole graph from the fact records: per file its nodes and
    /// Contains edges in a fixed order, then the import-resolution pass.
    /// Write-once: the builder must be fresh.
    pub fn build_graph(&mut self, parsed_files: &Vec<ParsedFile>)
        requires
            old(self).wf(),
            old(self).graph@ == empty_graph(),
        ensures
            final(self).wf(),
            final(self).graph@ == spec_build(parsed_files_view(parsed_files@)),
    {
        let ghost fv = parsed_files_view(parsed_files@);
        let n = parsed_files.len();
        let mut i: usize = 0;
        while i < n
            invariant
                i <= n,
                n == parsed_files@.len(),
                fv == parsed_files_view(parsed_files@),
                self.wf(),
                build_nodes_v(empty_graph(), fv, 0) == build_nodes_v(self.graph@, fv, i as int),
            decreases n - i,
        {
            let ghost gpre = self.graph@;
            let pf = &parsed_files[i];
            proof {
                assert(fv[i as int] == parsed_files@[i as int]@);
            }
            let fi = self.add_file_node(pf);
            let ghost g1 = self.graph@;
            proof {
                assert(g1 =~= (GraphV {
                    nodes: gpre.nodes.push(file_node_v(pf@)),
                    edges: gpre.edges,
                }));
            }
            self.add_imports(pf, fi);
            self.add_functions(pf, fi);
            self.add_classes(pf, fi);
            proof {
                assert(self.graph@ == add_file_v(gpre, fv[i as int]));
            }
            i = i + 1;
        }
        self.add_call_relationships(parsed_files);
    }
}

// ---------------------------------------------------------------------------
// Summary metrics.
// ---------------------------------------------------------------------------

/// The display name of a node type tag.
pub open spec fn spec_node_type_name(t: NodeType) -> Seq<char> {
    match t {
        NodeType::File => "File"@,
        NodeType::Module => "Module"@,
        NodeType::Function => "Function"@,
        NodeType::Class => "Class"@,
        NodeType::Variable => "Variable"@,
        NodeType::Import => "Import"@,
        NodeType::Export => "Export"@,
    }
}

/// The display name of an edge type tag.
pub open spec fn spec_edge_type_name(t: EdgeType) -> Seq<char> {
    match t {
        EdgeType::Imports => "Imports"@,
        EdgeType::Calls => "Calls"@,
        EdgeType::Extends => "Extends"@,
        EdgeType::Implements => "Implements"@,
        EdgeType::Contains => "Contains"@,
        EdgeType::References => "References"@,
        EdgeType::DependsOn => "DependsOn"@,
    }
}

pub fn node_type_name(t: NodeType) -> (r: String)
    ensures
        r@ == spec_node_type_name(t),
{
    match t {
        NodeType::File => String::from_str("File"),
        NodeType::Module => String::from_str("Module"),
        NodeType::Function => String::from_str("Function"),
        NodeType::Class => String::from_str("Class"),
        NodeType::Variable => String::from_str("Variable"),
        NodeType::Import => String::from_str("Import"),
        NodeType::Export => String::from_str("Export"),
    }
}

pub fn edge_type_name(t: EdgeType) -> (r: String)
    ensures
        r@ == spec_edge_type_name(t),
{
    match t {
        EdgeType::Imports => String::from_str("Imports"),
        EdgeType::Calls => String::from_str("Calls"),
        EdgeType::Extends => String::from_str("Extends"),
        EdgeType::Implements => String::from_str("Implements"),
        EdgeType::Contains => String::from_str("Contains"),
        EdgeType::References => String::from_str("References"),
        EdgeType::DependsOn => String::from_str("DependsOn"),
    }
}

/// The node type names of a graph, one per node, in node order.
pub open spec fn node_type_names(g: GraphV) -> Seq<Seq<char>> {
    g.nodes.map_values(|n: NodeV| spec_node_type_name(n.node_type))
}

/// The edge type names of a graph, one per edge, in edge order.
pub open spec fn edge_type_names(g: GraphV) -> Seq<Seq<char>> {
    g.edges.map_values(|e: GraphEdgeV| spec_edge_type_name(e.edge_type))
}

/// The summary metrics of a built graph: totals and per-type histograms.
/// Cycle detection is out of scope: the component count is a placeholder.
#[derive(Debug)]
pub struct DependencyAnalysis {
    pub total_nodes: usize,
    pub total_edges: usize,
    pub node_types: Vec<(String, usize)>,
    pub edge_types: Vec<(String, usize)>,
    pub strongly_connected_components: usize,
}

impl DependencyAnalysis {
    /// The average degree as an exact ratio of edges to nodes; on an empty
    /// graph it is zero exactly, never undefined.
    pub fn avg_degree(&self) -> (r: (usize, usize))
        ensures
            self.total_nodes == 0 ==> r == (0usize, 1usize),
            self.total_nodes > 0 ==> r == (self.total_edges, self.total_nodes),
            r.1 > 0,
    {
        if self.total_nodes == 0 {
            (0, 1)
        } else {
            (self.total_edges, self.total_nodes)
        }
    }
}

impl GraphBuilder {
    /// Aggregates the built graph: node and edge totals and histograms of
    /// the node and edge type names.
    pub fn analyze_dependencies(&self) -> (r: DependencyAnalysis)
        ensures
            r.total_nodes == self.graph@.nodes.len(),
            r.total_edges == self.graph@.edges.len(),
            is_histogram(pairs_view(r.node_types@), node_type_names(self.graph@)),
            is_histogram(pairs_view(r.edge_types@), edge_type_names(self.graph@)),
            r.strongly_connected_components == 0,
    {
        let total_nodes = self.graph.nodes.len();
        let total_edges = self.graph.edges.len();
        let mut node_keys: Vec<String> = Vec::new();
        let mut i: usize = 0;
        proof {
            assert(strings_view(node_keys@) =~= node_type_names(self.graph@).take(0));
        }
        while i < total_nodes
            invariant
                i <= total_nodes,
                total_nodes == self.graph.nodes@.len(),
                strings_view(node_keys@) == node_type_names(self.graph@).take(i as int),
            decreases total_nodes - i,
        {
            let nm = node_type_name(self.graph.nodes[i].node_type);
            proof {
                assert(node_type_names(self.graph@)[i as int] == spec_node_type_name(
                    self.graph.nodes@[i as int]@.node_type,
                ));
                assert(strings_view(node_keys@.push(nm)) =~= strings_view(node_keys@).push(nm@));
                assert(strings_view(node_keys@).push(nm@) =~= node_type_names(self.graph@).take(
                    i + 1,
                ));
            }
            node_keys.push(nm);
            i = i + 1;
        }
        proof {
            assert(node_type_names(self.graph@).take(total_nodes as int) =~= node_type_names(
                self.graph@,
            ));
        }
        let node_types = crate::strutil::histogram(&node_keys);
        let mut edge_keys: Vec<String> = Vec::new();
        let mut j: usize = 0;
        proof {
            assert(strings_view(edge_keys@) =~= edge_type_names(self.graph@).take(0));
        }
        while j < total_edges
            invariant
                j <= total_edges,
                total_edges == self.graph.edges@.len(),
                strings_view(edge_keys@) == edge_type_names(self.graph@).take(j as int),
            decreases total_edges - j,
        {
            let nm = edge_type_name(self.graph.edges[j].edge.edge_type);
            proof {
                assert(edge_type_names(self.graph@)[j as int] == spec_edge_type_name(
                    self.graph.edges@[j as int]@.edge_type,
                ));
                assert(strings_view(edge_keys@.push(nm)) =~= strings_view(edge_keys@).push(nm@));
                assert(strings_view(edge_keys@).push(nm@) =~= edge_type_names(self.graph@).take(
                    j + 1,
                ));
            }
            edge_keys.push(nm);
            j = j + 1;
        }
        proof {
            assert(edge_type_names(self.graph@).take(total_edges as int) =~= edge_type_names(
                self.graph@,
            ));
        }
        let edge_types = crate::strutil::histogram(&edge_keys);
        DependencyAnalysis {
            total_nodes,
            total_edges,
            node_types,
            edge_types,
            strongly_connected_components: 0,
        }
    }
}


// ---------------------------------------------------------------------------
// The containment invariant: every non-file node has exactly one incoming
// Contains edge, and its source has the owning kind.
// ---------------------------------------------------------------------------

/// How many Contains edges point at node `i`.
pub open spec fn contains_in_count(edges: Seq<GraphEdgeV>, i: int) -> int
    decreases edges.len(),
{
    if edges.len() == 0 {
        0
    } else {
        contains_in_count(edges.drop_last(), i) + if edges.last().edge_type == EdgeType::Contains
            && edges.last().to == i {
            1int
        } else {
            0int
        }
    }
}

pub open spec fn starts_with(s: Seq<char>, p: Seq<char>) -> bool {
    s.len() >= p.len() && s.subrange(0, p.len() as int) == p
}

/// The containment shape of a built graph: edges stay inside the arena, a
/// File node has no incoming Contains edge, every other node has exactly
/// one, and the source of a Contains edge is a File node, except for a
/// method node, whose source is a Class node.
pub open spec fn contain_wf(g: GraphV) -> bool {
    &&& forall|e: int|
        0 <= e < g.edges.len() ==> 0 <= (#[trigger] g.edges[e]).from < g.nodes.len() && 0
            <= g.edges[e].to < g.nodes.len()
    &&& forall|i: int|
        0 <= i < g.nodes.len() ==> contains_in_count(g.edges, i) == (
        if (#[trigger] g.nodes[i]).node_type == NodeType::File {
            0int
        } else {
            1int
        })
    &&& forall|e: int|
        0 <= e < g.edges.len() && (#[trigger] g.edges[e]).edge_type == EdgeType::Contains ==> ({
            let n = g.nodes[g.edges[e].to];
            &&& (n.node_type == NodeType::Function && starts_with(n.id, "function:"@)
                ==> g.nodes[g.edges[e].from].node_type == NodeType::File)
            &&& (starts_with(n.id, "method:"@) ==> g.nodes[g.edges[e].from].node_type
                == NodeType::Class)
            &&& (n.node_type == NodeType::Import ==> g.nodes[g.edges[e].from].node_type
                == NodeType::File)
            &&& (n.node_type == NodeType::Class ==> g.nodes[g.edges[e].from].node_type
                == NodeType::File)
        })
    &&& forall|i: int|
        0 <= i < g.nodes.len() && (#[trigger] g.nodes[i]).node_type == NodeType::Function ==> (
        starts_with(g.nodes[i].id, "function:"@) || starts_with(g.nodes[i].id, "method:"@))
}

proof fn lemma_prefix(p: Seq<char>, x: Seq<char>)
    ensures
        starts_with(p + x, p),
{
    assert((p + x).subrange(0, p.len() as int) =~= p);
}

proof fn lemma_not_prefix(s: Seq<char>, p: Seq<char>)
    requires
        s.len() >= 1,
        p.len() >= 1,
        s[0] != p[0],
    ensures
        !starts_with(s, p),
{
    if starts_with(s, p) {
        assert(s.subrange(0, p.len() as int)[0] == s[0]);
    }
}

proof fn lemma_id_prefixes(path: Seq<char>, a: Seq<char>, b: Seq<char>)
    ensures
        starts_with(function_id(path, a), "function:"@),
        !starts_with(function_id(path, a), "method:"@),
        starts_with(method_id(path, a, b), "method:"@),
        !starts_with(method_id(path, a, b), "function:"@),
        !starts_with(import_id(path, a), "method:"@),
        !starts_with(import_id(path, a), "function:"@),
        !starts_with(class_id(path, a), "method:"@),
{
    reveal_strlit("function:");
    reveal_strlit("method:");
    reveal_strlit("import:");
    reveal_strlit("class:");
    let fid = function_id(path, a);
    assert(fid =~= "function:"@ + (path + ":"@ + a));
    lemma_prefix("function:"@, path + ":"@ + a);
    assert(fid[0] == 'f');
    lemma_not_prefix(fid, "method:"@);
    let mid = method_id(path, a, b);
    assert(mid =~= "method:"@ + (path + ":"@ + a + ":"@ + b));
    lemma_prefix("method:"@, path + ":"@ + a + ":"@ + b);
    assert(mid[0] == 'm');
    lemma_not_prefix(mid, "function:"@);
    let iid = import_id(path, a);
    assert(iid =~= "import:"@ + (path + ":"@ + a));
    lemma_prefix("import:"@, path + ":"@ + a);
    assert(iid[0] == 'i');
    lemma_not_prefix(iid, "method:"@);
    lemma_not_prefix(iid, "function:"@);
    let cid = class_id(path, a);
    assert(cid =~= "class:"@ + (path + ":"@ + a));
    lemma_prefix("class:"@, path + ":"@ + a);
    assert(cid[0] == 'c');
    lemma_not_prefix(cid, "method:"@);
}

proof fn lemma_contains_count_fresh(edges: Seq<GraphEdgeV>, i: int)
    requires
        forall|e: int| 0 <= e < edges.len() ==> (#[trigger] edges[e]).to != i,
    ensures
        contains_in_count(edges, i) == 0,
    decreases edges.len(),
{
    if edges.len() > 0 {
        assert(forall|e: int|
            0 <= e < edges.drop_last().len() ==> (#[trigger] edges.drop_last()[e]).to != i);
        lemma_contains_count_fresh(edges.drop_last(), i);
    }
}

/// Appending a node with its Contains edge keeps the containment shape,
/// provided the source node has the kind that owns the new node.
proof fn lemma_add_owned_wf(g: GraphV, n: NodeV, from: int, ln: int)
    requires
        contain_wf(g),
        0 <= from < g.nodes.len(),
        n.node_type != NodeType::File,
        n.node_type == NodeType::Function && starts_with(n.id, "function:"@) ==> g.nodes[
            from
        ].node_type == NodeType::File,
        starts_with(n.id, "method:"@) ==> g.nodes[from].node_type == NodeType::Class,
        n.node_type == NodeType::Import ==> g.nodes[from].node_type == NodeType::File,
        n.node_type == NodeType::Class ==> g.nodes[from].node_type == NodeType::File,
        n.node_type == NodeType::Function ==> starts_with(n.id, "function:"@) || starts_with(
            n.id,
            "method:"@,
        ),
    ensures
        contain_wf(add_owned_node(g, n, from, ln)),
{
    let g2 = add_owned_node(g, n, from, ln);
    let j = g.nodes.len() as int;
    assert(g2.edges.drop_last() =~= g.edges);
    assert(g2.edges.last() == contains_edge_v(from, j, ln));
    assert forall|i: int| 0 <= i < g2.nodes.len() implies contains_in_count(g2.edges, i) == (
    if (#[trigger] g2.nodes[i]).node_type == NodeType::File {
        0int
    } else {
        1int
    }) by {
        if i < j {
            assert(g2.nodes[i] == g.nodes[i]);
            assert(contains_in_count(g2.edges, i) == contains_in_count(g.edges, i));
        } else {
            assert(forall|e: int| 0 <= e < g.edges.len() ==> (#[trigger] g.edges[e]).to != j);
            lemma_contains_count_fresh(g.edges, j);
            assert(contains_in_count(g2.edges, j) == 1);
        }
    }
    assert forall|e: int|
        0 <= e < g2.edges.len() && (#[trigger] g2.edges[e]).edge_type == EdgeType::Contains implies ({
        let t = g2.nodes[g2.edges[e].to];
        &&& (t.node_type == NodeType::Function && starts_with(t.id, "function:"@) ==> g2.nodes[
            g2.edges[e].from
        ].node_type == NodeType::File)
        &&& (starts_with(t.id, "method:"@) ==> g2.nodes[g2.edges[e].from].node_type
            == NodeType::Class)
        &&& (t.node_type == NodeType::Import ==> g2.nodes[g2.edges[e].from].node_type
            == NodeType::File)
        &&& (t.node_type == NodeType::Class ==> g2.nodes[g2.edges[e].from].node_type
            == NodeType::File)
    }) by {
        if e < g.edges.len() {
            assert(g2.edges[e] == g.edges[e]);
            assert(g2.nodes[g2.edges[e].to] == g.nodes[g.edges[e].to]);
            assert(g2.nodes[g2.edges[e].from] == g.nodes[g.edges[e].from]);
        } else {
            assert(g2.edges[e] == contains_edge_v(from, j, ln));
            assert(g2.nodes[j] == n);
            assert(g2.nodes[from] == g.nodes[from]);
        }
    }
}

proof fn lemma_add_imports_wf(g: GraphV, pf: ParsedFileV, fi: int, k: int)
    requires
        contain_wf(g),
        0 <= fi < g.nodes.len(),
        g.nodes[fi].node_type == NodeType::File,
    ensures
        contain_wf(add_imports_v(g, pf, fi, k)),
        add_imports_v(g, pf, fi, k).nodes.len() >= g.nodes.len(),
        forall|t: int|
            0 <= t < g.nodes.len() ==> add_imports_v(g, pf, fi, k).nodes[t] == g.nodes[t],
    decreases pf.imports.len() - k,
{
    if 0 <= k < pf.imports.len() {
        let n = import_node_v(pf, pf.imports[k]);
        lemma_id_prefixes(pf.file_info.path, pf.imports[k].module, ""@);
        lemma_add_owned_wf(g, n, fi, pf.imports[k].line_number);
        let g2 = add_owned_node(g, n, fi, pf.imports[k].line_number);
        lemma_add_imports_wf(g2, pf, fi, k + 1);
        assert forall|t: int| 0 <= t < g.nodes.len() implies add_imports_v(g, pf, fi, k).nodes[t]
            == g.nodes[t] by {
            assert(g2.nodes[t] == g.nodes[t]);
            assert(add_imports_v(g2, pf, fi, k + 1).nodes[t] == g2.nodes[t]);
        }
    }
}

proof fn lemma_add_functions_wf(g: GraphV, pf: ParsedFileV, fi: int, k: int)
    requires
        contain_wf(g),
        0 <= fi < g.nodes.len(),
        g.nodes[fi].node_type == NodeType::File,
    ensures
        contain_wf(add_functions_v(g, pf, fi, k)),
        add_functions_v(g, pf, fi, k).nodes.len() >= g.nodes.len(),
        forall|t: int|
            0 <= t < g.nodes.len() ==> add_functions_v(g, pf, fi, k).nodes[t] == g.nodes[t],
    decreases pf.functions.len() - k,
{
    if 0 <= k < pf.functions.len() {
        let n = function_node_v(pf, pf.functions[k]);
        lemma_id_prefixes(pf.file_info.path, pf.functions[k].name, ""@);
        lemma_add_owned_wf(g, n, fi, pf.functions[k].line_number);
        let g2 = add_owned_node(g, n, fi, pf.functions[k].line_number);
        lemma_add_functions_wf(g2, pf, fi, k + 1);
        assert forall|t: int| 0 <= t < g.nodes.len() implies add_functions_v(g, pf, fi, k).nodes[t]
            == g.nodes[t] by {
            assert(g2.nodes[t] == g.nodes[t]);
            assert(add_functions_v(g2, pf, fi, k + 1).nodes[t] == g2.nodes[t]);
        }
    }
}

proof fn lemma_add_methods_wf(g: GraphV, pf: ParsedFileV, c: ClassV, ci: int, k: int)
    requires
        contain_wf(g),
        0 <= ci < g.nodes.len(),
        g.nodes[ci].node_type == NodeType::Class,
    ensures
        contain_wf(add_methods_v(g, pf, c, ci, k)),
        add_methods_v(g, pf, c, ci, k).nodes.len() >= g.nodes.len(),
        forall|t: int|
            0 <= t < g.nodes.len() ==> add_methods_v(g, pf, c, ci, k).nodes[t] == g.nodes[t],
    decreases c.methods.len() - k,
{
    if 0 <= k < c.methods.len() {
        let n = method_node_v(pf, c, c.methods[k]);
        lemma_id_prefixes(pf.file_info.path, c.name, c.methods[k].name);
        lemma_add_owned_wf(g, n, ci, c.methods[k].line_number);
        let g2 = add_owned_node(g, n, ci, c.methods[k].line_number);
        lemma_add_methods_wf(g2, pf, c, ci, k + 1);
        assert forall|t: int| 0 <= t < g.nodes.len() implies add_methods_v(g, pf, c, ci, k).nodes[t]
            == g.nodes[t] by {
            assert(g2.nodes[t] == g.nodes[t]);
            assert(add_methods_v(g2, pf, c, ci, k + 1).nodes[t] == g2.nodes[t]);
        }
    }
}

proof fn lemma_add_classes_wf(g: GraphV, pf: ParsedFileV, fi: int, k: int)
    requires
        contain_wf(g),
        0 <= fi < g.nodes.len(),
        g.nodes[fi].node_type == NodeType::File,
    ensures
        contain_wf(add_classes_v(g, pf, fi, k)),
        add_classes_v(g, pf, fi, k).nodes.len() >= g.nodes.len(),
        forall|t: int|
            0 <= t < g.nodes.len() ==> add_classes_v(g, pf, fi, k).nodes[t] == g.nodes[t],
    decreases pf.classes.len() - k,
{
    if 0 <= k < pf.classes.len() {
        let c = pf.classes[k];
        let ci = g.nodes.len() as int;
        let n = class_node_v(pf, c);
        lemma_id_prefixes(pf.file_info.path, c.name, ""@);
        lemma_add_owned_wf(g, n, fi, c.line_number);
        let g1 = add_owned_node(g, n, fi, c.line_number);
        assert(g1.nodes[ci] == n);
        lemma_add_methods_wf(g1, pf, c, ci, 0);
        let g2 = add_methods_v(g1, pf, c, ci, 0);
        assert(g2.nodes[fi] == g.nodes[fi]);
        lemma_add_classes_wf(g2, pf, fi, k + 1);
        assert forall|t: int| 0 <= t < g.nodes.len() implies add_classes_v(g, pf, fi, k).nodes[t]
            == g.nodes[t] by {
            assert(g1.nodes[t] == g.nodes[t]);
            assert(g2.nodes[t] == g1.nodes[t]);
            assert(add_classes_v(g2, pf, fi, k + 1).nodes[t] == g2.nodes[t]);
        }
    }
}

proof fn lemma_add_file_wf(g: GraphV, pf: ParsedFileV)
    ensures
        contain_wf(g) ==> contain_wf(add_file_v(g, pf)),
{
    if contain_wf(g) {
        let fi = g.nodes.len() as int;
        let g1 = GraphV { nodes: g.nodes.push(file_node_v(pf)), edges: g.edges };
        assert forall|i: int| 0 <= i < g1.nodes.len() implies contains_in_count(g1.edges, i) == (
        if (#[trigger] g1.nodes[i]).node_type == NodeType::File {
            0int
        } else {
            1int
        }) by {
            if i < fi {
                assert(g1.nodes[i] == g.nodes[i]);
            } else {
                assert(forall|e: int| 0 <= e < g.edges.len() ==> (#[trigger] g.edges[e]).to != fi);
                lemma_contains_count_fresh(g.edges, fi);
            }
        }
        assert forall|e: int|
            0 <= e < g1.edges.len() && (#[trigger] g1.edges[e]).edge_type == EdgeType::Contains implies ({
            let t = g1.nodes[g1.edges[e].to];
            &&& (t.node_type == NodeType::Function && starts_with(t.id, "function:"@) ==> g1.nodes[
                g1.edges[e].from
            ].node_type == NodeType::File)
            &&& (starts_with(t.id, "method:"@) ==> g1.nodes[g1.edges[e].from].node_type
                == NodeType::Class)
            &&& (t.node_type == NodeType::Import ==> g1.nodes[g1.edges[e].from].node_type
                == NodeType::File)
            &&& (t.node_type == NodeType::Class ==> g1.nodes[g1.edges[e].from].node_type
                == NodeType::File)
        }) by {
            assert(g1.edges[e] == g.edges[e]);
            assert(g1.nodes[g.edges[e].to] == g.nodes[g.edges[e].to]);
            assert(g1.nodes[g.edges[e].from] == g.nodes[g.edges[e].from]);
        }
        assert(contain_wf(g1));
        assert(g1.nodes[fi].node_type == NodeType::File);
        lemma_add_imports_wf(g1, pf, fi, 0);
        let g2 = add_imports_v(g1, pf, fi, 0);
        lemma_add_functions_wf(g2, pf, fi, 0);
        let g3 = add_functions_v(g2, pf, fi, 0);
        lemma_add_classes_wf(g3, pf, fi, 0);
    }
}

proof fn lemma_build_nodes_wf(g: GraphV, files: Seq<ParsedFileV>, i: int)
    requires
        contain_wf(g),
    ensures
        contain_wf(build_nodes_v(g, files, i)),
    decreases files.len() - i,
{
    if 0 <= i < files.len() {
        lemma_add_file_wf(g, files[i]);
        lemma_build_nodes_wf(add_file_v(g, files[i]), files, i + 1);
    }
}

proof fn lemma_last_idx_bounds(nodes: Seq<NodeV>, id: Seq<char>)
    ensures
        last_idx_with_id(nodes, id) == -1 || 0 <= last_idx_with_id(nodes, id) < nodes.len(),
    decreases nodes.len(),
{
    if nodes.len() > 0 && nodes[nodes.len() - 1].id != id {
        lemma_last_idx_bounds(nodes.drop_last(), id);
    }
}

proof fn lemma_last_file_idx_bounds(nodes: Seq<NodeV>, path: Seq<char>)
    ensures
        last_file_idx(nodes, path) == -1 || 0 <= last_file_idx(nodes, path) < nodes.len(),
    decreases nodes.len(),
{
    if nodes.len() > 0 && !(nodes[nodes.len() - 1].node_type == NodeType::File && nodes[nodes.len()
        - 1].file_path == path) {
        lemma_last_file_idx_bounds(nodes.drop_last(), path);
    }
}

proof fn lemma_push_depends_wf(g: GraphV, from: int, to: int, ln: int)
    requires
        contain_wf(g),
        0 <= from < g.nodes.len(),
        0 <= to < g.nodes.len(),
    ensures
        contain_wf(GraphV { nodes: g.nodes, edges: g.edges.push(depends_edge_v(from, to, ln)) }),
{
    let g2 = GraphV { nodes: g.nodes, edges: g.edges.push(depends_edge_v(from, to, ln)) };
    assert(g2.edges.drop_last() =~= g.edges);
    assert forall|i: int| 0 <= i < g2.nodes.len() implies contains_in_count(g2.edges, i) == (
    if (#[trigger] g2.nodes[i]).node_type == NodeType::File {
        0int
    } else {
        1int
    }) by {
        assert(contains_in_count(g2.edges, i) == contains_in_count(g.edges, i));
    }
    assert forall|e: int|
        0 <= e < g2.edges.len() && (#[trigger] g2.edges[e]).edge_type == EdgeType::Contains implies e
        < g.edges.len() && g2.edges[e] == g.edges[e] by {
        if e == g.edges.len() {
            assert(g2.edges[e].edge_type == EdgeType::DependsOn);
        }
    }
}

proof fn lemma_resolve_imports_wf(g: GraphV, files: Seq<ParsedFileV>, pf: ParsedFileV, k: int)
    requires
        contain_wf(g),
    ensures
        contain_wf(resolve_imports_v(g, files, pf, k)),
        resolve_imports_v(g, files, pf, k).nodes == g.nodes,
    decreases pf.imports.len() - k,
{
    if 0 <= k < pf.imports.len() {
        let im = pf.imports[k];
        let t = find_stem_idx(files, im.module, 0);
        if t != -1 {
            let ii = last_idx_with_id(g.nodes, import_id(pf.file_info.path, im.module));
            let fi = last_file_idx(g.nodes, files[t].file_info.path);
            lemma_last_idx_bounds(g.nodes, import_id(pf.file_info.path, im.module));
            lemma_last_file_idx_bounds(g.nodes, files[t].file_info.path);
            if ii >= 0 && fi >= 0 {
                lemma_push_depends_wf(g, ii, fi, im.line_number);
            }
        }
        lemma_resolve_imports_wf(resolve_import_v(g, files, pf, im), files, pf, k + 1);
    }
}

proof fn lemma_resolve_wf(g: GraphV, files: Seq<ParsedFileV>, i: int)
    requires
        contain_wf(g),
    ensures
        contain_wf(resolve_v(g, files, i)),
    decreases files.len() - i,
{
    if 0 <= i < files.len() {
        lemma_resolve_imports_wf(g, files, files[i], 0);
        lemma_resolve_wf(resolve_imports_v(g, files, files[i], 0), files, i + 1);
    }
}

/// Containment, for any input set.  In the built graph every node but a
/// File node has exactly one incoming Contains edge and a File node has
/// none; the source of a Contains edge into a Function node is a File node
/// when the function is top-level and the Class node that owns it when it
/// is a method (a node whose id carries the method kind).
pub proof fn lemma_containment(files: Seq<ParsedFileV>)
    ensures
        contain_wf(spec_build(files)),
{
    assert(contain_wf(empty_graph())) by {
        assert(forall|i: int|
            0 <= i < empty_graph().nodes.len() ==> contains_in_count(empty_graph().edges, i)
                == 0);
    }
    lemma_build_nodes_wf(empty_graph(), files, 0);
    lemma_resolve_wf(build_nodes_v(empty_graph(), files, 0), files, 0);
}

/// The source kind of each Contains edge of the built graph, spelled out
/// for one edge: into a non-method Function node it comes from a File node,
/// into a method node from a Class node.
pub proof fn lemma_containment_source(files: Seq<ParsedFileV>, e: int)
    requires
        0 <= e < spec_build(files).edges.len(),
        spec_build(files).edges[e].edge_type == EdgeType::Contains,
        spec_build(files).nodes[spec_build(files).edges[e].to].node_type == NodeType::Function,
    ensures
        !starts_with(spec_build(files).nodes[spec_build(files).edges[e].to].id, "method:"@)
            ==> spec_build(files).nodes[spec_build(files).edges[e].from].node_type
            == NodeType::File,
        starts_with(spec_build(files).nodes[spec_build(files).edges[e].to].id, "method:"@)
            ==> spec_build(files).nodes[spec_build(files).edges[e].from].node_type
            == NodeType::Class,
{
    lemma_containment(files);
}

// ---------------------------------------------------------------------------
// Uniqueness of node ids: they are pairwise distinct whenever the input set
// has pairwise distinct, colon-free paths and per-file distinct names.
// ---------------------------------------------------------------------------

pub open spec fn no_dup(s: Seq<Seq<char>>) -> bool {
    forall|a: int, b: int| 0 <= a < b < s.len() ==> s[a] != s[b]
}

pub open spec fn colon_free(s: Seq<char>) -> bool {
    forall|j: int| 0 <= j < s.len() ==> s[j] != ':'
}

/// The kind tag embedded in a node id: the text before the first colon.
pub open spec fn id_kind(id: Seq<char>) -> Seq<char> {
    id.subrange(0, find_ch(id, ':', 0))
}

/// The file path embedded in a node id: the text between the first and the
/// second colon (or the end).
pub open spec fn id_embedded_path(id: Seq<char>) -> Seq<char> {
    let c1 = find_ch(id, ':', 0);
    id.subrange(c1 + 1, find_ch(id, ':', c1 + 1))
}

proof fn lemma_extract(pre: Seq<char>, tag: Seq<char>, p: Seq<char>, rest: Seq<char>)
    requires
        pre == tag + ":"@,
        colon_free(tag),
        colon_free(p),
        rest.len() == 0 || rest[0] == ':',
    ensures
        id_kind(pre + p + rest) == tag,
        id_embedded_path(pre + p + rest) == p,
{
    reveal_strlit(":");
    let id = pre + p + rest;
    let tl = tag.len() as int;
    assert(forall|j: int| 0 <= j < tl ==> id[j] == tag[j] && id[j] != ':');
    assert(id[tl] == ':');
    crate::strutil::lemma_find_ch(id, ':', 0, tl);
    assert(id_kind(id) =~= tag);
    assert(forall|j: int| 0 <= j < p.len() ==> id[tl + 1 + j] == p[j] && id[tl + 1 + j] != ':');
    if rest.len() == 0 {
        assert(tl + 1 + p.len() == id.len());
        crate::strutil::lemma_find_ch(id, ':', tl + 1, id.len() as int);
    } else {
        assert(id[tl + 1 + p.len()] == ':');
        crate::strutil::lemma_find_ch(id, ':', tl + 1, tl + 1 + p.len());
    }
    assert(id_embedded_path(id) =~= p);
}

proof fn lemma_extract_file(p: Seq<char>)
    requires
        colon_free(p),
    ensures
        id_kind(file_id(p)) == "file"@,
        id_embedded_path(file_id(p)) == p,
{
    reveal_strlit("file:");
    reveal_strlit("file");
    reveal_strlit(":");
    assert("file:"@ =~= "file"@ + ":"@);
    assert(file_id(p) =~= "file:"@ + p + Seq::<char>::empty());
    assert(colon_free("file"@));
    lemma_extract("file:"@, "file"@, p, Seq::<char>::empty());
}

proof fn lemma_extract_import(p: Seq<char>, m: Seq<char>)
    requires
        colon_free(p),
    ensures
        id_kind(import_id(p, m)) == "import"@,
        id_embedded_path(import_id(p, m)) == p,
{
    reveal_strlit("import:");
    reveal_strlit("import");
    reveal_strlit(":");
    assert("import:"@ =~= "import"@ + ":"@);
    assert(import_id(p, m) =~= "import:"@ + p + (":"@ + m));
    assert(colon_free("import"@));
    assert((":"@ + m)[0] == ':');
    lemma_extract("import:"@, "import"@, p, ":"@ + m);
}

proof fn lemma_extract_function(p: Seq<char>, n: Seq<char>)
    requires
        colon_free(p),
    ensures
        id_kind(function_id(p, n)) == "function"@,
        id_embedded_path(function_id(p, n)) == p,
{
    reveal_strlit("function:");
    reveal_strlit("function");
    reveal_strlit(":");
    assert("function:"@ =~= "function"@ + ":"@);
    assert(function_id(p, n) =~= "function:"@ + p + (":"@ + n));
    assert(colon_free("function"@));
    assert((":"@ + n)[0] == ':');
    lemma_extract("function:"@, "function"@, p, ":"@ + n);
}

proof fn lemma_extract_class(p: Seq<char>, n: Seq<char>)
    requires
        colon_free(p),
    ensures
        id_kind(class_id(p, n)) == "class"@,
        id_embedded_path(class_id(p, n)) == p,
{
    reveal_strlit("class:");
    reveal_strlit("class");
    reveal_strlit(":");
    assert("class:"@ =~= "class"@ + ":"@);
    assert(class_id(p, n) =~= "class:"@ + p + (":"@ + n));
    assert(colon_free("class"@));
    assert((":"@ + n)[0] == ':');
    lemma_extract("class:"@, "class"@, p, ":"@ + n);
}

proof fn lemma_extract_method(p: Seq<char>, c: Seq<char>, n: Seq<char>)
    requires
        colon_free(p),
    ensures
        id_kind(method_id(p, c, n)) == "method"@,
        id_embedded_path(method_id(p, c, n)) == p,
{
    reveal_strlit("method:");
    reveal_strlit("method");
    reveal_strlit(":");
    assert("method:"@ =~= "method"@ + ":"@);
    assert(method_id(p, c, n) =~= "method:"@ + p + (":"@ + (c + ":"@ + n)));
    assert(colon_free("method"@));
    assert((":"@ + (c + ":"@ + n))[0] == ':');
    lemma_extract("method:"@, "method"@, p, ":"@ + (c + ":"@ + n));
}

proof fn lemma_strip(pre: Seq<char>, x: Seq<char>, y: Seq<char>)
    requires
        pre + x == pre + y,
    ensures
        x == y,
{
    assert(x =~= (pre + x).subrange(pre.len() as int, (pre + x).len() as int));
    assert(y =~= (pre + y).subrange(pre.len() as int, (pre + y).len() as int));
}

proof fn lemma_colon_split(a1: Seq<char>, b1: Seq<char>, a2: Seq<char>, b2: Seq<char>)
    requires
        a1 + ":"@ + b1 == a2 + ":"@ + b2,
        colon_free(a1),
        colon_free(a2),
    ensures
        a1 == a2,
        b1 == b2,
{
    reveal_strlit(":");
    let id = a1 + ":"@ + b1;
    assert(forall|j: int| 0 <= j < a1.len() ==> id[j] == a1[j] && id[j] != ':');
    assert(id[a1.len() as int] == ':');
    crate::strutil::lemma_find_ch(id, ':', 0, a1.len() as int);
    let id2 = a2 + ":"@ + b2;
    assert(forall|j: int| 0 <= j < a2.len() ==> id2[j] == a2[j] && id2[j] != ':');
    assert(id2[a2.len() as int] == ':');
    crate::strutil::lemma_find_ch(id2, ':', 0, a2.len() as int);
    assert(a1.len() == a2.len());
    assert(a1 =~= id.subrange(0, a1.len() as int));
    assert(a2 =~= id2.subrange(0, a2.len() as int));
    assert(b1 =~= id.subrange(a1.len() as int + 1, id.len() as int));
    assert(b2 =~= id2.subrange(a2.len() as int + 1, id2.len() as int));
}

proof fn lemma_import_id_inj(p: Seq<char>, m1: Seq<char>, m2: Seq<char>)
    requires
        import_id(p, m1) == import_id(p, m2),
    ensures
        m1 == m2,
{
    let pre = "import:"@ + p + ":"@;
    assert(import_id(p, m1) =~= pre + m1);
    assert(import_id(p, m2) =~= pre + m2);
    lemma_strip(pre, m1, m2);
}

proof fn lemma_function_id_inj(p: Seq<char>, n1: Seq<char>, n2: Seq<char>)
    requires
        function_id(p, n1) == function_id(p, n2),
    ensures
        n1 == n2,
{
    let pre = "function:"@ + p + ":"@;
    assert(function_id(p, n1) =~= pre + n1);
    assert(function_id(p, n2) =~= pre + n2);
    lemma_strip(pre, n1, n2);
}

proof fn lemma_class_id_inj(p: Seq<char>, n1: Seq<char>, n2: Seq<char>)
    requires
        class_id(p, n1) == class_id(p, n2),
    ensures
        n1 == n2,
{
    let pre = "class:"@ + p + ":"@;
    assert(class_id(p, n1) =~= pre + n1);
    assert(class_id(p, n2) =~= pre + n2);
    lemma_strip(pre, n1, n2);
}

proof fn lemma_method_id_inj(p: Seq<char>, c1: Seq<char>, n1: Seq<char>, c2: Seq<char>, n2: Seq<char>)
    requires
        method_id(p, c1, n1) == method_id(p, c2, n2),
        colon_free(c1),
        colon_free(c2),
    ensures
        c1 == c2,
        n1 == n2,
{
    let pre = "method:"@ + p + ":"@;
    assert(method_id(p, c1, n1) =~= pre + (c1 + ":"@ + n1));
    assert(method_id(p, c2, n2) =~= pre + (c2 + ":"@ + n2));
    lemma_strip(pre, c1 + ":"@ + n1, c2 + ":"@ + n2);
    lemma_colon_split(c1, n1, c2, n2);
}

// The catalog of ids one file mints, in build order.

pub open spec fn import_ids(path: Seq<char>, imports: Seq<ImportV>, k: int) -> Seq<Seq<char>>
    decreases imports.len() - k,
{
    if k < 0 || k >= imports.len() {
        Seq::empty()
    } else {
        seq![import_id(path, imports[k].module)] + import_ids(path, imports, k + 1)
    }
}

pub open spec fn function_ids(path: Seq<char>, functions: Seq<FunctionV>, k: int) -> Seq<Seq<char>>
    decreases functions.len() - k,
{
    if k < 0 || k >= functions.len() {
        Seq::empty()
    } else {
        seq![function_id(path, functions[k].name)] + function_ids(path, functions, k + 1)
    }
}

pub open spec fn method_ids(path: Seq<char>, c: ClassV, k: int) -> Seq<Seq<char>>
    decreases c.methods.len() - k,
{
    if k < 0 || k >= c.methods.len() {
        Seq::empty()
    } else {
        seq![method_id(path, c.name, c.methods[k].name)] + method_ids(path, c, k + 1)
    }
}

pub open spec fn class_ids(path: Seq<char>, classes: Seq<ClassV>, k: int) -> Seq<Seq<char>>
    decreases classes.len() - k,
{
    if k < 0 || k >= classes.len() {
        Seq::empty()
    } else {
        seq![class_id(path, classes[k].name)] + method_ids(path, classes[k], 0) + class_ids(
            path,
            classes,
            k + 1,
        )
    }
}

pub open spec fn file_ids(pf: ParsedFileV) -> Seq<Seq<char>> {
    let path = pf.file_info.path;
    seq![file_id(path)] + import_ids(path, pf.imports, 0) + function_ids(path, pf.functions, 0)
        + class_ids(path, pf.classes, 0)
}

pub open spec fn all_ids(files: Seq<ParsedFileV>, i: int) -> Seq<Seq<char>>
    decreases files.len() - i,
{
    if i < 0 || i >= files.len() {
        Seq::empty()
    } else {
        file_ids(files[i]) + all_ids(files, i + 1)
    }
}

pub open spec fn node_ids(nodes: Seq<NodeV>) -> Seq<Seq<char>> {
    nodes.map_values(|n: NodeV| n.id)
}

// The built node list mints exactly the catalog ids, in order.

proof fn lemma_ids_add_imports(g: GraphV, pf: ParsedFileV, fi: int, k: int)
    ensures
        node_ids(add_imports_v(g, pf, fi, k).nodes) == node_ids(g.nodes) + import_ids(
            pf.file_info.path,
            pf.imports,
            k,
        ),
    decreases pf.imports.len() - k,
{
    if 0 <= k < pf.imports.len() {
        let g2 = add_owned_node(g, import_node_v(pf, pf.imports[k]), fi, pf.imports[k].line_number);
        assert(node_ids(g2.nodes) =~= node_ids(g.nodes).push(import_id(
            pf.file_info.path,
            pf.imports[k].module,
        )));
        lemma_ids_add_imports(g2, pf, fi, k + 1);
        assert(node_ids(g.nodes) + import_ids(pf.file_info.path, pf.imports, k) =~= node_ids(
            g2.nodes,
        ) + import_ids(pf.file_info.path, pf.imports, k + 1));
    } else {
        assert(node_ids(g.nodes) + import_ids(pf.file_info.path, pf.imports, k) =~= node_ids(
            g.nodes,
        ));
    }
}

proof fn lemma_ids_add_functions(g: GraphV, pf: ParsedFileV, fi: int, k: int)
    ensures
        node_ids(add_functions_v(g, pf, fi, k).nodes) == node_ids(g.nodes) + function_ids(
            pf.file_info.path,
            pf.functions,
            k,
        ),
    decreases pf.functions.len() - k,
{
    if 0 <= k < pf.functions.len() {
        let g2 = add_owned_node(
            g,
            function_node_v(pf, pf.functions[k]),
            fi,
            pf.functions[k].line_number,
        );
        assert(node_ids(g2.nodes) =~= node_ids(g.nodes).push(function_id(
            pf.file_info.path,
            pf.functions[k].name,
        )));
        lemma_ids_add_functions(g2, pf, fi, k + 1);
        assert(node_ids(g.nodes) + function_ids(pf.file_info.path, pf.functions, k) =~= node_ids(
            g2.nodes,
        ) + function_ids(pf.file_info.path, pf.functions, k + 1));
    } else {
        assert(node_ids(g.nodes) + function_ids(pf.file_info.path, pf.functions, k) =~= node_ids(
            g.nodes,
        ));
    }
}

proof fn lemma_ids_add_methods(g: GraphV, pf: ParsedFileV, c: ClassV, ci: int, k: int)
    ensures
        node_ids(add_methods_v(g, pf, c, ci, k).nodes) == node_ids(g.nodes) + method_ids(
            pf.file_info.path,
            c,
            k,
        ),
    decreases c.methods.len() - k,
{
    if 0 <= k < c.methods.len() {
        let g2 = add_owned_node(g, method_node_v(pf, c, c.methods[k]), ci, c.methods[k].line_number);
        assert(node_ids(g2.nodes) =~= node_ids(g.nodes).push(method_id(
            pf.file_info.path,
            c.name,
            c.methods[k].name,
        )));
        lemma_ids_add_methods(g2, pf, c, ci, k + 1);
        assert(node_ids(g.nodes) + method_ids(pf.file_info.path, c, k) =~= node_ids(g2.nodes)
            + method_ids(pf.file_info.path, c, k + 1));
    } else {
        assert(node_ids(g.nodes) + method_ids(pf.file_info.path, c, k) =~= node_ids(g.nodes));
    }
}

proof fn lemma_ids_add_classes(g: GraphV, pf: ParsedFileV, fi: int, k: int)
    ensures
        node_ids(add_classes_v(g, pf, fi, k).nodes) == node_ids(g.nodes) + class_ids(
            pf.file_info.path,
            pf.classes,
            k,
        ),
    decreases pf.classes.len() - k,
{
    let path = pf.file_info.path;
    if 0 <= k < pf.classes.len() {
        let c = pf.classes[k];
        let ci = g.nodes.len() as int;
        let g1 = add_owned_node(g, class_node_v(pf, c), fi, c.line_number);
        assert(node_ids(g1.nodes) =~= node_ids(g.nodes).push(class_id(path, c.name)));
        lemma_ids_add_methods(g1, pf, c, ci, 0);
        let g2 = add_methods_v(g1, pf, c, ci, 0);
        lemma_ids_add_classes(g2, pf, fi, k + 1);
        assert(node_ids(g.nodes) + class_ids(path, pf.classes, k) =~= node_ids(g2.nodes)
            + class_ids(path, pf.classes, k + 1));
    } else {
        assert(node_ids(g.nodes) + class_ids(path, pf.classes, k) =~= node_ids(g.nodes));
    }
}

proof fn lemma_ids_add_file(g: GraphV, pf: ParsedFileV)
    ensures
        node_ids(add_file_v(g, pf).nodes) == node_ids(g.nodes) + file_ids(pf),
{
    let fi = g.nodes.len() as int;
    let g1 = GraphV { nodes: g.nodes.push(file_node_v(pf)), edges: g.edges };
    assert(node_ids(g1.nodes) =~= node_ids(g.nodes).push(file_id(pf.file_info.path)));
    lemma_ids_add_imports(g1, pf, fi, 0);
    let g2 = add_imports_v(g1, pf, fi, 0);
    lemma_ids_add_functions(g2, pf, fi, 0);
    let g3 = add_functions_v(g2, pf, fi, 0);
    lemma_ids_add_classes(g3, pf, fi, 0);
    assert(node_ids(add_file_v(g, pf).nodes) =~= node_ids(g.nodes) + file_ids(pf));
}

proof fn lemma_ids_build_nodes(g: GraphV, files: Seq<ParsedFileV>, i: int)
    ensures
        node_ids(build_nodes_v(g, files, i).nodes) == node_ids(g.nodes) + all_ids(files, i),
    decreases files.len() - i,
{
    if 0 <= i < files.len() {
        lemma_ids_add_file(g, files[i]);
        lemma_ids_build_nodes(add_file_v(g, files[i]), files, i + 1);
        assert(node_ids(g.nodes) + all_ids(files, i) =~= node_ids(add_file_v(g, files[i]).nodes)
            + all_ids(files, i + 1));
    } else {
        assert(node_ids(g.nodes) + all_ids(files, i) =~= node_ids(g.nodes));
    }
}

proof fn lemma_resolve_nodes(g: GraphV, files: Seq<ParsedFileV>, i: int)
    ensures
        resolve_v(g, files, i).nodes == g.nodes,
    decreases files.len() - i,
{
    if 0 <= i < files.len() {
        lemma_resolve_imports_nodes(g, files, files[i], 0);
        lemma_resolve_nodes(resolve_imports_v(g, files, files[i], 0), files, i + 1);
    }
}

proof fn lemma_resolve_imports_nodes(g: GraphV, files: Seq<ParsedFileV>, pf: ParsedFileV, k: int)
    ensures
        resolve_imports_v(g, files, pf, k).nodes == g.nodes,
    decreases pf.imports.len() - k,
{
    if 0 <= k < pf.imports.len() {
        lemma_resolve_imports_nodes(resolve_import_v(g, files, pf, pf.imports[k]), files, pf, k + 1);
    }
}

/// The per-file conditions under which ids cannot collide: a colon-free
/// path, pairwise distinct import modules, function names and class names,
/// colon-free class names, and pairwise distinct method names per class.
pub open spec fn distinct_decls(pf: ParsedFileV) -> bool {
    &&& colon_free(pf.file_info.path)
    &&& forall|a: int, b: int|
        0 <= a < b < pf.imports.len() ==> (#[trigger] pf.imports[a]).module != (
        #[trigger] pf.imports[b]).module
    &&& forall|a: int, b: int|
        0 <= a < b < pf.functions.len() ==> (#[trigger] pf.functions[a]).name != (
        #[trigger] pf.functions[b]).name
    &&& forall|a: int, b: int|
        0 <= a < b < pf.classes.len() ==> (#[trigger] pf.classes[a]).name != (
        #[trigger] pf.classes[b]).name
    &&& forall|a: int| 0 <= a < pf.classes.len() ==> colon_free((#[trigger] pf.classes[a]).name)
    &&& forall|a: int, x: int, y: int|
        0 <= a < pf.classes.len() && 0 <= x < y < (#[trigger] pf.classes[a]).methods.len() ==> (
        #[trigger] pf.classes[a].methods[x]).name != (#[trigger] pf.classes[a].methods[y]).name
}

/// The input-set conditions: pairwise distinct paths and per-file distinct
/// declarations.
pub open spec fn distinct_input(files: Seq<ParsedFileV>) -> bool {
    &&& forall|a: int, b: int|
        0 <= a < b < files.len() ==> (#[trigger] files[a]).file_info.path != (
        #[trigger] files[b]).file_info.path
    &&& forall|a: int| 0 <= a < files.len() ==> distinct_decls(#[trigger] files[a])
}

proof fn lemma_kind_tags_distinct()
    ensures
        "file"@ != "import"@,
        "file"@ != "function"@,
        "file"@ != "class"@,
        "file"@ != "method"@,
        "import"@ != "function"@,
        "import"@ != "class"@,
        "import"@ != "method"@,
        "function"@ != "class"@,
        "function"@ != "method"@,
        "class"@ != "method"@,
{
    reveal_strlit("file");
    reveal_strlit("import");
    reveal_strlit("function");
    reveal_strlit("class");
    reveal_strlit("method");
    assert(("file"@).len() == 4);
    assert(("import"@).len() == 6);
    assert(("function"@).len() == 8);
    assert(("class"@).len() == 5);
    assert(("method"@).len() == 6);
    assert(("import"@)[0] == 'i');
    assert(("method"@)[0] == 'm');
}

proof fn lemma_no_dup_concat(s1: Seq<Seq<char>>, s2: Seq<Seq<char>>)
    requires
        no_dup(s1),
        no_dup(s2),
        forall|a: int, b: int|
            0 <= a < s1.len() && 0 <= b < s2.len() ==> #[trigger] s1[a] != #[trigger] s2[b],
    ensures
        no_dup(s1 + s2),
{
    let s = s1 + s2;
    assert forall|a: int, b: int| 0 <= a < b < s.len() implies s[a] != s[b] by {
        if b < s1.len() {
            assert(s[a] == s1[a] && s[b] == s1[b]);
        } else if a < s1.len() {
            assert(s[a] == s1[a] && s[b] == s2[b - s1.len()]);
        } else {
            assert(s[a] == s2[a - s1.len()] && s[b] == s2[b - s1.len()]);
        }
    }
}

proof fn lemma_import_ids_elems(path: Seq<char>, imports: Seq<ImportV>, k: int)
    requires
        0 <= k <= imports.len(),
    ensures
        import_ids(path, imports, k).len() == imports.len() - k,
        forall|a: int|
            0 <= a < imports.len() - k ==> #[trigger] import_ids(path, imports, k)[a] == import_id(
                path,
                imports[k + a].module,
            ),
    decreases imports.len() - k,
{
    if k < imports.len() {
        lemma_import_ids_elems(path, imports, k + 1);
    }
}

proof fn lemma_function_ids_elems(path: Seq<char>, functions: Seq<FunctionV>, k: int)
    requires
        0 <= k <= functions.len(),
    ensures
        function_ids(path, functions, k).len() == functions.len() - k,
        forall|a: int|
            0 <= a < functions.len() - k ==> #[trigger] function_ids(path, functions, k)[a]
                == function_id(path, functions[k + a].name),
    decreases functions.len() - k,
{
    if k < functions.len() {
        lemma_function_ids_elems(path, functions, k + 1);
    }
}

proof fn lemma_method_ids_elems(path: Seq<char>, c: ClassV, k: int)
    requires
        0 <= k <= c.methods.len(),
    ensures
        method_ids(path, c, k).len() == c.methods.len() - k,
        forall|a: int|
            0 <= a < c.methods.len() - k ==> #[trigger] method_ids(path, c, k)[a] == method_id(
                path,
                c.name,
                c.methods[k + a].name,
            ),
    decreases c.methods.len() - k,
{
    if k < c.methods.len() {
        lemma_method_ids_elems(path, c, k + 1);
    }
}

/// Whether an id is one of the ids the classes from index `k` on mint.
pub open spec fn is_class_seg_id(
    id: Seq<char>,
    path: Seq<char>,
    classes: Seq<ClassV>,
    k: int,
) -> bool {
    ||| exists|k2: int|
        k <= k2 < classes.len() && id == class_id(path, (#[trigger] classes[k2]).name)
    ||| exists|k2: int, m: int|
        k <= k2 < classes.len() && 0 <= m < (#[trigger] classes[k2]).methods.len() && id
            == method_id(path, classes[k2].name, (#[trigger] classes[k2].methods[m]).name)
}

proof fn lemma_class_ids_elems(path: Seq<char>, classes: Seq<ClassV>, k: int)
    requires
        0 <= k <= classes.len(),
    ensures
        forall|a: int|
            0 <= a < class_ids(path, classes, k).len() ==> is_class_seg_id(
                #[trigger] class_ids(path, classes, k)[a],
                path,
                classes,
                k,
            ),
    decreases classes.len() - k,
{
    if k < classes.len() {
        let c = classes[k];
        lemma_method_ids_elems(path, c, 0);
        lemma_class_ids_elems(path, classes, k + 1);
        let seg = class_ids(path, classes, k);
        let head = seq![class_id(path, c.name)] + method_ids(path, c, 0);
        assert forall|a: int| 0 <= a < seg.len() implies is_class_seg_id(
            #[trigger] seg[a],
            path,
            classes,
            k,
        ) by {
            if a == 0 {
                assert(seg[a] == class_id(path, c.name));
            } else if a < head.len() {
                assert(seg[a] == method_ids(path, c, 0)[a - 1]);
                assert(seg[a] == method_id(path, c.name, c.methods[a - 1].name));
            } else {
                assert(seg[a] == class_ids(path, classes, k + 1)[a - head.len()]);
                assert(is_class_seg_id(seg[a], path, classes, k + 1));
            }
        }
    }
}

proof fn lemma_kind_of_class_seg(id: Seq<char>, path: Seq<char>, classes: Seq<ClassV>, k: int)
    requires
        is_class_seg_id(id, path, classes, k),
        colon_free(path),
    ensures
        id_kind(id) == "class"@ || id_kind(id) == "method"@,
        id_embedded_path(id) == path,
{
    if exists|k2: int| k <= k2 < classes.len() && id == class_id(path, (#[trigger] classes[k2]).name) {
        let k2 = choose|k2: int|
            k <= k2 < classes.len() && id == class_id(path, (#[trigger] classes[k2]).name);
        lemma_extract_class(path, classes[k2].name);
    } else {
        let (k2, m) = choose|k2: int, m: int|
            k <= k2 < classes.len() && 0 <= m < (#[trigger] classes[k2]).methods.len() && id
                == method_id(path, classes[k2].name, (#[trigger] classes[k2].methods[m]).name);
        lemma_extract_method(path, classes[k2].name, classes[k2].methods[m].name);
    }
}

proof fn lemma_method_ids_nodup(path: Seq<char>, c: ClassV, dd: bool)
    requires
        colon_free(path),
        colon_free(c.name),
        forall|x: int, y: int|
            0 <= x < y < c.methods.len() ==> (#[trigger] c.methods[x]).name != (
            #[trigger] c.methods[y]).name,
    ensures
        no_dup(method_ids(path, c, 0)),
{
    lemma_method_ids_elems(path, c, 0);
    let seg = method_ids(path, c, 0);
    assert forall|a: int, b: int| 0 <= a < b < seg.len() implies seg[a] != seg[b] by {
        if seg[a] == seg[b] {
            lemma_method_id_inj(path, c.name, c.methods[a].name, c.name, c.methods[b].name);
        }
    }
}

proof fn lemma_class_ids_nodup(path: Seq<char>, classes: Seq<ClassV>, k: int, pf: ParsedFileV)
    requires
        0 <= k <= classes.len(),
        colon_free(path),
        classes == pf.classes,
        distinct_decls(pf),
        path == pf.file_info.path,
    ensures
        no_dup(class_ids(path, classes, k)),
    decreases classes.len() - k,
{
    lemma_kind_tags_distinct();
    if k < classes.len() {
        let c = classes[k];
        lemma_class_ids_nodup(path, classes, k + 1, pf);
        lemma_method_ids_nodup(path, c, true);
        lemma_method_ids_elems(path, c, 0);
        lemma_class_ids_elems(path, classes, k + 1);
        let ms = method_ids(path, c, 0);
        let rest = class_ids(path, classes, k + 1);
        let cid = class_id(path, c.name);
        lemma_extract_class(path, c.name);
        // the class id differs from every method id and from everything later
        assert forall|b: int| 0 <= b < ms.len() implies cid != ms[b] by {
            if cid == ms[b] {
                lemma_extract_method(path, c.name, c.methods[b].name);
                assert(id_kind(cid) == "class"@ && id_kind(ms[b]) == "method"@);
            }
        }
        assert forall|b: int| 0 <= b < rest.len() implies cid != rest[b] by {
            if cid == rest[b] {
                assert(is_class_seg_id(rest[b], path, classes, k + 1));
                if exists|k2: int|
                    k + 1 <= k2 < classes.len() && rest[b] == class_id(
                        path,
                        (#[trigger] classes[k2]).name,
                    ) {
                    let k2 = choose|k2: int|
                        k + 1 <= k2 < classes.len() && rest[b] == class_id(
                            path,
                            (#[trigger] classes[k2]).name,
                        );
                    lemma_class_id_inj(path, c.name, classes[k2].name);
                    assert(classes[k as int].name != classes[k2].name);
                } else {
                    let (k2, m) = choose|k2: int, m: int|
                        k + 1 <= k2 < classes.len() && 0 <= m < (
                        #[trigger] classes[k2]).methods.len() && rest[b] == method_id(
                            path,
                            classes[k2].name,
                            (#[trigger] classes[k2].methods[m]).name,
                        );
                    lemma_extract_method(path, classes[k2].name, classes[k2].methods[m].name);
                }
            }
        }
        // method ids of this class differ from everything later
        assert forall|a: int, b: int|
            0 <= a < ms.len() && 0 <= b < rest.len() implies #[trigger] ms[a] != #[trigger] rest[b] by {
            if ms[a] == rest[b] {
                lemma_extract_method(path, c.name, c.methods[a].name);
                assert(is_class_seg_id(rest[b], path, classes, k + 1));
                if exists|k2: int|
                    k + 1 <= k2 < classes.len() && rest[b] == class_id(
                        path,
                        (#[trigger] classes[k2]).name,
                    ) {
                    let k2 = choose|k2: int|
                        k + 1 <= k2 < classes.len() && rest[b] == class_id(
                            path,
                            (#[trigger] classes[k2]).name,
                        );
                    lemma_extract_class(path, classes[k2].name);
                } else {
                    let (k2, m) = choose|k2: int, m: int|
                        k + 1 <= k2 < classes.len() && 0 <= m < (
                        #[trigger] classes[k2]).methods.len() && rest[b] == method_id(
                            path,
                            classes[k2].name,
                            (#[trigger] classes[k2].methods[m]).name,
                        );
                    assert(colon_free(classes[k2].name));
                    lemma_method_id_inj(
                        path,
                        c.name,
                        c.methods[a].name,
                        classes[k2].name,
                        classes[k2].methods[m].name,
                    );
                    assert(classes[k as int].name != classes[k2].name);
                }
            }
        }
        let head = seq![cid] + ms;
        assert(no_dup(seq![cid]));
        lemma_no_dup_concat(seq![cid], ms);
        assert forall|a: int, b: int|
            0 <= a < head.len() && 0 <= b < rest.len() implies #[trigger] head[a] != #[trigger] rest[b] by {
            if a == 0 {
                assert(head[a] == cid);
            } else {
                assert(head[a] == ms[a - 1]);
            }
        }
        lemma_no_dup_concat(head, rest);
        assert(class_ids(path, classes, k) == head + rest);
    }
}

proof fn lemma_file_ids_nodup(pf: ParsedFileV)
    requires
        distinct_decls(pf),
    ensures
        no_dup(file_ids(pf)),
{
    lemma_kind_tags_distinct();
    let path = pf.file_info.path;
    lemma_extract_file(path);
    lemma_import_ids_elems(path, pf.imports, 0);
    lemma_function_ids_elems(path, pf.functions, 0);
    lemma_class_ids_elems(path, pf.classes, 0);
    let is = import_ids(path, pf.imports, 0);
    let fs = function_ids(path, pf.functions, 0);
    let cs = class_ids(path, pf.classes, 0);
    assert(no_dup(is)) by {
        assert forall|a: int, b: int| 0 <= a < b < is.len() implies is[a] != is[b] by {
            if is[a] == is[b] {
                lemma_import_id_inj(path, pf.imports[a].module, pf.imports[b].module);
            }
        }
    }
    assert(no_dup(fs)) by {
        assert forall|a: int, b: int| 0 <= a < b < fs.len() implies fs[a] != fs[b] by {
            if fs[a] == fs[b] {
                lemma_function_id_inj(path, pf.functions[a].name, pf.functions[b].name);
            }
        }
    }
    lemma_class_ids_nodup(path, pf.classes, 0, pf);
    assert forall|a: int| 0 <= a < is.len() implies id_kind(#[trigger] is[a]) == "import"@ by {
        lemma_extract_import(path, pf.imports[a].module);
    }
    assert forall|a: int| 0 <= a < fs.len() implies id_kind(#[trigger] fs[a]) == "function"@ by {
        lemma_extract_function(path, pf.functions[a].name);
    }
    assert forall|a: int| 0 <= a < cs.len() implies id_kind(#[trigger] cs[a]) == "class"@
        || id_kind(#[trigger] cs[a]) == "method"@ by {
        lemma_kind_of_class_seg(cs[a], path, pf.classes, 0);
    }
    let h = seq![file_id(path)];
    assert forall|a: int, b: int| 0 <= a < h.len() && 0 <= b < is.len() implies #[trigger] h[a]
        != #[trigger] is[b] by {
        if h[a] == is[b] {
            assert(id_kind(h[a]) == "file"@);
        }
    }
    lemma_no_dup_concat(h, is);
    let h2 = h + is;
    assert forall|a: int, b: int| 0 <= a < h2.len() && 0 <= b < fs.len() implies #[trigger] h2[a]
        != #[trigger] fs[b] by {
        if h2[a] == fs[b] {
            if a == 0 {
                assert(id_kind(h2[a]) == "file"@);
            } else {
                assert(h2[a] == is[a - 1]);
                assert(id_kind(h2[a]) == "import"@);
            }
        }
    }
    lemma_no_dup_concat(h2, fs);
    let h3 = h2 + fs;
    assert forall|a: int, b: int| 0 <= a < h3.len() && 0 <= b < cs.len() implies #[trigger] h3[a]
        != #[trigger] cs[b] by {
        if h3[a] == cs[b] {
            assert(id_kind(cs[b]) == "class"@ || id_kind(cs[b]) == "method"@);
            if a == 0 {
                assert(id_kind(h3[a]) == "file"@);
            } else if a < h2.len() {
                assert(h3[a] == is[a - 1]);
                assert(id_kind(h3[a]) == "import"@);
            } else {
                assert(h3[a] == fs[a - h2.len()]);
                assert(id_kind(h3[a]) == "function"@);
            }
        }
    }
    lemma_no_dup_concat(h3, cs);
    assert(file_ids(pf) == h3 + cs);
}

proof fn lemma_file_ids_paths(pf: ParsedFileV)
    requires
        distinct_decls(pf),
    ensures
        forall|a: int|
            0 <= a < file_ids(pf).len() ==> id_embedded_path(#[trigger] file_ids(pf)[a])
                == pf.file_info.path,
{
    let path = pf.file_info.path;
    lemma_extract_file(path);
    lemma_import_ids_elems(path, pf.imports, 0);
    lemma_function_ids_elems(path, pf.functions, 0);
    lemma_class_ids_elems(path, pf.classes, 0);
    let is = import_ids(path, pf.imports, 0);
    let fs = function_ids(path, pf.functions, 0);
    let cs = class_ids(path, pf.classes, 0);
    let ids = file_ids(pf);
    assert forall|a: int| 0 <= a < ids.len() implies id_embedded_path(#[trigger] ids[a]) == path by {
        if a == 0 {
            assert(ids[a] == file_id(path));
        } else if a < 1 + is.len() {
            assert(ids[a] == is[a - 1]);
            lemma_extract_import(path, pf.imports[a - 1].module);
        } else if a < 1 + is.len() + fs.len() {
            assert(ids[a] == fs[a - 1 - is.len()]);
            lemma_extract_function(path, pf.functions[a - 1 - is.len()].name);
        } else {
            assert(ids[a] == cs[a - 1 - is.len() - fs.len()]);
            lemma_kind_of_class_seg(cs[a - 1 - is.len() - fs.len()], path, pf.classes, 0);
        }
    }
}

proof fn lemma_all_ids_nodup(files: Seq<ParsedFileV>, i: int)
    requires
        distinct_input(files),
        0 <= i,
    ensures
        no_dup(all_ids(files, i)),
        forall|a: int|
            0 <= a < all_ids(files, i).len() ==> exists|j: int|
                i <= j < files.len() && id_embedded_path(#[trigger] all_ids(files, i)[a]) == (
                #[trigger] files[j]).file_info.path,
    decreases files.len() - i,
{
    if i < files.len() {
        let pf = files[i];
        lemma_file_ids_nodup(pf);
        lemma_file_ids_paths(pf);
        lemma_all_ids_nodup(files, i + 1);
        let fi = file_ids(pf);
        let rest = all_ids(files, i + 1);
        assert forall|a: int, b: int|
            0 <= a < fi.len() && 0 <= b < rest.len() implies #[trigger] fi[a] != #[trigger] rest[b] by {
            if fi[a] == rest[b] {
                assert(id_embedded_path(fi[a]) == pf.file_info.path);
                let j = choose|j: int|
                    i + 1 <= j < files.len() && id_embedded_path(rest[b]) == (
                    #[trigger] files[j]).file_info.path;
                assert(files[i].file_info.path != files[j].file_info.path);
            }
        }
        lemma_no_dup_concat(fi, rest);
        let ids = all_ids(files, i);
        assert forall|a: int| 0 <= a < ids.len() implies exists|j: int|
            i <= j < files.len() && id_embedded_path(#[trigger] ids[a]) == (
            #[trigger] files[j]).file_info.path by {
            if a < fi.len() {
                assert(ids[a] == fi[a]);
                assert(id_embedded_path(ids[a]) == files[i].file_info.path);
            } else {
                assert(ids[a] == rest[a - fi.len()]);
                let j = choose|j: int|
                    i + 1 <= j < files.len() && id_embedded_path(rest[a - fi.len()]) == (
                    #[trigger] files[j]).file_info.path;
                assert(id_embedded_path(ids[a]) == files[j].file_info.path);
            }
        }
    }
}

/// Uniqueness: when the input set has pairwise distinct colon-free paths,
/// and each file has pairwise distinct import modules, function names,
/// class names (colon-free) and per-class method names, all node ids of the
/// built graph are pairwise distinct.
pub proof fn lemma_node_ids_unique(files: Seq<ParsedFileV>)
    requires
        distinct_input(files),
    ensures
        forall|a: int, b: int|
            0 <= a < b < spec_build(files).nodes.len() ==> (#[trigger] spec_build(
                files,
            ).nodes[a]).id != (#[trigger] spec_build(files).nodes[b]).id,
{
    let built = build_nodes_v(empty_graph(), files, 0);
    lemma_ids_build_nodes(empty_graph(), files, 0);
    assert(node_ids(built.nodes) =~= all_ids(files, 0));
    lemma_all_ids_nodup(files, 0);
    lemma_resolve_nodes(built, files, 0);
    let g = spec_build(files);
    assert(g.nodes == built.nodes);
    assert forall|a: int, b: int| 0 <= a < b < g.nodes.len() implies (#[trigger] g.nodes[a]).id != (
    #[trigger] g.nodes[b]).id by {
        assert(node_ids(g.nodes)[a] == g.nodes[a].id);
        assert(node_ids(g.nodes)[b] == g.nodes[b].id);
    }
}

} // verus!
