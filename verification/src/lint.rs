//! Workflow graph lint rules: an agent node's LLM backend must be one the
//! engine knows (and an ACP backend needs a command), and session reuse via
//! `thread_id` needs full context fidelity.

use vstd::prelude::*;
use crate::keyed::{keys_unique, lemma_lookup_absent, lemma_lookup_at, lookup};
use crate::text::{push_str, str_eq, string_from_chars, trim, trim_str};

verus! {

/// How serious a finding is.
#[derive(Debug, Clone, Copy, PartialEq, Eq, Structural)]
pub enum Severity {
    Error,
    Warning,
    Info,
}

/// A finding of a lint rule, about a node, an edge, or the whole graph.
#[derive(Debug, Clone, PartialEq, Eq)]
pub struct Diagnostic {
    pub rule: String,
    pub severity: Severity,
    pub message: String,
    pub node_id: Option<String>,
    pub edge: Option<(String, String)>,
    pub fix: Option<String>,
}

/// A diagnostic by the characters of its texts.
pub type DiagnosticView = (Seq<char>, Severity, Seq<char>, Option<Seq<char>>, Option<(Seq<char>, Seq<char>)>, Option<Seq<char>>);

pub open spec fn opt_chars(o: Option<String>) -> Option<Seq<char>> {
    match o {
        Some(s) => Some(s@),
        None => None,
    }
}

pub open spec fn diagnostic_view(d: Diagnostic) -> DiagnosticView {
    (
        d.rule@,
        d.severity,
        d.message@,
        opt_chars(d.node_id),
        match d.edge {
            Some(e) => Some((e.0@, e.1@)),
            None => None,
        },
        opt_chars(d.fix),
    )
}

pub open spec fn diagnostics_view(ds: Seq<Diagnostic>) -> Seq<DiagnosticView> {
    ds.map_values(|d: Diagnostic| diagnostic_view(d))
}

/// A workflow node, by the attributes the rules read.
#[derive(Debug, Clone, PartialEq, Eq)]
pub struct GraphNode {
    pub id: String,
    pub backend: Option<String>,
    pub acp_command: Option<String>,
    pub thread_id: Option<String>,
    pub fidelity: Option<String>,
}

impl GraphNode {
    /// A node with no attributes.
    pub fn new(id: &str) -> (n: GraphNode)
        ensures
            n.id@ == id@,
            n.backend is None,
            n.acp_command is None,
            n.thread_id is None,
            n.fidelity is None,
    {
        GraphNode { id: id.to_string(), backend: None, acp_command: None, thread_id: None, fidelity: None }
    }
}

/// A workflow edge, by the attributes the rules read.
#[derive(Debug, Clone, PartialEq, Eq)]
pub struct GraphEdge {
    pub from: String,
    pub to: String,
    pub thread_id: Option<String>,
    pub fidelity: Option<String>,
}

impl GraphEdge {
    /// An edge with no attributes.
    pub fn new(from: &str, to: &str) -> (e: GraphEdge)
        ensures
            e.from@ == from@,
            e.to@ == to@,
            e.thread_id is None,
            e.fidelity is None,
    {
        GraphEdge { from: from.to_string(), to: to.to_string(), thread_id: None, fidelity: None }
    }
}

/// A workflow graph: its nodes (by distinct id), edges and the graph-level
/// defaults the rules read.
#[derive(Debug, Clone, PartialEq, Eq)]
pub struct LintGraph {
    pub nodes: Vec<GraphNode>,
    pub edges: Vec<GraphEdge>,
    pub default_fidelity: Option<String>,
    pub default_thread: Option<String>,
}

/// The key of a node: its id.
pub open spec fn node_key() -> spec_fn(GraphNode) -> Seq<char> {
    |n: GraphNode| n.id@
}

impl LintGraph {
    /// Node ids are distinct.
    pub open spec fn wf(&self) -> bool {
        keys_unique(self.nodes@, node_key())
    }
}

pub open spec fn backend_known(b: Seq<char>) -> bool {
    b == "api"@ || b == "cli"@ || b == "acp"@
}

/// An ACP node with no command, or only whitespace.
pub open spec fn acp_command_missing(n: GraphNode) -> bool {
    match n.acp_command {
        Some(c) => trim(c@).len() == 0,
        None => true,
    }
}

/// What the backend rule finds on one node.
pub open spec fn backend_node_findings(n: GraphNode) -> Seq<DiagnosticView> {
    match n.backend {
        None => Seq::empty(),
        Some(b) => if !backend_known(b@) {
            seq![
                (
                    "backend_valid"@,
                    Severity::Error,
                    "unsupported LLM backend \""@ + b@ + "\"; expected one of: api, cli, acp"@,
                    Some(n.id@),
                    None,
                    Some("Use one of: api, cli, acp"@),
                ),
            ]
        } else if b@ == "acp"@ && acp_command_missing(n) {
            seq![
                (
                    "backend_valid"@,
                    Severity::Error,
                    "backend=\"acp\" requires acp_command because Fabro does not install ACP agents"@,
                    Some(n.id@),
                    None,
                    Some("Set acp_command to a stdio ACP command available in the sandbox"@),
                ),
            ]
        } else {
            Seq::empty()
        },
    }
}

/// What the backend rule finds on the nodes, in node order.
pub open spec fn backend_findings(nodes: Seq<GraphNode>) -> Seq<DiagnosticView>
    decreases nodes.len(),
{
    if nodes.len() == 0 {
        Seq::empty()
    } else {
        backend_findings(nodes.drop_last()) + backend_node_findings(nodes.last())
    }
}

/// The suggestion attached to every finding of the fidelity rule.
pub open spec fn fidelity_fix() -> Seq<char> {
    "Add fidelity=\"full\" to enable session reuse, or remove thread_id"@
}

pub open spec fn is_full(o: Option<String>) -> bool {
    opt_chars(o) == Some("full"@)
}

/// What the fidelity rule finds on one node.
pub open spec fn thread_node_findings(n: GraphNode, default_full: bool) -> Seq<DiagnosticView> {
    if n.thread_id is Some && !is_full(n.fidelity) && !default_full {
        seq![
            (
                "thread_id_requires_fidelity_full"@,
                Severity::Warning,
                "Node '"@ + n.id@ + "' has thread_id but fidelity is not 'full'"@,
                Some(n.id@),
                None,
                Some(fidelity_fix()),
            ),
        ]
    } else {
        Seq::empty()
    }
}

pub open spec fn thread_nodes_findings(nodes: Seq<GraphNode>, default_full: bool) -> Seq<DiagnosticView>
    decreases nodes.len(),
{
    if nodes.len() == 0 {
        Seq::empty()
    } else {
        thread_nodes_findings(nodes.drop_last(), default_full) + thread_node_findings(nodes.last(), default_full)
    }
}

/// Whether the node an edge leads to asks for full fidelity.
pub open spec fn target_full(nodes: Seq<GraphNode>, e: GraphEdge) -> bool {
    lookup(nodes, node_key(), e.to@) matches Some(n) && is_full(n.fidelity)
}

/// What the fidelity rule finds on one edge.
pub open spec fn thread_edge_findings(nodes: Seq<GraphNode>, e: GraphEdge, default_full: bool) -> Seq<DiagnosticView> {
    if e.thread_id is Some && !is_full(e.fidelity) && !target_full(nodes, e) && !default_full {
        seq![
            (
                "thread_id_requires_fidelity_full"@,
                Severity::Warning,
                "Edge "@ + e.from@ + " -> "@ + e.to@ + " has thread_id but fidelity is not 'full'"@,
                None,
                Some((e.from@, e.to@)),
                Some(fidelity_fix()),
            ),
        ]
    } else {
        Seq::empty()
    }
}

pub open spec fn thread_edges_findings(nodes: Seq<GraphNode>, edges: Seq<GraphEdge>, default_full: bool) -> Seq<
    DiagnosticView,
>
    decreases edges.len(),
{
    if edges.len() == 0 {
        Seq::empty()
    } else {
        thread_edges_findings(nodes, edges.drop_last(), default_full) + thread_edge_findings(
            nodes,
            edges.last(),
            default_full,
        )
    }
}

/// What the fidelity rule finds on the graph itself.
pub open spec fn thread_graph_findings(g: LintGraph) -> Seq<DiagnosticView> {
    if g.default_thread is Some && !is_full(g.default_fidelity) {
        seq![
            (
                "thread_id_requires_fidelity_full"@,
                Severity::Warning,
                "Graph has default_thread but default_fidelity is not 'full'"@,
                None,
                None,
                Some(fidelity_fix()),
            ),
        ]
    } else {
        Seq::empty()
    }
}

/// Everything the fidelity rule finds: nodes, then edges, then the graph.
pub open spec fn thread_findings(g: LintGraph) -> Seq<DiagnosticView> {
    thread_nodes_findings(g.nodes@, is_full(g.default_fidelity)) + thread_edges_findings(
        g.nodes@,
        g.edges@,
        is_full(g.default_fidelity),
    ) + thread_graph_findings(g)
}

proof fn lemma_full_default_silences_nodes(nodes: Seq<GraphNode>)
    ensures
        thread_nodes_findings(nodes, true).len() == 0,
    decreases nodes.len(),
{
    if nodes.len() > 0 {
        lemma_full_default_silences_nodes(nodes.drop_last());
    }
}

proof fn lemma_full_default_silences_edges(nodes: Seq<GraphNode>, edges: Seq<GraphEdge>)
    ensures
        thread_edges_findings(nodes, edges, true).len() == 0,
    decreases edges.len(),
{
    if edges.len() > 0 {
        lemma_full_default_silences_edges(nodes, edges.drop_last());
    }
}

/// When the graph's default fidelity is `full`, the fidelity rule reports
/// nothing: no node, edge or graph finding, whatever carries a thread id.
pub proof fn law_full_default_fidelity_silences_thread_rule(graph: LintGraph, ds: Seq<Diagnostic>)
    requires
        diagnostics_view(ds) == thread_findings(graph),
        graph.default_fidelity matches Some(f) && f@ == "full"@,
    ensures
        ds.len() == 0,
{
    lemma_full_default_silences_nodes(graph.nodes@);
    lemma_full_default_silences_edges(graph.nodes@, graph.edges@);
    assert(diagnostics_view(ds).len() == ds.len());
}

proof fn lemma_threadless_nodes_silent(nodes: Seq<GraphNode>, d: bool)
    requires
        forall|i: int| 0 <= i < nodes.len() ==> (#[trigger] nodes[i]).thread_id is None,
    ensures
        thread_nodes_findings(nodes, d).len() == 0,
    decreases nodes.len(),
{
    if nodes.len() > 0 {
        let rest = nodes.drop_last();
        assert forall|i: int| 0 <= i < rest.len() implies (#[trigger] rest[i]).thread_id is None by {
            assert(rest[i] == nodes[i]);
        }
        lemma_threadless_nodes_silent(rest, d);
        assert(nodes.last() == nodes[nodes.len() - 1]);
    }
}

proof fn lemma_threadless_edges_silent(nodes: Seq<GraphNode>, edges: Seq<GraphEdge>, d: bool)
    requires
        forall|i: int| 0 <= i < edges.len() ==> (#[trigger] edges[i]).thread_id is None,
    ensures
        thread_edges_findings(nodes, edges, d).len() == 0,
    decreases edges.len(),
{
    if edges.len() > 0 {
        let rest = edges.drop_last();
        assert forall|i: int| 0 <= i < rest.len() implies (#[trigger] rest[i]).thread_id is None by {
            assert(rest[i] == edges[i]);
        }
        lemma_threadless_edges_silent(nodes, rest, d);
        assert(edges.last() == edges[edges.len() - 1]);
    }
}

/// The fidelity rule only speaks of thread ids: a graph where no node, no
/// edge and not the graph itself carries one gets no finding.
pub proof fn law_threadless_graph_passes_thread_rule(graph: LintGraph, ds: Seq<Diagnostic>)
    requires
        diagnostics_view(ds) == thread_findings(graph),
        graph.default_thread is None,
        forall|i: int| 0 <= i < graph.nodes@.len() ==> (#[trigger] graph.nodes@[i]).thread_id is None,
        forall|i: int| 0 <= i < graph.edges@.len() ==> (#[trigger] graph.edges@[i]).thread_id is None,
    ensures
        ds.len() == 0,
{
    lemma_threadless_nodes_silent(graph.nodes@, is_full(graph.default_fidelity));
    lemma_threadless_edges_silent(graph.nodes@, graph.edges@, is_full(graph.default_fidelity));
    assert(diagnostics_view(ds).len() == ds.len());
}

fn opt_is_full(o: &Option<String>) -> (b: bool)
    ensures
        b == is_full(*o),
{
    match o {
        Some(s) => str_eq(s.as_str(), "full"),
        None => false,
    }
}

fn text(s: &str) -> (r: String)
    ensures
        r@ == s@,
{
    s.to_string()
}

fn join3(a: &str, b: &str, c: &str) -> (r: String)
    ensures
        r@ == a@ + b@ + c@,
{
    let mut v: Vec<char> = Vec::new();
    push_str(&mut v, a);
    push_str(&mut v, b);
    push_str(&mut v, c);
    string_from_chars(&v)
}

/// The backend rule.
pub struct BackendValid;

impl BackendValid {
    pub fn name(&self) -> (s: &'static str)
        ensures
            s@ == "backend_valid"@,
    {
        "backend_valid"
    }

    pub fn apply(&self, graph: &LintGraph) -> (ds: Vec<Diagnostic>)
        ensures
            diagnostics_view(ds@) == backend_findings(graph.nodes@),
    {
        let mut ds: Vec<Diagnostic> = Vec::new();
        let mut i: usize = 0;
        while i < graph.nodes.len()
            invariant
                i <= graph.nodes@.len(),
                diagnostics_view(ds@) == backend_findings(graph.nodes@.take(i as int)),
            decreases graph.nodes.len() - i,
        {
            let node = &graph.nodes[i];
            let ghost before = ds@;
            proof {
                assert(graph.nodes@.take(i + 1).drop_last() =~= graph.nodes@.take(i as int));
                assert(graph.nodes@.take(i + 1).last() == *node);
            }
            match &node.backend {
                None => {},
                Some(b) => {
                    let known = str_eq(b.as_str(), "api") || str_eq(b.as_str(), "cli") || str_eq(b.as_str(), "acp");
                    if !known {
                        let mut msg: Vec<char> = Vec::new();
                        push_str(&mut msg, "unsupported LLM backend \"");
                        push_str(&mut msg, b.as_str());
                        push_str(&mut msg, "\"; expected one of: api, cli, acp");
                        ds.push(Diagnostic {
                            rule: text("backend_valid"),
                            severity: Severity::Error,
                            message: string_from_chars(&msg),
                            node_id: Some(node.id.clone()),
                            edge: None,
                            fix: Some(text("Use one of: api, cli, acp")),
                        });
                    } else if str_eq(b.as_str(), "acp") {
                        let missing = match &node.acp_command {
                            Some(c) => trim_str(c.as_str()).as_str().is_empty(),
                            None => true,
                        };
                        if missing {
                            ds.push(Diagnostic {
                                rule: text("backend_valid"),
                                severity: Severity::Error,
                                message: text(
                                    "backend=\"acp\" requires acp_command because Fabro does not install ACP agents",
                                ),
                                node_id: Some(node.id.clone()),
                                edge: None,
                                fix: Some(text("Set acp_command to a stdio ACP command available in the sandbox")),
                            });
                        }
                    }
                },
            }
            proof {
                assert(diagnostics_view(ds@) =~= diagnostics_view(before) + backend_node_findings(*node));
            }
            i = i + 1;
        }
        proof {
            assert(graph.nodes@.take(graph.nodes@.len() as int) =~= graph.nodes@);
        }
        ds
    }
}

/// The fidelity rule.
pub struct ThreadIdRequiresFidelityFull;

impl ThreadIdRequiresFidelityFull {
    pub fn name(&self) -> (s: &'static str)
        ensures
            s@ == "thread_id_requires_fidelity_full"@,
    {
        "thread_id_requires_fidelity_full"
    }

    fn fix() -> (s: String)
        ensures
            s@ == fidelity_fix(),
    {
        text("Add fidelity=\"full\" to enable session reuse, or remove thread_id")
    }

    pub fn apply(&self, graph: &LintGraph) -> (ds: Vec<Diagnostic>)
        requires
            graph.wf(),
        ensures
            diagnostics_view(ds@) == thread_findings(*graph),
    {
        let default_full = opt_is_full(&graph.default_fidelity);
        let mut ds: Vec<Diagnostic> = Vec::new();
        let mut i: usize = 0;
        while i < graph.nodes.len()
            invariant
                i <= graph.nodes@.len(),
                default_full == is_full(graph.default_fidelity),
                diagnostics_view(ds@) == thread_nodes_findings(graph.nodes@.take(i as int), default_full),
            decreases graph.nodes.len() - i,
        {
            let node = &graph.nodes[i];
            let ghost before = ds@;
            proof {
                assert(graph.nodes@.take(i + 1).drop_last() =~= graph.nodes@.take(i as int));
                assert(graph.nodes@.take(i + 1).last() == *node);
            }
            if node.thread_id.is_some() && !opt_is_full(&node.fidelity) && !default_full {
                ds.push(Diagnostic {
                    rule: text("thread_id_requires_fidelity_full"),
                    severity: Severity::Warning,
                    message: join3("Node '", node.id.as_str(), "' has thread_id but fidelity is not 'full'"),
                    node_id: Some(node.id.clone()),
                    edge: None,
                    fix: Some(Self::fix()),
                });
            }
            proof {
                assert(diagnostics_view(ds@) =~= diagnostics_view(before) + thread_node_findings(*node, default_full));
            }
            i = i + 1;
        }
        proof {
            assert(graph.nodes@.take(graph.nodes@.len() as int) =~= graph.nodes@);
        }
        let ghost after_nodes = ds@;
        let mut j: usize = 0;
        while j < graph.edges.len()
            invariant
                j <= graph.edges@.len(),
                graph.wf(),
                default_full == is_full(graph.default_fidelity),
                diagnostics_view(ds@) == diagnostics_view(after_nodes) + thread_edges_findings(
                    graph.nodes@,
                    graph.edges@.take(j as int),
                    default_full,
                ),
            decreases graph.edges.len() - j,
        {
            let edge = &graph.edges[j];
            let ghost before = ds@;
            proof {
                assert(graph.edges@.take(j + 1).drop_last() =~= graph.edges@.take(j as int));
                assert(graph.edges@.take(j + 1).last() == *edge);
            }
            if edge.thread_id.is_some() {
                let edge_full = opt_is_full(&edge.fidelity);
                let mut target_is_full = false;
                let mut k: usize = 0;
                while k < graph.nodes.len()
                    invariant
                        k <= graph.nodes@.len(),
                        graph.wf(),
                        target_is_full == exists|m: int|
                            0 <= m < k && graph.nodes@[m].id@ == edge.to@ && is_full(graph.nodes@[m].fidelity),
                    decreases graph.nodes.len() - k,
                {
                    if str_eq(graph.nodes[k].id.as_str(), edge.to.as_str()) && opt_is_full(&graph.nodes[k].fidelity) {
                        target_is_full = true;
                    }
                    k = k + 1;
                }
                proof {
                    if target_is_full {
                        let m = choose|m: int|
                            0 <= m < graph.nodes@.len() && graph.nodes@[m].id@ == edge.to@ && is_full(
                                graph.nodes@[m].fidelity,
                            );
                        lemma_lookup_at(graph.nodes@, node_key(), m);
                    } else if lookup(graph.nodes@, node_key(), edge.to@) is Some {
                        let n = lookup(graph.nodes@, node_key(), edge.to@).unwrap();
                        crate::keyed::lemma_lookup_found(graph.nodes@, node_key(), edge.to@);
                        let m = choose|m: int| 0 <= m < graph.nodes@.len() && graph.nodes@[m] == n;
                        assert(graph.nodes@[m].id@ == edge.to@);
                    }
                }
                if !edge_full && !target_is_full && !default_full {
                    let mut msg: Vec<char> = Vec::new();
                    push_str(&mut msg, "Edge ");
                    push_str(&mut msg, edge.from.as_str());
                    push_str(&mut msg, " -> ");
                    push_str(&mut msg, edge.to.as_str());
                    push_str(&mut msg, " has thread_id but fidelity is not 'full'");
                    ds.push(Diagnostic {
                        rule: text("thread_id_requires_fidelity_full"),
                        severity: Severity::Warning,
                        message: string_from_chars(&msg),
                        node_id: None,
                        edge: Some((edge.from.clone(), edge.to.clone())),
                        fix: Some(Self::fix()),
                    });
                }
            }
            proof {
                assert(diagnostics_view(ds@) =~= diagnostics_view(before) + thread_edge_findings(
                    graph.nodes@,
                    *edge,
                    default_full,
                ));
            }
            j = j + 1;
        }
        proof {
            assert(graph.edges@.take(graph.edges@.len() as int) =~= graph.edges@);
        }
        let ghost before_graph = ds@;
        if graph.default_thread.is_some() && !default_full {
            ds.push(Diagnostic {
                rule: text("thread_id_requires_fidelity_full"),
                severity: Severity::Warning,
                message: text("Graph has default_thread but default_fidelity is not 'full'"),
                node_id: None,
                edge: None,
                fix: Some(Self::fix()),
            });
        }
        proof {
            assert(diagnostics_view(ds@) =~= diagnostics_view(before_graph) + thread_graph_findings(*graph));
        }
        ds
    }
}

/// The outcome of validating a workflow: whether it passed, and its
/// findings.
#[derive(Debug, Clone, PartialEq, Eq)]
pub struct ValidateResponse {
    pub ok: bool,
    pub diagnostics: Vec<Diagnostic>,
}

/// A finding promoted to an error when it is of the given rule.
pub open spec fn promoted(d: Diagnostic, rule: Seq<char>) -> Diagnostic {
    if d.rule@ == rule {
        Diagnostic { severity: Severity::Error, ..d }
    } else {
        d
    }
}

/// Makes every finding of the undefined-template-variable rule (whose name
/// is given) an error; a response with such a finding no longer passes.
pub fn promote_template_undefined_variables_to_errors(response: &mut ValidateResponse, rule: &str)
    ensures
        final(response).diagnostics@ == old(response).diagnostics@.map_values(|d: Diagnostic| promoted(d, rule@)),
        final(response).ok == (old(response).ok && forall|i: int|
            0 <= i < old(response).diagnostics@.len() ==> (#[trigger] old(response).diagnostics@[i]).rule@ != rule@),
{
    let mut rest: Vec<Diagnostic> = Vec::new();
    std::mem::swap(&mut rest, &mut response.diagnostics);
    let ghost all = rest@;
    let count = rest.len();
    assert(all.len() == count);
    let mut out: Vec<Diagnostic> = Vec::new();
    let mut found = false;
    let mut k: usize = 0;
    while rest.len() > 0
        invariant
            k + rest@.len() == all.len(),
            all.len() <= usize::MAX,
            rest@ == all.subrange(k as int, all.len() as int),
            out@ == all.take(k as int).map_values(|d: Diagnostic| promoted(d, rule@)),
            found == exists|i: int| 0 <= i < k && (#[trigger] all[i]).rule@ == rule@,
        decreases rest@.len(),
    {
        let d = rest.remove(0);
        proof {
            assert(d == all[k as int]);
        }
        if str_eq(d.rule.as_str(), rule) {
            found = true;
            out.push(Diagnostic { severity: Severity::Error, ..d });
        } else {
            out.push(d);
        }
        proof {
            assert(out@ =~= all.take(k + 1).map_values(|d: Diagnostic| promoted(d, rule@)));
            assert(rest@ =~= all.subrange(k + 1, all.len() as int));
        }
        k = k + 1;
    }
    proof {
        assert(all.take(k as int) =~= all);
    }
    response.diagnostics = out;
    if found {
        response.ok = false;
    }
}

} // verus!
