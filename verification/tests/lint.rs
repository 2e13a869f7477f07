use fabro::lint::{
    promote_template_undefined_variables_to_errors, BackendValid, Diagnostic, GraphEdge, GraphNode, LintGraph,
    Severity, ThreadIdRequiresFidelityFull, ValidateResponse,
};

fn minimal_graph() -> LintGraph {
    LintGraph {
        nodes: vec![GraphNode::new("start"), GraphNode::new("exit")],
        edges: vec![GraphEdge::new("start", "exit")],
        default_fidelity: None,
        default_thread: None,
    }
}

fn insert_node(graph: &mut LintGraph, node: GraphNode) {
    graph.nodes.retain(|n| n.id != node.id);
    graph.nodes.push(node);
}

#[test]
fn backend_valid_accepts_absent_api_and_cli() {
    for backend in [None, Some("api"), Some("cli")] {
        let mut graph = minimal_graph();
        let mut node = GraphNode::new("work");
        if let Some(backend) = backend {
            node.backend = Some(backend.to_string());
        }
        insert_node(&mut graph, node);

        assert!(BackendValid.apply(&graph).is_empty(), "backend: {backend:?}");
    }
}

#[test]
fn backend_valid_rejects_unknown_backend() {
    let mut graph = minimal_graph();
    let mut node = GraphNode::new("work");
    node.backend = Some("codex".to_string());
    insert_node(&mut graph, node);

    let diagnostics = BackendValid.apply(&graph);
    assert_eq!(diagnostics.len(), 1);
    assert_eq!(diagnostics[0].severity, Severity::Error);
    assert!(
        diagnostics[0]
            .message
            .contains("unsupported LLM backend \"codex\"; expected one of: api, cli, acp")
    );
}

#[test]
fn backend_valid_requires_acp_command_for_acp_backend() {
    let mut graph = minimal_graph();
    let mut node = GraphNode::new("work");
    node.backend = Some("acp".to_string());
    insert_node(&mut graph, node);

    let diagnostics = BackendValid.apply(&graph);
    assert_eq!(diagnostics.len(), 1);
    assert_eq!(diagnostics[0].severity, Severity::Error);
    assert!(diagnostics[0].message.contains(
        "backend=\"acp\" requires acp_command because Fabro does not install ACP agents"
    ));
}

#[test]
fn backend_valid_accepts_acp_backend_with_acp_command() {
    let mut graph = minimal_graph();
    let mut node = GraphNode::new("work");
    node.backend = Some("acp".to_string());
    node.acp_command = Some("agent-acp".to_string());
    insert_node(&mut graph, node);

    assert!(BackendValid.apply(&graph).is_empty());
}

#[test]
fn backend_valid_treats_blank_acp_command_as_missing() {
    let mut graph = minimal_graph();
    let mut node = GraphNode::new("work");
    node.backend = Some("acp".to_string());
    node.acp_command = Some("  \t".to_string());
    insert_node(&mut graph, node);
    let diagnostics = BackendValid.apply(&graph);
    assert_eq!(diagnostics.len(), 1);
    assert_eq!(diagnostics[0].node_id.as_deref(), Some("work"));
    assert_eq!(diagnostics[0].rule, "backend_valid");
    assert_eq!(BackendValid.name(), "backend_valid");
}

#[test]
fn thread_id_requires_fidelity_full_node_warns() {
    let mut g = minimal_graph();
    let mut node = GraphNode::new("work");
    node.thread_id = Some("session1".to_string());
    insert_node(&mut g, node);
    g.edges.push(GraphEdge::new("start", "work"));
    g.edges.push(GraphEdge::new("work", "exit"));
    let rule = ThreadIdRequiresFidelityFull;
    let d = rule.apply(&g);
    assert_eq!(d.len(), 1);
    assert_eq!(d[0].severity, Severity::Warning);
    assert_eq!(d[0].node_id, Some("work".to_string()));
}

#[test]
fn thread_id_requires_fidelity_full_node_ok() {
    let mut g = minimal_graph();
    let mut node = GraphNode::new("work");
    node.thread_id = Some("session1".to_string());
    node.fidelity = Some("full".to_string());
    insert_node(&mut g, node);
    g.edges.push(GraphEdge::new("start", "work"));
    g.edges.push(GraphEdge::new("work", "exit"));
    let rule = ThreadIdRequiresFidelityFull;
    let d = rule.apply(&g);
    assert!(d.is_empty());
}

#[test]
fn thread_id_requires_fidelity_full_node_graph_default_ok() {
    let mut g = minimal_graph();
    g.default_fidelity = Some("full".to_string());
    let mut node = GraphNode::new("work");
    node.thread_id = Some("session1".to_string());
    insert_node(&mut g, node);
    g.edges.push(GraphEdge::new("start", "work"));
    g.edges.push(GraphEdge::new("work", "exit"));
    let rule = ThreadIdRequiresFidelityFull;
    let d = rule.apply(&g);
    assert!(d.is_empty());
}

#[test]
fn thread_id_requires_fidelity_full_edge_warns() {
    let mut g = minimal_graph();
    let mut edge = GraphEdge::new("start", "exit");
    edge.thread_id = Some("session1".to_string());
    g.edges = vec![edge];
    let rule = ThreadIdRequiresFidelityFull;
    let d = rule.apply(&g);
    assert_eq!(d.len(), 1);
    assert_eq!(d[0].severity, Severity::Warning);
    assert_eq!(d[0].edge, Some(("start".to_string(), "exit".to_string())));
}

#[test]
fn thread_id_requires_fidelity_full_edge_ok() {
    let mut g = minimal_graph();
    let mut edge = GraphEdge::new("start", "exit");
    edge.thread_id = Some("session1".to_string());
    edge.fidelity = Some("full".to_string());
    g.edges = vec![edge];
    let rule = ThreadIdRequiresFidelityFull;
    let d = rule.apply(&g);
    assert!(d.is_empty());
}

#[test]
fn thread_id_requires_fidelity_full_edge_target_node_ok() {
    let mut g = minimal_graph();
    if let Some(exit_node) = g.nodes.iter_mut().find(|n| n.id == "exit") {
        exit_node.fidelity = Some("full".to_string());
    }
    let mut edge = GraphEdge::new("start", "exit");
    edge.thread_id = Some("session1".to_string());
    g.edges = vec![edge];
    let rule = ThreadIdRequiresFidelityFull;
    let d = rule.apply(&g);
    assert!(d.is_empty());
}

#[test]
fn thread_id_requires_fidelity_full_graph_warns() {
    let mut g = minimal_graph();
    g.default_thread = Some("session1".to_string());
    let rule = ThreadIdRequiresFidelityFull;
    let d = rule.apply(&g);
    assert_eq!(d.len(), 1);
    assert_eq!(d[0].severity, Severity::Warning);
    assert!(d[0].node_id.is_none());
    assert!(d[0].edge.is_none());
}

#[test]
fn thread_id_requires_fidelity_full_graph_ok() {
    let mut g = minimal_graph();
    g.default_thread = Some("session1".to_string());
    g.default_fidelity = Some("full".to_string());
    let rule = ThreadIdRequiresFidelityFull;
    let d = rule.apply(&g);
    assert!(d.is_empty());
}

#[test]
fn thread_id_messages_name_the_node_and_edge() {
    let mut g = minimal_graph();
    let mut node = GraphNode::new("work");
    node.thread_id = Some("t".to_string());
    insert_node(&mut g, node);
    let mut edge = GraphEdge::new("start", "work");
    edge.thread_id = Some("t".to_string());
    g.edges = vec![edge];
    g.default_thread = Some("t".to_string());
    let d = ThreadIdRequiresFidelityFull.apply(&g);
    let messages: Vec<&str> = d.iter().map(|x| x.message.as_str()).collect();
    assert_eq!(messages, vec![
        "Node 'work' has thread_id but fidelity is not 'full'",
        "Edge start -> work has thread_id but fidelity is not 'full'",
        "Graph has default_thread but default_fidelity is not 'full'",
    ]);
    assert_eq!(
        d[0].fix.as_deref(),
        Some("Add fidelity=\"full\" to enable session reuse, or remove thread_id")
    );
    assert_eq!(ThreadIdRequiresFidelityFull.name(), "thread_id_requires_fidelity_full");
}

fn finding(rule: &str, severity: Severity) -> Diagnostic {
    Diagnostic {
        rule: rule.to_string(),
        severity,
        message: "m".to_string(),
        node_id: None,
        edge: None,
        fix: None,
    }
}

#[test]
fn undefined_template_variables_become_errors() {
    let mut response = ValidateResponse {
        ok: true,
        diagnostics: vec![
            finding("template_undefined_variable", Severity::Warning),
            finding("backend_valid", Severity::Warning),
        ],
    };
    promote_template_undefined_variables_to_errors(&mut response, "template_undefined_variable");
    assert!(!response.ok);
    assert_eq!(response.diagnostics[0].severity, Severity::Error);
    assert_eq!(response.diagnostics[1].severity, Severity::Warning);

    let mut clean = ValidateResponse { ok: true, diagnostics: vec![finding("backend_valid", Severity::Info)] };
    promote_template_undefined_variables_to_errors(&mut clean, "template_undefined_variable");
    assert!(clean.ok);
    assert_eq!(clean.diagnostics[0].severity, Severity::Info);
}
