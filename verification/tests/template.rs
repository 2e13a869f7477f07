use fabro::template::{
    contains_template_syntax, is_plain_text, render, render_context_json, render_lenient,
    render_lenient_named, render_named, EnvLookup, InputValue, RenderErrorKind, RenderFailure,
    TemplateContext, TemplateError,
};

#[test]
fn renders_simple_goal_variable() {
    let ctx = TemplateContext::new().with_goal("Fix bugs".to_string());

    let rendered = render("Goal: {{ goal }}", &ctx).unwrap();

    assert_eq!(rendered, "Goal: Fix bugs");
}

#[test]
fn renders_typed_input_values() {
    let ctx = TemplateContext::new().with_inputs(vec![
        ("enabled".to_string(), InputValue::Bool(true)),
        ("count".to_string(), InputValue::Int(3)),
    ]);

    let rendered = render(
        "{% if inputs.enabled %}count={{ inputs.count }}{% endif %}",
        &ctx,
    )
    .unwrap();

    assert_eq!(rendered, "count=3");
}

#[test]
fn renders_nested_input_variable() {
    let ctx = TemplateContext::new().with_inputs(vec![(
        "repo".to_string(),
        InputValue::Table(vec![(
            "name".to_string(),
            InputValue::Str("fabro".to_string()),
        )]),
    )]);

    let rendered = render("Repo {{ inputs.repo.name }}", &ctx).unwrap();

    assert_eq!(rendered, "Repo fabro");
}

#[test]
fn renders_env_variable() {
    let env = vec![("API_KEY".to_string(), "secret".to_string())];
    let ctx = TemplateContext::new().with_env_lookup(env);

    let rendered = render("{{ env.API_KEY }}", &ctx).unwrap();

    assert_eq!(rendered, "secret");
}

#[test]
fn renders_allowlisted_env_variable() {
    let env = vec![("TOKEN".to_string(), "abc123".to_string())];
    let ctx = TemplateContext::new().with_env_lookup_allowed(env, vec!["TOKEN".to_string()]);

    let rendered = render("Bearer {{ env.TOKEN }}", &ctx).unwrap();

    assert_eq!(rendered, "Bearer abc123");
}

#[test]
fn rejects_non_allowlisted_env_variable() {
    let env = vec![("SECRET".to_string(), "shh".to_string())];
    let ctx = TemplateContext::new().with_env_lookup_allowed(env, vec![]);

    let err = render("{{ env.SECRET }}", &ctx).unwrap_err();

    assert!(matches!(err, TemplateError::UndefinedVariable { .. }));
}

#[test]
fn render_lenient_treats_undefined_as_empty() {
    let ctx = TemplateContext::new();

    let rendered = render_lenient("before [{{ inputs.app_dir }}] after", &ctx).unwrap();

    assert_eq!(rendered, "before [] after");
}

#[test]
fn render_lenient_still_errors_on_syntax_problems() {
    let ctx = TemplateContext::new();

    let err = render_lenient("{{ unterminated", &ctx).unwrap_err();

    assert!(matches!(err, TemplateError::Syntax { .. }));
}

#[test]
fn render_named_reports_source_name_expression_and_span() {
    let ctx = TemplateContext::new();
    let err = render_named("prompts/test.md", "Hello {{ inputs.foo }}", &ctx).unwrap_err();

    let TemplateError::UndefinedVariable {
        expression,
        line,
        source_name,
        span,
        ..
    } = err
    else {
        panic!("expected undefined variable error");
    };

    assert_eq!(expression.as_deref(), Some("inputs.foo"));
    assert_eq!(line, Some(1));
    assert_eq!(source_name.as_deref(), Some("prompts/test.md"));
    assert!(span.is_some());
}

#[test]
fn render_lenient_named_preserves_source_name_for_syntax_errors() {
    let ctx = TemplateContext::new();
    let err = render_lenient_named("workflow.fabro", "{{ unterminated", &ctx).unwrap_err();

    let TemplateError::Syntax { source_name, .. } = err else {
        panic!("expected syntax error");
    };

    assert_eq!(source_name.as_deref(), Some("workflow.fabro"));
}

#[test]
fn rejects_undefined_variables_in_strict_mode() {
    let ctx = TemplateContext::new();

    let err = render("{{ missing }}", &ctx).unwrap_err();

    assert!(matches!(err, TemplateError::UndefinedVariable { .. }));
}

#[test]
fn undefined_variable_error_captures_expression_and_line() {
    let ctx = TemplateContext::new();

    let err = render("hi\n{{ inputs.app_dir }}", &ctx).unwrap_err();

    let TemplateError::UndefinedVariable {
        expression, line, ..
    } = &err
    else {
        panic!("expected UndefinedVariable, got {err:?}");
    };
    assert_eq!(expression.as_deref(), Some("inputs.app_dir"));
    assert_eq!(*line, Some(2));
}

#[test]
fn undefined_variable_error_display_includes_expression_and_line() {
    let ctx = TemplateContext::new();

    let err = render("hi\n{{ inputs.app_dir }}", &ctx).unwrap_err();

    let rendered = err.to_string();
    assert!(
        rendered.contains("inputs.app_dir"),
        "missing variable name in: {rendered}"
    );
    assert!(rendered.contains("line 2"), "missing line in: {rendered}");
}

#[test]
fn supports_partial_interpolation() {
    let ctx = TemplateContext::new().with_goal("ship it".to_string());

    let rendered = render("Please {{ goal }} today", &ctx).unwrap();

    assert_eq!(rendered, "Please ship it today");
}

#[test]
fn preserves_passthrough_goal_literal() {
    let ctx = TemplateContext::new().with_goal("{{ goal }}".to_string());

    let rendered = render("{{ goal }}", &ctx).unwrap();

    assert_eq!(rendered, "{{ goal }}");
}

#[test]
fn renders_empty_goal() {
    let ctx = TemplateContext::new().with_goal(String::new());

    let rendered = render("Goal={{ goal }}", &ctx).unwrap();

    assert_eq!(rendered, "Goal=");
}

#[test]
fn leaves_dollar_signs_untouched() {
    let ctx = TemplateContext::new().with_goal("ignored".to_string());

    let rendered = render("price is $5", &ctx).unwrap();

    assert_eq!(rendered, "price is $5");
}

#[test]
fn passes_through_plain_text() {
    let ctx = TemplateContext::new();

    let rendered = render("just text", &ctx).unwrap();

    assert_eq!(rendered, "just text");
}

#[test]
fn supports_raw_block_escape() {
    let ctx = TemplateContext::new();

    let rendered = render("{% raw %}{{ goal }}{% endraw %}", &ctx).unwrap();

    assert_eq!(rendered, "{{ goal }}");
}

#[test]
fn plain_text_detection_looks_for_delimiters() {
    assert!(contains_template_syntax("a {{ b }}"));
    assert!(contains_template_syntax("{% if x %}"));
    assert!(contains_template_syntax("{# note #}"));
    assert!(!contains_template_syntax("{ not } a { template"));
    assert!(is_plain_text("price is $5"));
    assert!(!is_plain_text("{{"));
}

#[test]
fn plain_text_with_undefined_looking_braces_is_not_rendered() {
    let ctx = TemplateContext::new();
    assert_eq!(render("{ goal }", &ctx).unwrap(), "{ goal }");
}

#[test]
fn context_json_escapes_and_filters_env() {
    let ctx = TemplateContext::new()
        .with_goal("say \"hi\"\n".to_string())
        .with_inputs(vec![
            ("list".to_string(), InputValue::List(vec![InputValue::Int(-1), InputValue::Bool(false)])),
            ("tab".to_string(), InputValue::Str("a\tb\u{1}".to_string())),
        ])
        .with_env_lookup_allowed(
            vec![("A".to_string(), "1".to_string()), ("B".to_string(), "2".to_string())],
            vec!["B".to_string()],
        );
    assert_eq!(
        render_context_json(&ctx),
        "{\"goal\":\"say \\\"hi\\\"\\n\",\"inputs\":{\"list\":[-1,false],\"tab\":\"a\\tb\\u0001\"},\"env\":{\"B\":\"2\"}}"
    );
    assert_eq!(render_context_json(&TemplateContext::new()), "{\"inputs\":{}}");
}

#[test]
fn env_lookup_honours_the_allow_list() {
    let env = EnvLookup {
        vars: vec![("A".to_string(), "1".to_string()), ("B".to_string(), "2".to_string())],
        allowlist: Some(vec!["A".to_string()]),
    };
    assert_eq!(env.get("A"), Some("1".to_string()));
    assert_eq!(env.get("B"), None);
    assert_eq!(env.visible_vars(), vec![("A".to_string(), "1".to_string())]);
    let open = EnvLookup { allowlist: None, ..env };
    assert_eq!(open.get("B"), Some("2".to_string()));
}

#[test]
fn input_scan_context_renders_goal_as_itself() {
    let ctx = TemplateContext::for_input_scan(vec![("x".to_string(), InputValue::Int(1))]);
    assert_eq!(render("{{ goal }} {{ inputs.x }}", &ctx).unwrap(), "{{ goal }} 1");
}

#[test]
fn errors_from_failures_keep_location_and_expression() {
    let f = RenderFailure {
        kind: RenderErrorKind::Undefined,
        line: Some(2),
        name: Some("t.md".to_string()),
        source: Some("hi\n{{ x.y }}".to_string()),
        range: Some((6, 9)),
    };
    let e = TemplateError::from_failure(&f);
    assert_eq!(e.expression(), Some("x.y"));
    assert_eq!(e.line(), Some(2));
    assert_eq!(e.source_name(), Some("t.md"));
    assert_eq!(e.span(), Some((6, 3)));
    assert_eq!(e.column(), Some(4));
    assert_eq!(e.code(), "fabro::template::undefined_variable");
    assert_eq!(e.to_string(), "undefined template variable `x.y` at line 2");
    let s = TemplateError::from_failure(&RenderFailure {
        kind: RenderErrorKind::Syntax,
        line: None,
        name: None,
        source: None,
        range: None,
    });
    assert_eq!(s.to_string(), "template syntax error");
    assert_eq!(s.expression(), None);
    assert_eq!(s.column(), None);
}

#[test]
fn unnamed_render_errors_name_the_string_template_and_carry_its_source() {
    let ctx = TemplateContext::new();
    let err = render("Hello {{ inputs.foo }}", &ctx).unwrap_err();
    let TemplateError::UndefinedVariable { source_name, source_text, .. } = err else {
        panic!("expected undefined variable error");
    };
    assert_eq!(source_name.as_deref(), Some("<string>"));
    assert_eq!(source_text.as_deref(), Some("Hello {{ inputs.foo }}"));
}
