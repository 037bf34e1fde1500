use minilink::{
    contains, include_template, register_template, register_template_without_prefix, render,
    LinkerTemplateContext, TemplateContextCfg, TemplateError,
};

fn entry(name: &str, value: &str) -> (String, String) {
    (name.to_string(), value.to_string())
}

fn context_of(entries: Vec<(String, String)>) -> LinkerTemplateContext {
    LinkerTemplateContext::new(entries)
}

const EXPECTED: &str = "SECTIONS {
\t.test : {
\t\t__test = .;
\t}
}";

#[test]
fn templates_linker_script() {
    let template = "SECTIONS {
\t.test : {
\t\t{% if contains(cfg.feature, \"test\") %}
\t\t__test = .;
\t\t{% endif %}
\t}
}";
    let context = context_of(vec![entry("CARGO_CFG_FEATURE", "test")]);
    let linker_script = render(template, &context).unwrap();
    assert_eq!(EXPECTED, linker_script)
}

#[test]
fn contains_single_value() {
    let cfg = TemplateContextCfg::Value("alloc".to_string());
    assert!(contains(Some(&cfg), &"alloc".to_string()));
    assert!(!contains(Some(&cfg), &"std".to_string()));
    assert!(!contains(Some(&cfg), &"".to_string()));
}

#[test]
fn contains_multi_value() {
    let cfg = TemplateContextCfg::List(vec![
        "alloc".to_string(),
        "std".to_string(),
        "net".to_string(),
    ]);
    assert!(contains(Some(&cfg), &"alloc".to_string()));
    assert!(contains(Some(&cfg), &"std".to_string()));
    assert!(contains(Some(&cfg), &"net".to_string()));
    assert!(!contains(Some(&cfg), &"serde".to_string()));
    assert!(!contains(Some(&cfg), &"".to_string()));
}

#[test]
fn contains_absent_flag() {
    assert!(!contains(None, &"anything".to_string()));
    assert!(!contains(None, &"".to_string()));
    let context = context_of(vec![entry("CARGO_CFG_FEATURE", "alloc")]);
    assert!(context.get(&"target_os".to_string()).is_none());
}

#[test]
fn rendering_is_idempotent() {
    let template = "{% if contains(cfg.feature, \"x\") %}yes{% endif %} {{ cfg.target_os }}";
    let context = context_of(vec![
        entry("CARGO_CFG_FEATURE", "x,y"),
        entry("CARGO_CFG_TARGET_OS", "none"),
    ]);
    let first = render(template, &context).unwrap();
    let second = render(template, &context).unwrap();
    assert_eq!(first, second);
}

#[test]
fn context_round_trip() {
    let context = context_of(vec![entry("CARGO_CFG_FEATURE", "alloc,std")]);
    match context.get(&"feature".to_string()) {
        Some(TemplateContextCfg::List(items)) => {
            assert_eq!(items.len(), 2);
            assert_eq!(items[0], "alloc");
            assert_eq!(items[1], "std");
        }
        _ => panic!("expected a multi-valued flag"),
    }
    let flag = context.get(&"feature".to_string());
    assert!(contains(flag, &"alloc".to_string()));
    assert!(!contains(flag, &"net".to_string()));
}

#[test]
fn strips_whitespace_around_control_tags() {
    let template = "SECTIONS {
 .text : {
  {% if contains(cfg.feature, \"x\") %}
  __x = .;
  {% endif %}
 }
}";
    let expected = "SECTIONS {
 .text : {
  __x = .;
 }
}";
    let context = context_of(vec![entry("CARGO_CFG_FEATURE", "x")]);
    assert_eq!(render(template, &context).unwrap(), expected);
}

#[test]
fn boolean_flag_normalizes_to_empty_string() {
    let context = context_of(vec![entry("CARGO_CFG_ALLOC", "")]);
    match context.get(&"alloc".to_string()) {
        Some(TemplateContextCfg::Value(value)) => assert_eq!(value, ""),
        _ => panic!("expected a present, single-valued, empty flag"),
    }
    let flag = context.get(&"alloc".to_string());
    assert!(contains(flag, &"".to_string()));
    assert!(!contains(flag, &"anything-else".to_string()));
}

#[test]
fn malformed_template_is_parse_error() {
    let context = context_of(vec![entry("CARGO_CFG_FEATURE", "x")]);
    let result = render("{% if contains(cfg.feature, \"x\") %}no end", &context);
    assert_eq!(result, Err(TemplateError::Parse));
}

#[test]
fn failing_evaluation_is_render_error() {
    let context = context_of(vec![entry("CARGO_CFG_FEATURE", "x")]);
    let result = render("{{ no_such_function() }}", &context);
    assert_eq!(result, Err(TemplateError::Render));
}

#[test]
fn helper_argument_of_wrong_shape_is_render_error() {
    let context = context_of(vec![entry("CARGO_CFG_FEATURE", "x")]);
    let result = render("{% if contains(3, \"x\") %}{% endif %}", &context);
    assert_eq!(result, Err(TemplateError::Render));
}

#[test]
fn from_env_value_splits_on_commas() {
    match TemplateContextCfg::from_env_value("alloc,std".to_string()) {
        TemplateContextCfg::List(items) => {
            assert_eq!(items, vec!["alloc".to_string(), "std".to_string()]);
        }
        _ => panic!("expected a multi-valued flag"),
    }
    match TemplateContextCfg::from_env_value("a,".to_string()) {
        TemplateContextCfg::List(items) => {
            assert_eq!(items, vec!["a".to_string(), "".to_string()]);
        }
        _ => panic!("expected a multi-valued flag"),
    }
    match TemplateContextCfg::from_env_value(",".to_string()) {
        TemplateContextCfg::List(items) => {
            assert_eq!(items, vec!["".to_string(), "".to_string()]);
        }
        _ => panic!("expected a multi-valued flag"),
    }
}

#[test]
fn from_env_value_keeps_plain_strings() {
    match TemplateContextCfg::from_env_value("alloc".to_string()) {
        TemplateContextCfg::Value(value) => assert_eq!(value, "alloc"),
        _ => panic!("expected a single-valued flag"),
    }
    match TemplateContextCfg::from_env_value("".to_string()) {
        TemplateContextCfg::Value(value) => assert_eq!(value, ""),
        _ => panic!("expected a single-valued flag"),
    }
}

#[test]
fn flag_names_are_lowercased_and_prefix_is_required() {
    let context = context_of(vec![
        entry("CARGO_CFG_TARGET_OS", "none"),
        entry("PATH", "/usr/bin"),
        entry("CARGO_PKG_NAME", "demo"),
    ]);
    match context.get(&"target_os".to_string()) {
        Some(TemplateContextCfg::Value(value)) => assert_eq!(value, "none"),
        _ => panic!("expected a single-valued flag"),
    }
    assert!(context.get(&"path".to_string()).is_none());
    assert!(context.get(&"pkg_name".to_string()).is_none());
    assert!(context.get(&"TARGET_OS".to_string()).is_none());
}

#[test]
fn variable_substitution_uses_the_context() {
    let context = context_of(vec![entry("CARGO_CFG_TARGET_POINTER_WIDTH", "64")]);
    let rendered = render("width: {{ cfg.target_pointer_width }}", &context).unwrap();
    assert_eq!(rendered, "width: 64");
}

#[test]
fn register_template_prefixes_the_crate_name() {
    let context = context_of(vec![entry("CARGO_CFG_FEATURE", "x")]);
    let artifact = register_template("A = 1;", &context, "demo", "test.ld").unwrap();
    assert_eq!(artifact.file_name, "demo_test.ld");
    assert_eq!(artifact.contents, "A = 1;");
    assert!(!artifact.link_immediately);
}

#[test]
fn register_template_without_prefix_keeps_the_name() {
    let context = context_of(vec![]);
    let artifact = register_template_without_prefix("B = 2;", &context, "test.ld").unwrap();
    assert_eq!(artifact.file_name, "test.ld");
    assert_eq!(artifact.contents, "B = 2;");
    assert!(artifact.link_immediately);
}

#[test]
fn include_template_links_immediately() {
    let context = context_of(vec![]);
    let artifact = include_template("C = 3;", &context, "demo", "test.ld").unwrap();
    assert_eq!(artifact.file_name, "demo_test.ld");
    assert!(artifact.link_immediately);
}

#[test]
fn registration_propagates_render_failure() {
    let context = context_of(vec![]);
    let result = register_template("{% endif %}", &context, "demo", "test.ld");
    assert_eq!(result.map(|a| a.contents), Err(TemplateError::Parse));
}

#[test]
fn multi_valued_flag_queried_from_a_template() {
    let template = "{% if contains(cfg.feature, \"std\") %}std{% endif %}{% if contains(cfg.feature, \"web\") %}web{% endif %}";
    let context = context_of(vec![entry("CARGO_CFG_FEATURE", "alloc,std")]);
    assert_eq!(render(template, &context).unwrap(), "std");
}

#[test]
fn absent_flag_is_false_inside_a_template() {
    let template = "{% if contains(cfg.nothing, \"x\") %}bad{% endif %}ok";
    let context = context_of(vec![]);
    assert_eq!(render(template, &context).unwrap(), "ok");
}
