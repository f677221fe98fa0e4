//! The module resolver: schema validation and document rendering.

use compute::config::app_image;
use compute::config::apt::Apt;
use compute::config::s3;
use compute::config::vars::{VarValue, Bindings};
use compute::config::Config;
use compute::modules::{
    default_modules_root, module_document_path, module_not_found_error, render_module_document,
    Module, ModuleConfig, VarDef,
};
use compute::result::ApplyError;

fn empty_config() -> Config {
    Config {
        apt: Apt::empty(),
        app_image: app_image::Config::empty(),
        files: Vec::new(),
        scripts: Vec::new(),
        s3: s3::Config::empty(),
        modules: Vec::new(),
    }
}

fn module_with_schema(name: &str, vars: Vec<(String, VarDef)>) -> Module {
    Module {
        module: ModuleConfig { name: name.to_string(), vars },
        config: empty_config(),
    }
}

fn required(kind: &str) -> VarDef {
    VarDef { required: true, kind: kind.to_string() }
}

fn custom_message(r: Result<(), ApplyError>) -> String {
    match r {
        Err(ApplyError::Custom(m)) => m,
        other => panic!("expected a configuration error, got {:?}", other),
    }
}

#[test]
fn missing_required_var_fails_naming_it() {
    let m = module_with_schema("db", vec![("x".to_string(), required("string"))]);
    let vars: Bindings = Vec::new();
    let msg = custom_message(m.validate(&vars));
    assert_eq!(msg, "missing required var x for module db");
}

#[test]
fn undeclared_var_fails_naming_it() {
    let m = module_with_schema("db", vec![("x".to_string(), required("string"))]);
    let vars: Bindings = vec![
        ("x".to_string(), VarValue::Str("a".to_string())),
        ("y".to_string(), VarValue::Int(1)),
    ];
    let msg = custom_message(m.validate(&vars));
    assert_eq!(msg, "unknown var y for module db");
}

#[test]
fn exactly_the_required_set_succeeds() {
    let m = module_with_schema("db", vec![("x".to_string(), required("string"))]);
    let vars: Bindings = vec![("x".to_string(), VarValue::Str("a".to_string()))];
    assert!(m.validate(&vars).is_ok());
}

#[test]
fn optional_vars_may_be_omitted_but_not_invented() {
    let m = module_with_schema(
        "web",
        vec![
            ("size".to_string(), required("string")),
            ("debug".to_string(), VarDef { required: false, kind: "bool".to_string() }),
        ],
    );
    let only_required: Bindings = vec![("size".to_string(), VarValue::Str("small".to_string()))];
    assert!(m.validate(&only_required).is_ok());
    let with_optional: Bindings = vec![
        ("size".to_string(), VarValue::Str("small".to_string())),
        ("debug".to_string(), VarValue::Bool(true)),
    ];
    assert!(m.validate(&with_optional).is_ok());
}

#[test]
fn first_missing_var_is_reported_in_declaration_order() {
    let m = module_with_schema(
        "db",
        vec![("a".to_string(), required("string")), ("b".to_string(), required("string"))],
    );
    let vars: Bindings = Vec::new();
    let msg = custom_message(m.validate(&vars));
    assert_eq!(msg, "missing required var a for module db");
}

#[test]
fn document_paths_follow_the_root() {
    assert_eq!(default_modules_root(), "/usr/share/compute/modules");
    assert_eq!(
        module_document_path("/usr/share/compute/modules", "db"),
        "/usr/share/compute/modules/db.json5"
    );
}

#[test]
fn absent_document_error_names_the_module() {
    match module_not_found_error("db") {
        ApplyError::Custom(m) => assert_eq!(m, "failed to load module db"),
        other => panic!("unexpected error {:?}", other),
    }
}

#[test]
fn document_renders_against_the_reserved_vars_key() {
    let vars: Bindings = vec![("size".to_string(), VarValue::Str("small".to_string()))];
    let rendered = render_module_document(
        "db",
        "{ \"files\": [ { \"path\": \"/etc/db-{{ vars.size }}.conf\" } ] }",
        vars,
    )
    .expect("rendering succeeds");
    assert_eq!(rendered, "{ \"files\": [ { \"path\": \"/etc/db-small.conf\" } ] }");
}

#[test]
fn renderer_failure_is_reported_against_the_document() {
    let vars: Bindings = Vec::new();
    match render_module_document("db", "{% for %}", vars) {
        Err(ApplyError::TeraTemplateError((name, _))) => assert_eq!(name, "db.json5"),
        other => panic!("expected a template error, got {:?}", other),
    }
}
