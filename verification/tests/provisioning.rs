//! File resources, the provisioner's decisions, scripts, startup, and the
//! end-to-end shape of one apply.

use compute::actions::apt::ensure_packages;
use compute::actions::app_image::{start, AppImageStage};
use compute::actions::exec::{script_apply_command, script_must_apply, script_test_command};
use compute::actions::file::{materialize, post_write_steps, render_file_template};
use compute::actions::s3::find_bucket;
use compute::config::app_image::App;
use compute::config::files::{S3File, TemplateFile, TemplateSource};
use compute::config::s3::Bucket;
use compute::config::scripts::Script;
use compute::config::vars::{VarEntry, VarValue};
use compute::opts::check_startup;
use compute::provisioner::{FilePlan, Provisioner};
use compute::modules::{render_module_document, Module, ModuleConfig, VarDef};
use compute::result::ApplyError;
use compute::templates::Template;

fn assets_bucket() -> Bucket {
    Bucket {
        name: "assets".to_string(),
        key: "SECRET-REDACTED".to_string(),
        secret: "SECRET-REDACTED".to_string(),
        endpoint: "https://storage.example.net".to_string(),
    }
}

fn remote_file(path: &str) -> TemplateFile {
    TemplateFile {
        path: path.to_string(),
        template: None,
        s3: Some(S3File { bucket_name: "assets".to_string(), path: "conf/db.yaml".to_string() }),
        owner: Some((1000, 1000)),
        mode: None,
        context: Vec::new(),
    }
}

#[test]
fn bucket_names_resolve_against_declared_buckets() {
    let buckets = vec![assets_bucket()];
    let found = find_bucket(&buckets, &"assets".to_string()).expect("declared");
    assert_eq!(found.endpoint, "https://storage.example.net");
    assert!(find_bucket(&buckets, &"missing".to_string()).is_none());
}

#[test]
fn local_template_takes_precedence() {
    let mut file = remote_file("/etc/db.yaml");
    file.template = Some("db.yaml.tmpl".to_string());
    match file.source() {
        TemplateSource::Local(t) => assert_eq!(t, "db.yaml.tmpl"),
        TemplateSource::S3(_) => panic!("local template must win"),
    }
}

#[test]
fn file_plans_follow_source_and_skip_choice() {
    let file = remote_file("/etc/db.yaml");
    match Provisioner::new(false).file_plan(&file) {
        FilePlan::Fetch(s) => assert_eq!(s.path, "conf/db.yaml"),
        _ => panic!("a remote file is fetched when downloads are on"),
    }
    match Provisioner::new(true).file_plan(&file) {
        FilePlan::SkipDownload(s) => assert_eq!(s.bucket_name, "assets"),
        _ => panic!("a remote file is skipped when downloads are off"),
    }
    let mut local = remote_file("/etc/db.yaml");
    local.template = Some("db.yaml.tmpl".to_string());
    match Provisioner::new(true).file_plan(&local) {
        FilePlan::RenderLocal(t) => assert_eq!(t, "db.yaml.tmpl"),
        _ => panic!("a local template is always rendered"),
    }
}

#[test]
fn templates_render_against_their_context() {
    let ctx = vec![
        ("greeting".to_string(), VarEntry::Value(VarValue::Str("hello".to_string()))),
        (
            "vars".to_string(),
            VarEntry::Table(vec![("size".to_string(), VarValue::Str("small".to_string()))]),
        ),
    ];
    let rendered =
        render_file_template("db.tmpl", "{{ greeting }}: {{ vars.size }}", &ctx).expect("renders");
    assert_eq!(rendered, "hello: small");
}

#[test]
fn scalar_values_render_by_kind() {
    let ctx = vec![
        ("count".to_string(), VarEntry::Value(VarValue::Int(5))),
        ("debug".to_string(), VarEntry::Value(VarValue::Bool(true))),
        ("label".to_string(), VarEntry::Value(VarValue::Str("db".to_string()))),
    ];
    let rendered = render_file_template(
        "t",
        "{{ count }}/{{ debug }}/{{ label }}",
        &ctx,
    )
    .expect("renders");
    assert_eq!(rendered, "5/true/db");
}

#[test]
fn template_failure_names_the_template() {
    match render_file_template("db.tmpl", "{% endfor %}", &Vec::new()) {
        Err(ApplyError::TeraTemplateError((name, _))) => assert_eq!(name, "db.tmpl"),
        other => panic!("expected a template error, got {:?}", other),
    }
}

#[test]
fn scripts_are_gated_by_their_test_command() {
    let script = Script {
        name: "install-rustup".to_string(),
        test: "command -v rustup".to_string(),
        cmd: "curl https://sh.rustup.rs | sh".to_string(),
        privileged: false,
    };
    let test_cmd = script_test_command(&script);
    assert_eq!(test_cmd.name, "bash");
    assert_eq!(test_cmd.args, vec!["-c".to_string(), "command -v rustup".to_string()]);
    assert!(!test_cmd.privileged);
    let apply_cmd = script_apply_command(&script);
    assert_eq!(apply_cmd.name, "bash");
    assert_eq!(apply_cmd.args, vec!["-c".to_string(), "curl https://sh.rustup.rs | sh".to_string()]);
    assert!(apply_cmd.privileged);
    assert!(!script_must_apply(true));
    assert!(script_must_apply(false));
}

#[test]
fn startup_requires_elevation_and_a_resolvable_identity() {
    match check_startup(1000, None, Some(1000), None, Some(1000)) {
        Err(ApplyError::Custom(m)) => assert_eq!(m, "compute apply requires root privileges"),
        other => panic!("unexpected {:?}", other),
    }
    match check_startup(0, None, None, None, Some(1000)) {
        Err(ApplyError::Custom(m)) => {
            assert_eq!(m, "either run compute apply with sudo or set the uid manually")
        },
        other => panic!("unexpected {:?}", other),
    }
    match check_startup(0, Some(1000), None, None, None) {
        Err(ApplyError::Custom(m)) => {
            assert_eq!(m, "either run compute apply with sudo or set the gid manually")
        },
        other => panic!("unexpected {:?}", other),
    }
    assert_eq!(check_startup(0, Some(500), Some(1000), None, Some(1000)).unwrap(), (500, 1000));
}

#[test]
fn error_descriptions() {
    let e = ApplyError::Custom("missing required var x for module db".to_string());
    assert_eq!(e.describe(), "unexpected error: missing required var x for module db");
}

#[test]
fn builtin_templates_expose_the_hostname() {
    assert_eq!(Template::NetworkingHostname.get_contents(), "{{hostname}}\n");
    assert!(Template::NetworkingHosts.get_contents().contains("127.0.1.1 {{hostname}}"));
}

/// The end-to-end scenario: a root config binds module `db` to
/// `{size:"small"}`; the module's schema requires `size`; its config
/// declares one file sourced from bucket `assets` at `conf/db.yaml`. The
/// bucket resolves, the fetched bytes are gated and written with the
/// declared ownership; a second identical apply performs no write.
#[test]
fn end_to_end_module_file_apply() {
    let bindings = vec![("size".to_string(), VarValue::Str("small".to_string()))];

    // the module document renders against the reserved `vars` key
    let rendered = render_module_document(
        "db",
        "{ \"module\": { \"name\": \"db\" }, \"size\": \"{{ vars.size }}\" }",
        bindings.clone(),
    )
    .expect("document renders");
    assert!(rendered.contains("\"size\": \"small\""));

    // its schema requires `size`, and the bindings satisfy it
    let module = Module {
        module: ModuleConfig {
            name: "db".to_string(),
            vars: vec![(
                "size".to_string(),
                VarDef { required: true, kind: "string".to_string() },
            )],
        },
        config: compute::config::Config {
            apt: compute::config::apt::Apt::empty(),
            app_image: compute::config::app_image::Config::empty(),
            files: vec![remote_file("/etc/db/conf/db.yaml")],
            scripts: Vec::new(),
            s3: compute::config::s3::Config { buckets: vec![assets_bucket()] },
            modules: Vec::new(),
        },
    };
    module.validate(&bindings).expect("bindings satisfy the schema");

    // the file resolves to its bucket, which is declared
    let file = &module.config.files[0];
    let plan = Provisioner::new(false).file_plan(file);
    let s3 = match plan {
        FilePlan::Fetch(s) => s,
        _ => panic!("the file is fetched"),
    };
    let bucket = find_bucket(&module.config.s3.buckets, &s3.bucket_name).expect("bucket declared");
    assert_eq!(bucket.name, "assets");

    // first apply: the destination is absent, so the bytes are written and
    // ownership applied
    let fetched = b"max_connections: 10\n".to_vec();
    let changed = materialize(&None, &fetched);
    assert!(changed);
    assert_eq!(post_write_steps(changed, file.owner, file.mode), (Some((1000, 1000)), None));

    // second apply: the destination holds the same bytes; nothing is
    // written and ownership is left alone
    let changed_again = materialize(&Some(fetched.clone()), &fetched);
    assert!(!changed_again);
    assert_eq!(post_write_steps(changed_again, file.owner, file.mode), (None, None));
}

/// Idempotence across resource kinds: against the state the first run
/// left behind, every gate reports nothing to do.
#[test]
fn second_run_performs_no_actions() {
    // files: the first write left the proposed bytes in place
    let bytes = b"contents".to_vec();
    assert!(materialize(&None, &bytes));
    assert!(!materialize(&Some(bytes.clone()), &bytes));

    // packages: the batched install registered every required name
    let registry_after =
        b"Package: foo\nStatus: install ok installed\n\nPackage: bar\nStatus: install ok installed\n"
            .to_vec();
    let required = vec!["foo".to_string(), "bar".to_string()];
    assert!(ensure_packages(&required, &registry_after).is_none());

    // bundles: the derived package name short-circuits the pipeline
    let app = App {
        name: "editor".to_string(),
        url: "https://example.net/editor.AppImage".to_string(),
        version: "1.0".to_string(),
    };
    let registry_with_app =
        b"Package: app-image-editor\nStatus: install ok installed\n".to_vec();
    assert_eq!(start(&app, &registry_with_app), AppImageStage::Done(false));

    // scripts: the applied script's test now succeeds
    assert!(!script_must_apply(true));
}
