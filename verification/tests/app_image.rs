//! The application-bundle pipeline and its membership short-circuit.

use compute::actions::app_image::{
    advance, build_command, bundle_filename, control_contents, extract_command, install_command,
    package_name, sanitize_deletes_entry, staging_name, start, work_dir, AppImageStage,
};
use compute::config::app_image::App;

fn editor() -> App {
    App {
        name: "editor".to_string(),
        url: "https://example.net/editor.AppImage".to_string(),
        version: "1.0".to_string(),
    }
}

#[test]
fn installed_bundle_short_circuits_the_pipeline() {
    let status = b"Package: app-image-editor\nStatus: install ok installed\n".to_vec();
    let stage = start(&editor(), &status);
    assert_eq!(stage, AppImageStage::Done(false));
    // whatever outcomes are fed in, a finished pipeline never moves again:
    // no download, extraction, build or install can be reached
    assert_eq!(advance(stage, true), AppImageStage::Done(false));
    assert_eq!(advance(stage, false), AppImageStage::Done(false));
}

#[test]
fn missing_bundle_runs_the_whole_pipeline() {
    let stage = start(&editor(), &Vec::new());
    assert_eq!(stage, AppImageStage::Fetch);
    let stage = advance(stage, true);
    assert_eq!(stage, AppImageStage::Extract);
    let stage = advance(stage, true);
    assert_eq!(stage, AppImageStage::Stage);
    let stage = advance(stage, true);
    assert_eq!(stage, AppImageStage::Sanitize);
    let stage = advance(stage, true);
    assert_eq!(stage, AppImageStage::Build);
    let stage = advance(stage, true);
    assert_eq!(stage, AppImageStage::Install);
    let stage = advance(stage, true);
    assert_eq!(stage, AppImageStage::Done(true));
}

#[test]
fn any_failure_is_terminal_with_no_rollback() {
    let stage = start(&editor(), &Vec::new());
    let stage = advance(stage, true);
    let failed = advance(stage, false);
    assert_eq!(failed, AppImageStage::Failed);
    assert_eq!(advance(failed, true), AppImageStage::Failed);
}

#[test]
fn derived_names_and_directories() {
    let app = editor();
    assert_eq!(package_name(&app), "app-image-editor");
    assert_eq!(staging_name(&app), "editor-1.0.0-1");
    assert_eq!(work_dir("/tmp", &app), "/tmp/compute/builds/editor");
    assert_eq!(
        bundle_filename("/tmp/compute/builds/editor", &app),
        "/tmp/compute/builds/editor/editor.AppImage"
    );
}

#[test]
fn control_stanza_is_written_verbatim() {
    assert_eq!(
        control_contents(&editor()),
        "Package: app-image-editor\nVersion: 1.0.0-1\nSection: base\nPriority: optional\nArchitecture: amd64\nMaintainer: compute\nDescription:\n  Auto-generated package from an AppImage binary\n"
    );
}

#[test]
fn pipeline_commands_are_exact() {
    let app = editor();
    let dir = "/tmp/compute/builds/editor".to_string();
    let extract = extract_command(&app, &dir);
    assert_eq!(extract.name, "sh");
    assert_eq!(
        extract.args,
        vec!["-c".to_string(), "./editor.AppImage --appimage-extract".to_string()]
    );
    assert!(!extract.privileged);
    assert_eq!(extract.cwd.as_deref(), Some("/tmp/compute/builds/editor"));

    let build = build_command(&app, &dir);
    assert_eq!(build.name, "dpkg-deb");
    assert_eq!(build.args, vec!["--build".to_string(), "editor-1.0.0-1".to_string()]);
    assert!(build.privileged);

    let install = install_command(&app, &dir);
    assert_eq!(install.name, "dpkg");
    assert_eq!(install.args, vec!["-i".to_string(), "editor-1.0.0-1.deb".to_string()]);
    assert!(install.privileged);
    assert!(install.inherit_output);
}

#[test]
fn sanitize_deletes_regular_files_only() {
    assert!(sanitize_deletes_entry(true));
    assert!(!sanitize_deletes_entry(false));
}
