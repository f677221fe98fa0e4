//! The application-bundle pipeline: a self-extracting bundle is converted
//! into a natively installable package through a fixed sequence of stages.
//! The derived package name gates the whole pipeline — once it is
//! registered as installed, no stage runs and nothing is downloaded — and
//! a failure at any stage is terminal for that resource, with no rollback:
//! the working directory is left in place for diagnosis.

use vstd::prelude::*;
use crate::actions::apt::{bytes_of, installed_in_status, installed_set};
use crate::actions::exec::CmdSpec;
use crate::config::app_image::App;

verus! {

/// The native package name derived from a bundle's name.
pub open spec fn spec_package_name(name: Seq<char>) -> Seq<char> {
    "app-image-"@ + name
}

/// Derive the native package name registered for a bundle.
pub fn package_name(app: &App) -> (r: String)
    ensures
        r@ == spec_package_name(app.name@),
{
    let mut r = String::from_str("app-image-");
    r.append(app.name.as_str());
    r
}

/// The name of the staging directory the extracted tree is renamed to.
pub open spec fn spec_staging_name(name: Seq<char>, version: Seq<char>) -> Seq<char> {
    name + "-"@ + version + ".0-1"@
}

/// The staging directory name for a bundle: `<name>-<version>.0-1`.
pub fn staging_name(app: &App) -> (r: String)
    ensures
        r@ == spec_staging_name(app.name@, app.version@),
{
    let mut r = app.name.clone();
    r.append("-");
    r.append(app.version.as_str());
    r.append(".0-1");
    r
}

/// The isolated working directory of one bundle's pipeline.
pub open spec fn spec_work_dir(tmp_root: Seq<char>, name: Seq<char>) -> Seq<char> {
    tmp_root + "/compute/builds/"@ + name
}

/// Where a bundle's pipeline works: `<tmp>/compute/builds/<name>`.
pub fn work_dir(tmp_root: &str, app: &App) -> (r: String)
    ensures
        r@ == spec_work_dir(tmp_root@, app.name@),
{
    let mut r = String::from_str(tmp_root);
    r.append("/compute/builds/");
    r.append(app.name.as_str());
    r
}

/// Where the downloaded bundle is written: `<workdir>/<name>.AppImage`.
pub fn bundle_filename(work_dir: &str, app: &App) -> (r: String)
    ensures
        r@ == work_dir@ + "/"@ + app.name@ + ".AppImage"@,
{
    let mut r = String::from_str(work_dir);
    r.append("/");
    r.append(app.name.as_str());
    r.append(".AppImage");
    r
}

/// The control-metadata stanza written verbatim for the staged package:
/// name, version, fixed architecture and maintainer fields.
pub open spec fn spec_control_contents(name: Seq<char>, version: Seq<char>) -> Seq<char> {
    "Package: app-image-"@ + name + "\nVersion: "@ + version
        + ".0-1\nSection: base\nPriority: optional\nArchitecture: amd64\nMaintainer: compute\nDescription:\n  Auto-generated package from an AppImage binary\n"@
}

/// Build the control-metadata file contents for a bundle.
pub fn control_contents(app: &App) -> (r: String)
    ensures
        r@ == spec_control_contents(app.name@, app.version@),
{
    let mut r = String::from_str("Package: app-image-");
    r.append(app.name.as_str());
    r.append("\nVersion: ");
    r.append(app.version.as_str());
    r.append(
        ".0-1\nSection: base\nPriority: optional\nArchitecture: amd64\nMaintainer: compute\nDescription:\n  Auto-generated package from an AppImage binary\n",
    );
    r
}

/// The command that invokes the bundle's self-extraction mode, run
/// unprivileged inside the working directory.
pub fn extract_command(app: &App, workdir: &String) -> (c: CmdSpec)
    ensures
        c.name@ == "sh"@,
        c.args@.len() == 2,
        c.args@[0]@ == "-c"@,
        c.args@[1]@ == "./"@ + app.name@ + ".AppImage --appimage-extract"@,
        c.privileged == false,
        c.inherit_output == false,
        c.cwd matches Some(d) && d@ == workdir@,
{
    let mut script = String::from_str("./");
    script.append(app.name.as_str());
    script.append(".AppImage --appimage-extract");
    let mut args: Vec<String> = Vec::new();
    args.push(String::from_str("-c"));
    args.push(script);
    CmdSpec {
        name: String::from_str("sh"),
        args,
        privileged: false,
        inherit_output: false,
        cwd: Some(workdir.clone()),
    }
}

/// The command that builds the native package from the staging directory.
pub fn build_command(app: &App, workdir: &String) -> (c: CmdSpec)
    ensures
        c.name@ == "dpkg-deb"@,
        c.args@.len() == 2,
        c.args@[0]@ == "--build"@,
        c.args@[1]@ == spec_staging_name(app.name@, app.version@),
        c.privileged == true,
        c.inherit_output == false,
        c.cwd matches Some(d) && d@ == workdir@,
{
    let mut args: Vec<String> = Vec::new();
    args.push(String::from_str("--build"));
    args.push(staging_name(app));
    CmdSpec {
        name: String::from_str("dpkg-deb"),
        args,
        privileged: true,
        inherit_output: false,
        cwd: Some(workdir.clone()),
    }
}

/// The command that installs the built package at elevated privilege. Its
/// output is surfaced to the operator, never suppressed, because install
/// failures must be diagnosable.
pub fn install_command(app: &App, workdir: &String) -> (c: CmdSpec)
    ensures
        c.name@ == "dpkg"@,
        c.args@.len() == 2,
        c.args@[0]@ == "-i"@,
        c.args@[1]@ == spec_staging_name(app.name@, app.version@) + ".deb"@,
        c.privileged == true,
        c.inherit_output == true,
        c.cwd matches Some(d) && d@ == workdir@,
{
    let mut args: Vec<String> = Vec::new();
    args.push(String::from_str("-i"));
    let mut deb = staging_name(app);
    deb.append(".deb");
    args.push(deb);
    CmdSpec {
        name: String::from_str("dpkg"),
        args,
        privileged: true,
        inherit_output: true,
        cwd: Some(workdir.clone()),
    }
}

/// During sanitizing, every regular file at the staging directory's top
/// level is deleted (bundle-specific launcher artifacts are assumed unsafe
/// to ship there); subdirectories are retained.
pub fn sanitize_deletes_entry(is_regular_file: bool) -> (delete: bool)
    ensures
        delete == is_regular_file,
{
    is_regular_file
}

/// The stages of one bundle's pipeline, in order. `Done(false)` means the
/// membership gate short-circuited the pipeline; `Done(true)` means the
/// package was built and installed.
#[derive(Debug, Clone, Copy, PartialEq, Eq, Structural)]
pub enum AppImageStage {
    CheckInstalled,
    Fetch,
    Extract,
    Stage,
    Sanitize,
    Build,
    Install,
    Done(bool),
    Failed,
}

/// Whether a stage ends the pipeline: nothing runs after it.
pub open spec fn is_terminal(s: AppImageStage) -> bool {
    s is Done || s is Failed
}

/// The stage that follows a successfully completed active stage.
pub open spec fn spec_next_stage(s: AppImageStage) -> AppImageStage {
    match s {
        AppImageStage::CheckInstalled => AppImageStage::Fetch,
        AppImageStage::Fetch => AppImageStage::Extract,
        AppImageStage::Extract => AppImageStage::Stage,
        AppImageStage::Stage => AppImageStage::Sanitize,
        AppImageStage::Sanitize => AppImageStage::Build,
        AppImageStage::Build => AppImageStage::Install,
        AppImageStage::Install => AppImageStage::Done(true),
        AppImageStage::Done(b) => AppImageStage::Done(b),
        AppImageStage::Failed => AppImageStage::Failed,
    }
}

/// Open one bundle's pipeline against the host's package registry: when
/// the derived package name is already registered as installed the
/// pipeline is over before anything is fetched; otherwise the first
/// mutating stage is next.
pub fn start(app: &App, status: &Vec<u8>) -> (s: AppImageStage)
    ensures
        installed_set(status@).contains(bytes_of(spec_package_name(app.name@)))
            ==> s == AppImageStage::Done(false),
        !installed_set(status@).contains(bytes_of(spec_package_name(app.name@)))
            ==> s == AppImageStage::Fetch,
{
    let pkg = package_name(app);
    if installed_in_status(status, pkg.as_str()) {
        AppImageStage::Done(false)
    } else {
        AppImageStage::Fetch
    }
}

/// Advance the pipeline after one stage ran: success moves to the next
/// stage in the fixed order, any failure is terminal for this resource
/// with no rollback, and a finished pipeline never moves again.
pub fn advance(s: AppImageStage, succeeded: bool) -> (n: AppImageStage)
    ensures
        n == spec_advance(s, succeeded),
        is_terminal(s) ==> n == s,
        !is_terminal(s) && !succeeded ==> n == AppImageStage::Failed,
        !is_terminal(s) && succeeded ==> n == spec_next_stage(s),
{
    match s {
        AppImageStage::Done(b) => AppImageStage::Done(b),
        AppImageStage::Failed => AppImageStage::Failed,
        _ => {
            if !succeeded {
                AppImageStage::Failed
            } else {
                match s {
                    AppImageStage::CheckInstalled => AppImageStage::Fetch,
                    AppImageStage::Fetch => AppImageStage::Extract,
                    AppImageStage::Extract => AppImageStage::Stage,
                    AppImageStage::Stage => AppImageStage::Sanitize,
                    AppImageStage::Sanitize => AppImageStage::Build,
                    AppImageStage::Build => AppImageStage::Install,
                    AppImageStage::Install => AppImageStage::Done(true),
                    AppImageStage::Done(b) => AppImageStage::Done(b),
                    AppImageStage::Failed => AppImageStage::Failed,
                }
            }
        },
    }
}

/// The membership gate short-circuits the whole pipeline: against a
/// registry that holds the derived package name, the opened pipeline is
/// already terminal, so no download, extraction, build or install stage
/// can ever be reached from it, whatever outcomes are fed in.
pub proof fn lemma_installed_short_circuits(s: AppImageStage, outcomes: Seq<bool>)
    requires
        is_terminal(s),
    ensures
        advance_all(s, outcomes) == s,
    decreases outcomes.len(),
{
    if outcomes.len() > 0 {
        lemma_installed_short_circuits(s, outcomes.drop_first());
    }
}

/// Where the pipeline stands after a sequence of stage outcomes.
pub open spec fn advance_all(s: AppImageStage, outcomes: Seq<bool>) -> AppImageStage
    decreases outcomes.len(),
{
    if outcomes.len() == 0 {
        s
    } else {
        advance_all(spec_advance(s, outcomes[0]), outcomes.drop_first())
    }
}

/// The transition `advance` implements.
pub open spec fn spec_advance(s: AppImageStage, succeeded: bool) -> AppImageStage {
    if is_terminal(s) {
        s
    } else if !succeeded {
        AppImageStage::Failed
    } else {
        spec_next_stage(s)
    }
}

} // verus!
