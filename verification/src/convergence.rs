//! The convergence model of one apply, and the idempotence theorem.
//!
//! A host is modelled by what the idempotency gates consult: the bytes at
//! each managed destination, the set of installed package names, and the
//! set of scripts whose test currently succeeds. A resolved configuration
//! tree is modelled by what each node declares once its sources are
//! resolved: repository fragments, required packages, derived bundle
//! package names, script names, and file resources with their resolved
//! bytes. Applying the tree walks it exactly as the orchestrator does —
//! modules depth-first, then repositories, packages, bundles, scripts and
//! files per node — counting every mutating action and updating the host:
//! a write leaves the written bytes at the destination, a successful
//! install registers its names, a successfully applied script's test
//! succeeds afterwards.
//!
//! The theorem at the end is the idempotence of the whole apply: when the
//! declared writes agree on content wherever destinations coincide, a
//! second run of the same tree against the host the first run left behind
//! performs zero mutating actions and leaves the host as it was.

use vstd::prelude::*;
use crate::actions::apt::spec_repo_list_path;
use crate::actions::file::content_differs;

verus! {

/// The host, as the idempotency gates see it.
pub struct HostState {
    /// The bytes currently at each managed destination that exists.
    pub files: Map<Seq<char>, Seq<u8>>,
    /// The package names the registry reports as installed.
    pub packages: Set<Seq<u8>>,
    /// The script test commands that currently succeed.
    pub green: Set<Seq<char>>,
}

/// One declared repository: its name and its resolved source-list
/// fragment.
pub struct RepoModel {
    pub name: Seq<char>,
    pub content: Seq<u8>,
}

/// One declared file: its destination and its resolved bytes.
pub struct FileModel {
    pub path: Seq<char>,
    pub content: Seq<u8>,
}

/// One resolved configuration node: what each phase declares.
pub struct NodeModel {
    pub repos: Seq<RepoModel>,
    /// Required package names, as registry bytes.
    pub packages: Seq<Seq<u8>>,
    /// The derived package names of the declared bundles.
    pub apps: Seq<Seq<u8>>,
    /// The test commands of the declared scripts.
    pub scripts: Seq<Seq<char>>,
    pub files: Seq<FileModel>,
}

/// One resolved configuration tree: the modules a node composes, then the
/// node itself.
pub struct TreeModel {
    pub children: Seq<TreeModel>,
    pub node: NodeModel,
}

/// Where a repository's fragment is written.
pub open spec fn repo_path(r: RepoModel) -> Seq<char> {
    spec_repo_list_path(r.name)
}

/// The content-addressed gate of the file materializer, on the model: a
/// destination is converged when it exists and its checksum matches the
/// proposed bytes.
pub open spec fn file_converged(h: HostState, path: Seq<char>, content: Seq<u8>) -> bool {
    h.files.dom().contains(path) && !content_differs(Some(h.files[path]), content)
}

/// Materialize one file resource: a gated write, leaving the proposed
/// bytes at the destination exactly when a checksum difference was found.
pub open spec fn apply_file(h: HostState, f: FileModel) -> HostState {
    if file_converged(h, f.path, f.content) {
        h
    } else {
        HostState { files: h.files.insert(f.path, f.content), ..h }
    }
}

/// The mutating actions of one file resource: one write when the
/// checksums differ, none otherwise.
pub open spec fn file_actions(h: HostState, f: FileModel) -> nat {
    if file_converged(h, f.path, f.content) {
        0
    } else {
        1
    }
}

/// Converge one repository: its fragment is materialized under the same
/// gate as any file.
pub open spec fn apply_repo(h: HostState, r: RepoModel) -> HostState {
    apply_file(h, FileModel { path: repo_path(r), content: r.content })
}

/// The mutating actions of one repository: the fragment write and the
/// coupled signing-key store when the fragment changed, nothing
/// otherwise — a rotated key behind an unchanged fragment is not
/// refreshed.
pub open spec fn repo_actions(h: HostState, r: RepoModel) -> nat {
    if file_converged(h, repo_path(r), r.content) {
        0
    } else {
        2
    }
}

/// The required names the registry does not yet report as installed.
pub open spec fn missing_names(h: HostState, required: Seq<Seq<u8>>) -> Seq<Seq<u8>>
    decreases required.len(),
{
    if required.len() == 0 {
        Seq::empty()
    } else {
        let rest = missing_names(h, required.drop_last());
        if h.packages.contains(required.last()) {
            rest
        } else {
            rest.push(required.last())
        }
    }
}

/// The package phase is converged exactly when every required name is
/// registered.
pub proof fn lemma_missing_names_empty(h: HostState, required: Seq<Seq<u8>>)
    ensures
        missing_names(h, required).len() == 0 <==> (forall|k: int|
            0 <= k < required.len() ==> h.packages.contains(#[trigger] required[k])),
    decreases required.len(),
{
    if required.len() > 0 {
        lemma_missing_names_empty(h, required.drop_last());
        if missing_names(h, required).len() == 0 {
            assert forall|k: int|
                0 <= k < required.len() implies h.packages.contains(
                #[trigger] required[k],
            ) by {
                if k < required.len() - 1 {
                    assert(required.drop_last()[k] == required[k]);
                }
            }
        } else {
            if forall|k: int| 0 <= k < required.len() ==> h.packages.contains(
                #[trigger] required[k],
            ) {
                assert(h.packages.contains(required.last()));
                assert(forall|k: int|
                    0 <= k < required.drop_last().len() ==> h.packages.contains(
                        #[trigger] required.drop_last()[k],
                    ));
            }
        }
    }
}

/// Converge the package phase: when anything is missing, one batched
/// install registers every required name; when nothing is, the registry
/// is left untouched.
pub open spec fn apply_packages(h: HostState, required: Seq<Seq<u8>>) -> HostState {
    if missing_names(h, required).len() == 0 {
        h
    } else {
        HostState { packages: h.packages.union(required.to_set()), ..h }
    }
}

/// The mutating actions of the package phase: the index refresh and the
/// batched install when anything is missing, none otherwise.
pub open spec fn packages_actions(h: HostState, required: Seq<Seq<u8>>) -> nat {
    if missing_names(h, required).len() == 0 {
        0
    } else {
        2
    }
}

/// Converge one bundle, identified by its derived package name: the
/// membership gate short-circuits an installed bundle before any
/// download; otherwise the pipeline runs and registers the name.
pub open spec fn apply_app(h: HostState, derived: Seq<u8>) -> HostState {
    if h.packages.contains(derived) {
        h
    } else {
        HostState { packages: h.packages.insert(derived), ..h }
    }
}

/// The mutating actions of one bundle: none when its derived package name
/// is registered; otherwise the six pipeline stages that touch the host —
/// fetch, extract, stage, sanitize, build, install.
pub open spec fn app_actions(h: HostState, derived: Seq<u8>) -> nat {
    if h.packages.contains(derived) {
        0
    } else {
        6
    }
}

/// Converge one script, identified by its test command: nothing when the
/// test succeeds; otherwise the script's apply command runs and — the
/// first run having succeeded — the test succeeds afterwards.
pub open spec fn apply_script(h: HostState, test: Seq<char>) -> HostState {
    if h.green.contains(test) {
        h
    } else {
        HostState { green: h.green.insert(test), ..h }
    }
}

/// The mutating actions of one script: its apply command, run exactly
/// when its test fails.
pub open spec fn script_actions(h: HostState, test: Seq<char>) -> nat {
    if h.green.contains(test) {
        0
    } else {
        1
    }
}

/// Converge the repositories of one node, in declaration order.
pub open spec fn apply_repos(h: HostState, rs: Seq<RepoModel>) -> HostState
    decreases rs.len(),
{
    if rs.len() == 0 {
        h
    } else {
        apply_repos(apply_repo(h, rs[0]), rs.drop_first())
    }
}

/// The mutating actions of the repository phase.
pub open spec fn repos_actions(h: HostState, rs: Seq<RepoModel>) -> nat
    decreases rs.len(),
{
    if rs.len() == 0 {
        0
    } else {
        repo_actions(h, rs[0]) + repos_actions(apply_repo(h, rs[0]), rs.drop_first())
    }
}

/// Converge the bundles of one node, in declaration order.
pub open spec fn apply_apps(h: HostState, ds: Seq<Seq<u8>>) -> HostState
    decreases ds.len(),
{
    if ds.len() == 0 {
        h
    } else {
        apply_apps(apply_app(h, ds[0]), ds.drop_first())
    }
}

/// The mutating actions of the bundle phase.
pub open spec fn apps_actions(h: HostState, ds: Seq<Seq<u8>>) -> nat
    decreases ds.len(),
{
    if ds.len() == 0 {
        0
    } else {
        app_actions(h, ds[0]) + apps_actions(apply_app(h, ds[0]), ds.drop_first())
    }
}

/// Converge the scripts of one node, in declaration order.
pub open spec fn apply_scripts(h: HostState, ss: Seq<Seq<char>>) -> HostState
    decreases ss.len(),
{
    if ss.len() == 0 {
        h
    } else {
        apply_scripts(apply_script(h, ss[0]), ss.drop_first())
    }
}

/// The mutating actions of the script phase.
pub open spec fn scripts_actions(h: HostState, ss: Seq<Seq<char>>) -> nat
    decreases ss.len(),
{
    if ss.len() == 0 {
        0
    } else {
        script_actions(h, ss[0]) + scripts_actions(apply_script(h, ss[0]), ss.drop_first())
    }
}

/// Converge the files of one node, in declaration order.
pub open spec fn apply_files(h: HostState, fs: Seq<FileModel>) -> HostState
    decreases fs.len(),
{
    if fs.len() == 0 {
        h
    } else {
        apply_files(apply_file(h, fs[0]), fs.drop_first())
    }
}

/// The mutating actions of the file phase.
pub open spec fn files_actions(h: HostState, fs: Seq<FileModel>) -> nat
    decreases fs.len(),
{
    if fs.len() == 0 {
        0
    } else {
        file_actions(h, fs[0]) + files_actions(apply_file(h, fs[0]), fs.drop_first())
    }
}

/// Converge one node: the fixed phase order — repositories, packages,
/// bundles, scripts, files.
pub open spec fn apply_node(h: HostState, n: NodeModel) -> HostState {
    apply_files(
        apply_scripts(
            apply_apps(apply_packages(apply_repos(h, n.repos), n.packages), n.apps),
            n.scripts,
        ),
        n.files,
    )
}

/// The mutating actions of one node, phase by phase in the fixed order.
pub open spec fn node_actions(h: HostState, n: NodeModel) -> nat {
    let h1 = apply_repos(h, n.repos);
    let h2 = apply_packages(h1, n.packages);
    let h3 = apply_apps(h2, n.apps);
    let h4 = apply_scripts(h3, n.scripts);
    repos_actions(h, n.repos) + packages_actions(h1, n.packages) + apps_actions(h2, n.apps)
        + scripts_actions(h3, n.scripts) + files_actions(h4, n.files)
}

/// Converge one tree: its modules depth-first, then its own node.
pub open spec fn apply_tree(h: HostState, t: TreeModel) -> HostState
    decreases t, 0int,
{
    apply_node(apply_forest(h, t.children, 0), t.node)
}

/// Converge the children of a node from position `i` on, in declaration
/// order.
pub open spec fn apply_forest(h: HostState, ts: Seq<TreeModel>, i: int) -> HostState
    decreases ts, ts.len() - i + 1,
{
    if i < 0 || i >= ts.len() {
        h
    } else {
        apply_forest(apply_tree(h, ts[i]), ts, i + 1)
    }
}

/// The mutating actions of one whole tree.
pub open spec fn tree_actions(h: HostState, t: TreeModel) -> nat
    decreases t, 0int,
{
    forest_actions(h, t.children, 0) + node_actions(apply_forest(h, t.children, 0), t.node)
}

/// The mutating actions of the children from position `i` on.
pub open spec fn forest_actions(h: HostState, ts: Seq<TreeModel>, i: int) -> nat
    decreases ts, ts.len() - i + 1,
{
    if i < 0 || i >= ts.len() {
        0
    } else {
        tree_actions(h, ts[i]) + forest_actions(apply_tree(h, ts[i]), ts, i + 1)
    }
}

/// Every resource of the node is already converged on the host: every
/// fragment and file carries its declared bytes, every required and
/// derived package name is registered, every script's test succeeds.
pub open spec fn node_converged(h: HostState, n: NodeModel) -> bool {
    &&& forall|k: int|
        0 <= k < n.repos.len() ==> file_converged(
            h,
            repo_path(#[trigger] n.repos[k]),
            n.repos[k].content,
        )
    &&& forall|k: int| 0 <= k < n.packages.len() ==> h.packages.contains(#[trigger] n.packages[k])
    &&& forall|k: int| 0 <= k < n.apps.len() ==> h.packages.contains(#[trigger] n.apps[k])
    &&& forall|k: int| 0 <= k < n.scripts.len() ==> h.green.contains(#[trigger] n.scripts[k])
    &&& forall|k: int|
        0 <= k < n.files.len() ==> file_converged(
            h,
            (#[trigger] n.files[k]).path,
            n.files[k].content,
        )
}

/// Every resource of the whole tree is already converged on the host.
pub open spec fn tree_converged(h: HostState, t: TreeModel) -> bool
    decreases t, 0int,
{
    node_converged(h, t.node) && forest_converged(h, t.children, 0)
}

/// Every resource of the children from position `i` on is converged.
pub open spec fn forest_converged(h: HostState, ts: Seq<TreeModel>, i: int) -> bool
    decreases ts, ts.len() - i + 1,
{
    if i < 0 || i >= ts.len() {
        true
    } else {
        tree_converged(h, ts[i]) && forest_converged(h, ts, i + 1)
    }
}

/// What one repository materializes, as a file resource.
pub open spec fn repo_write(r: RepoModel) -> FileModel {
    FileModel { path: repo_path(r), content: r.content }
}

/// What a repository phase writes.
pub open spec fn repos_writes(rs: Seq<RepoModel>) -> Seq<FileModel> {
    rs.map_values(|r: RepoModel| repo_write(r))
}

/// What one node writes: its repository fragments, then its declared
/// files, in phase order.
pub open spec fn node_writes(n: NodeModel) -> Seq<FileModel> {
    repos_writes(n.repos) + n.files
}

/// What one whole tree writes: its modules' writes first, then its own
/// node's.
pub open spec fn tree_writes(t: TreeModel) -> Seq<FileModel>
    decreases t, 0int,
{
    forest_writes(t.children, 0) + node_writes(t.node)
}

/// What the children from position `i` on write.
pub open spec fn forest_writes(ts: Seq<TreeModel>, i: int) -> Seq<FileModel>
    decreases ts, ts.len() - i + 1,
{
    if i < 0 || i >= ts.len() {
        Seq::empty()
    } else {
        tree_writes(ts[i]) + forest_writes(ts, i + 1)
    }
}

/// The writes agree on content: any two that share a destination declare
/// the same bytes. A file resource's identity is its destination path and
/// a repository's its name, so a well-formed configuration — one content
/// per declared identity — satisfies this.
pub open spec fn compatible(ws: Seq<FileModel>) -> bool {
    forall|i: int, j: int|
        0 <= i < ws.len() && 0 <= j < ws.len() && (#[trigger] ws[i]).path == (
        #[trigger] ws[j]).path ==> ws[i].content == ws[j].content
}

/// The writes of `a` and of `b` declare the same bytes wherever their
/// destinations meet.
pub open spec fn agree(a: Seq<FileModel>, b: Seq<FileModel>) -> bool {
    forall|i: int, j: int|
        0 <= i < a.len() && 0 <= j < b.len() && (#[trigger] a[i]).path == (#[trigger] b[j]).path
            ==> a[i].content == b[j].content
}

/// Compatibility of a concatenation gives compatibility of, and agreement
/// between, its halves.
proof fn lemma_compatible_split(a: Seq<FileModel>, b: Seq<FileModel>)
    requires
        compatible(a + b),
    ensures
        compatible(a),
        compatible(b),
        agree(a, b),
        agree(b, a),
{
    assert forall|i: int, j: int|
        0 <= i < a.len() && 0 <= j < a.len() && (#[trigger] a[i]).path == (
        #[trigger] a[j]).path implies a[i].content == a[j].content by {
        assert((a + b)[i] == a[i] && (a + b)[j] == a[j]);
    }
    assert forall|i: int, j: int|
        0 <= i < b.len() && 0 <= j < b.len() && (#[trigger] b[i]).path == (
        #[trigger] b[j]).path implies b[i].content == b[j].content by {
        assert((a + b)[a.len() + i] == b[i] && (a + b)[a.len() + j] == b[j]);
    }
    assert forall|i: int, j: int|
        0 <= i < a.len() && 0 <= j < b.len() && (#[trigger] a[i]).path == (
        #[trigger] b[j]).path implies a[i].content == b[j].content by {
        assert((a + b)[i] == a[i] && (a + b)[a.len() + j] == b[j]);
    }
    assert forall|i: int, j: int|
        0 <= i < b.len() && 0 <= j < a.len() && (#[trigger] b[i]).path == (
        #[trigger] a[j]).path implies b[i].content == a[j].content by {
        assert((a + b)[a.len() + i] == b[i] && (a + b)[j] == a[j]);
    }
}

/// What agrees with a concatenation agrees with both halves.
proof fn lemma_agree_split(t: Seq<FileModel>, a: Seq<FileModel>, b: Seq<FileModel>)
    requires
        agree(t, a + b),
    ensures
        agree(t, a),
        agree(t, b),
{
    assert forall|i: int, j: int|
        0 <= i < t.len() && 0 <= j < a.len() && (#[trigger] t[i]).path == (
        #[trigger] a[j]).path implies t[i].content == a[j].content by {
        assert((a + b)[j] == a[j]);
    }
    assert forall|i: int, j: int|
        0 <= i < t.len() && 0 <= j < b.len() && (#[trigger] t[i]).path == (
        #[trigger] b[j]).path implies t[i].content == b[j].content by {
        assert((a + b)[a.len() + j] == b[j]);
    }
}

/// A converged file phase is left untouched.
proof fn lemma_converged_files(h: HostState, fs: Seq<FileModel>)
    requires
        forall|k: int|
            0 <= k < fs.len() ==> file_converged(h, (#[trigger] fs[k]).path, fs[k].content),
    ensures
        apply_files(h, fs) == h,
        files_actions(h, fs) == 0,
    decreases fs.len(),
{
    if fs.len() > 0 {
        assert(file_converged(h, fs[0].path, fs[0].content));
        assert(forall|k: int|
            0 <= k < fs.drop_first().len() ==> file_converged(
                h,
                (#[trigger] fs.drop_first()[k]).path,
                fs.drop_first()[k].content,
            ));
        lemma_converged_files(h, fs.drop_first());
    }
}

/// A converged repository phase is left untouched.
proof fn lemma_converged_repos(h: HostState, rs: Seq<RepoModel>)
    requires
        forall|k: int|
            0 <= k < rs.len() ==> file_converged(h, repo_path(#[trigger] rs[k]), rs[k].content),
    ensures
        apply_repos(h, rs) == h,
        repos_actions(h, rs) == 0,
    decreases rs.len(),
{
    if rs.len() > 0 {
        assert(forall|k: int|
            0 <= k < rs.drop_first().len() ==> file_converged(
                h,
                repo_path(#[trigger] rs.drop_first()[k]),
                rs.drop_first()[k].content,
            ));
        lemma_converged_repos(h, rs.drop_first());
    }
}

/// A converged package phase is left untouched: nothing is missing, so no
/// refresh and no install is issued.
proof fn lemma_converged_packages(h: HostState, required: Seq<Seq<u8>>)
    requires
        forall|k: int| 0 <= k < required.len() ==> h.packages.contains(#[trigger] required[k]),
    ensures
        apply_packages(h, required) == h,
        packages_actions(h, required) == 0,
{
    lemma_missing_names_empty(h, required);
}

/// A converged bundle phase is left untouched.
proof fn lemma_converged_apps(h: HostState, ds: Seq<Seq<u8>>)
    requires
        forall|k: int| 0 <= k < ds.len() ==> h.packages.contains(#[trigger] ds[k]),
    ensures
        apply_apps(h, ds) == h,
        apps_actions(h, ds) == 0,
    decreases ds.len(),
{
    if ds.len() > 0 {
        assert(forall|k: int|
            0 <= k < ds.drop_first().len() ==> h.packages.contains(#[trigger] ds.drop_first()[k]));
        lemma_converged_apps(h, ds.drop_first());
    }
}

/// A converged script phase is left untouched.
proof fn lemma_converged_scripts(h: HostState, ss: Seq<Seq<char>>)
    requires
        forall|k: int| 0 <= k < ss.len() ==> h.green.contains(#[trigger] ss[k]),
    ensures
        apply_scripts(h, ss) == h,
        scripts_actions(h, ss) == 0,
    decreases ss.len(),
{
    if ss.len() > 0 {
        assert(forall|k: int|
            0 <= k < ss.drop_first().len() ==> h.green.contains(#[trigger] ss.drop_first()[k]));
        lemma_converged_scripts(h, ss.drop_first());
    }
}

/// A converged node is left untouched: every phase's gate reports nothing
/// to do.
proof fn lemma_converged_node(h: HostState, n: NodeModel)
    requires
        node_converged(h, n),
    ensures
        apply_node(h, n) == h,
        node_actions(h, n) == 0,
{
    lemma_converged_repos(h, n.repos);
    lemma_converged_packages(h, n.packages);
    lemma_converged_apps(h, n.apps);
    lemma_converged_scripts(h, n.scripts);
    lemma_converged_files(h, n.files);
}

/// A converged tree is left untouched: the second run of an apply whose
/// resources are all converged performs zero mutating actions, on every
/// resource kind.
pub proof fn lemma_converged_tree(h: HostState, t: TreeModel)
    ensures
        tree_converged(h, t) ==> apply_tree(h, t) == h && tree_actions(h, t) == 0,
    decreases t, 0int,
{
    if tree_converged(h, t) {
        lemma_converged_forest(h, t.children, 0);
        lemma_converged_node(h, t.node);
    }
}

/// Converged children are left untouched.
proof fn lemma_converged_forest(h: HostState, ts: Seq<TreeModel>, i: int)
    requires
        forest_converged(h, ts, i),
    ensures
        apply_forest(h, ts, i) == h,
        forest_actions(h, ts, i) == 0,
    decreases ts, ts.len() - i + 1,
{
    if 0 <= i < ts.len() {
        lemma_converged_tree(h, ts[i]);
        lemma_converged_forest(h, ts, i + 1);
    }
}

/// Destination `p` holds the same bytes (or is equally absent) in both
/// states.
pub open spec fn files_same_at(a: HostState, b: HostState, p: Seq<char>) -> bool {
    &&& a.files.dom().contains(p) == b.files.dom().contains(p)
    &&& (a.files.dom().contains(p) ==> a.files[p] == b.files[p])
}

/// Destination `p` holds bytes that one of the writes declares for it.
pub open spec fn holds_declared(b: HostState, ws: Seq<FileModel>, p: Seq<char>) -> bool {
    exists|k: int|
        0 <= k < ws.len() && (#[trigger] ws[k]).path == p && b.files.dom().contains(p)
            && b.files[p] == ws[k].content
}

/// How one apply may move the host: registered packages and green scripts
/// only grow, and every destination either keeps its bytes or holds bytes
/// the apply's writes declare for it.
pub open spec fn advances(a: HostState, b: HostState, ws: Seq<FileModel>) -> bool {
    &&& a.packages.subset_of(b.packages)
    &&& a.green.subset_of(b.green)
    &&& forall|p: Seq<char>| #[trigger] files_same_at(a, b, p) || holds_declared(b, ws, p)
}

/// Two applies in sequence advance by all the writes of both.
proof fn lemma_advances_trans(
    a: HostState,
    b: HostState,
    c: HostState,
    w1: Seq<FileModel>,
    w2: Seq<FileModel>,
)
    requires
        advances(a, b, w1),
        advances(b, c, w2),
    ensures
        advances(a, c, w1 + w2),
{
    assert forall|p: Seq<char>| #[trigger] files_same_at(a, c, p) || holds_declared(
        c,
        w1 + w2,
        p,
    ) by {
        assert(files_same_at(a, b, p) || holds_declared(b, w1, p));
        assert(files_same_at(b, c, p) || holds_declared(c, w2, p));
        if holds_declared(c, w2, p) {
            let k = choose|k: int|
                0 <= k < w2.len() && (#[trigger] w2[k]).path == p && c.files.dom().contains(p)
                    && c.files[p] == w2[k].content;
            assert((w1 + w2)[w1.len() + k] == w2[k]);
            assert(holds_declared(c, w1 + w2, p));
        } else if holds_declared(b, w1, p) {
            let k = choose|k: int|
                0 <= k < w1.len() && (#[trigger] w1[k]).path == p && b.files.dom().contains(p)
                    && b.files[p] == w1[k].content;
            assert((w1 + w2)[k] == w1[k]);
            assert(files_same_at(b, c, p));
            assert(holds_declared(c, w1 + w2, p));
        } else {
            assert(files_same_at(a, c, p));
        }
    }
}

proof fn lemma_advances_file(h: HostState, f: FileModel)
    ensures
        advances(h, apply_file(h, f), seq![f]),
{
    assert forall|p: Seq<char>| #[trigger] files_same_at(h, apply_file(h, f), p)
        || holds_declared(apply_file(h, f), seq![f], p) by {
        if p == f.path && !file_converged(h, f.path, f.content) {
            assert(seq![f][0] == f);
            assert(holds_declared(apply_file(h, f), seq![f], p));
        } else {
            assert(files_same_at(h, apply_file(h, f), p));
        }
    }
}

proof fn lemma_advances_files(h: HostState, fs: Seq<FileModel>)
    ensures
        advances(h, apply_files(h, fs), fs),
    decreases fs.len(),
{
    if fs.len() == 0 {
        assert forall|p: Seq<char>| #[trigger] files_same_at(h, apply_files(h, fs), p)
            || holds_declared(apply_files(h, fs), fs, p) by {
            assert(files_same_at(h, h, p));
        }
    } else {
        let h1 = apply_file(h, fs[0]);
        lemma_advances_file(h, fs[0]);
        lemma_advances_files(h1, fs.drop_first());
        lemma_advances_trans(h, h1, apply_files(h1, fs.drop_first()), seq![fs[0]], fs.drop_first());
        assert(seq![fs[0]] + fs.drop_first() =~= fs);
    }
}

/// The repository phase is the file phase of its fragments.
proof fn lemma_repos_as_files(h: HostState, rs: Seq<RepoModel>)
    ensures
        apply_repos(h, rs) == apply_files(h, repos_writes(rs)),
    decreases rs.len(),
{
    if rs.len() > 0 {
        assert(repos_writes(rs)[0] == repo_write(rs[0]));
        assert(repos_writes(rs).drop_first() =~= repos_writes(rs.drop_first()));
        lemma_repos_as_files(apply_repo(h, rs[0]), rs.drop_first());
    }
}

proof fn lemma_advances_packages(h: HostState, required: Seq<Seq<u8>>)
    ensures
        advances(h, apply_packages(h, required), Seq::empty()),
{
    assert forall|p: Seq<char>| #[trigger] files_same_at(h, apply_packages(h, required), p)
        || holds_declared(apply_packages(h, required), Seq::empty(), p) by {
        assert(files_same_at(h, apply_packages(h, required), p));
    }
}

proof fn lemma_advances_apps(h: HostState, ds: Seq<Seq<u8>>)
    ensures
        advances(h, apply_apps(h, ds), Seq::empty()),
    decreases ds.len(),
{
    assert forall|p: Seq<char>| #[trigger] files_same_at(h, apply_apps(h, ds), p)
        || holds_declared(apply_apps(h, ds), Seq::empty(), p) by {
        lemma_apps_keep_files(h, ds, p);
    }
    lemma_apps_grow_packages(h, ds);
}

proof fn lemma_apps_keep_files(h: HostState, ds: Seq<Seq<u8>>, p: Seq<char>)
    ensures
        files_same_at(h, apply_apps(h, ds), p),
    decreases ds.len(),
{
    if ds.len() > 0 {
        lemma_apps_keep_files(apply_app(h, ds[0]), ds.drop_first(), p);
    }
}

proof fn lemma_apps_grow_packages(h: HostState, ds: Seq<Seq<u8>>)
    ensures
        h.packages.subset_of(apply_apps(h, ds).packages),
        h.green.subset_of(apply_apps(h, ds).green),
    decreases ds.len(),
{
    if ds.len() > 0 {
        lemma_apps_grow_packages(apply_app(h, ds[0]), ds.drop_first());
    }
}

proof fn lemma_advances_scripts(h: HostState, ss: Seq<Seq<char>>)
    ensures
        advances(h, apply_scripts(h, ss), Seq::empty()),
    decreases ss.len(),
{
    assert forall|p: Seq<char>| #[trigger] files_same_at(h, apply_scripts(h, ss), p)
        || holds_declared(apply_scripts(h, ss), Seq::empty(), p) by {
        lemma_scripts_keep_files(h, ss, p);
    }
    lemma_scripts_grow_green(h, ss);
}

proof fn lemma_scripts_keep_files(h: HostState, ss: Seq<Seq<char>>, p: Seq<char>)
    ensures
        files_same_at(h, apply_scripts(h, ss), p),
    decreases ss.len(),
{
    if ss.len() > 0 {
        lemma_scripts_keep_files(apply_script(h, ss[0]), ss.drop_first(), p);
    }
}

proof fn lemma_scripts_grow_green(h: HostState, ss: Seq<Seq<char>>)
    ensures
        h.packages.subset_of(apply_scripts(h, ss).packages),
        h.green.subset_of(apply_scripts(h, ss).green),
    decreases ss.len(),
{
    if ss.len() > 0 {
        lemma_scripts_grow_green(apply_script(h, ss[0]), ss.drop_first());
    }
}

/// One node's apply advances by exactly the node's writes.
proof fn lemma_advances_node(h: HostState, n: NodeModel)
    ensures
        advances(h, apply_node(h, n), node_writes(n)),
{
    let h1 = apply_repos(h, n.repos);
    let h2 = apply_packages(h1, n.packages);
    let h3 = apply_apps(h2, n.apps);
    let h4 = apply_scripts(h3, n.scripts);
    lemma_repos_as_files(h, n.repos);
    lemma_advances_files(h, repos_writes(n.repos));
    lemma_advances_packages(h1, n.packages);
    lemma_advances_apps(h2, n.apps);
    lemma_advances_scripts(h3, n.scripts);
    lemma_advances_files(h4, n.files);
    lemma_advances_trans(h, h1, h2, repos_writes(n.repos), Seq::empty());
    lemma_advances_trans(h, h2, h3, repos_writes(n.repos) + Seq::empty(), Seq::empty());
    lemma_advances_trans(
        h,
        h3,
        h4,
        repos_writes(n.repos) + Seq::empty() + Seq::empty(),
        Seq::empty(),
    );
    lemma_advances_trans(
        h,
        h4,
        apply_files(h4, n.files),
        repos_writes(n.repos) + Seq::empty() + Seq::empty() + Seq::empty(),
        n.files,
    );
    assert(repos_writes(n.repos) + Seq::empty() + Seq::empty() + Seq::empty() + n.files
        =~= node_writes(n));
}

/// One tree's apply advances by exactly the tree's writes.
proof fn lemma_advances_tree(h: HostState, t: TreeModel)
    ensures
        advances(h, apply_tree(h, t), tree_writes(t)),
    decreases t, 0int,
{
    let h1 = apply_forest(h, t.children, 0);
    lemma_advances_forest(h, t.children, 0);
    lemma_advances_node(h1, t.node);
    lemma_advances_trans(
        h,
        h1,
        apply_node(h1, t.node),
        forest_writes(t.children, 0),
        node_writes(t.node),
    );
}

/// The children's applies advance by exactly the children's writes.
proof fn lemma_advances_forest(h: HostState, ts: Seq<TreeModel>, i: int)
    ensures
        advances(h, apply_forest(h, ts, i), forest_writes(ts, i)),
    decreases ts, ts.len() - i + 1,
{
    if 0 <= i < ts.len() {
        let h1 = apply_tree(h, ts[i]);
        lemma_advances_tree(h, ts[i]);
        lemma_advances_forest(h1, ts, i + 1);
        lemma_advances_trans(
            h,
            h1,
            apply_forest(h1, ts, i + 1),
            tree_writes(ts[i]),
            forest_writes(ts, i + 1),
        );
    } else {
        assert forall|p: Seq<char>| #[trigger] files_same_at(h, apply_forest(h, ts, i), p)
            || holds_declared(apply_forest(h, ts, i), forest_writes(ts, i), p) by {
            assert(files_same_at(h, h, p));
        }
    }
}

/// A converged node stays converged under any apply that grows the
/// registries and whose writes agree with the node's own.
proof fn lemma_preserve_node(h: HostState, h2: HostState, n: NodeModel, ws: Seq<FileModel>)
    requires
        node_converged(h, n),
        advances(h, h2, ws),
        agree(ws, node_writes(n)),
    ensures
        node_converged(h2, n),
{
    assert forall|k: int| 0 <= k < n.repos.len() implies file_converged(
        h2,
        repo_path(#[trigger] n.repos[k]),
        n.repos[k].content,
    ) by {
        let p = repo_path(n.repos[k]);
        let c = n.repos[k].content;
        assert(repos_writes(n.repos)[k] == repo_write(n.repos[k]));
        assert(node_writes(n)[k] == repo_write(n.repos[k]));
        assert(files_same_at(h, h2, p) || holds_declared(h2, ws, p));
        if !files_same_at(h, h2, p) {
            let m = choose|m: int|
                0 <= m < ws.len() && (#[trigger] ws[m]).path == p && h2.files.dom().contains(p)
                    && h2.files[p] == ws[m].content;
            assert(ws[m].content == c);
        }
    }
    assert forall|k: int| 0 <= k < n.files.len() implies file_converged(
        h2,
        (#[trigger] n.files[k]).path,
        n.files[k].content,
    ) by {
        let p = n.files[k].path;
        let c = n.files[k].content;
        assert(node_writes(n)[repos_writes(n.repos).len() + k] == n.files[k]);
        assert(files_same_at(h, h2, p) || holds_declared(h2, ws, p));
        if !files_same_at(h, h2, p) {
            let m = choose|m: int|
                0 <= m < ws.len() && (#[trigger] ws[m]).path == p && h2.files.dom().contains(p)
                    && h2.files[p] == ws[m].content;
            assert(ws[m].content == c);
        }
    }
}

/// A converged tree stays converged under any apply that grows the
/// registries and whose writes agree with the tree's own.
proof fn lemma_preserve_tree(h: HostState, h2: HostState, t: TreeModel, ws: Seq<FileModel>)
    requires
        tree_converged(h, t),
        advances(h, h2, ws),
        agree(ws, tree_writes(t)),
    ensures
        tree_converged(h2, t),
    decreases t, 0int,
{
    lemma_agree_split(ws, forest_writes(t.children, 0), node_writes(t.node));
    lemma_preserve_node(h, h2, t.node, ws);
    lemma_preserve_forest(h, h2, t.children, 0, ws);
}

/// Converged children stay converged under such an apply.
proof fn lemma_preserve_forest(
    h: HostState,
    h2: HostState,
    ts: Seq<TreeModel>,
    i: int,
    ws: Seq<FileModel>,
)
    requires
        forest_converged(h, ts, i),
        advances(h, h2, ws),
        agree(ws, forest_writes(ts, i)),
    ensures
        forest_converged(h2, ts, i),
    decreases ts, ts.len() - i + 1,
{
    if 0 <= i < ts.len() {
        lemma_agree_split(ws, tree_writes(ts[i]), forest_writes(ts, i + 1));
        lemma_preserve_tree(h, h2, ts[i], ws);
        lemma_preserve_forest(h, h2, ts, i + 1, ws);
    }
}

/// After materializing, the destination holds the proposed bytes.
proof fn lemma_establish_file(h: HostState, f: FileModel)
    ensures
        file_converged(apply_file(h, f), f.path, f.content),
{
}

/// After the file phase, every declared destination is converged on its
/// declared bytes — provided the writes agree on content.
proof fn lemma_establish_files(h: HostState, fs: Seq<FileModel>)
    requires
        compatible(fs),
    ensures
        forall|k: int|
            0 <= k < fs.len() ==> file_converged(
                apply_files(h, fs),
                (#[trigger] fs[k]).path,
                fs[k].content,
            ),
    decreases fs.len(),
{
    if fs.len() > 0 {
        let h1 = apply_file(h, fs[0]);
        let rest = fs.drop_first();
        let hend = apply_files(h1, rest);
        lemma_establish_file(h, fs[0]);
        assert(compatible(rest)) by {
            assert forall|i: int, j: int|
                0 <= i < rest.len() && 0 <= j < rest.len() && (#[trigger] rest[i]).path == (
                #[trigger] rest[j]).path implies rest[i].content == rest[j].content by {
                assert(rest[i] == fs[i + 1] && rest[j] == fs[j + 1]);
            }
        }
        lemma_establish_files(h1, rest);
        lemma_advances_files(h1, rest);
        assert(file_converged(hend, fs[0].path, fs[0].content)) by {
            let p = fs[0].path;
            assert(files_same_at(h1, hend, p) || holds_declared(hend, rest, p));
            if !files_same_at(h1, hend, p) {
                let m = choose|m: int|
                    0 <= m < rest.len() && (#[trigger] rest[m]).path == p
                        && hend.files.dom().contains(p) && hend.files[p] == rest[m].content;
                assert(rest[m] == fs[m + 1]);
                assert(fs[m + 1].content == fs[0].content);
            }
        }
        assert forall|k: int| 0 <= k < fs.len() implies file_converged(
            apply_files(h, fs),
            (#[trigger] fs[k]).path,
            fs[k].content,
        ) by {
            if k > 0 {
                assert(rest[k - 1] == fs[k]);
            }
        }
    }
}

/// After the package phase, every required name is registered.
proof fn lemma_establish_packages(h: HostState, required: Seq<Seq<u8>>)
    ensures
        forall|k: int|
            0 <= k < required.len() ==> apply_packages(h, required).packages.contains(
                #[trigger] required[k],
            ),
{
    lemma_missing_names_empty(h, required);
    if missing_names(h, required).len() != 0 {
        assert forall|k: int|
            0 <= k < required.len() implies apply_packages(h, required).packages.contains(
            #[trigger] required[k],
        ) by {
            assert(required.contains(required[k]));
            assert(required.to_set().contains(required[k]));
        }
    }
}

/// After the bundle phase, every derived package name is registered.
proof fn lemma_establish_apps(h: HostState, ds: Seq<Seq<u8>>)
    ensures
        forall|k: int|
            0 <= k < ds.len() ==> apply_apps(h, ds).packages.contains(#[trigger] ds[k]),
    decreases ds.len(),
{
    if ds.len() > 0 {
        let h1 = apply_app(h, ds[0]);
        lemma_establish_apps(h1, ds.drop_first());
        lemma_apps_grow_packages(h1, ds.drop_first());
        assert forall|k: int| 0 <= k < ds.len() implies apply_apps(h, ds).packages.contains(
            #[trigger] ds[k],
        ) by {
            if k == 0 {
                assert(h1.packages.contains(ds[0]));
            } else {
                assert(ds.drop_first()[k - 1] == ds[k]);
            }
        }
    }
}

/// After the script phase, every script's test succeeds.
proof fn lemma_establish_scripts(h: HostState, ss: Seq<Seq<char>>)
    ensures
        forall|k: int| 0 <= k < ss.len() ==> apply_scripts(h, ss).green.contains(#[trigger] ss[k]),
    decreases ss.len(),
{
    if ss.len() > 0 {
        let h1 = apply_script(h, ss[0]);
        lemma_establish_scripts(h1, ss.drop_first());
        lemma_scripts_grow_green(h1, ss.drop_first());
        assert forall|k: int| 0 <= k < ss.len() implies apply_scripts(h, ss).green.contains(
            #[trigger] ss[k],
        ) by {
            if k == 0 {
                assert(h1.green.contains(ss[0]));
            } else {
                assert(ss.drop_first()[k - 1] == ss[k]);
            }
        }
    }
}

/// One node's apply converges the node — provided its writes agree on
/// content.
proof fn lemma_establish_node(h: HostState, n: NodeModel)
    requires
        compatible(node_writes(n)),
    ensures
        node_converged(apply_node(h, n), n),
{
    let h1 = apply_repos(h, n.repos);
    let h2 = apply_packages(h1, n.packages);
    let h3 = apply_apps(h2, n.apps);
    let h4 = apply_scripts(h3, n.scripts);
    let h5 = apply_files(h4, n.files);
    lemma_compatible_split(repos_writes(n.repos), n.files);
    lemma_repos_as_files(h, n.repos);
    lemma_establish_files(h, repos_writes(n.repos));
    lemma_advances_files(h4, n.files);
    // the fragments stay converged: the registry phases never touch files,
    // and the file phase writes nothing else at their destinations
    assert forall|k: int| 0 <= k < n.repos.len() implies file_converged(
        h5,
        repo_path(#[trigger] n.repos[k]),
        n.repos[k].content,
    ) by {
        let p = repo_path(n.repos[k]);
        let c = n.repos[k].content;
        assert(repos_writes(n.repos)[k] == repo_write(n.repos[k]));
        assert(file_converged(h1, p, c));
        lemma_apps_keep_files(h2, n.apps, p);
        lemma_scripts_keep_files(h3, n.scripts, p);
        assert(files_same_at(h1, h2, p));
        assert(file_converged(h4, p, c));
        assert(files_same_at(h4, h5, p) || holds_declared(h5, n.files, p));
        if !files_same_at(h4, h5, p) {
            let m = choose|m: int|
                0 <= m < n.files.len() && (#[trigger] n.files[m]).path == p
                    && h5.files.dom().contains(p) && h5.files[p] == n.files[m].content;
            assert(n.files[m].content == c);
        }
    }
    // every required and derived name is registered and stays registered;
    // every script's test succeeds
    lemma_establish_packages(h1, n.packages);
    lemma_establish_apps(h2, n.apps);
    lemma_establish_scripts(h3, n.scripts);
    lemma_establish_files(h4, n.files);
    lemma_apps_grow_packages(h2, n.apps);
    lemma_scripts_grow_green(h3, n.scripts);
    assert(h4.packages.subset_of(h5.packages) && h4.green.subset_of(h5.green));
}

/// One tree's apply converges the whole tree — provided its writes agree
/// on content.
proof fn lemma_establish_tree(h: HostState, t: TreeModel)
    requires
        compatible(tree_writes(t)),
    ensures
        tree_converged(apply_tree(h, t), t),
    decreases t, 0int,
{
    lemma_compatible_split(forest_writes(t.children, 0), node_writes(t.node));
    let h1 = apply_forest(h, t.children, 0);
    let h2 = apply_node(h1, t.node);
    lemma_establish_forest(h, t.children, 0);
    lemma_advances_node(h1, t.node);
    lemma_preserve_forest(h1, h2, t.children, 0, node_writes(t.node));
    lemma_establish_node(h1, t.node);
}

/// The children's applies converge every child.
proof fn lemma_establish_forest(h: HostState, ts: Seq<TreeModel>, i: int)
    requires
        compatible(forest_writes(ts, i)),
    ensures
        forest_converged(apply_forest(h, ts, i), ts, i),
    decreases ts, ts.len() - i + 1,
{
    if 0 <= i < ts.len() {
        lemma_compatible_split(tree_writes(ts[i]), forest_writes(ts, i + 1));
        let h1 = apply_tree(h, ts[i]);
        let h2 = apply_forest(h1, ts, i + 1);
        lemma_establish_tree(h, ts[i]);
        lemma_establish_forest(h1, ts, i + 1);
        lemma_advances_forest(h1, ts, i + 1);
        lemma_preserve_tree(h1, h2, ts[i], forest_writes(ts, i + 1));
    }
}

/// When the checksums differ, the write happens and the destination
/// holds exactly the proposed bytes afterwards.
pub proof fn lemma_changed_write_leaves_proposed(h: HostState, f: FileModel)
    requires
        file_actions(h, f) == 1,
    ensures
        apply_file(h, f).files.dom().contains(f.path),
        apply_file(h, f).files[f.path] == f.content,
{
}

/// The executable membership gate computes the model's missing subset:
/// against a registry whose installed set is the model's package set, the
/// names `missing_packages` returns are exactly the model's missing
/// names, taken as registry bytes and in the same order.
pub proof fn lemma_missing_subset_agrees(h: HostState, status: Seq<u8>, required: Seq<String>)
    requires
        h.packages == crate::actions::apt::installed_set(status),
    ensures
        crate::actions::apt::spec_missing(required, status).map_values(
            |s: String| crate::actions::apt::bytes_of(s@),
        ) == missing_names(h, required.map_values(|s: String| crate::actions::apt::bytes_of(s@))),
    decreases required.len(),
{
    let to_bytes = |s: String| crate::actions::apt::bytes_of(s@);
    if required.len() == 0 {
        assert(crate::actions::apt::spec_missing(required, status).map_values(to_bytes)
            =~= missing_names(h, required.map_values(to_bytes)));
    } else {
        lemma_missing_subset_agrees(h, status, required.drop_last());
        assert(required.map_values(to_bytes).drop_last() =~= required.drop_last().map_values(
            to_bytes,
        ));
        assert(required.map_values(to_bytes).last() == to_bytes(required.last()));
        if !h.packages.contains(to_bytes(required.last())) {
            assert(crate::actions::apt::spec_missing(required, status).map_values(to_bytes)
                =~= crate::actions::apt::spec_missing(required.drop_last(), status).map_values(
                to_bytes,
            ).push(to_bytes(required.last())));
        }
    }
}

/// **Idempotence of one apply.** When the writes declared across the
/// whole resolved tree agree on content — a file resource's identity is
/// its destination path and a repository's its name, so a well-formed
/// configuration, declaring one content per identity, always does —
/// applying the tree twice against the same host is the same as applying
/// it once: the second run performs zero mutating actions — no write, no
/// key store, no index refresh, no install, no pipeline stage, no script
/// apply — and leaves the host exactly as the first run left it. (The
/// first run is modelled as having succeeded: an installed package stays
/// registered and an applied script's test succeeds afterwards. Two
/// resources declaring different bytes for one destination would rewrite
/// each other on every run; agreement rules exactly that out.)
pub proof fn lemma_apply_idempotent(h: HostState, t: TreeModel)
    requires
        compatible(tree_writes(t)),
    ensures
        tree_actions(apply_tree(h, t), t) == 0,
        apply_tree(apply_tree(h, t), t) == apply_tree(h, t),
{
    lemma_establish_tree(h, t);
    lemma_converged_tree(apply_tree(h, t), t);
}

} // verus!
