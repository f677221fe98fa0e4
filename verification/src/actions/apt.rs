//! The package phase: the membership-based idempotency gate over the
//! host's package registry, and the source-list and command lines the
//! phase materializes and runs.
//!
//! The registry is the host's package status database: a line-oriented
//! `Key: Value` record format grouped into blank-line-delimited stanzas,
//! of which only the `Package` and `Status` fields are consulted. A name
//! counts as installed when a `Status: install ok installed` line occurs
//! under it.

use vstd::prelude::*;
use crate::actions::exec::CmdSpec;
use crate::config::apt::AptRepository;

verus! {

/// The UTF-8 encoding of a character sequence, as `str::as_bytes` yields it.
pub open spec fn bytes_of(s: Seq<char>) -> Seq<u8> {
    vstd::utf8::encode_utf8(s)
}

/// The field prefix that introduces a record's package name.
pub open spec fn package_prefix() -> Seq<u8> {
    bytes_of("Package: "@)
}

/// The status line that marks the current record's package as installed.
pub open spec fn status_installed_line() -> Seq<u8> {
    bytes_of("Status: install ok installed"@)
}

/// Whether `l` begins with `p`.
pub open spec fn starts_with(l: Seq<u8>, p: Seq<u8>) -> bool {
    p.len() <= l.len() && l.subrange(0, p.len() as int) == p
}

/// The registry scan, one byte at a time from position `i`: `line` holds
/// the bytes of the current line read so far, `cur` the package name most
/// recently introduced. The result is the set of names the rest of the
/// registry reports as installed.
pub open spec fn installed_scan(s: Seq<u8>, i: int, line: Seq<u8>, cur: Seq<u8>) -> Set<Seq<u8>>
    decreases s.len() - i,
{
    if i < 0 || i >= s.len() {
        if line == status_installed_line() {
            Set::empty().insert(cur)
        } else {
            Set::empty()
        }
    } else if s[i] == 10 {
        let next_cur = if starts_with(line, package_prefix()) {
            line.skip(package_prefix().len() as int)
        } else {
            cur
        };
        let rest = installed_scan(s, i + 1, Seq::empty(), next_cur);
        if line == status_installed_line() {
            rest.insert(cur)
        } else {
            rest
        }
    } else {
        installed_scan(s, i + 1, line.push(s[i]), cur)
    }
}

/// The set of package names (as bytes) the registry reports as installed.
pub open spec fn installed_set(s: Seq<u8>) -> Set<Seq<u8>> {
    installed_scan(s, 0, Seq::empty(), Seq::empty())
}

/// Compare a range of the registry against an expected byte string.
fn range_eq(s: &Vec<u8>, lo: usize, hi: usize, t: &[u8]) -> (r: bool)
    requires
        lo <= hi <= s@.len(),
    ensures
        r == (s@.subrange(lo as int, hi as int) == t@),
{
    if hi - lo != t.len() {
        assert(s@.subrange(lo as int, hi as int).len() != t@.len());
        return false;
    }
    let n = t.len();
    let mut k: usize = 0;
    while k < n
        invariant
            lo <= hi <= s@.len(),
            hi - lo == n == t@.len(),
            0 <= k <= n,
            forall|j: int| 0 <= j < k ==> s@.subrange(lo as int, hi as int)[j] == t@[j],
        decreases n - k,
    {
        if s[lo + k] != t[k] {
            assert(s@.subrange(lo as int, hi as int)[k as int] != t@[k as int]);
            return false;
        }
        k += 1;
    }
    assert(s@.subrange(lo as int, hi as int) =~= t@);
    true
}

/// Whether a range of the registry begins with an expected byte string.
fn range_starts_with(s: &Vec<u8>, lo: usize, hi: usize, p: &[u8]) -> (r: bool)
    requires
        lo <= hi <= s@.len(),
    ensures
        r == starts_with(s@.subrange(lo as int, hi as int), p@),
{
    if hi - lo < p.len() {
        return false;
    }
    let r = range_eq(s, lo, lo + p.len(), p);
    assert(s@.subrange(lo as int, hi as int).subrange(0, p@.len() as int) =~= s@.subrange(
        lo as int,
        lo + p@.len(),
    ));
    r
}

/// The membership gate for one name: scan the registry record by record
/// and report whether it confirms the name as installed.
pub fn installed_in_status(status: &Vec<u8>, name: &str) -> (r: bool)
    ensures
        r == installed_set(status@).contains(bytes_of(name@)),
{
    let target: &[u8] = name.as_bytes();
    let prefix: &[u8] = "Package: ".as_bytes();
    let status_line: &[u8] = "Status: install ok installed".as_bytes();
    let n = status.len();
    let mut i: usize = 0;
    // the current line began at `start`; the current package name is
    // status[cur_lo..cur_hi]
    let mut start: usize = 0;
    let mut cur_lo: usize = 0;
    let mut cur_hi: usize = 0;
    proof {
        assert(status@.subrange(0, 0) =~= Seq::<u8>::empty());
    }
    while i < n
        invariant
            0 <= start <= i <= n == status@.len(),
            cur_lo <= cur_hi <= n,
            prefix@ == package_prefix(),
            status_line@ == status_installed_line(),
            target@ == bytes_of(name@),
            installed_set(status@).contains(bytes_of(name@)) == installed_scan(
                status@,
                i as int,
                status@.subrange(start as int, i as int),
                status@.subrange(cur_lo as int, cur_hi as int),
            ).contains(bytes_of(name@)),
        decreases n - i,
    {
        let ghost line = status@.subrange(start as int, i as int);
        let ghost cur = status@.subrange(cur_lo as int, cur_hi as int);
        if status[i] == 10 {
            if range_eq(status, start, i, status_line) {
                if range_eq(status, cur_lo, cur_hi, target) {
                    return true;
                }
            }
            if range_starts_with(status, start, i, prefix) {
                cur_lo = start + prefix.len();
                cur_hi = i;
                assert(line.skip(package_prefix().len() as int) =~= status@.subrange(
                    cur_lo as int,
                    cur_hi as int,
                ));
            }
            start = i + 1;
            i += 1;
            assert(status@.subrange(start as int, i as int) =~= Seq::<u8>::empty());
        } else {
            i += 1;
            assert(status@.subrange(start as int, i as int) =~= line.push(status@[i - 1]));
        }
    }
    // the final line, which no newline terminates
    if range_eq(status, start, n, status_line) {
        if range_eq(status, cur_lo, cur_hi, target) {
            return true;
        }
    }
    false
}

/// The names among `required` that the registry does not report as
/// installed, in declaration order.
pub open spec fn spec_missing(required: Seq<String>, status: Seq<u8>) -> Seq<String>
    decreases required.len(),
{
    if required.len() == 0 {
        Seq::empty()
    } else {
        let rest = spec_missing(required.drop_last(), status);
        if installed_set(status).contains(bytes_of(required.last()@)) {
            rest
        } else {
            rest.push(required.last())
        }
    }
}

/// The missing subset: the declared names the registry does not confirm
/// as installed, in declaration order. An empty result means the whole
/// phase is already converged and no command is issued.
pub fn missing_packages(required: &Vec<String>, status: &Vec<u8>) -> (r: Vec<String>)
    ensures
        r@ == spec_missing(required@, status@),
{
    let mut r: Vec<String> = Vec::new();
    let mut i: usize = 0;
    while i < required.len()
        invariant
            0 <= i <= required@.len(),
            r@ == spec_missing(required@.take(i as int), status@),
        decreases required@.len() - i,
    {
        let ghost pre = required@.take(i as int);
        if !installed_in_status(status, required[i].as_str()) {
            r.push(required[i].clone());
        }
        i += 1;
        proof {
            assert(required@.take(i as int).drop_last() =~= pre);
            assert(required@.take(i as int).last() == required@[i - 1]);
        }
    }
    proof {
        assert(required@.take(required@.len() as int) =~= required@);
    }
    r
}

/// The parts, joined with single spaces between them.
pub open spec fn spec_join_space(parts: Seq<String>) -> Seq<char>
    decreases parts.len(),
{
    if parts.len() == 0 {
        Seq::empty()
    } else if parts.len() == 1 {
        parts[0]@
    } else {
        spec_join_space(parts.drop_last()) + " "@ + parts.last()@
    }
}

/// Join the parts with single spaces between them.
pub fn join_space(parts: &Vec<String>) -> (r: String)
    ensures
        r@ == spec_join_space(parts@),
{
    let mut r = String::new();
    let mut i: usize = 0;
    while i < parts.len()
        invariant
            0 <= i <= parts@.len(),
            r@ == spec_join_space(parts@.take(i as int)),
        decreases parts@.len() - i,
    {
        let ghost pre = parts@.take(i as int);
        if i > 0 {
            r.append(" ");
        }
        r.append(parts[i].as_str());
        i += 1;
        proof {
            assert(parts@.take(i as int).drop_last() =~= pre);
            assert(parts@.take(i as int).last() == parts@[i - 1]);
            if i == 1 {
                assert(r@ =~= spec_join_space(parts@.take(1int)));
            }
        }
    }
    proof {
        assert(parts@.take(parts@.len() as int) =~= parts@);
    }
    r
}

/// The one-line source-list fragment a repository materializes.
pub open spec fn spec_repo_line(repo: &AptRepository) -> Seq<char> {
    "deb [signed-by=/usr/share/keyrings/"@ + repo.name@ + ".gpg] "@ + repo.url@ + " "@
        + repo.distro@ + " "@ + spec_join_space(repo.components@) + "\n"@
}

/// Build the source-list line for a repository: the archive type, the
/// keyring the repository will be signed by, its url, distribution and
/// components.
pub fn repository_source_line(repo: &AptRepository) -> (r: String)
    ensures
        r@ == spec_repo_line(repo),
{
    let mut r = String::from_str("deb [signed-by=/usr/share/keyrings/");
    r.append(repo.name.as_str());
    r.append(".gpg] ");
    r.append(repo.url.as_str());
    r.append(" ");
    r.append(repo.distro.as_str());
    r.append(" ");
    let joined = join_space(&repo.components);
    r.append(joined.as_str());
    r.append("\n");
    r
}

/// The path of a repository's source-list fragment; its identity is the
/// repository's name.
pub open spec fn spec_repo_list_path(name: Seq<char>) -> Seq<char> {
    "/etc/apt/sources.list.d/"@ + name + ".list"@
}

/// Where a repository's source-list fragment is materialized.
pub fn repository_list_path(name: &str) -> (r: String)
    ensures
        r@ == spec_repo_list_path(name@),
{
    let mut r = String::from_str("/etc/apt/sources.list.d/");
    r.append(name);
    r.append(".list");
    r
}

/// The path of a repository's stored signing key.
pub open spec fn spec_repo_key_path(name: Seq<char>) -> Seq<char> {
    "/usr/share/keyrings/"@ + name + ".gpg"@
}

/// Where a repository's signing key is stored. The key is fetched and
/// stored exactly when the source-list fragment changed: a rotated key
/// behind an unchanged fragment is not refreshed.
pub fn repository_key_path(name: &str) -> (r: String)
    ensures
        r@ == spec_repo_key_path(name@),
{
    let mut r = String::from_str("/usr/share/keyrings/");
    r.append(name);
    r.append(".gpg");
    r
}

/// The command that refreshes the package index, run once before any
/// install of a non-empty missing subset.
pub fn update_packages_command() -> (c: CmdSpec)
    ensures
        c.name@ == "apt-get"@,
        c.args@.len() == 1,
        c.args@[0]@ == "update"@,
        c.privileged == true,
        c.inherit_output == false,
        c.cwd is None,
{
    let mut args: Vec<String> = Vec::new();
    args.push(String::from_str("update"));
    CmdSpec {
        name: String::from_str("apt-get"),
        args,
        privileged: true,
        inherit_output: false,
        cwd: None,
    }
}

/// The single batched, elevated command that installs the missing subset.
/// All-or-nothing: any single failing name fails the whole batch.
pub fn install_packages_command(missing: &Vec<String>) -> (c: CmdSpec)
    ensures
        c.name@ == "apt-get"@,
        c.args@.len() == 3 + missing@.len(),
        c.args@[0]@ == "install"@,
        c.args@[1]@ == "--no-install-recommends"@,
        c.args@[2]@ == "-y"@,
        forall|k: int| 0 <= k < missing@.len() ==> c.args@[3 + k]@ == missing@[k]@,
        c.privileged == true,
        c.inherit_output == false,
        c.cwd is None,
{
    let mut args: Vec<String> = Vec::new();
    args.push(String::from_str("install"));
    args.push(String::from_str("--no-install-recommends"));
    args.push(String::from_str("-y"));
    let mut i: usize = 0;
    while i < missing.len()
        invariant
            0 <= i <= missing@.len(),
            args@.len() == 3 + i,
            args@[0]@ == "install"@,
            args@[1]@ == "--no-install-recommends"@,
            args@[2]@ == "-y"@,
            forall|k: int| 0 <= k < i ==> args@[3 + k]@ == missing@[k]@,
        decreases missing@.len() - i,
    {
        args.push(missing[i].clone());
        i += 1;
    }
    CmdSpec {
        name: String::from_str("apt-get"),
        args,
        privileged: true,
        inherit_output: false,
        cwd: None,
    }
}

/// Everything one repository materializes: where its source-list fragment
/// lives, the fragment itself, and where its signing key goes when the
/// fragment changed.
#[derive(Debug)]
pub struct RepositoryPlan {
    pub list_path: String,
    pub list_content: String,
    pub key_path: String,
    pub key_url: String,
}

/// Plan one repository: the source-list fragment is materialized under
/// the content-addressed gate, and the signing key is fetched from the
/// repository's key url and stored exactly when the fragment changed.
pub fn ensure_repository(repo: &AptRepository) -> (r: RepositoryPlan)
    ensures
        r.list_path@ == spec_repo_list_path(repo.name@),
        r.list_content@ == spec_repo_line(repo),
        r.key_path@ == spec_repo_key_path(repo.name@),
        r.key_url@ == repo.key_url@,
{
    RepositoryPlan {
        list_path: repository_list_path(repo.name.as_str()),
        list_content: repository_source_line(repo),
        key_path: repository_key_path(repo.name.as_str()),
        key_url: repo.key_url.clone(),
    }
}

/// Plan the package phase against the registry: `None` exactly when every
/// required name is already installed — the phase is converged and no
/// command is issued. Otherwise the missing subset together with the two
/// commands to run, in order: one index refresh, then one batched install
/// of exactly the missing names.
pub fn ensure_packages(required: &Vec<String>, status: &Vec<u8>) -> (r: Option<
    (Vec<String>, CmdSpec, CmdSpec),
>)
    ensures
        match r {
            Option::None => spec_missing(required@, status@).len() == 0,
            Option::Some((missing, update, install)) => {
                &&& missing@ == spec_missing(required@, status@)
                &&& missing@.len() > 0
                &&& update.name@ == "apt-get"@
                &&& update.args@.len() == 1 && update.args@[0]@ == "update"@
                &&& update.privileged
                &&& install.name@ == "apt-get"@
                &&& install.args@.len() == 3 + missing@.len()
                &&& install.args@[0]@ == "install"@
                &&& install.args@[1]@ == "--no-install-recommends"@
                &&& install.args@[2]@ == "-y"@
                &&& forall|k: int|
                    0 <= k < missing@.len() ==> install.args@[3 + k]@ == missing@[k]@
                &&& install.privileged
            },
        },
{
    let missing = missing_packages(required, status);
    if missing.len() == 0 {
        None
    } else {
        let update = update_packages_command();
        let install = install_packages_command(&missing);
        Some((missing, update, install))
    }
}

} // verus!
