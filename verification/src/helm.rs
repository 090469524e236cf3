//! Helm support: the repositories known, the `helm` command lines for each
//! operation, the chart metadata file, and what is read back from `helm`'s output.
use vstd::prelude::*;
use crate::assoc::{as_map, keys_distinct, insert_key, remove_key, lemma_key_pos};
use crate::containerd::{parse_rfc3339, rfc3339_seconds};
use crate::text::{owned, push_str, push_char, str_eq, chars_of, find_char, slice_chars, string_of, first_index_of,
    lemma_first_index_of, is_prefix, starts_with};

verus! {

/// A chart maintainer.
#[derive(Debug)]
pub struct HelmMaintainer {
    pub name: String,
    pub email: Option<String>,
    pub url: Option<String>,
}

/// A chart repository.
#[derive(Debug)]
pub struct HelmRepository {
    pub name: String,
    pub url: String,
    pub username: Option<String>,
    pub password_encrypted: Option<String>,
    pub is_oci: bool,
}

/// Status of a release.
#[derive(Debug, Clone, Copy, PartialEq, Eq, Structural)]
pub enum HelmReleaseStatus {
    Deployed,
    Pending,
    Failed,
    Superseded,
    Uninstalled,
}

/// The characters of each string of a list.
pub open spec fn args_view(v: Seq<String>) -> Seq<Seq<char>> {
    v.map_values(|s: String| s@)
}

/// The status `helm` reports as text; anything unknown counts as failed.
pub open spec fn release_status_of(t: Seq<char>) -> HelmReleaseStatus {
    if t == "deployed"@ {
        HelmReleaseStatus::Deployed
    } else if t == "pending"@ {
        HelmReleaseStatus::Pending
    } else if t == "superseded"@ {
        HelmReleaseStatus::Superseded
    } else if t == "uninstalled"@ {
        HelmReleaseStatus::Uninstalled
    } else {
        HelmReleaseStatus::Failed
    }
}

/// The status `helm` reports as text (see [`release_status_of`]).
pub fn parse_release_status(t: &str) -> (r: HelmReleaseStatus)
    ensures
        r == release_status_of(t@),
{
    if str_eq(t, "deployed") {
        HelmReleaseStatus::Deployed
    } else if str_eq(t, "pending") {
        HelmReleaseStatus::Pending
    } else if str_eq(t, "superseded") {
        HelmReleaseStatus::Superseded
    } else if str_eq(t, "uninstalled") {
        HelmReleaseStatus::Uninstalled
    } else {
        HelmReleaseStatus::Failed
    }
}

/// The key of a release: `{namespace}/{name}`.
pub open spec fn release_key_of(namespace: Seq<char>, name: Seq<char>) -> Seq<char> {
    namespace + seq!['/'] + name
}

/// The key of a release (see [`release_key_of`]).
pub fn release_key(namespace: &str, name: &str) -> (r: String)
    ensures
        r@ == release_key_of(namespace@, name@),
{
    let mut r = owned(namespace);
    push_char(&mut r, '/');
    push_str(&mut r, name);
    assert(r@ =~= release_key_of(namespace@, name@));
    r
}

/// Appends one argument.
fn arg(v: &mut Vec<String>, a: &str)
    ensures
        args_view(final(v)@) == args_view(old(v)@).push(a@),
{
    let ghost v0 = v@;
    v.push(owned(a));
    assert(args_view(v@) =~= args_view(v0).push(a@));
}

/// The arguments of `helm repo add` for a repository: its name and URL, the user
/// name if any, a stand-in password if one is stored, and `--oci` for OCI ones.
pub open spec fn repo_add_args_view(name: Seq<char>, url: Seq<char>, username: Option<Seq<char>>, has_password: bool, oci: bool)
    -> Seq<Seq<char>> {
    seq!["repo"@, "add"@, name, url]
        + (match username { Some(u) => seq!["--username"@, u], None => Seq::empty() })
        + (if has_password { seq!["--password"@, "placeholder"@] } else { Seq::empty() })
        + (if oci { seq!["--oci"@] } else { Seq::empty() })
}

/// The optional text as characters.
pub open spec fn opt_chars(o: Option<String>) -> Option<Seq<char>> {
    match o {
        Some(s) => Some(s@),
        None => None,
    }
}

/// The arguments of `helm repo add` (see [`repo_add_args_view`]).
pub fn repo_add_args(repo: &HelmRepository) -> (r: Vec<String>)
    ensures
        args_view(r@) == repo_add_args_view(repo.name@, repo.url@, opt_chars(repo.username), repo.password_encrypted is Some,
            repo.is_oci),
{
    let mut r: Vec<String> = Vec::new();
    arg(&mut r, "repo");
    arg(&mut r, "add");
    arg(&mut r, repo.name.as_str());
    arg(&mut r, repo.url.as_str());
    let ghost base = args_view(r@);
    match &repo.username {
        Some(u) => {
            arg(&mut r, "--username");
            arg(&mut r, u.as_str());
        },
        None => {},
    }
    let ghost with_user = args_view(r@);
    if repo.password_encrypted.is_some() {
        arg(&mut r, "--password");
        arg(&mut r, "placeholder");
    }
    let ghost with_pass = args_view(r@);
    if repo.is_oci {
        arg(&mut r, "--oci");
    }
    assert(base =~= seq!["repo"@, "add"@, repo.name@, repo.url@]);
    assert(with_user =~= base + (match opt_chars(repo.username) { Some(u) => seq!["--username"@, u], None => Seq::empty() }));
    assert(with_pass =~= with_user + (if repo.password_encrypted is Some { seq!["--password"@, "placeholder"@] } else { Seq::empty() }));
    assert(args_view(r@) =~= with_pass + (if repo.is_oci { seq!["--oci"@] } else { Seq::empty() }));
    r
}

/// The arguments of `helm install`: the release, chart and namespace (created
/// if missing), and the values file if any.
pub open spec fn install_args_view(name: Seq<char>, chart: Seq<char>, namespace: Seq<char>, values_file: Option<Seq<char>>)
    -> Seq<Seq<char>> {
    seq!["install"@, name, chart, "--namespace"@, namespace, "--create-namespace"@]
        + match values_file { Some(f) => seq!["--values"@, f], None => Seq::empty() }
}

/// The optional text as characters.
pub open spec fn opt_str(o: Option<&str>) -> Option<Seq<char>> {
    match o {
        Some(s) => Some(s@),
        None => None,
    }
}

/// The arguments of `helm install` (see [`install_args_view`]).
pub fn install_args(name: &str, chart: &str, namespace: &str, values_file: Option<&str>) -> (r: Vec<String>)
    ensures
        args_view(r@) == install_args_view(name@, chart@, namespace@, opt_str(values_file)),
        r@.len() >= 6 && r@[0]@ == "install"@ && r@[1]@ == name@ && r@[2]@ == chart@ && r@[3]@ == "--namespace"@
            && r@[4]@ == namespace@ && r@[5]@ == "--create-namespace"@,
        match values_file {
            Some(f) => r@.len() == 8 && r@[6]@ == "--values"@ && r@[7]@ == f@,
            None => r@.len() == 6,
        },
{
    proof {
        law_release_args(name@, chart@, namespace@, opt_str(values_file));
    }
    let mut r: Vec<String> = Vec::new();
    arg(&mut r, "install");
    arg(&mut r, name);
    arg(&mut r, chart);
    arg(&mut r, "--namespace");
    arg(&mut r, namespace);
    arg(&mut r, "--create-namespace");
    let ghost base = args_view(r@);
    match values_file {
        Some(f) => {
            arg(&mut r, "--values");
            arg(&mut r, f);
        },
        None => {},
    }
    assert(base =~= seq!["install"@, name@, chart@, "--namespace"@, namespace@, "--create-namespace"@]);
    assert(args_view(r@) =~= base + match opt_str(values_file) { Some(f) => seq!["--values"@, f], None => Seq::empty() });
    r
}

/// The arguments of `helm upgrade`: the release, chart and namespace, and the
/// values file if any.
pub open spec fn upgrade_args_view(name: Seq<char>, chart: Seq<char>, namespace: Seq<char>, values_file: Option<Seq<char>>)
    -> Seq<Seq<char>> {
    seq!["upgrade"@, name, chart, "--namespace"@, namespace] + match values_file {
        Some(f) => seq!["--values"@, f],
        None => Seq::empty(),
    }
}

/// The `helm upgrade` arguments name the release, the chart and the namespace
/// in that order, and end with `--values` and the values file exactly when one
/// is given; the `helm install` arguments likewise, with `--create-namespace`
/// after the namespace.
pub proof fn law_release_args(name: Seq<char>, chart: Seq<char>, namespace: Seq<char>, values_file: Option<Seq<char>>)
    ensures
        ({
            let u = upgrade_args_view(name, chart, namespace, values_file);
            &&& u.len() >= 5 && u[0] == "upgrade"@ && u[1] == name && u[2] == chart && u[3] == "--namespace"@
                && u[4] == namespace
            &&& match values_file {
                Some(f) => u.len() == 7 && u[5] == "--values"@ && u[6] == f,
                None => u.len() == 5,
            }
        }),
        ({
            let i = install_args_view(name, chart, namespace, values_file);
            &&& i.len() >= 6 && i[0] == "install"@ && i[1] == name && i[2] == chart && i[3] == "--namespace"@
                && i[4] == namespace && i[5] == "--create-namespace"@
            &&& match values_file {
                Some(f) => i.len() == 8 && i[6] == "--values"@ && i[7] == f,
                None => i.len() == 6,
            }
        }),
{
}

/// The arguments of `helm upgrade` (see [`upgrade_args_view`]).
pub fn upgrade_args(name: &str, chart: &str, namespace: &str, values_file: Option<&str>) -> (r: Vec<String>)
    ensures
        args_view(r@) == upgrade_args_view(name@, chart@, namespace@, opt_str(values_file)),
        r@.len() >= 5 && r@[0]@ == "upgrade"@ && r@[1]@ == name@ && r@[2]@ == chart@ && r@[3]@ == "--namespace"@
            && r@[4]@ == namespace@,
        match values_file {
            Some(f) => r@.len() == 7 && r@[5]@ == "--values"@ && r@[6]@ == f@,
            None => r@.len() == 5,
        },
{
    proof {
        law_release_args(name@, chart@, namespace@, opt_str(values_file));
    }
    let mut r: Vec<String> = Vec::new();
    arg(&mut r, "upgrade");
    arg(&mut r, name);
    arg(&mut r, chart);
    arg(&mut r, "--namespace");
    arg(&mut r, namespace);
    let ghost base = args_view(r@);
    match values_file {
        Some(f) => {
            arg(&mut r, "--values");
            arg(&mut r, f);
        },
        None => {},
    }
    assert(base =~= seq!["upgrade"@, name@, chart@, "--namespace"@, namespace@]);
    assert(args_view(r@) =~= base + match opt_str(values_file) { Some(f) => seq!["--values"@, f], None => Seq::empty() });
    r
}

/// The arguments of `helm uninstall`.
pub fn uninstall_args(name: &str, namespace: &str) -> (r: Vec<String>)
    ensures
        args_view(r@) == seq!["uninstall"@, name@, "--namespace"@, namespace@],
{
    let mut r: Vec<String> = Vec::new();
    arg(&mut r, "uninstall");
    arg(&mut r, name);
    arg(&mut r, "--namespace");
    arg(&mut r, namespace);
    assert(args_view(r@) =~= seq!["uninstall"@, name@, "--namespace"@, namespace@]);
    r
}

/// The arguments of `helm get all` for a release, as JSON.
pub fn get_release_args(name: &str, namespace: &str) -> (r: Vec<String>)
    ensures
        args_view(r@) == seq!["get"@, "all"@, name@, "--namespace"@, namespace@, "--output"@, "json"@],
{
    let mut r: Vec<String> = Vec::new();
    arg(&mut r, "get");
    arg(&mut r, "all");
    arg(&mut r, name);
    arg(&mut r, "--namespace");
    arg(&mut r, namespace);
    arg(&mut r, "--output");
    arg(&mut r, "json");
    assert(args_view(r@) =~= seq!["get"@, "all"@, name@, "--namespace"@, namespace@, "--output"@, "json"@]);
    r
}

/// The arguments of `helm list` as JSON, in one namespace or in all.
pub fn list_releases_args(namespace: Option<&str>) -> (r: Vec<String>)
    ensures
        args_view(r@) == seq!["list"@, "--output"@, "json"@] + match namespace {
            Some(n) => seq!["--namespace"@, n@],
            None => seq!["--all-namespaces"@],
        },
{
    let mut r: Vec<String> = Vec::new();
    arg(&mut r, "list");
    arg(&mut r, "--output");
    arg(&mut r, "json");
    let ghost base = args_view(r@);
    match namespace {
        Some(n) => {
            arg(&mut r, "--namespace");
            arg(&mut r, n);
        },
        None => {
            arg(&mut r, "--all-namespaces");
        },
    }
    assert(base =~= seq!["list"@, "--output"@, "json"@]);
    assert(args_view(r@) =~= base + match namespace { Some(n) => seq!["--namespace"@, n@], None => seq!["--all-namespaces"@] });
    r
}

/// The `Chart.yaml` of a new chart.
pub open spec fn chart_yaml_text(name: Seq<char>, description: Seq<char>) -> Seq<char> {
    "apiVersion: v2\nname: "@ + name + "\ndescription: "@ + description + "\nversion: 0.1.0\nappVersion: \"1.0.0\"\n"@
}

/// The `Chart.yaml` of a new chart (see [`chart_yaml_text`]).
pub fn chart_yaml(name: &str, description: &str) -> (r: String)
    ensures
        r@ == chart_yaml_text(name@, description@),
{
    let mut r = owned("apiVersion: v2\nname: ");
    push_str(&mut r, name);
    push_str(&mut r, "\ndescription: ");
    push_str(&mut r, description);
    push_str(&mut r, "\nversion: 0.1.0\nappVersion: \"1.0.0\"\n");
    assert(r@ =~= chart_yaml_text(name@, description@));
    r
}

/// The first line of a text (all of it without a line break).
pub open spec fn first_line(s: Seq<char>) -> Seq<char> {
    match first_index_of(s, '\n') {
        Some(i) => s.take(i),
        None => s,
    }
}

/// The marker before the package path in `helm package`'s report.
pub open spec fn package_marker() -> Seq<char> {
    "Successfully packaged chart and saved it to: "@
}

/// Where `helm package` saved the chart: on the first line of its report, the
/// text after the first marker, up to a second marker if any. The line must be
/// followed by a marker.
pub open spec fn package_path_of(out: Seq<char>) -> Option<Seq<char>> {
    let line = first_line(out);
    match first_occurrence(line, package_marker()) {
        Some(i) => {
            let rest = line.skip(i + package_marker().len());
            match first_occurrence(rest, package_marker()) {
                Some(j) => Some(rest.take(j)),
                None => Some(rest),
            }
        },
        None => None,
    }
}

/// Position of the first occurrence of `p` in `s`.
pub open spec fn first_occurrence(s: Seq<char>, p: Seq<char>) -> Option<int> {
    if exists|i: int| 0 <= i <= s.len() - p.len() && #[trigger] is_prefix(p, s.skip(i)) {
        Some(choose|i: int| 0 <= i <= s.len() - p.len() && is_prefix(p, s.skip(i))
            && forall|j: int| 0 <= j < i ==> !#[trigger] is_prefix(p, s.skip(j)))
    } else {
        None
    }
}

/// An occurrence at `w` means there is a first one.
proof fn lemma_first_occurrence_exists(s: Seq<char>, p: Seq<char>, w: int)
    requires
        0 <= w <= s.len() - p.len(),
        is_prefix(p, s.skip(w)),
    ensures
        exists|i: int| 0 <= i <= s.len() - p.len() && is_prefix(p, s.skip(i))
            && forall|j: int| 0 <= j < i ==> !#[trigger] is_prefix(p, s.skip(j)),
    decreases w,
{
    if exists|j: int| 0 <= j < w && #[trigger] is_prefix(p, s.skip(j)) {
        let j = choose|j: int| 0 <= j < w && #[trigger] is_prefix(p, s.skip(j));
        lemma_first_occurrence_exists(s, p, j);
    } else {
        assert(0 <= w <= s.len() - p.len() && is_prefix(p, s.skip(w)) && forall|j: int| 0 <= j < w ==> !#[trigger] is_prefix(p,
            s.skip(j)));
    }
}

/// Whether `p` occurs in `v` at `i`.
fn occurs_at(v: &Vec<char>, p: &Vec<char>, i: usize) -> (r: bool)
    requires
        i + p@.len() <= v@.len(),
    ensures
        r == is_prefix(p@, v@.skip(i as int)),
{
    let mut k: usize = 0;
    while k < p.len()
        invariant
            i + p@.len() <= v@.len(),
            p@.len() == p.len(),
            v@.len() == v.len(),
            k <= p.len(),
            forall|q: int| 0 <= q < k ==> v@[i + q] == p@[q],
        decreases p.len() - k,
    {
        if v[i + k] != p[k] {
            assert(v@.skip(i as int).subrange(0, p@.len() as int)[k as int] != p@[k as int]);
            return false;
        }
        k = k + 1;
    }
    assert(v@.skip(i as int).subrange(0, p@.len() as int) =~= p@);
    true
}

/// Position of the first occurrence of `p` in `v`.
fn find_text(v: &Vec<char>, p: &Vec<char>) -> (r: Option<usize>)
    ensures
        match r {
            Some(i) => first_occurrence(v@, p@) == Some(i as int) && i + p@.len() <= v@.len(),
            None => first_occurrence(v@, p@) is None,
        },
{
    if p.len() > v.len() {
        assert forall|i: int| 0 <= i <= v@.len() - p@.len() implies !#[trigger] is_prefix(p@, v@.skip(i)) by {}
        return None;
    }
    let end = v.len() - p.len();
    let mut i: usize = 0;
    while i < end
        invariant
            p.len() <= v.len(),
            end == v.len() - p.len(),
            i <= end,
            forall|j: int| 0 <= j < i ==> !#[trigger] is_prefix(p@, v@.skip(j)),
        decreases end - i,
    {
        if occurs_at(v, p, i) {
            proof {
                lemma_first_occurrence_exists(v@, p@, i as int);
                let c = choose|c: int| 0 <= c <= v@.len() - p@.len() && is_prefix(p@, v@.skip(c))
                    && forall|j: int| 0 <= j < c ==> !#[trigger] is_prefix(p@, v@.skip(j));
                assert(c == i) by {
                    if c > i {
                        assert(is_prefix(p@, v@.skip(i as int)));
                    }
                }
            }
            return Some(i);
        }
        i = i + 1;
    }
    if occurs_at(v, p, end) {
        proof {
            lemma_first_occurrence_exists(v@, p@, end as int);
            let c = choose|c: int| 0 <= c <= v@.len() - p@.len() && is_prefix(p@, v@.skip(c))
                && forall|j: int| 0 <= j < c ==> !#[trigger] is_prefix(p@, v@.skip(j));
            assert(c == end) by {
                if c > end {
                    assert(is_prefix(p@, v@.skip(end as int)));
                }
            }
        }
        return Some(end);
    }
    None
}

/// Where `helm package` saved the chart (see [`package_path_of`]).
pub fn package_path(out: &str) -> (r: Option<String>)
    ensures
        match r {
            Some(p) => package_path_of(out@) == Some(p@),
            None => package_path_of(out@) is None,
        },
{
    let v = chars_of(out);
    proof {
        lemma_first_index_of(out@, '\n');
    }
    let line = match find_char(&v, '\n') {
        Some(i) => slice_chars(&v, 0, i),
        None => v,
    };
    assert(line@ =~= first_line(out@));
    let marker = chars_of("Successfully packaged chart and saved it to: ");
    match find_text(&line, &marker) {
        Some(i) => {
            let n = line.len();
            let rest = slice_chars(&line, i + marker.len(), n);
            assert(rest@ =~= line@.skip(i + package_marker().len()));
            match find_text(&rest, &marker) {
                Some(j) => {
                    let head = slice_chars(&rest, 0, j);
                    assert(head@ =~= rest@.take(j as int));
                    Some(string_of(&head))
                },
                None => Some(string_of(&rest)),
            }
        },
        None => None,
    }
}

/// Errors of the Helm operations: a `helm` command that failed, with its error
/// output, or output that is not what `helm` writes.
#[derive(Debug, Clone, PartialEq, Eq)]
pub enum HelmError {
    RepoAddFailed(String),
    RepoUpdateFailed(String),
    RepoRemoveFailed(String),
    InvalidOutput,
}

/// The repositories known to Helm, by name.
pub struct HelmRepositories {
    pub repositories: Vec<(String, HelmRepository)>,
}

/// Mathematical value of a [`HelmRepository`].
pub struct RepositoryView {
    pub name: Seq<char>,
    pub url: Seq<char>,
    pub username: Option<Seq<char>>,
    pub password_encrypted: Option<Seq<char>>,
    pub is_oci: bool,
}

impl View for HelmRepository {
    type V = RepositoryView;

    open spec fn view(&self) -> RepositoryView {
        RepositoryView {
            name: self.name@,
            url: self.url@,
            username: opt_chars(self.username),
            password_encrypted: opt_chars(self.password_encrypted),
            is_oci: self.is_oci,
        }
    }
}

/// Repositories by name.
pub open spec fn repos_map(r: &HelmRepositories) -> Map<Seq<char>, RepositoryView> {
    as_map(r.repositories@).map_values(|x: HelmRepository| x@)
}

impl HelmRepositories {
    /// No repositories.
    pub fn new() -> (r: Self)
        ensures
            keys_distinct(r.repositories@),
            repos_map(&r) == Map::<Seq<char>, RepositoryView>::empty(),
    {
        let r = HelmRepositories { repositories: Vec::new() };
        assert(repos_map(&r) =~= Map::<Seq<char>, RepositoryView>::empty());
        r
    }

    /// Adds `repository` once `helm repo add` ended with `add` and, when that
    /// succeeded, `helm repo update` with `update` (each `Err` holding the
    /// command's error output): the repository is recorded, under its name, only
    /// when both commands succeeded; otherwise the first failure is returned and
    /// nothing is recorded.
    pub fn add_repository(&mut self, repository: HelmRepository, add: Result<(), String>, update: Result<(), String>)
        -> (r: Result<(), HelmError>)
        requires
            keys_distinct(old(self).repositories@),
        ensures
            keys_distinct(final(self).repositories@),
            match (add, update) {
                (Err(e), _) => (r matches Err(HelmError::RepoAddFailed(x)) && x@ == e@)
                    && final(self).repositories@ == old(self).repositories@,
                (Ok(_), Err(e)) => (r matches Err(HelmError::RepoUpdateFailed(x)) && x@ == e@)
                    && final(self).repositories@ == old(self).repositories@,
                (Ok(_), Ok(_)) => r is Ok
                    && repos_map(final(self)) == repos_map(old(self)).insert(repository.name@, repository@),
            },
    {
        match add {
            Err(e) => {
                return Err(HelmError::RepoAddFailed(e));
            },
            Ok(_) => {},
        }
        match update {
            Err(e) => {
                return Err(HelmError::RepoUpdateFailed(e));
            },
            Ok(_) => {},
        }
        let ghost rv = repository@;
        let key = repository.name.clone();
        insert_key(&mut self.repositories, key, repository);
        assert(repos_map(self) =~= repos_map(old(self)).insert(rv.name, rv));
        Ok(())
    }

    /// Forgets repository `name` once `helm repo remove` ended with `outcome`:
    /// only when the command succeeded; otherwise its failure is returned and
    /// nothing changes.
    pub fn remove_repository(&mut self, name: &str, outcome: Result<(), String>) -> (r: Result<(), HelmError>)
        requires
            keys_distinct(old(self).repositories@),
        ensures
            keys_distinct(final(self).repositories@),
            match outcome {
                Err(e) => (r matches Err(HelmError::RepoRemoveFailed(x)) && x@ == e@)
                    && final(self).repositories@ == old(self).repositories@,
                Ok(_) => r is Ok && repos_map(final(self)) == repos_map(old(self)).remove(name@),
            },
    {
        match outcome {
            Err(e) => Err(HelmError::RepoRemoveFailed(e)),
            Ok(_) => {
                let _ = remove_key(&mut self.repositories, name);
                assert(repos_map(self) =~= repos_map(old(self)).remove(name@));
                Ok(())
            },
        }
    }

    /// The names of the known repositories, in table order.
    pub fn list_repository_names(&self) -> (r: Vec<String>)
        ensures
            args_view(r@) == self.repositories@.map_values(|e: (String, HelmRepository)| e.0@),
    {
        let mut r: Vec<String> = Vec::new();
        let mut i: usize = 0;
        while i < self.repositories.len()
            invariant
                i <= self.repositories.len(),
                args_view(r@) == self.repositories@.take(i as int).map_values(|e: (String, HelmRepository)| e.0@),
            decreases self.repositories.len() - i,
        {
            let ghost before = r@;
            r.push(self.repositories[i].0.clone());
            assert(args_view(r@) =~= args_view(before).push(self.repositories@[i as int].0@));
            i = i + 1;
            assert(args_view(r@) =~= self.repositories@.take(i as int).map_values(|e: (String, HelmRepository)| e.0@));
        }
        assert(self.repositories@.take(self.repositories@.len() as int) =~= self.repositories@);
        r
    }
}

/// A release as `helm` reports it. The values are the text of the release's
/// configuration; times are seconds since the Unix epoch.
#[derive(Debug)]
pub struct HelmRelease {
    pub name: String,
    pub namespace: String,
    pub chart: String,
    pub version: String,
    pub values: String,
    pub status: HelmReleaseStatus,
    pub revision: u32,
    pub updated: i64,
}

/// What a release is made of in the JSON document of `helm get all`: the chart's
/// name and version, the status, the revision and the last deployment time, each
/// where present with the right type, and the text of the configuration.
#[derive(Debug)]
pub struct HelmReleaseFields {
    pub chart: Option<String>,
    pub version: Option<String>,
    pub status: Option<String>,
    pub revision: Option<u64>,
    pub last_deployed: Option<String>,
    pub config: String,
}

/// Mathematical value of [`HelmReleaseFields`].
pub struct HelmReleaseFieldsView {
    pub chart: Option<Seq<char>>,
    pub version: Option<Seq<char>>,
    pub status: Option<Seq<char>>,
    pub revision: Option<u64>,
    pub last_deployed: Option<Seq<char>>,
    pub config: Seq<char>,
}

impl View for HelmReleaseFields {
    type V = HelmReleaseFieldsView;

    open spec fn view(&self) -> HelmReleaseFieldsView {
        HelmReleaseFieldsView {
            chart: opt_chars(self.chart),
            version: opt_chars(self.version),
            status: opt_chars(self.status),
            revision: self.revision,
            last_deployed: opt_chars(self.last_deployed),
            config: self.config@,
        }
    }
}

/// The fields read from the bytes `helm get all --output json` writes
/// (`serde_json::from_slice` into a `serde_json::Value`, then `chart.metadata.name`,
/// `chart.metadata.version`, `info.status`, `version`, `info.last_deployed`, and
/// the text of `config`); nothing when the bytes are no JSON document.
pub uninterp spec fn helm_release_json(b: Seq<u8>) -> Option<HelmReleaseFieldsView>;

/// The fields of a release document, as the JSON parser gives them.
pub open spec fn opt_fields(r: Option<HelmReleaseFields>) -> Option<HelmReleaseFieldsView> {
    match r {
        Some(f) => Some(f@),
        None => None,
    }
}

/// Reads the release fields from `helm`'s JSON output with `serde_json`: the
/// result is the name [`helm_release_json`] applied to the bytes. Which texts are
/// JSON, and the text of the configuration, are not stated.
#[verifier::external_body]
fn helm_release_fields(stdout: &Vec<u8>) -> (r: Option<HelmReleaseFields>)
    ensures
        opt_fields(r) == helm_release_json(stdout@),
{
    let v: serde_json::Value = serde_json::from_slice(stdout).ok()?;
    Some(HelmReleaseFields {
        chart: v["chart"]["metadata"]["name"].as_str().map(String::from),
        version: v["chart"]["metadata"]["version"].as_str().map(String::from),
        status: v["info"]["status"].as_str().map(String::from),
        revision: v["version"].as_u64(),
        last_deployed: v["info"]["last_deployed"].as_str().map(String::from),
        config: v["config"].to_string(),
    })
}

/// The text, or `d` when absent.
pub open spec fn text_or(o: Option<Seq<char>>, d: Seq<char>) -> Seq<char> {
    match o {
        Some(t) => t,
        None => d,
    }
}

/// The time of the last deployment: the RFC 3339 text given (the epoch when
/// absent) in seconds, or 0 when it does not parse.
pub open spec fn deployed_time(o: Option<Seq<char>>) -> i64 {
    match rfc3339_seconds(text_or(o, "1970-01-01T00:00:00Z"@)) {
        Some(t) => t,
        None => 0,
    }
}

/// The release `name` in `namespace` made of the fields `f` (see
/// [`release_from_output`]).
pub open spec fn release_is(r: HelmRelease, name: Seq<char>, namespace: Seq<char>, f: HelmReleaseFieldsView) -> bool {
    &&& r.name@ == name && r.namespace@ == namespace
    &&& r.chart@ == text_or(f.chart, ""@) && r.version@ == text_or(f.version, ""@)
    &&& r.values@ == f.config
    &&& r.status == release_status_of(text_or(f.status, ""@))
    &&& r.revision == (match f.revision { Some(v) => v, None => 0u64 }) as u32
    &&& r.updated == deployed_time(f.last_deployed)
}

/// The text, or `d` when absent.
fn string_or(o: Option<String>, d: &str) -> (r: String)
    ensures
        r@ == text_or(opt_chars(o), d@),
{
    match o {
        Some(t) => t,
        None => owned(d),
    }
}

/// The release `name` in `namespace` from what `helm get all --output json`
/// wrote: the chart's name and version (empty when absent), the configuration's
/// text as the values, the status (see [`release_status_of`]; failed when
/// absent), the revision (0 when absent, its low 32 bits otherwise) and the last
/// deployment time (see [`deployed_time`]). Output that is no JSON document is
/// refused.
pub fn release_from_output(name: &str, namespace: &str, stdout: &Vec<u8>) -> (r: Result<HelmRelease, HelmError>)
    ensures
        match helm_release_json(stdout@) {
            None => r == Err::<HelmRelease, HelmError>(HelmError::InvalidOutput),
            Some(f) => r matches Ok(rel) && release_is(rel, name@, namespace@, f),
        },
{
    let f = match helm_release_fields(stdout) {
        Some(f) => f,
        None => {
            return Err(HelmError::InvalidOutput);
        },
    };
    let ghost fv = f@;
    let status_text = string_or(f.status, "");
    let status = parse_release_status(status_text.as_str());
    let revision: u64 = match f.revision {
        Some(v) => v,
        None => 0,
    };
    let when = string_or(f.last_deployed, "1970-01-01T00:00:00Z");
    let updated: i64 = match parse_rfc3339(when.as_str()) {
        Some(t) => t,
        None => 0,
    };
    Ok(HelmRelease {
        name: owned(name),
        namespace: owned(namespace),
        chart: string_or(f.chart, ""),
        version: string_or(f.version, ""),
        values: f.config,
        status,
        revision: revision as u32,
        updated,
    })
}

/// The `name` and `namespace` of each entry, each where present as text, read
/// from the bytes `helm list --output json` writes (`serde_json::from_slice`
/// into a list of `serde_json::Value`); nothing when the bytes are no JSON list.
pub uninterp spec fn helm_list_json(b: Seq<u8>) -> Option<Seq<(Option<Seq<char>>, Option<Seq<char>>)>>;

/// The entries of a release list, as characters.
pub open spec fn opt_entries(r: Option<Vec<(Option<String>, Option<String>)>>) -> Option<Seq<(Option<Seq<char>>, Option<Seq<char>>)>> {
    match r {
        Some(v) => Some(v@.map_values(|e: (Option<String>, Option<String>)| (opt_chars(e.0), opt_chars(e.1)))),
        None => None,
    }
}

/// Reads the entries of a release list from `helm`'s JSON output with
/// `serde_json`: the result is the name [`helm_list_json`] applied to the bytes.
/// Which texts are JSON lists is not stated.
#[verifier::external_body]
fn helm_list_entries(stdout: &Vec<u8>) -> (r: Option<Vec<(Option<String>, Option<String>)>>)
    ensures
        opt_entries(r) == helm_list_json(stdout@),
{
    let list: Vec<serde_json::Value> = serde_json::from_slice(stdout).ok()?;
    Some(list.iter().map(|v| (v["name"].as_str().map(String::from), v["namespace"].as_str().map(String::from))).collect())
}

/// The releases listed by `helm list --output json`, as (name, namespace) pairs
/// in order: the name empty and the namespace `default` when absent. Output that
/// is no JSON list is refused.
pub fn releases_from_list_output(stdout: &Vec<u8>) -> (r: Result<Vec<(String, String)>, HelmError>)
    ensures
        match helm_list_json(stdout@) {
            None => r == Err::<Vec<(String, String)>, HelmError>(HelmError::InvalidOutput),
            Some(es) => r matches Ok(v) && v@.len() == es.len() && forall|i: int| 0 <= i < es.len() ==>
                (#[trigger] v@[i]).0@ == text_or(es[i].0, ""@) && v@[i].1@ == text_or(es[i].1, "default"@),
        },
{
    let entries = match helm_list_entries(stdout) {
        Some(es) => es,
        None => {
            return Err(HelmError::InvalidOutput);
        },
    };
    let ghost es = opt_entries(Some(entries))->Some_0;
    let mut out: Vec<(String, String)> = Vec::new();
    let mut i: usize = 0;
    while i < entries.len()
        invariant
            i <= entries.len(),
            es == entries@.map_values(|e: (Option<String>, Option<String>)| (opt_chars(e.0), opt_chars(e.1))),
            out@.len() == i,
            forall|j: int| 0 <= j < i ==> (#[trigger] out@[j]).0@ == text_or(es[j].0, ""@)
                && out@[j].1@ == text_or(es[j].1, "default"@),
        decreases entries.len() - i,
    {
        let n = match &entries[i].0 {
            Some(t) => t.clone(),
            None => owned(""),
        };
        let ns = match &entries[i].1 {
            Some(t) => t.clone(),
            None => owned("default"),
        };
        out.push((n, ns));
        i = i + 1;
    }
    Ok(out)
}

} // verus!
