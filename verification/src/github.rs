//! Creating a pipeline on GitHub: the requests that commit its workflow file to
//! the repository's branch, each step decided from the answer to the one before.
use vstd::prelude::*;
use crate::text::{owned, push_str, concat, utf8_bytes};
use crate::cicd::{GitHubActionsProvider, PipelineConfig, BuildConfig, DeploymentConfig, DeploymentStrategy, workflow_text,
    workflow_path_of, workflow_path, pipeline_name_of, pipeline_name_from_file};
use crate::containerd::{base64_encode, base64_standard};
use crate::containers::new_uuid;

verus! {

/// The method of a request to the GitHub API.
#[derive(Debug, Clone, Copy, PartialEq, Eq, Structural)]
pub enum HttpMethod {
    Get,
    Post,
    Patch,
    Put,
}

/// The body of a request of the commit sequence, as the JSON document it stands for.
#[derive(Debug)]
pub enum CommitBody {
    /// No body.
    Empty,
    /// `{"content": content, "encoding": "utf-8"}`
    Blob { content: String },
    /// `{"base_tree": base_tree, "tree": [{"path": path, "mode": "100644", "type": "blob", "sha": sha}]}`
    Tree { base_tree: String, path: String, sha: String },
    /// `{"message": message, "parents": [parent], "tree": tree}`
    Commit { message: String, parent: String, tree: String },
    /// `{"sha": sha, "force": false}`
    Ref { sha: String },
    /// `{"message": message, "content": content, "sha": sha}`
    File { message: String, content: String, sha: String },
}

/// Mathematical value of a [`CommitBody`].
pub enum CommitBodyView {
    Empty,
    Blob { content: Seq<char> },
    Tree { base_tree: Seq<char>, path: Seq<char>, sha: Seq<char> },
    Commit { message: Seq<char>, parent: Seq<char>, tree: Seq<char> },
    Ref { sha: Seq<char> },
    File { message: Seq<char>, content: Seq<char>, sha: Seq<char> },
}

impl View for CommitBody {
    type V = CommitBodyView;

    open spec fn view(&self) -> CommitBodyView {
        match self {
            CommitBody::Empty => CommitBodyView::Empty,
            CommitBody::Blob { content } => CommitBodyView::Blob { content: content@ },
            CommitBody::Tree { base_tree, path, sha } => CommitBodyView::Tree { base_tree: base_tree@, path: path@, sha: sha@ },
            CommitBody::Commit { message, parent, tree } => CommitBodyView::Commit { message: message@, parent: parent@,
                tree: tree@ },
            CommitBody::Ref { sha } => CommitBodyView::Ref { sha: sha@ },
            CommitBody::File { message, content, sha } => CommitBodyView::File { message: message@, content: content@,
                sha: sha@ },
        }
    }
}

/// A request to the GitHub API with its `Authorization` and `User-Agent` headers.
#[derive(Debug)]
pub struct GitHubRequest {
    pub method: HttpMethod,
    pub url: String,
    pub authorization: String,
    pub user_agent: String,
    pub body: CommitBody,
}

/// Whether `r` is the request `method` to `{base}/repos/{owner}/{repo}/{rest}` of
/// provider `p` with `body`, authorised by `token {token}` and sent as
/// `hivemind-cicd`.
pub open spec fn is_request(p: &GitHubActionsProvider, r: GitHubRequest, method: HttpMethod, rest: Seq<char>,
    body: CommitBodyView) -> bool {
    &&& r.method == method
    &&& r.url@ == p.base_url@ + "/repos/"@ + p.owner@ + "/"@ + p.repo@ + "/"@ + rest
    &&& r.authorization@ == "token "@ + p.token@
    &&& r.user_agent@ == "hivemind-cicd"@
    &&& r.body@ == body
}

/// Where a pipeline's commit stands: its identifier, branch, name, workflow text
/// and file path, the step reached (0: reading the branch, 1: storing the file,
/// 2: making the tree, 3: making the commit, 4: moving the branch), and the
/// identifiers learnt so far.
#[derive(Debug)]
pub struct PipelineCommit {
    pub id: String,
    pub branch: String,
    pub name: String,
    pub workflow: String,
    pub path: String,
    pub stage: u32,
    pub parent: String,
    pub blob: String,
    pub tree: String,
}

/// Why creating a pipeline failed: a request at a step was refused, or its
/// answer lacked the identifier sought.
#[derive(Debug, Clone, PartialEq, Eq)]
pub enum PipelineError {
    RequestFailed(u32),
    InvalidResponse(u32),
    /// A file of the workflow directory has no name given as text.
    InvalidFileName,
}

/// What the driver does next.
#[derive(Debug)]
pub enum CommitStep {
    Send(GitHubRequest),
    Done(Result<String, PipelineError>),
}

/// The `sha` read from a JSON answer of the GitHub API (`serde_json::from_slice`
/// into a `serde_json::Value`), at `object.sha` when `nested` and at `sha`
/// otherwise, where it is text; nothing when the bytes are no JSON document.
pub uninterp spec fn answer_sha(b: Seq<u8>, nested: bool) -> Option<Seq<char>>;

/// The optional text as characters.
pub open spec fn opt_text(o: Option<String>) -> Option<Seq<char>> {
    match o {
        Some(s) => Some(s@),
        None => None,
    }
}

/// Reads the `sha` of an answer with `serde_json`: the result is the name
/// [`answer_sha`] applied to the bytes. Which bytes are JSON is not stated.
#[verifier::external_body]
fn read_sha(body: &Vec<u8>, nested: bool) -> (r: Option<String>)
    ensures
        opt_text(r) == answer_sha(body@, nested),
{
    let v: serde_json::Value = serde_json::from_slice(body).ok()?;
    let s = if nested { &v["object"]["sha"] } else { &v["sha"] };
    s.as_str().map(String::from)
}

/// The commit message of a pipeline named `name`.
pub open spec fn commit_message(name: Seq<char>) -> Seq<char> {
    "Add CI/CD pipeline: "@ + name
}

impl GitHubActionsProvider {
    /// A request `method` to `{base}/repos/{owner}/{repo}/{rest}` with `body`.
    fn request(&self, method: HttpMethod, rest: &str, body: CommitBody) -> (r: GitHubRequest)
        ensures
            is_request(self, r, method, rest@, body@),
    {
        let mut auth = owned("token ");
        push_str(&mut auth, self.token.as_str());
        GitHubRequest { method, url: self.repo_url(rest), authorization: auth, user_agent: owned("hivemind-cicd"), body }
    }

    /// Starts creating the pipeline of `config`: its workflow file (see
    /// [`workflow_text`]) is to be committed at its path (see [`workflow_path_of`])
    /// on the pipeline's branch, and the first request reads that branch.
    pub fn begin_create_pipeline(&self, config: &PipelineConfig) -> (r: (PipelineCommit, GitHubRequest))
        ensures
            r.0.id@ == config.id@ && r.0.branch@ == config.branch@ && r.0.name@ == config.name@,
            r.0.workflow@ == workflow_text(config),
            r.0.path@ == workflow_path_of(config.name@),
            r.0.stage == 0,
            is_request(self, r.1, HttpMethod::Get, "git/refs/heads/"@ + config.branch@, CommitBodyView::Empty),
    {
        let workflow = match self.generate_workflow_file(config) {
            Ok(w) => w,
            Err(_) => String::new(),
        };
        let st = PipelineCommit {
            id: config.id.clone(),
            branch: config.branch.clone(),
            name: config.name.clone(),
            workflow,
            path: workflow_path(config.name.as_str()),
            stage: 0,
            parent: String::new(),
            blob: String::new(),
            tree: String::new(),
        };
        let rest = concat("git/refs/heads/", config.branch.as_str());
        let req = self.request(HttpMethod::Get, rest.as_str(), CommitBody::Empty);
        (st, req)
    }

    /// The next step of creating a pipeline, given whether the last request
    /// succeeded and the body of its answer. A refused request ends it with
    /// [`PipelineError::RequestFailed`] at the step reached. Otherwise: the
    /// branch's head (`object.sha`) becomes the parent and the workflow text is
    /// stored as a blob; the blob's `sha` goes into a tree over the parent at the
    /// file's path; the tree's `sha` goes into a commit on the parent with the
    /// pipeline's message; the commit's `sha` is what the branch is moved to
    /// (not forced); and once the branch moved the pipeline's identifier is
    /// returned. An answer without the identifier sought ends it with
    /// [`PipelineError::InvalidResponse`] at that step.
    pub fn continue_create_pipeline(&self, st: &mut PipelineCommit, success: bool, body: &Vec<u8>) -> (r: CommitStep)
        requires
            old(st).stage <= 4,
        ensures
            final(st).stage <= 4,
            final(st).id == old(st).id && final(st).branch == old(st).branch && final(st).name == old(st).name,
            final(st).workflow == old(st).workflow && final(st).path == old(st).path,
            !success ==> (r matches CommitStep::Done(Err(e)) && e == PipelineError::RequestFailed(old(st).stage)),
            success && old(st).stage == 4 ==> (r matches CommitStep::Done(Ok(x)) && x@ == old(st).id@),
            success && old(st).stage < 4 ==> match answer_sha(body@, old(st).stage == 0) {
                None => r matches CommitStep::Done(Err(e)) && e == PipelineError::InvalidResponse(old(st).stage),
                Some(sha) => r matches CommitStep::Send(req) && final(st).stage == old(st).stage + 1 && (
                    if old(st).stage == 0 {
                        final(st).parent@ == sha
                            && is_request(self, req, HttpMethod::Post, "git/blobs"@,
                                CommitBodyView::Blob { content: old(st).workflow@ })
                    } else if old(st).stage == 1 {
                        final(st).blob@ == sha && final(st).parent == old(st).parent
                            && is_request(self, req, HttpMethod::Post, "git/trees"@,
                                CommitBodyView::Tree { base_tree: old(st).parent@, path: old(st).path@, sha })
                    } else if old(st).stage == 2 {
                        final(st).tree@ == sha && final(st).parent == old(st).parent
                            && is_request(self, req, HttpMethod::Post, "git/commits"@,
                                CommitBodyView::Commit { message: commit_message(old(st).name@), parent: old(st).parent@,
                                    tree: sha })
                    } else {
                        is_request(self, req, HttpMethod::Patch, "git/refs/heads/"@ + old(st).branch@,
                            CommitBodyView::Ref { sha })
                    }),
            },
    {
        if !success {
            return CommitStep::Done(Err(PipelineError::RequestFailed(st.stage)));
        }
        if st.stage == 4 {
            return CommitStep::Done(Ok(st.id.clone()));
        }
        let sha = match read_sha(body, st.stage == 0) {
            Some(s) => s,
            None => {
                return CommitStep::Done(Err(PipelineError::InvalidResponse(st.stage)));
            },
        };
        if st.stage == 0 {
            st.parent = sha;
            st.stage = 1;
            let b = CommitBody::Blob { content: st.workflow.clone() };
            CommitStep::Send(self.request(HttpMethod::Post, "git/blobs", b))
        } else if st.stage == 1 {
            st.blob = sha.clone();
            st.stage = 2;
            let b = CommitBody::Tree { base_tree: st.parent.clone(), path: st.path.clone(), sha };
            CommitStep::Send(self.request(HttpMethod::Post, "git/trees", b))
        } else if st.stage == 2 {
            st.tree = sha.clone();
            st.stage = 3;
            let b = CommitBody::Commit { message: concat("Add CI/CD pipeline: ", st.name.as_str()), parent: st.parent.clone(),
                tree: sha };
            CommitStep::Send(self.request(HttpMethod::Post, "git/commits", b))
        } else {
            st.stage = 4;
            let rest = concat("git/refs/heads/", st.branch.as_str());
            CommitStep::Send(self.request(HttpMethod::Patch, rest.as_str(), CommitBody::Ref { sha }))
        }
    }
}

/// Where a pipeline's update stands: its name, workflow text and file path,
/// and the step reached (0: reading the file, 1: writing it).
#[derive(Debug)]
pub struct PipelineUpdate {
    pub name: String,
    pub workflow: String,
    pub path: String,
    pub stage: u32,
}

/// What the driver of an update does next.
#[derive(Debug)]
pub enum UpdateStep {
    Send(GitHubRequest),
    Done(Result<(), PipelineError>),
}

/// The commit message of an update of the pipeline named `name`.
pub open spec fn update_message(name: Seq<char>) -> Seq<char> {
    "Update CI/CD pipeline: "@ + name
}

/// The names of the entries of a directory listing of the GitHub API
/// (`serde_json::from_slice` into a list of `serde_json::Value`, then `name`),
/// each where it is text; nothing when the bytes are no JSON list.
pub uninterp spec fn listing_names_json(b: Seq<u8>) -> Option<Seq<Option<Seq<char>>>>;

/// The names of a listing, as characters.
pub open spec fn opt_names(r: Option<Vec<Option<String>>>) -> Option<Seq<Option<Seq<char>>>> {
    match r {
        Some(v) => Some(v@.map_values(|n: Option<String>| opt_text(n))),
        None => None,
    }
}

/// Reads the entry names of a directory listing with `serde_json`: the result is
/// the name [`listing_names_json`] applied to the bytes. Which bytes are JSON
/// lists is not stated.
#[verifier::external_body]
fn listing_names(body: &Vec<u8>) -> (r: Option<Vec<Option<String>>>)
    ensures
        opt_names(r) == listing_names_json(body@),
{
    let files: Vec<serde_json::Value> = serde_json::from_slice(body).ok()?;
    Some(files.iter().map(|f| f["name"].as_str().map(String::from)).collect())
}

/// The pipeline names of the workflow files listed, in order (see
/// [`pipeline_name_of`]); entries whose name is not text are passed over.
pub open spec fn listed_pipeline_names(es: Seq<Option<Seq<char>>>) -> Seq<Seq<char>>
    decreases es.len(),
{
    if es.len() == 0 {
        Seq::empty()
    } else {
        let rest = listed_pipeline_names(es.drop_last());
        match es.last() {
            Some(f) => match pipeline_name_of(f) {
                Some(n) => rest.push(n),
                None => rest,
            },
            None => rest,
        }
    }
}

/// Whether `p` is the configuration given to a listed pipeline named `name` of
/// the repository of `prov` at `now`: a fresh 36-character id, branch `main`, an
/// empty build command, a rolling update of one replica to `production`, and
/// nothing else configured.
pub open spec fn default_pipeline_is(p: PipelineConfig, name: Seq<char>, prov: &GitHubActionsProvider, now: i64) -> bool {
    &&& p.id@.len() == 36
    &&& p.name@ == name
    &&& p.repository_url@ == "https://github.com/"@ + prov.owner@ + "/"@ + prov.repo@
    &&& p.branch@ == "main"@
    &&& p.build_config.build_command@ == ""@
    &&& p.build_config.docker_image is None && p.build_config.dockerfile_path is None
    &&& p.build_config.build_args@.len() == 0 && p.build_config.cache_config is None
    &&& p.deployment_config.strategy matches DeploymentStrategy::RollingUpdate { max_unavailable: 1, max_surge: 1 }
    &&& p.deployment_config.environment@ == "production"@
    &&& p.deployment_config.replicas == 1
    &&& p.deployment_config.resources is None && p.deployment_config.health_check_path is None
    &&& p.deployment_config.health_check is None && p.deployment_config.rollback is None
    &&& p.test_config is None && p.release_config is None && p.webhook_url is None
    &&& p.environment@.len() == 0
    &&& p.created_at == now && p.updated_at == now
}

impl GitHubActionsProvider {
    /// Starts updating the pipeline of `config`: its workflow file (see
    /// [`workflow_text`]) at its path (see [`workflow_path_of`]) is to be
    /// rewritten, and the first request reads the file's current version.
    pub fn begin_update_pipeline(&self, config: &PipelineConfig) -> (r: (PipelineUpdate, GitHubRequest))
        ensures
            r.0.name@ == config.name@,
            r.0.workflow@ == workflow_text(config),
            r.0.path@ == workflow_path_of(config.name@),
            r.0.stage == 0,
            is_request(self, r.1, HttpMethod::Get, "contents/"@ + workflow_path_of(config.name@), CommitBodyView::Empty),
    {
        let workflow = match self.generate_workflow_file(config) {
            Ok(w) => w,
            Err(_) => String::new(),
        };
        let path = workflow_path(config.name.as_str());
        let rest = concat("contents/", path.as_str());
        let req = self.request(HttpMethod::Get, rest.as_str(), CommitBody::Empty);
        (PipelineUpdate { name: config.name.clone(), workflow, path, stage: 0 }, req)
    }

    /// The next step of updating a pipeline, given whether the last request
    /// succeeded and the body of its answer. A refused request ends it with
    /// [`PipelineError::RequestFailed`] at the step reached. The file's `sha` read
    /// from the first answer goes with the new content (the workflow text's UTF-8
    /// bytes in standard base64) and the update message into a `PUT` of the file;
    /// an answer without it ends the update with
    /// [`PipelineError::InvalidResponse`]. Once the file is written the update
    /// succeeds.
    pub fn continue_update_pipeline(&self, st: &mut PipelineUpdate, success: bool, body: &Vec<u8>) -> (r: UpdateStep)
        requires
            old(st).stage <= 1,
        ensures
            final(st).stage <= 1,
            final(st).name == old(st).name && final(st).workflow == old(st).workflow && final(st).path == old(st).path,
            !success ==> (r matches UpdateStep::Done(Err(e)) && e == PipelineError::RequestFailed(old(st).stage)),
            success && old(st).stage == 1 ==> r matches UpdateStep::Done(Ok(_)),
            success && old(st).stage == 0 ==> match answer_sha(body@, false) {
                None => r matches UpdateStep::Done(Err(e)) && e == PipelineError::InvalidResponse(0),
                Some(sha) => r matches UpdateStep::Send(req) && final(st).stage == 1
                    && is_request(self, req, HttpMethod::Put, "contents/"@ + old(st).path@, CommitBodyView::File {
                        message: update_message(old(st).name@),
                        content: base64_standard(vstd::utf8::encode_utf8(old(st).workflow@)),
                        sha,
                    }),
            },
    {
        if !success {
            return UpdateStep::Done(Err(PipelineError::RequestFailed(st.stage)));
        }
        if st.stage == 1 {
            return UpdateStep::Done(Ok(()));
        }
        let sha = match read_sha(body, false) {
            Some(s) => s,
            None => {
                return UpdateStep::Done(Err(PipelineError::InvalidResponse(0)));
            },
        };
        st.stage = 1;
        let bytes = utf8_bytes(st.workflow.as_str());
        let content = base64_encode(&bytes);
        let b = CommitBody::File { message: concat("Update CI/CD pipeline: ", st.name.as_str()), content, sha };
        let rest = concat("contents/", st.path.as_str());
        UpdateStep::Send(self.request(HttpMethod::Put, rest.as_str(), b))
    }

    /// The request listing the repository's workflow directory.
    pub fn list_pipelines_request(&self) -> (r: GitHubRequest)
        ensures
            is_request(self, r, HttpMethod::Get, "contents/.github/workflows"@, CommitBodyView::Empty),
    {
        self.request(HttpMethod::Get, "contents/.github/workflows", CommitBody::Empty)
    }

    /// The pipelines of the repository from the listing of its workflow
    /// directory read at `now`: one default configuration (see
    /// [`default_pipeline_is`]) for each `.yml` or `.yaml` file, in order, named
    /// after it (see [`pipeline_name_of`]). A listing that is no JSON list is
    /// refused, and so is one with an entry whose name is not text.
    pub fn pipelines_from_listing(&self, body: &Vec<u8>, now: i64) -> (r: Result<Vec<PipelineConfig>, PipelineError>)
        ensures
            match listing_names_json(body@) {
                None => r == Err::<Vec<PipelineConfig>, PipelineError>(PipelineError::InvalidResponse(0)),
                Some(es) => if exists|i: int| 0 <= i < es.len() && #[trigger] es[i] is None {
                    r == Err::<Vec<PipelineConfig>, PipelineError>(PipelineError::InvalidFileName)
                } else {
                    r matches Ok(v) && v@.len() == listed_pipeline_names(es).len()
                        && forall|i: int| 0 <= i < v@.len() ==>
                            #[trigger] default_pipeline_is(v@[i], listed_pipeline_names(es)[i], self, now)
                },
            },
    {
        let names = match listing_names(body) {
            Some(n) => n,
            None => {
                return Err(PipelineError::InvalidResponse(0));
            },
        };
        let ghost es = opt_names(Some(names))->Some_0;
        let url = self.repository_url();
        let mut out: Vec<PipelineConfig> = Vec::new();
        let mut i: usize = 0;
        while i < names.len()
            invariant
                i <= names.len(),
                es == names@.map_values(|n: Option<String>| opt_text(n)),
                listing_names_json(body@) == Some(es),
                url@ == "https://github.com/"@ + self.owner@ + "/"@ + self.repo@,
                forall|j: int| 0 <= j < i ==> !(#[trigger] es[j] is None),
                out@.len() == listed_pipeline_names(es.take(i as int)).len(),
                forall|j: int| 0 <= j < out@.len() ==>
                    #[trigger] default_pipeline_is(out@[j], listed_pipeline_names(es.take(i as int))[j], self, now),
            decreases names.len() - i,
        {
            assert(es.take(i + 1).drop_last() =~= es.take(i as int));
            assert(es.take(i + 1).last() == es[i as int]);
            let file = match &names[i] {
                Some(f) => f,
                None => {
                    assert(es[i as int] is None);
                    assert(exists|k: int| 0 <= k < es.len() && #[trigger] es[k] is None);
                    return Err(PipelineError::InvalidFileName);
                },
            };
            match pipeline_name_from_file(file.as_str()) {
                Some(name) => {
                    let p = PipelineConfig {
                        id: new_uuid(),
                        name,
                        repository_url: url.clone(),
                        branch: owned("main"),
                        build_config: BuildConfig {
                            build_command: owned(""),
                            docker_image: None,
                            dockerfile_path: None,
                            build_args: Vec::new(),
                            cache_config: None,
                        },
                        deployment_config: DeploymentConfig {
                            strategy: DeploymentStrategy::RollingUpdate { max_unavailable: 1, max_surge: 1 },
                            environment: owned("production"),
                            replicas: 1,
                            resources: None,
                            health_check_path: None,
                            health_check: None,
                            rollback: None,
                        },
                        test_config: None,
                        release_config: None,
                        webhook_url: None,
                        environment: Vec::new(),
                        created_at: now,
                        updated_at: now,
                    };
                    out.push(p);
                },
                None => {},
            }
            i = i + 1;
        }
        assert(es.take(names.len() as int) =~= es);
        Ok(out)
    }
}

} // verus!
