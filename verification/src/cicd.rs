//! CI/CD pipelines: their configuration, GitHub Actions workflow files generated
//! from it, and the naming and status rules of the GitHub Actions provider.
use vstd::prelude::*;
use crate::text::{owned, push_str, concat, replace_chars, replace_char, is_suffix, ends_with, strip_suffixes, trim_end_matches, str_eq, decimal};

verus! {

/// Cache configuration of a build.
#[derive(Debug, Clone)]
pub struct CacheConfig {
    pub paths: Vec<String>,
    pub key: String,
    pub restore_keys: Vec<String>,
}

/// Build configuration of a pipeline.
#[derive(Debug, Clone)]
pub struct BuildConfig {
    pub build_command: String,
    pub docker_image: Option<String>,
    pub dockerfile_path: Option<String>,
    pub build_args: Vec<(String, String)>,
    pub cache_config: Option<CacheConfig>,
}

/// Deployment strategy of a pipeline.
#[derive(Debug, Clone)]
pub enum DeploymentStrategy {
    RollingUpdate { max_unavailable: u32, max_surge: u32 },
    BlueGreen { verification_timeout: u64 },
    Canary { percentage: u32, steps: Vec<u32>, interval: u64 },
}

/// Resources of a deployment.
#[derive(Debug, Clone)]
pub struct ResourceConfig {
    pub cpu_request: String,
    pub memory_request: String,
    pub cpu_limit: Option<String>,
    pub memory_limit: Option<String>,
}

/// Health check of a deployment.
#[derive(Debug, Clone, Copy, PartialEq, Eq)]
pub struct HealthCheckConfig {
    pub port: u16,
    pub initial_delay_seconds: u32,
    pub period_seconds: u32,
    pub timeout_seconds: u32,
    pub success_threshold: u32,
    pub failure_threshold: u32,
}

/// Rollback policy of a deployment.
#[derive(Debug, Clone, Copy, PartialEq, Eq, Structural)]
pub struct RollbackConfig {
    pub enabled: bool,
    pub revision_history_limit: u32,
}

/// Deployment configuration of a pipeline.
#[derive(Debug, Clone)]
pub struct DeploymentConfig {
    pub strategy: DeploymentStrategy,
    pub environment: String,
    pub replicas: u32,
    pub resources: Option<ResourceConfig>,
    pub health_check_path: Option<String>,
    pub health_check: Option<HealthCheckConfig>,
    pub rollback: Option<RollbackConfig>,
}

/// Test configuration of a pipeline.
#[derive(Debug, Clone)]
pub struct TestConfig {
    pub test_command: String,
    pub environment: Vec<(String, String)>,
    pub reports_path: Option<String>,
    pub timeout_seconds: u32,
    pub fail_on_test_failure: bool,
}

/// How releases are versioned.
#[derive(Debug, Clone)]
pub enum ReleaseType {
    Semver { auto_increment_major: bool, auto_increment_minor: bool, auto_increment_patch: bool },
    DateBased { format: String },
    Custom { template: String },
}

/// Container registry credentials.
#[derive(Debug, Clone)]
pub struct RegistryCredentials {
    pub username: String,
    pub password_encrypted: String,
}

/// Release configuration of a pipeline.
#[derive(Debug, Clone)]
pub struct ReleaseConfig {
    pub release_type: ReleaseType,
    pub tags: Vec<String>,
    pub release_notes_template: Option<String>,
    pub create_github_release: bool,
    pub publish_to_registry: bool,
    pub registry_url: Option<String>,
    pub registry_credentials: Option<RegistryCredentials>,
}

/// A pipeline configuration. Times are seconds since the Unix epoch.
#[derive(Debug, Clone)]
pub struct PipelineConfig {
    pub id: String,
    pub name: String,
    pub repository_url: String,
    pub branch: String,
    pub build_config: BuildConfig,
    pub deployment_config: DeploymentConfig,
    pub test_config: Option<TestConfig>,
    pub release_config: Option<ReleaseConfig>,
    pub webhook_url: Option<String>,
    pub environment: Vec<(String, String)>,
    pub created_at: i64,
    pub updated_at: i64,
}

/// Status of a pipeline run.
#[derive(Debug, Clone, PartialEq, Eq)]
pub enum PipelineStatus {
    Pending,
    Running,
    Success,
    Failed { error: String, stage: String },
    Cancelled,
}

/// An artifact produced by a pipeline run.
#[derive(Debug, Clone)]
pub struct PipelineArtifact {
    pub name: String,
    pub artifact_type: String,
    pub path: String,
    pub size_bytes: u64,
    pub checksum: Option<String>,
}

/// The GitHub Actions provider of a repository.
pub struct GitHubActionsProvider {
    pub base_url: String,
    pub token: String,
    pub owner: String,
    pub repo: String,
}

/// The strings of a list, each as characters.
pub open spec fn texts(v: Seq<String>) -> Seq<Seq<char>> {
    v.map_values(|s: String| s@)
}

/// `parts` joined with `sep` between consecutive parts.
pub open spec fn join(parts: Seq<Seq<char>>, sep: Seq<char>) -> Seq<char>
    decreases parts.len(),
{
    if parts.len() == 0 {
        Seq::empty()
    } else if parts.len() == 1 {
        parts[0]
    } else {
        join(parts.drop_last(), sep) + sep + parts.last()
    }
}

/// One line per item: `prefix`, the item, a newline.
pub open spec fn lines(prefix: Seq<char>, items: Seq<Seq<char>>) -> Seq<char>
    decreases items.len(),
{
    if items.len() == 0 {
        Seq::empty()
    } else {
        lines(prefix, items.drop_last()) + prefix + items.last() + "\n"@
    }
}

/// One `key: value` line per pair, indented by eight spaces.
pub open spec fn env_lines(env: Seq<(String, String)>) -> Seq<char>
    decreases env.len(),
{
    if env.len() == 0 {
        Seq::empty()
    } else {
        env_lines(env.drop_last()) + "        "@ + env.last().0@ + ": "@ + env.last().1@ + "\n"@
    }
}

/// An `env:` block with the pairs, or nothing when there are none.
pub open spec fn env_block(env: Seq<(String, String)>) -> Seq<char> {
    if env.len() == 0 { Seq::empty() } else { "      env:\n"@ + env_lines(env) }
}

/// The workflow's name, triggers and the start of the build job.
pub open spec fn workflow_head(c: &PipelineConfig) -> Seq<char> {
    "name: "@ + c.name@ + "\n\n"@ + "on:\n"@ + "  push:\n"@ + "    branches: [ "@ + c.branch@ + " ]\n"@
        + "  pull_request:\n"@ + "    branches: [ "@ + c.branch@ + " ]\n"@ + "  workflow_dispatch:\n\n"@ + "jobs:\n"@
        + "  build:\n"@ + "    runs-on: ubuntu-latest\n"@ + "    steps:\n"@ + "    - uses: actions/checkout@v3\n"@
}

/// The cache step, when a cache is configured.
pub open spec fn workflow_cache(c: &PipelineConfig) -> Seq<char> {
    match c.build_config.cache_config {
        Some(cc) => "    - name: Cache dependencies\n"@ + "      uses: actions/cache@v3\n"@ + "      with:\n"@
            + "        path: "@ + join(texts(cc.paths@), "\n          "@) + "\n"@ + "        key: "@ + cc.key@ + "\n"@
            + if cc.restore_keys@.len() == 0 {
                Seq::<char>::empty()
            } else {
                "        restore-keys: |\n"@ + lines("          "@, texts(cc.restore_keys@))
            },
        None => Seq::empty(),
    }
}

/// The build step and the pipeline's environment.
pub open spec fn workflow_build(c: &PipelineConfig) -> Seq<char> {
    "    - name: Build\n"@ + match c.build_config.docker_image {
        Some(img) => "      uses: docker://"@ + img@ + "\n"@,
        None => "      run: |\n"@ + "        "@ + c.build_config.build_command@ + "\n"@,
    } + env_block(c.environment@)
}

/// The opening of the test job, up to its command.
pub open spec fn test_intro(t: TestConfig) -> Seq<char> {
    "\n  test:\n"@ + "    needs: build\n"@ + "    runs-on: ubuntu-latest\n"@ + "    steps:\n"@
        + "    - uses: actions/checkout@v3\n"@ + "    - name: Test\n"@ + "      run: |\n"@ + "        "@
        + t.test_command@ + "\n"@
}

/// The step uploading test reports, when a reports path is configured.
pub open spec fn test_reports(t: TestConfig) -> Seq<char> {
    match t.reports_path {
        Some(p) => "    - name: Upload test results\n"@ + "      uses: actions/upload-artifact@v3\n"@
            + "      with:\n"@ + "        name: test-results\n"@ + "        path: "@ + p@ + "\n"@
            + "      if: always() && !cancelled()\n"@,
        None => Seq::empty(),
    }
}

/// The test job, when tests are configured.
pub open spec fn workflow_test(c: &PipelineConfig) -> Seq<char> {
    match c.test_config {
        Some(t) => test_intro(t) + env_block(t.environment@) + test_reports(t),
        None => Seq::empty(),
    }
}

/// The deploy job, after the tests when there are any.
pub open spec fn workflow_deploy(c: &PipelineConfig) -> Seq<char> {
    "\n  deploy:\n"@ + (if c.test_config is Some { "    needs: test\n"@ } else { "    needs: build\n"@ })
        + "    runs-on: ubuntu-latest\n"@ + "    steps:\n"@ + "    - uses: actions/checkout@v3\n"@
        + "    - name: Deploy\n"@ + "      run: |\n"@ + match c.deployment_config.strategy {
            DeploymentStrategy::RollingUpdate { .. } => "        echo \"Performing rolling update deployment\"\n"@
                + "        # Add your rolling update deployment commands here\n"@,
            DeploymentStrategy::BlueGreen { .. } => "        echo \"Performing blue-green deployment\"\n"@
                + "        # Add your blue-green deployment commands here\n"@,
            DeploymentStrategy::Canary { .. } => "        echo \"Performing canary deployment\"\n"@
                + "        # Add your canary deployment commands here\n"@,
        }
}

/// The opening of the release job.
pub open spec fn release_intro() -> Seq<char> {
    "\n  release:\n"@ + "    needs: deploy\n"@ + "    runs-on: ubuntu-latest\n"@ + "    steps:\n"@
        + "    - uses: actions/checkout@v3\n"@ + "    - name: Release\n"@
}

/// The step creating a GitHub release, when asked for.
pub open spec fn github_release_steps(r: ReleaseConfig) -> Seq<char> {
    if r.create_github_release {
        "    - name: Create GitHub Release\n"@ + "      id: create_release\n"@
            + "      uses: actions/create-release@v1\n"@ + "      env:\n"@
            + "        GITHUB_TOKEN: ${{ secrets.GITHUB_TOKEN }}\n"@ + "      with:\n"@
            + "        tag_name: ${{ github.ref }}\n"@ + "        release_name: Release ${{ github.ref }}\n"@
            + "        draft: false\n"@ + "        prerelease: false\n"@
    } else {
        Seq::empty()
    }
}

/// The registry login step.
pub open spec fn registry_login(r: ReleaseConfig) -> Seq<char> {
    "    - name: Login to Container Registry\n"@ + "      uses: docker/login-action@v2\n"@ + "      with:\n"@
        + (match r.registry_url { Some(u) => "        registry: "@ + u@ + "\n"@, None => Seq::empty() })
        + "        username: ${{ secrets.REGISTRY_USERNAME }}\n"@
        + "        password: ${{ secrets.REGISTRY_PASSWORD }}\n"@
}

/// The image build-and-push step.
pub open spec fn image_push(c: &PipelineConfig) -> Seq<char> {
    "    - name: Build and push Docker image\n"@ + "      uses: docker/build-push-action@v4\n"@
        + "      with:\n"@
        + (match c.build_config.dockerfile_path { Some(f) => "        file: "@ + f@ + "\n"@, None => Seq::empty() })
        + "        push: true\n"@ + "        tags: ${{ steps.meta.outputs.tags }}\n"@
}

/// The release job, when releases are configured.
pub open spec fn workflow_release(c: &PipelineConfig) -> Seq<char> {
    match c.release_config {
        Some(r) => release_intro() + github_release_steps(r)
            + (if r.publish_to_registry { registry_login(r) + image_push(c) } else { Seq::empty() }),
        None => Seq::empty(),
    }
}

/// The GitHub Actions workflow file of a pipeline.
pub open spec fn workflow_text(c: &PipelineConfig) -> Seq<char> {
    workflow_head(c) + workflow_cache(c) + workflow_build(c) + workflow_test(c) + workflow_deploy(c) + workflow_release(c)
}

/// Appends `parts` joined with `sep`.
fn push_joined(s: &mut String, parts: &Vec<String>, sep: &str)
    ensures
        final(s)@ == old(s)@ + join(texts(parts@), sep@),
{
    let mut i: usize = 0;
    let ghost t = texts(parts@);
    assert(t.take(0) =~= Seq::<Seq<char>>::empty());
    while i < parts.len()
        invariant
            i <= parts.len(),
            t == texts(parts@),
            s@ == old(s)@ + join(t.take(i as int), sep@),
        decreases parts.len() - i,
    {
        assert(t.take(i + 1).drop_last() =~= t.take(i as int));
        if i > 0 {
            push_str(s, sep);
        } else {
            assert(t.take(1) =~= seq![t[0]]);
        }
        push_str(s, parts[i].as_str());
        i = i + 1;
        assert(s@ =~= old(s)@ + join(t.take(i as int), sep@));
    }
    assert(t.take(parts@.len() as int) =~= t);
}

/// Appends one line per item.
fn push_lines(s: &mut String, prefix: &str, items: &Vec<String>)
    ensures
        final(s)@ == old(s)@ + lines(prefix@, texts(items@)),
{
    let mut i: usize = 0;
    let ghost t = texts(items@);
    assert(t.take(0) =~= Seq::<Seq<char>>::empty());
    while i < items.len()
        invariant
            i <= items.len(),
            t == texts(items@),
            s@ == old(s)@ + lines(prefix@, t.take(i as int)),
        decreases items.len() - i,
    {
        assert(t.take(i + 1).drop_last() =~= t.take(i as int));
        push_str(s, prefix);
        push_str(s, items[i].as_str());
        push_str(s, "\n");
        i = i + 1;
        assert(s@ =~= old(s)@ + lines(prefix@, t.take(i as int)));
    }
    assert(t.take(items@.len() as int) =~= t);
}

/// Appends the `env:` block of a list of pairs.
fn push_env_block(s: &mut String, env: &Vec<(String, String)>)
    ensures
        final(s)@ == old(s)@ + env_block(env@),
{
    if env.len() == 0 {
        assert(old(s)@ + env_block(env@) =~= old(s)@);
        return;
    }
    push_str(s, "      env:\n");
    let ghost base = s@;
    let mut i: usize = 0;
    assert(env@.take(0) =~= Seq::<(String, String)>::empty());
    while i < env.len()
        invariant
            i <= env.len(),
            s@ == base + env_lines(env@.take(i as int)),
        decreases env.len() - i,
    {
        assert(env@.take(i + 1).drop_last() =~= env@.take(i as int));
        push_str(s, "        ");
        push_str(s, env[i].0.as_str());
        push_str(s, ": ");
        push_str(s, env[i].1.as_str());
        push_str(s, "\n");
        i = i + 1;
        assert(s@ =~= base + env_lines(env@.take(i as int)));
    }
    assert(env@.take(env@.len() as int) =~= env@);
    assert(final(s)@ =~= old(s)@ + env_block(env@));
}

/// Appends the section [`workflow_head`] of the workflow.
fn push_workflow_head(w: &mut String, config: &PipelineConfig)
    ensures
        final(w)@ == old(w)@ + workflow_head(config),
{
        push_str(w, "name: ");
        push_str(w, config.name.as_str());
        push_str(w, "\n\n");
        push_str(w, "on:\n");
        push_str(w, "  push:\n");
        push_str(w, "    branches: [ ");
        push_str(w, config.branch.as_str());
        push_str(w, " ]\n");
        push_str(w, "  pull_request:\n");
        push_str(w, "    branches: [ ");
        push_str(w, config.branch.as_str());
        push_str(w, " ]\n");
        push_str(w, "  workflow_dispatch:\n\n");
        push_str(w, "jobs:\n");
        push_str(w, "  build:\n");
        push_str(w, "    runs-on: ubuntu-latest\n");
        push_str(w, "    steps:\n");
        push_str(w, "    - uses: actions/checkout@v3\n");
    assert(final(w)@ =~= old(w)@ + workflow_head(config));
}

/// Appends the section [`workflow_cache`] of the workflow.
fn push_workflow_cache(w: &mut String, config: &PipelineConfig)
    ensures
        final(w)@ == old(w)@ + workflow_cache(config),
{
        if let Some(cc) = &config.build_config.cache_config {
            push_str(w, "    - name: Cache dependencies\n");
            push_str(w, "      uses: actions/cache@v3\n");
            push_str(w, "      with:\n");
            push_str(w, "        path: ");
            push_joined(w, &cc.paths, "\n          ");
            push_str(w, "\n");
            push_str(w, "        key: ");
            push_str(w, cc.key.as_str());
            push_str(w, "\n");
            if cc.restore_keys.len() > 0 {
                push_str(w, "        restore-keys: |\n");
                push_lines(w, "          ", &cc.restore_keys);
            }
        }
    assert(final(w)@ =~= old(w)@ + workflow_cache(config));
}

/// Appends the section [`workflow_build`] of the workflow.
fn push_workflow_build(w: &mut String, config: &PipelineConfig)
    ensures
        final(w)@ == old(w)@ + workflow_build(config),
{
        push_str(w, "    - name: Build\n");
        match &config.build_config.docker_image {
            Some(img) => {
                push_str(w, "      uses: docker://");
                push_str(w, img.as_str());
                push_str(w, "\n");
            },
            None => {
                push_str(w, "      run: |\n");
                push_str(w, "        ");
                push_str(w, config.build_config.build_command.as_str());
                push_str(w, "\n");
            },
        }
        push_env_block(w, &config.environment);
    assert(final(w)@ =~= old(w)@ + workflow_build(config));
}

/// Appends the section [`workflow_test`] of the workflow.
fn push_workflow_test(w: &mut String, config: &PipelineConfig)
    ensures
        final(w)@ == old(w)@ + workflow_test(config),
{
        if let Some(t) = &config.test_config {
            push_str(w, "\n  test:\n");
            push_str(w, "    needs: build\n");
            push_str(w, "    runs-on: ubuntu-latest\n");
            push_str(w, "    steps:\n");
            push_str(w, "    - uses: actions/checkout@v3\n");
            push_str(w, "    - name: Test\n");
            push_str(w, "      run: |\n");
            push_str(w, "        ");
            push_str(w, t.test_command.as_str());
            push_str(w, "\n");
            assert(w@ =~= old(w)@ + test_intro(*t));
            let ghost g1 = w@;
            push_env_block(w, &t.environment);
            let ghost g2 = w@;
            if let Some(p) = &t.reports_path {
                push_str(w, "    - name: Upload test results\n");
                push_str(w, "      uses: actions/upload-artifact@v3\n");
                push_str(w, "      with:\n");
                push_str(w, "        name: test-results\n");
                push_str(w, "        path: ");
                push_str(w, p.as_str());
                push_str(w, "\n");
                push_str(w, "      if: always() && !cancelled()\n");
            }
            assert(w@ =~= g2 + test_reports(*t));
            assert(w@ =~= old(w)@ + test_intro(*t) + env_block(t.environment@) + test_reports(*t));
        }
    assert(final(w)@ =~= old(w)@ + workflow_test(config));
}

/// Appends the section [`workflow_deploy`] of the workflow.
fn push_workflow_deploy(w: &mut String, config: &PipelineConfig)
    ensures
        final(w)@ == old(w)@ + workflow_deploy(config),
{
        push_str(w, "\n  deploy:\n");
        if config.test_config.is_some() {
            push_str(w, "    needs: test\n");
        } else {
            push_str(w, "    needs: build\n");
        }
        push_str(w, "    runs-on: ubuntu-latest\n");
        push_str(w, "    steps:\n");
        push_str(w, "    - uses: actions/checkout@v3\n");
        push_str(w, "    - name: Deploy\n");
        push_str(w, "      run: |\n");
        match &config.deployment_config.strategy {
            DeploymentStrategy::RollingUpdate { .. } => {
                push_str(w, "        echo \"Performing rolling update deployment\"\n");
                push_str(w, "        # Add your rolling update deployment commands here\n");
            },
            DeploymentStrategy::BlueGreen { .. } => {
                push_str(w, "        echo \"Performing blue-green deployment\"\n");
                push_str(w, "        # Add your blue-green deployment commands here\n");
            },
            DeploymentStrategy::Canary { .. } => {
                push_str(w, "        echo \"Performing canary deployment\"\n");
                push_str(w, "        # Add your canary deployment commands here\n");
            },
        }
    assert(final(w)@ =~= old(w)@ + workflow_deploy(config));
}

/// Appends the GitHub release step, when asked for.
fn push_github_release(w: &mut String, r: &ReleaseConfig)
    ensures
        final(w)@ == old(w)@ + github_release_steps(*r),
{
    if r.create_github_release {
        push_str(w, "    - name: Create GitHub Release\n");
        push_str(w, "      id: create_release\n");
        push_str(w, "      uses: actions/create-release@v1\n");
        push_str(w, "      env:\n");
        push_str(w, "        GITHUB_TOKEN: ${{ secrets.GITHUB_TOKEN }}\n");
        push_str(w, "      with:\n");
        push_str(w, "        tag_name: ${{ github.ref }}\n");
        push_str(w, "        release_name: Release ${{ github.ref }}\n");
        push_str(w, "        draft: false\n");
        push_str(w, "        prerelease: false\n");
    }
    assert(final(w)@ =~= old(w)@ + github_release_steps(*r));
}

/// Appends the registry login step.
fn push_registry_login(w: &mut String, r: &ReleaseConfig)
    ensures
        final(w)@ == old(w)@ + registry_login(*r),
{
    push_str(w, "    - name: Login to Container Registry\n");
    push_str(w, "      uses: docker/login-action@v2\n");
    push_str(w, "      with:\n");
    if let Some(u) = &r.registry_url {
        push_str(w, "        registry: ");
        push_str(w, u.as_str());
        push_str(w, "\n");
    }
    push_str(w, "        username: ${{ secrets.REGISTRY_USERNAME }}\n");
    push_str(w, "        password: ${{ secrets.REGISTRY_PASSWORD }}\n");
    assert(final(w)@ =~= old(w)@ + registry_login(*r));
}

/// Appends the image build-and-push step.
fn push_image_push(w: &mut String, config: &PipelineConfig)
    ensures
        final(w)@ == old(w)@ + image_push(config),
{
    push_str(w, "    - name: Build and push Docker image\n");
    push_str(w, "      uses: docker/build-push-action@v4\n");
    push_str(w, "      with:\n");
    if let Some(f) = &config.build_config.dockerfile_path {
        push_str(w, "        file: ");
        push_str(w, f.as_str());
        push_str(w, "\n");
    }
    push_str(w, "        push: true\n");
    push_str(w, "        tags: ${{ steps.meta.outputs.tags }}\n");
    assert(final(w)@ =~= old(w)@ + image_push(config));
}

/// Appends the section [`workflow_release`] of the workflow.
fn push_workflow_release(w: &mut String, config: &PipelineConfig)
    ensures
        final(w)@ == old(w)@ + workflow_release(config),
{
    if let Some(r) = &config.release_config {
        push_str(w, "\n  release:\n");
        push_str(w, "    needs: deploy\n");
        push_str(w, "    runs-on: ubuntu-latest\n");
        push_str(w, "    steps:\n");
        push_str(w, "    - uses: actions/checkout@v3\n");
        push_str(w, "    - name: Release\n");
        assert(w@ =~= old(w)@ + release_intro());
        push_github_release(w, r);
        let ghost g = w@;
        if r.publish_to_registry {
            push_registry_login(w, r);
            push_image_push(w, config);
        }
        assert(w@ =~= g + (if r.publish_to_registry { registry_login(*r) + image_push(config) } else { Seq::empty() }));
    }
    assert(final(w)@ =~= old(w)@ + workflow_release(config));
}

impl GitHubActionsProvider {
    /// A provider for `owner/repo` using the public GitHub API.
    pub fn new(token: String, owner: String, repo: String) -> (p: Self)
        ensures
            p.base_url@ == "https://api.github.com"@,
            p.token == token,
            p.owner == owner,
            p.repo == repo,
    {
        GitHubActionsProvider { base_url: owned("https://api.github.com"), token, owner, repo }
    }

    /// The provider's name.
    pub fn name(&self) -> (r: &'static str)
        ensures
            r@ == "GitHub Actions"@,
    {
        "GitHub Actions"
    }

    /// The provider's description.
    pub fn description(&self) -> (r: &'static str)
        ensures
            r@ == "GitHub Actions CI/CD provider"@,
    {
        "GitHub Actions CI/CD provider"
    }

    /// The GitHub Actions workflow file of a pipeline (see [`workflow_text`]).
    pub fn generate_workflow_file(&self, config: &PipelineConfig) -> (r: Result<String, ()>)
        ensures
            r is Ok,
            r->Ok_0@ == workflow_text(config),
    {
        let mut w = String::new();
        push_workflow_head(&mut w, config);
        push_workflow_cache(&mut w, config);
        push_workflow_build(&mut w, config);
        push_workflow_test(&mut w, config);
        push_workflow_deploy(&mut w, config);
        push_workflow_release(&mut w, config);
        assert(w@ =~= workflow_text(config));
        Ok(w)
    }
}

/// What `str::to_lowercase` makes of a text.
pub uninterp spec fn lowercase(s: Seq<char>) -> Seq<char>;

/// The lowercase form of a text (`str::to_lowercase`, Unicode case mapping).
#[verifier::external_body]
pub fn to_lowercase(s: &str) -> (r: String)
    ensures
        r@ == lowercase(s@),
{
    s.to_lowercase()
}

/// The repository path of a pipeline's workflow file: spaces in the name become
/// underscores and the name is lowercased.
pub open spec fn workflow_path_of(name: Seq<char>) -> Seq<char> {
    ".github/workflows/"@ + lowercase(replace_char(name, ' ', '_')) + ".yml"@
}

/// The repository path of the workflow file of the pipeline named `name`.
pub fn workflow_path(name: &str) -> (r: String)
    ensures
        r@ == workflow_path_of(name@),
{
    let underscored = replace_chars(name, ' ', '_');
    let lower = to_lowercase(underscored.as_str());
    let mut r = owned(".github/workflows/");
    push_str(&mut r, lower.as_str());
    push_str(&mut r, ".yml");
    r
}

/// The pipeline a workflow file stands for: a `.yml` or `.yaml` file, named after
/// the file with those endings taken off and underscores made spaces.
pub open spec fn pipeline_name_of(file: Seq<char>) -> Option<Seq<char>> {
    if is_suffix(".yml"@, file) || is_suffix(".yaml"@, file) {
        Some(replace_char(strip_suffixes(strip_suffixes(file, ".yml"@), ".yaml"@), '_', ' '))
    } else {
        None
    }
}

/// The name of the pipeline a workflow file stands for (see [`pipeline_name_of`]).
pub fn pipeline_name_from_file(file: &str) -> (r: Option<String>)
    ensures
        match pipeline_name_of(file@) {
            Some(n) => r is Some && r->0@ == n,
            None => r is None,
        },
{
    if ends_with(file, ".yml") || ends_with(file, ".yaml") {
        let a = trim_end_matches(file, ".yml");
        let b = trim_end_matches(a.as_str(), ".yaml");
        Some(replace_chars(b.as_str(), '_', ' '))
    } else {
        None
    }
}

/// The status of a workflow run from GitHub's `status` and `conclusion`: queued
/// runs are pending, runs in progress are running, completed runs follow their
/// conclusion (success, failure or cancelled); anything else counts as pending.
pub fn run_status(status: &str, conclusion: Option<&str>) -> (r: PipelineStatus)
    ensures
        status@ == "queued"@ ==> r == PipelineStatus::Pending,
        status@ != "queued"@ && status@ == "in_progress"@ ==> r == PipelineStatus::Running,
        status@ != "queued"@ && status@ != "in_progress"@ ==> {
            if status@ == "completed"@ && conclusion is Some && conclusion->0@ == "success"@ {
                r == PipelineStatus::Success
            } else if status@ == "completed"@ && conclusion is Some && conclusion->0@ == "failure"@ {
                r matches PipelineStatus::Failed { error, stage } && error@ == "Workflow failed"@ && stage@ == "unknown"@
            } else if status@ == "completed"@ && conclusion is Some && conclusion->0@ == "cancelled"@ {
                r == PipelineStatus::Cancelled
            } else {
                r == PipelineStatus::Pending
            }
        },
{
    if str_eq(status, "queued") {
        return PipelineStatus::Pending;
    }
    if str_eq(status, "in_progress") {
        return PipelineStatus::Running;
    }
    if str_eq(status, "completed") {
        if let Some(c) = conclusion {
            if str_eq(c, "success") {
                return PipelineStatus::Success;
            }
            if str_eq(c, "failure") {
                return PipelineStatus::Failed { error: owned("Workflow failed"), stage: owned("unknown") };
            }
            if str_eq(c, "cancelled") {
                return PipelineStatus::Cancelled;
            }
        }
    }
    PipelineStatus::Pending
}

impl GitHubActionsProvider {
    /// The API address `{base}/repos/{owner}/{repo}/{rest}`.
    pub fn repo_url(&self, rest: &str) -> (r: String)
        ensures
            r@ == self.base_url@ + "/repos/"@ + self.owner@ + "/"@ + self.repo@ + "/"@ + rest@,
    {
        let mut r = self.base_url.clone();
        push_str(&mut r, "/repos/");
        push_str(&mut r, self.owner.as_str());
        push_str(&mut r, "/");
        push_str(&mut r, self.repo.as_str());
        push_str(&mut r, "/");
        push_str(&mut r, rest);
        r
    }

    /// The web address of the repository.
    pub fn repository_url(&self) -> (r: String)
        ensures
            r@ == "https://github.com/"@ + self.owner@ + "/"@ + self.repo@,
    {
        let mut r = owned("https://github.com/");
        push_str(&mut r, self.owner.as_str());
        push_str(&mut r, "/");
        push_str(&mut r, self.repo.as_str());
        r
    }
}

} // verus!
