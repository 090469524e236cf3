//! Deployment strategies and the plans they follow: which containers a rolling
//! update replaces in each batch, how a rollback proceeds, and how canary and A/B
//! deployments split replicas and traffic.
use vstd::prelude::*;
use crate::text::{owned, push_str, push_decimal, decimal, concat};
use crate::assoc::{as_map, keys_distinct, find_key, insert_key, get_key, lemma_key_pos, lemma_as_map_index, lemma_as_map_update};
use crate::containers::{new_uuid, ContainerStatus};

verus! {

/// An A/B testing variant.
#[derive(Debug, Clone)]
pub struct ABTestingVariant {
    pub name: String,
    /// Share of traffic, in percent.
    pub percentage: u32,
    pub image: String,
    pub environment: Vec<(String, String)>,
}

/// How a deployment replaces the running version.
#[derive(Debug, Clone)]
pub enum DeploymentStrategy {
    Simple,
    RollingUpdate {
        max_unavailable: u32,
        max_surge: u32,
        batch_size: Option<u32>,
        batch_delay: Option<u64>,
        zero_downtime: Option<bool>,
        health_check_path: Option<String>,
        health_check_port: Option<u16>,
        health_check_timeout: Option<u64>,
        drain_timeout: Option<u64>,
    },
    BlueGreen { verification_timeout: u64 },
    Canary { percentage: u32, steps: Vec<u32>, interval: u64 },
    ABTesting { variants: Vec<ABTestingVariant>, duration: u64 },
}

/// Progress of a deployment.
#[derive(Debug, Clone, PartialEq, Eq)]
pub enum DeploymentStatusEnum {
    Pending,
    InProgress { current_step: u32, total_steps: u32, current_replicas: u32, target_replicas: u32 },
    Completed,
    Failed { error: String },
    RollingBack,
    RolledBack { error: String },
}

/// One batch of a rollout: the positions of the running containers it removes, the
/// names of the containers it starts, the pause after it, in seconds, and whether
/// the new containers are started (and verified) before the old ones are removed,
/// as a rollout without downtime does, or after.
#[derive(Debug, Clone)]
pub struct BatchPlan {
    pub remove: Vec<u32>,
    pub create: Vec<String>,
    pub delay_after: u64,
    pub create_first: bool,
}

/// Errors of deployment planning.
#[derive(Debug, Clone, PartialEq, Eq)]
pub enum DeploymentError {
    /// The strategy does not fit the executor.
    InvalidStrategy,
    /// A batch size of zero cannot replace running containers.
    ZeroBatchSize,
    /// No deployment has the identifier.
    NotFound(String),
}

/// The consecutive positions `a..b`.
pub open spec fn positions(a: int, b: int) -> Seq<u32> {
    Seq::new(if b > a { (b - a) as nat } else { 0 }, |k: int| (a + k) as u32)
}

/// Container names `app-i{suffix}` for `i` in `a..b`.
pub open spec fn replica_names(app: Seq<char>, a: int, b: int, suffix: Seq<char>) -> Seq<Seq<char>> {
    Seq::new(if b > a { (b - a) as nat } else { 0 }, |k: int| app + "-"@ + decimal((a + k) as nat) + suffix)
}

/// The smaller of two integers.
pub open spec fn min_int(a: int, b: int) -> int {
    if a < b { a } else { b }
}

/// `ceil(a / b)` for positive `b`.
pub open spec fn ceil_div(a: int, b: int) -> int {
    (a + b - 1) / b
}

/// The view of a batch: removed positions, started names, pause.
pub open spec fn batch_view(b: BatchPlan) -> (Seq<u32>, Seq<Seq<char>>, u64) {
    (b.remove@, b.create@.map_values(|s: String| s@), b.delay_after)
}

/// The batch size of a rolling update: the configured one, or the smallest of the
/// unavailability budget, the running count and the target count.
pub open spec fn rolling_batch_size(batch_size: Option<u32>, max_unavailable: u32, current: u32, target: u32) -> int {
    match batch_size {
        Some(b) => b as int,
        None => min_int(max_unavailable as int, min_int(current as int, target as int)),
    }
}

/// Without a configured batch size, a rolling update replaces at most as many
/// containers at once as its unavailability budget, the running count and the
/// target count each allow, and no fewer than the least of them; a configured
/// batch size is used as it is.
pub proof fn law_rolling_batch_size(batch_size: Option<u32>, max_unavailable: u32, current: u32, target: u32)
    ensures
        batch_size is None ==> {
            let bs = rolling_batch_size(batch_size, max_unavailable, current, target);
            &&& bs <= max_unavailable && bs <= current && bs <= target
            &&& bs == max_unavailable || bs == current || bs == target
        },
        batch_size matches Some(b) ==> rolling_batch_size(batch_size, max_unavailable, current, target) == b,
{
}

/// The number of batches of a rolling update: enough batches of `bs` to cover the
/// running containers, and one when none run.
pub open spec fn rolling_batch_count(current: u32, bs: int) -> int {
    if current > 0 { ceil_div(current as int, bs) } else { 1 }
}

/// Batch `b` of a rolling update of `app` with batch size `bs`, `count` batches,
/// `current` running and `target` wanted containers: it removes running positions
/// `b*bs..min((b+1)*bs, current)` and starts the replicas at those positions that are
/// below the target (named with `-new` when replacing without downtime), then pauses
/// `delay` seconds unless it is the last batch.
pub open spec fn rolling_batch(app: Seq<char>, bs: int, count: int, current: u32, target: u32, delay: u64,
    zero_downtime: bool, b: int) -> (Seq<u32>, Seq<Seq<char>>, u64) {
    let start = b * bs;
    let end = min_int((b + 1) * bs, current as int);
    (positions(start, end),
        replica_names(app, start, min_int(end, target as int), if zero_downtime { "-new"@ } else { Seq::empty() }),
        if delay > 0 && b < count - 1 { delay } else { 0 })
}

/// Batch `b` of a rollback without downtime (batch size `bs`, `count` batches):
/// starts `app-rollback-i` for each position `i` of the batch, then removes those
/// running positions, then pauses `delay` seconds unless it is the last batch.
pub open spec fn rollback_batch(app: Seq<char>, bs: int, count: int, current: u32, delay: u64, b: int)
    -> (Seq<u32>, Seq<Seq<char>>, u64) {
    let start = b * bs;
    let end = min_int((b + 1) * bs, current as int);
    (positions(start, end), replica_names(app + "-rollback"@, start, end, Seq::empty()),
        if delay > 0 && b < count - 1 { delay } else { 0 })
}

/// Appends `app-i{suffix}` names for `i` in `a..b`.
fn push_names(out: &mut Vec<String>, app: &str, a: u64, b: u64, suffix: &str)
    ensures
        final(out)@.map_values(|s: String| s@) == old(out)@.map_values(|s: String| s@) + replica_names(app@, a as int, b as int, suffix@),
{
    let ghost base = old(out)@.map_values(|s: String| s@);
    if a >= b {
        assert(replica_names(app@, a as int, b as int, suffix@) =~= Seq::<Seq<char>>::empty());
        assert(base + Seq::<Seq<char>>::empty() =~= base);
        return;
    }
    let mut i = a;
    assert(replica_names(app@, a as int, a as int, suffix@) =~= Seq::<Seq<char>>::empty());
    assert(base + Seq::<Seq<char>>::empty() =~= base);
    while i < b
        invariant
            a <= i <= b,
            out@.map_values(|s: String| s@) == base + replica_names(app@, a as int, i as int, suffix@),
        decreases b - i,
    {
        let ghost o0 = out@;
        let mut n = concat(app, "-");
        push_decimal(&mut n, i);
        push_str(&mut n, suffix);
        let ghost nv = n@;
        out.push(n);
        assert(out@.map_values(|s: String| s@) =~= o0.map_values(|s: String| s@).push(nv));
        assert(replica_names(app@, a as int, i + 1, suffix@) =~= replica_names(app@, a as int, i as int, suffix@).push(nv));
        i = i + 1;
    }
}

/// The positions `a..b`.
fn position_range(a: u64, b: u64) -> (r: Vec<u32>)
    requires
        b <= u32::MAX,
    ensures
        r@ == positions(a as int, b as int),
{
    let mut r: Vec<u32> = Vec::new();
    if a >= b {
        assert(r@ =~= positions(a as int, b as int));
        return r;
    }
    let mut i = a;
    assert(r@ =~= positions(a as int, a as int));
    while i < b
        invariant
            a <= i <= b,
            b <= u32::MAX,
            r@ == positions(a as int, i as int),
        decreases b - i,
    {
        r.push(i as u32);
        assert(r@ =~= positions(a as int, i + 1));
        i = i + 1;
    }
    r
}

/// The plan of a rolling update of `app` from `current` running containers to
/// `target` replicas (see [`rolling_batch`]). The batch size is the configured one
/// or the default of [`rolling_batch_size`]; the pause between batches defaults to
/// five seconds. A batch size of zero with containers running is refused.
pub fn rolling_update_plan(app: &str, strategy: &DeploymentStrategy, current: u32, target: u32)
    -> (r: Result<(u32, Vec<BatchPlan>), DeploymentError>)
    ensures
        match strategy {
            DeploymentStrategy::RollingUpdate { max_unavailable, batch_size, batch_delay, zero_downtime, .. } => {
                let bs = rolling_batch_size(*batch_size, *max_unavailable, current, target);
                let delay = match batch_delay { Some(d) => *d, None => 5 };
                let zd = match zero_downtime { Some(z) => *z, None => false };
                if current > 0 && bs == 0 {
                    r == Err::<(u32, Vec<BatchPlan>), DeploymentError>(DeploymentError::ZeroBatchSize)
                } else {
                    let count = rolling_batch_count(current, bs);
                    &&& r is Ok
                    &&& r->Ok_0.0 == bs
                    &&& r->Ok_0.1@.len() == count
                    &&& forall|b: int| 0 <= b < count ==> #[trigger] batch_view(r->Ok_0.1@[b])
                        == rolling_batch(app@, bs, count, current, target, delay, zd, b)
                    &&& forall|b: int| 0 <= b < count ==> #[trigger] r->Ok_0.1@[b].create_first == zd
                }
            },
            _ => r == Err::<(u32, Vec<BatchPlan>), DeploymentError>(DeploymentError::InvalidStrategy),
        },
        match strategy {
            DeploymentStrategy::RollingUpdate { max_unavailable, batch_size, .. } => r is Ok ==> match batch_size {
                None => r->Ok_0.0 <= *max_unavailable && r->Ok_0.0 <= current && r->Ok_0.0 <= target
                    && (r->Ok_0.0 == *max_unavailable || r->Ok_0.0 == current || r->Ok_0.0 == target),
                Some(b) => r->Ok_0.0 == *b,
            },
            _ => true,
        },
{
    proof {
        if let DeploymentStrategy::RollingUpdate { max_unavailable, batch_size, .. } = strategy {
            law_rolling_batch_size(*batch_size, *max_unavailable, current, target);
        }
    }
    match strategy {
        DeploymentStrategy::RollingUpdate { max_unavailable, batch_size, batch_delay, zero_downtime, .. } => {
            let bs: u32 = match batch_size {
                Some(b) => *b,
                None => {
                    let m = if current < target { current } else { target };
                    if *max_unavailable < m { *max_unavailable } else { m }
                },
            };
            let delay: u64 = match batch_delay { Some(d) => *d, None => 5 };
            let zd: bool = match zero_downtime { Some(z) => *z, None => false };
            if current > 0 && bs == 0 {
                return Err(DeploymentError::ZeroBatchSize);
            }
            let count: u64 = if current > 0 { (current as u64 + bs as u64 - 1) / bs as u64 } else { 1 };
            assert(count <= 4294967296u64) by (nonlinear_arith)
                requires count == (if current > 0 { (current as int + bs as int - 1) / bs as int } else { 1 }),
                    current > 0 ==> bs > 0, current <= 4294967295int, bs <= 4294967295int;
            let mut batches: Vec<BatchPlan> = Vec::new();
            let mut b: u64 = 0;
            while b < count
                invariant
                    b <= count,
                    count == rolling_batch_count(current, bs as int),
                    count <= 4294967296u64,
                    current > 0 ==> bs > 0,
                    batches@.len() == b,
                    forall|k: int| 0 <= k < b ==> #[trigger] batch_view(batches@[k])
                        == rolling_batch(app@, bs as int, count as int, current, target, delay, zd, k),
                    forall|k: int| 0 <= k < b ==> #[trigger] batches@[k].create_first == zd,
                decreases count - b,
            {
                assert((b as int) * (bs as int) < 18446744073709551616int) by (nonlinear_arith)
                    requires b < count, count <= 4294967296int, bs <= 4294967295int;
                let start: u64 = (b as u128 * bs as u128) as u64;
                assert((b as int + 1) * (bs as int) <= 18446744073709551616int * 2) by (nonlinear_arith)
                    requires b < count, count <= 4294967296int, bs <= 4294967295int;
                let hi: u128 = (b as u128 + 1) * bs as u128;
                let end: u64 = if hi < current as u128 { hi as u64 } else { current as u64 };
                let made_end: u64 = if end < target as u64 { end } else { target as u64 };
                let remove = position_range(start, end);
                let mut create: Vec<String> = Vec::new();
                push_names(&mut create, app, start, made_end, if zd { "-new" } else { "" });
                let delay_after: u64 = if delay > 0 && b + 1 < count { delay } else { 0 };
                let plan = BatchPlan { remove, create, delay_after, create_first: zd };
                proof {
                    reveal_strlit("");
                    assert((if zd { "-new" } else { "" })@ == (if zd { "-new"@ } else { Seq::<char>::empty() }));
                    assert(Seq::<String>::empty().map_values(|s: String| s@) =~= Seq::<Seq<char>>::empty());
                }
                assert(batch_view(plan) == rolling_batch(app@, bs as int, count as int, current, target, delay, zd, b as int));
                batches.push(plan);
                b = b + 1;
            }
            Ok((bs, batches))
        },
        _ => Err(DeploymentError::InvalidStrategy),
    }
}

/// How many checks of a batch's new containers fail before the batch is given up.
pub const MAX_VERIFY_ROUNDS: u32 = 10;

/// What follows one check of the new containers of a batch without downtime.
#[derive(Debug, Clone, Copy, PartialEq, Eq, Structural)]
pub enum VerifyStep {
    /// All run: register them, wait for connections to drain, remove the old ones.
    Proceed,
    /// Check again after five seconds.
    Retry,
    /// Delete the new containers and fail the rollout.
    Abort,
}

/// Whether every new container was found running.
pub open spec fn all_running(s: Seq<Option<ContainerStatus>>) -> bool {
    forall|i: int| 0 <= i < s.len() ==> #[trigger] s[i] == Some(ContainerStatus::Running)
}

/// The decision after checking the new containers of a batch, whose statuses
/// (`None` for one not found) are `statuses`, when `failed_before` checks failed
/// already: go on once all run; otherwise check again, unless this was the
/// [`MAX_VERIFY_ROUNDS`]th failed check, which gives the batch up.
pub fn verify_step(statuses: &Vec<Option<ContainerStatus>>, failed_before: u32) -> (r: VerifyStep)
    ensures
        r == if all_running(statuses@) {
            VerifyStep::Proceed
        } else if failed_before + 1 < MAX_VERIFY_ROUNDS {
            VerifyStep::Retry
        } else {
            VerifyStep::Abort
        },
{
    let mut i: usize = 0;
    while i < statuses.len()
        invariant
            i <= statuses.len(),
            forall|j: int| 0 <= j < i ==> #[trigger] statuses@[j] == Some(ContainerStatus::Running),
        decreases statuses.len() - i,
    {
        let ok = match statuses[i] {
            Some(ContainerStatus::Running) => true,
            _ => false,
        };
        if !ok {
            if failed_before < MAX_VERIFY_ROUNDS - 1 {
                return VerifyStep::Retry;
            } else {
                return VerifyStep::Abort;
            }
        }
        i = i + 1;
    }
    VerifyStep::Proceed
}

/// The image a rollback returns to.
pub const PREVIOUS_VERSION: &'static str = "previous-version";

/// How a rollback proceeds: batch by batch without downtime, or by removing the
/// application and starting the named replicas again.
#[derive(Debug, Clone)]
pub enum RollbackPlan {
    Batches(Vec<BatchPlan>),
    Redeploy(Vec<String>),
}

/// Whether a strategy rolls back in batches: a rolling update configured without
/// downtime.
pub open spec fn rolls_back_in_batches(strategy: DeploymentStrategy) -> bool {
    strategy matches DeploymentStrategy::RollingUpdate { zero_downtime: Some(true), .. }
}

/// The plan of a rollback of `app` with `current` running containers and
/// `replicas` wanted (the image is [`PREVIOUS_VERSION`]). A rolling update
/// configured without downtime rolls back in `batch_count` batches of
/// `batch_size` (see [`rollback_batch`]), with its pause between batches (five
/// seconds by default); anything else removes the application and starts `app-0`,
/// `app-1`, ... again.
pub fn rollback_plan(app: &str, strategy: &DeploymentStrategy, current: u32, replicas: u32, batch_size: u32, batch_count: u32)
    -> (r: RollbackPlan)
    requires
        rolls_back_in_batches(*strategy) ==> batch_size >= 1 && (batch_count as int) * (batch_size as int) <= u32::MAX,
    ensures
        ({
            let delay = match strategy {
                DeploymentStrategy::RollingUpdate { batch_delay, .. } => match batch_delay { Some(d) => *d, None => 5u64 },
                _ => 5u64,
            };
            if rolls_back_in_batches(*strategy) {
                &&& r is Batches
                &&& r->Batches_0@.len() == batch_count
                &&& forall|b: int| 0 <= b < batch_count ==> #[trigger] batch_view(r->Batches_0@[b])
                    == rollback_batch(app@, batch_size as int, batch_count as int, current, delay, b)
                &&& forall|b: int| 0 <= b < batch_count ==> #[trigger] r->Batches_0@[b].create_first
            } else {
                &&& r is Redeploy
                &&& r->Redeploy_0@.map_values(|s: String| s@) == replica_names(app@, 0, replicas as int, Seq::empty())
            }
        }),
{
    let (delay, zd): (u64, bool) = match strategy {
        DeploymentStrategy::RollingUpdate { batch_delay, zero_downtime, .. } =>
            (match batch_delay { Some(d) => *d, None => 5 }, match zero_downtime { Some(z) => *z, None => false }),
        _ => (5, false),
    };
    proof {
        reveal_strlit("");
    }
    if !zd {
        let mut names: Vec<String> = Vec::new();
        push_names(&mut names, app, 0, replicas as u64, "");
        assert(Seq::<String>::empty().map_values(|s: String| s@) =~= Seq::<Seq<char>>::empty());
        assert(names@.map_values(|s: String| s@) =~= replica_names(app@, 0, replicas as int, Seq::empty()));
        return RollbackPlan::Redeploy(names);
    }
    let bs = batch_size;
    let count = batch_count as u64;
    let rb = concat(app, "-rollback");
    let mut batches: Vec<BatchPlan> = Vec::new();
    let mut b: u64 = 0;
    while b < count
        invariant
            b <= count,
            count == batch_count,
            (count as int) * (bs as int) <= u32::MAX,
            bs >= 1,
            bs == batch_size,
            rb@ == app@ + "-rollback"@,
            batches@.len() == b,
            forall|k: int| 0 <= k < b ==> #[trigger] batch_view(batches@[k])
                == rollback_batch(app@, bs as int, count as int, current, delay, k),
            forall|k: int| 0 <= k < b ==> #[trigger] batches@[k].create_first,
        decreases count - b,
    {
        assert((b as int + 1) * (bs as int) <= (count as int) * (bs as int)
            && (b as int) * (bs as int) <= (b as int + 1) * (bs as int)) by (nonlinear_arith)
            requires b < count, bs >= 1;
        let start: u64 = b * bs as u64;
        let hi: u64 = (b + 1) * bs as u64;
        let end: u64 = if hi < current as u64 { hi } else { current as u64 };
        let remove = position_range(start, end);
        let mut create: Vec<String> = Vec::new();
        push_names(&mut create, rb.as_str(), start, end, "");
        let delay_after: u64 = if delay > 0 && b + 1 < count { delay } else { 0 };
        let plan = BatchPlan { remove, create, delay_after, create_first: true };
        proof {
            reveal_strlit("");
            assert(Seq::<String>::empty().map_values(|s: String| s@) =~= Seq::<Seq<char>>::empty());
        }
        assert(batch_view(plan) == rollback_batch(app@, bs as int, count as int, current, delay, b as int));
        batches.push(plan);
        b = b + 1;
    }
    RollbackPlan::Batches(batches)
}

/// One call of a rollback with downtime, made to the application manager.
#[derive(Debug, Clone)]
pub enum RollbackCall {
    /// Remove every container of the application.
    DeleteApp(String),
    /// Start a container `name` of `image` in service `service` with `env`.
    Deploy { image: String, name: String, service: String, env: Vec<(String, String)> },
}

/// Mathematical value of a [`RollbackCall`].
pub enum RollbackCallView {
    DeleteApp(Seq<char>),
    Deploy { image: Seq<char>, name: Seq<char>, service: Seq<char>, env: Seq<(Seq<char>, Seq<char>)> },
}

/// The key-value pairs as characters.
pub open spec fn env_view(v: Seq<(String, String)>) -> Seq<(Seq<char>, Seq<char>)> {
    v.map_values(|p: (String, String)| (p.0@, p.1@))
}

impl View for RollbackCall {
    type V = RollbackCallView;

    open spec fn view(&self) -> RollbackCallView {
        match self {
            RollbackCall::DeleteApp(a) => RollbackCallView::DeleteApp(a@),
            RollbackCall::Deploy { image, name, service, env } => RollbackCallView::Deploy {
                image: image@, name: name@, service: service@, env: env_view(env@) },
        }
    }
}

/// The calls of a rollback with downtime of `app`: the application is deleted
/// first, then each replica in `names`, in order, is started from the previous
/// version's image in the application's service with `env`.
pub open spec fn redeploy_call_views(app: Seq<char>, names: Seq<Seq<char>>, env: Seq<(Seq<char>, Seq<char>)>)
    -> Seq<RollbackCallView> {
    seq![RollbackCallView::DeleteApp(app)] + names.map_values(|n: Seq<char>| RollbackCallView::Deploy {
        image: PREVIOUS_VERSION@, name: n, service: app, env })
}

/// A copy of the key-value pairs.
fn copy_env(v: &Vec<(String, String)>) -> (r: Vec<(String, String)>)
    ensures
        env_view(r@) == env_view(v@),
{
    let mut r: Vec<(String, String)> = Vec::new();
    let mut i: usize = 0;
    while i < v.len()
        invariant
            i <= v.len(),
            r@.len() == i,
            forall|j: int| 0 <= j < i ==> (#[trigger] r@[j]).0@ == v@[j].0@ && r@[j].1@ == v@[j].1@,
        decreases v.len() - i,
    {
        let k = v[i].0.clone();
        let x = v[i].1.clone();
        r.push((k, x));
        i = i + 1;
    }
    assert(env_view(r@) =~= env_view(v@));
    r
}

/// The calls of a rollback with downtime of `app` that starts the replicas
/// `names` (as [`rollback_plan`] gives them) with `env` (see [`redeploy_call_views`]).
pub fn redeploy_calls(app: &str, names: &Vec<String>, env: &Vec<(String, String)>) -> (r: Vec<RollbackCall>)
    ensures
        r@.map_values(|c: RollbackCall| c@) == redeploy_call_views(app@, names@.map_values(|s: String| s@), env_view(env@)),
{
    let ghost target = redeploy_call_views(app@, names@.map_values(|s: String| s@), env_view(env@));
    let mut r: Vec<RollbackCall> = Vec::new();
    r.push(RollbackCall::DeleteApp(owned(app)));
    let mut i: usize = 0;
    while i < names.len()
        invariant
            i <= names.len(),
            target == redeploy_call_views(app@, names@.map_values(|s: String| s@), env_view(env@)),
            r@.len() == i + 1,
            forall|k: int| 0 <= k < r@.len() ==> #[trigger] r@[k]@ == target[k],
        decreases names.len() - i,
    {
        let c = RollbackCall::Deploy { image: owned(PREVIOUS_VERSION), name: names[i].clone(), service: owned(app),
            env: copy_env(env) };
        proof {
            reveal_strlit("previous-version");
        }
        r.push(c);
        i = i + 1;
    }
    assert(r@.map_values(|c: RollbackCall| c@) =~= target);
    r
}

/// A copy of a call.
pub fn copy_call(c: &RollbackCall) -> (r: RollbackCall)
    ensures
        r@ == c@,
{
    match c {
        RollbackCall::DeleteApp(a) => RollbackCall::DeleteApp(a.clone()),
        RollbackCall::Deploy { image, name, service, env } => RollbackCall::Deploy { image: image.clone(),
            name: name.clone(), service: service.clone(), env: copy_env(env) },
    }
}

/// What a rollback driver does next.
#[derive(Debug)]
pub enum RollbackStep {
    /// Make this call and report its outcome.
    Call(RollbackCall),
    /// The rollback is over with this outcome.
    Finish(Result<(), String>),
}

/// The outcome as characters.
pub open spec fn result_view(r: Result<(), String>) -> Result<(), Seq<char>> {
    match r {
        Ok(_) => Ok(()),
        Err(e) => Err(e@),
    }
}

/// The next step of a rollback that has made the first `done` of `calls`, the
/// last of which ended with `last` (`Ok` when none was made): a failed call ends
/// the rollback with its error and no later call is made; otherwise the next
/// call is made, and once all are made the rollback succeeds.
pub fn rollback_step(calls: &Vec<RollbackCall>, done: usize, last: &Result<(), String>) -> (r: RollbackStep)
    ensures
        match last {
            Err(e) => r matches RollbackStep::Finish(Err(x)) && x@ == e@,
            Ok(_) => if done < calls@.len() {
                r matches RollbackStep::Call(c) && c@ == calls@[done as int]@
            } else {
                r matches RollbackStep::Finish(Ok(_))
            },
        },
{
    match last {
        Err(e) => RollbackStep::Finish(Err(e.clone())),
        Ok(_) => if done < calls.len() {
            RollbackStep::Call(copy_call(&calls[done]))
        } else {
            RollbackStep::Finish(Ok(()))
        },
    }
}

/// Running a rollback of `n` calls whose outcomes would be `results`, from call
/// `done` on with `last` the outcome of the call before: the number of calls made
/// in all and the rollback's outcome, as [`rollback_step`] drives it.
pub open spec fn rollback_run(n: nat, results: Seq<Result<(), Seq<char>>>, done: nat, last: Result<(), Seq<char>>)
    -> (nat, Result<(), Seq<char>>)
    decreases n - done,
{
    match last {
        Err(e) => (done, Err(e)),
        Ok(_) => if done < n { rollback_run(n, results, done + 1, results[done as int]) } else { (done, Ok(())) },
    }
}

/// A canary rollout: the canary replicas (all named `app-canary-i`, the share of
/// the canary first), the traffic weights given to the canary in turn (the canary
/// share, each step, then everything), and the application replaced at the end.
#[derive(Debug, Clone)]
pub struct CanaryPlan {
    pub first: Vec<String>,
    pub rest: Vec<String>,
    pub weights: Vec<u32>,
    pub retired: String,
}

/// The canary plan of `app` (see [`CanaryPlan`]) with `canary_replicas` of its
/// `replicas` in the canary first; the canary may not exceed the replicas.
pub fn canary_plan(app: &str, replicas: u32, canary_replicas: u32, percentage: u32, steps: &Vec<u32>) -> (r: CanaryPlan)
    requires
        canary_replicas <= replicas,
    ensures
        ({
            let c = app@ + "-canary"@;
            let k = canary_replicas as int;
            &&& r.first@.map_values(|s: String| s@) == replica_names(c, 0, k, Seq::empty())
            &&& r.rest@.map_values(|s: String| s@) == replica_names(c, k, replicas as int, Seq::empty())
            &&& r.weights@ == seq![percentage] + steps@ + seq![100u32]
            &&& r.retired@ == app@ + "-stable"@
        }),
{
    proof {
        reveal_strlit("");
    }
    let k = canary_replicas as u64;
    let c = concat(app, "-canary");
    let mut first: Vec<String> = Vec::new();
    push_names(&mut first, c.as_str(), 0, k, "");
    let mut rest: Vec<String> = Vec::new();
    push_names(&mut rest, c.as_str(), k, replicas as u64, "");
    assert(Seq::<String>::empty().map_values(|s: String| s@) =~= Seq::<Seq<char>>::empty());
    let mut weights: Vec<u32> = Vec::new();
    weights.push(percentage);
    let mut i: usize = 0;
    while i < steps.len()
        invariant
            i <= steps.len(),
            weights@ == seq![percentage] + steps@.take(i as int),
        decreases steps.len() - i,
    {
        weights.push(steps[i]);
        i = i + 1;
        assert(weights@ =~= seq![percentage] + steps@.take(i as int));
    }
    weights.push(100);
    assert(steps@.take(steps@.len() as int) =~= steps@);
    assert(weights@ =~= seq![percentage] + steps@ + seq![100u32]);
    CanaryPlan { first, rest, weights, retired: concat(app, "-stable") }
}

/// The status of a rolling deployment from its containers: all running (and some)
/// is completed, some not yet running is in progress, none at all is a failure.
pub fn rolling_status(running: u32, total: u32) -> (r: DeploymentStatusEnum)
    requires
        running <= total,
    ensures
        running == total && total > 0 ==> r == DeploymentStatusEnum::Completed,
        running < total ==> r == (DeploymentStatusEnum::InProgress {
            current_step: running, total_steps: total, current_replicas: running, target_replicas: total }),
        total == 0 ==> (r matches DeploymentStatusEnum::Failed { error } && error@ == "No containers found for application"@),
{
    if running == total && total > 0 {
        DeploymentStatusEnum::Completed
    } else if running < total {
        DeploymentStatusEnum::InProgress { current_step: running, total_steps: total, current_replicas: running, target_replicas: total }
    } else {
        DeploymentStatusEnum::Failed { error: owned("No containers found for application") }
    }
}

/// The environments of a blue-green deployment of `app`: blue (the running one)
/// and green (the new one).
pub fn blue_green_names(app: &str) -> (r: (String, String))
    ensures
        r.0@ == app@ + "-blue"@,
        r.1@ == app@ + "-green"@,
{
    (concat(app, "-blue"), concat(app, "-green"))
}

/// Where a deployment stands: its state (`pending`, `completed`, `failed`,
/// `rolled back`, `rollback failed`), its progress in percent, details, when it
/// was created and last updated, whether it is finished and, once finished,
/// whether it succeeded.
#[derive(Debug, Clone)]
pub struct DeploymentStatus {
    pub status: String,
    pub progress_percent: u32,
    pub details: Option<String>,
    pub created_at: i64,
    pub updated_at: i64,
    pub completed: bool,
    pub success: Option<bool>,
}

/// A deployment of an application.
#[derive(Debug, Clone)]
pub struct Deployment {
    pub id: String,
    pub name: String,
    pub image: String,
    pub service: Option<String>,
    pub replicas: u32,
    pub strategy: DeploymentStrategy,
    pub environment: Vec<(String, String)>,
    pub labels: Vec<(String, String)>,
    pub annotations: Vec<(String, String)>,
    pub status: DeploymentStatus,
    pub created_at: i64,
    pub completed_at: Option<i64>,
}

/// The optional text as characters.
pub open spec fn opt_text(o: Option<String>) -> Option<Seq<char>> {
    match o {
        Some(s) => Some(s@),
        None => None,
    }
}

/// The status of a deployment just created at `now`.
pub open spec fn is_pending_status(s: DeploymentStatus, now: i64) -> bool {
    &&& s.status@ == "pending"@
    &&& s.progress_percent == 0
    &&& opt_text(s.details) == Some("Deployment created"@)
    &&& s.created_at == now
    &&& s.updated_at == now
    &&& !s.completed
    &&& s.success is None
}

impl Deployment {
    /// A pending deployment of one replica of `image` created at `now`, with no
    /// environment, labels or annotations.
    pub fn new(id: String, name: String, image: String, strategy: DeploymentStrategy, service: Option<String>, now: i64)
        -> (d: Self)
        ensures
            d.id == id,
            d.name == name,
            d.image == image,
            d.service == service,
            d.strategy == strategy,
            d.replicas == 1,
            d.environment@.len() == 0,
            d.labels@.len() == 0,
            d.annotations@.len() == 0,
            is_pending_status(d.status, now),
            d.created_at == now,
            d.completed_at is None,
    {
        Deployment {
            id,
            name,
            image,
            service,
            replicas: 1,
            strategy,
            environment: Vec::new(),
            labels: Vec::new(),
            annotations: Vec::new(),
            status: DeploymentStatus {
                status: owned("pending"),
                progress_percent: 0,
                details: Some(owned("Deployment created")),
                created_at: now,
                updated_at: now,
                completed: false,
                success: None,
            },
            created_at: now,
            completed_at: None,
        }
    }
}

/// The deployments by identifier.
pub struct DeploymentManager {
    pub deployments: Vec<(String, Deployment)>,
}

/// Deployments by identifier.
pub open spec fn deployments_map(m: &DeploymentManager) -> Map<Seq<char>, Deployment> {
    as_map(m.deployments@)
}

/// `d1` is `d0` with only its status changed.
pub open spec fn same_but_status(d0: Deployment, d1: Deployment) -> bool {
    d1 == Deployment { status: d1.status, ..d0 }
}

/// The status after the execution of a deployment ended at `now`: on success
/// completed in full, otherwise failed with the error; finished either way.
pub open spec fn executed_status(s0: DeploymentStatus, s1: DeploymentStatus, outcome: Result<(), Seq<char>>, now: i64) -> bool {
    &&& s1.created_at == s0.created_at
    &&& s1.updated_at == now
    &&& s1.completed
    &&& match outcome {
        Ok(_) => s1.status@ == "completed"@ && s1.progress_percent == 100
            && opt_text(s1.details) == Some("Deployment completed successfully"@) && s1.success == Some(true),
        Err(e) => s1.status@ == "failed"@ && s1.progress_percent == s0.progress_percent
            && opt_text(s1.details) == Some("Deployment failed: "@ + e) && s1.success == Some(false),
    }
}

/// The status of a deployment whose execution started at `now`: in progress from
/// the start, not finished.
pub open spec fn in_progress_status(s0: DeploymentStatus, s1: DeploymentStatus, now: i64) -> bool {
    &&& s1.status@ == "in_progress"@
    &&& s1.progress_percent == 0
    &&& s1.details == s0.details
    &&& s1.created_at == s0.created_at
    &&& s1.updated_at == now
    &&& !s1.completed
    &&& s1.success is None
}

/// The status after the rollback of a deployment ended at `now`: on success rolled
/// back and finished without success, otherwise marked as a failed rollback.
pub open spec fn rolled_back_status(s0: DeploymentStatus, s1: DeploymentStatus, outcome: Result<(), Seq<char>>, now: i64) -> bool {
    &&& s1.created_at == s0.created_at
    &&& s1.updated_at == now
    &&& s1.progress_percent == s0.progress_percent
    &&& match outcome {
        Ok(_) => s1.status@ == "rolled back"@ && opt_text(s1.details) == Some("Deployment rolled back successfully"@)
            && s1.completed && s1.success == Some(false),
        Err(e) => s1.status@ == "rollback failed"@ && opt_text(s1.details) == Some("Rollback failed: "@ + e)
            && s1.completed == s0.completed && s1.success == s0.success,
    }
}

/// The view of an outcome: success, or the error's text.
pub open spec fn outcome_view(o: &Result<(), String>) -> Result<(), Seq<char>> {
    match o {
        Ok(_) => Ok(()),
        Err(e) => Err(e@),
    }
}

/// The identifier of a deployment of `name`: `deploy-{name}-{uuid}`.
pub open spec fn deployment_id(name: Seq<char>, uuid: Seq<char>) -> Seq<char> {
    "deploy-"@ + name + "-"@ + uuid
}

impl DeploymentManager {
    /// A manager without deployments.
    pub fn new() -> (m: Self)
        ensures
            keys_distinct(m.deployments@),
            deployments_map(&m) == Map::<Seq<char>, Deployment>::empty(),
    {
        let m = DeploymentManager { deployments: Vec::new() };
        assert(deployments_map(&m) =~= Map::<Seq<char>, Deployment>::empty());
        m
    }

    /// Records a new pending deployment of `image` for `name` created at `now`
    /// under a fresh identifier (see [`deployment_id`]), which it returns; running
    /// it is up to the caller, who reports the end with
    /// [`DeploymentManager::finish_execution`].
    pub fn create_deployment(&mut self, name: &str, image: &str, strategy: DeploymentStrategy, service: Option<&str>, now: i64)
        -> (id: String)
        requires
            keys_distinct(old(self).deployments@),
        ensures
            keys_distinct(final(self).deployments@),
            exists|u: Seq<char>| u.len() == 36 && id@ == #[trigger] deployment_id(name@, u),
            deployments_map(final(self)).contains_key(id@),
            ({
                let d = deployments_map(final(self))[id@];
                &&& d.id@ == id@ && d.name@ == name@ && d.image@ == image@ && d.strategy == strategy
                &&& opt_text(d.service) == match service { Some(x) => Some(x@), None => None::<Seq<char>> }
                &&& d.replicas == 1 && is_pending_status(d.status, now) && d.created_at == now && d.completed_at is None
                &&& d.environment@.len() == 0 && d.labels@.len() == 0 && d.annotations@.len() == 0
            }),
            forall|k: Seq<char>| k != id@ ==> (#[trigger] deployments_map(final(self)).contains_key(k)
                == deployments_map(old(self)).contains_key(k)) && (deployments_map(old(self)).contains_key(k)
                ==> deployments_map(final(self))[k] == deployments_map(old(self))[k]),
    {
        let u = new_uuid();
        let mut id = owned("deploy-");
        push_str(&mut id, name);
        push_str(&mut id, "-");
        push_str(&mut id, u.as_str());
        assert(id@ == deployment_id(name@, u@));
        let svc = match service {
            Some(x) => Some(owned(x)),
            None => None,
        };
        let d = Deployment::new(id.clone(), owned(name), owned(image), strategy, svc, now);
        let ghost dv = d;
        insert_key(&mut self.deployments, id.clone(), d);
        id
    }

    /// Records `deployment` under its identifier, which it returns.
    pub fn add_deployment(&mut self, deployment: Deployment) -> (id: String)
        requires
            keys_distinct(old(self).deployments@),
        ensures
            keys_distinct(final(self).deployments@),
            id == deployment.id,
            deployments_map(final(self)) == deployments_map(old(self)).insert(deployment.id@, deployment),
    {
        let id = deployment.id.clone();
        insert_key(&mut self.deployments, id.clone(), deployment);
        id
    }

    /// The deployment with identifier `id`.
    pub fn get_deployment(&self, id: &str) -> (r: Result<&Deployment, DeploymentError>)
        requires
            keys_distinct(self.deployments@),
        ensures
            match r {
                Ok(d) => deployments_map(self).contains_key(id@) && *d == deployments_map(self)[id@],
                Err(e) => !deployments_map(self).contains_key(id@) && (e matches DeploymentError::NotFound(x) && x@ == id@),
            },
    {
        match get_key(&self.deployments, id) {
            Some(d) => Ok(d),
            None => Err(DeploymentError::NotFound(owned(id))),
        }
    }

    /// The status of the deployment with identifier `id`.
    pub fn get_deployment_status(&self, id: &str) -> (r: Result<&DeploymentStatus, DeploymentError>)
        requires
            keys_distinct(self.deployments@),
        ensures
            match r {
                Ok(s) => deployments_map(self).contains_key(id@) && *s == deployments_map(self)[id@].status,
                Err(e) => !deployments_map(self).contains_key(id@) && (e matches DeploymentError::NotFound(x) && x@ == id@),
            },
    {
        match get_key(&self.deployments, id) {
            Some(d) => Ok(&d.status),
            None => Err(DeploymentError::NotFound(owned(id))),
        }
    }

    /// All deployments, in table order.
    pub fn list_deployments(&self) -> (r: Vec<&Deployment>)
        ensures
            r@.len() == self.deployments@.len(),
            forall|i: int| 0 <= i < r@.len() ==> *#[trigger] r@[i] == self.deployments@[i].1,
    {
        let mut r: Vec<&Deployment> = Vec::new();
        let mut i: usize = 0;
        while i < self.deployments.len()
            invariant
                i <= self.deployments.len(),
                r@.len() == i,
                forall|j: int| 0 <= j < i ==> *#[trigger] r@[j] == self.deployments@[j].1,
            decreases self.deployments.len() - i,
        {
            r.push(&self.deployments[i].1);
            i = i + 1;
        }
        r
    }

    /// Checks that a rollback of deployment `id` can start: the deployment must exist.
    /// Running it is up to the caller, who reports the end with
    /// [`DeploymentManager::finish_rollback`].
    pub fn rollback_deployment(&self, id: &str) -> (r: Result<(), DeploymentError>)
        requires
            keys_distinct(self.deployments@),
        ensures
            match r {
                Ok(_) => deployments_map(self).contains_key(id@),
                Err(e) => !deployments_map(self).contains_key(id@) && (e matches DeploymentError::NotFound(x) && x@ == id@),
            },
    {
        match find_key(&self.deployments, id) {
            Some(_) => Ok(()),
            None => Err(DeploymentError::NotFound(owned(id))),
        }
    }

    /// Replaces the status of the deployment at position `i`.
    fn set_status(&mut self, i: usize, status: DeploymentStatus)
        requires
            keys_distinct(old(self).deployments@),
            i < old(self).deployments@.len(),
        ensures
            keys_distinct(final(self).deployments@),
            deployments_map(final(self)) == deployments_map(old(self)).insert(old(self).deployments@[i as int].0@,
                Deployment { status, ..old(self).deployments@[i as int].1 }),
    {
        let ghost v0 = self.deployments@;
        let (k, d) = self.deployments.remove(i);
        let d2 = Deployment { status, ..d };
        let ghost e = (k, d2);
        proof {
            lemma_as_map_update(v0, i as int, e);
        }
        self.deployments.insert(i, (k, d2));
        assert(self.deployments@ =~= v0.update(i as int, e));
    }

    /// Starts the execution of deployment `id` at `now`: an unknown deployment is
    /// refused as not found and nothing changes; a known one is marked in progress
    /// (see [`in_progress_status`]), and is then refused when no executor serves its
    /// strategy (`executor_found` false), its status left in progress.
    pub fn begin_execution(&mut self, id: &str, executor_found: bool, now: i64) -> (r: Result<(), DeploymentError>)
        requires
            keys_distinct(old(self).deployments@),
        ensures
            keys_distinct(final(self).deployments@),
            !deployments_map(old(self)).contains_key(id@) ==> {
                &&& r matches Err(DeploymentError::NotFound(x)) && x@ == id@
                &&& final(self).deployments@ == old(self).deployments@
            },
            deployments_map(old(self)).contains_key(id@) ==> {
                let d0 = deployments_map(old(self))[id@];
                let d1 = deployments_map(final(self))[id@];
                &&& same_but_status(d0, d1) && in_progress_status(d0.status, d1.status, now)
                &&& r == if executor_found { Ok::<(), DeploymentError>(()) } else {
                        Err::<(), DeploymentError>(DeploymentError::InvalidStrategy) }
            },
            deployments_map(final(self)).dom() == deployments_map(old(self)).dom(),
            forall|k: Seq<char>| k != id@ && #[trigger] deployments_map(old(self)).contains_key(k)
                ==> deployments_map(final(self))[k] == deployments_map(old(self))[k],
    {
        let pos = find_key(&self.deployments, id);
        proof {
            lemma_key_pos(self.deployments@, id@);
        }
        match pos {
            None => Err(DeploymentError::NotFound(owned(id))),
            Some(i) => {
                proof {
                    lemma_as_map_index(self.deployments@, i as int);
                }
                let s0 = &self.deployments[i].1.status;
                let s1 = DeploymentStatus {
                    status: owned("in_progress"),
                    progress_percent: 0,
                    details: match &s0.details {
                        Some(d) => Some(d.clone()),
                        None => None,
                    },
                    created_at: s0.created_at,
                    updated_at: now,
                    completed: false,
                    success: None,
                };
                self.set_status(i, s1);
                if executor_found {
                    Ok(())
                } else {
                    Err(DeploymentError::InvalidStrategy)
                }
            },
        }
    }

    /// Records how the execution of deployment `id` ended at `now` (see
    /// [`executed_status`]); a successful one is also marked completed at `now`.
    /// An unknown deployment is left alone.
    pub fn finish_execution(&mut self, id: &str, outcome: &Result<(), String>, now: i64)
        requires
            keys_distinct(old(self).deployments@),
        ensures
            keys_distinct(final(self).deployments@),
            deployments_map(final(self)).dom() == deployments_map(old(self)).dom(),
            forall|k: Seq<char>| k != id@ && #[trigger] deployments_map(old(self)).contains_key(k)
                ==> deployments_map(final(self))[k] == deployments_map(old(self))[k],
            deployments_map(old(self)).contains_key(id@) ==> {
                let d0 = deployments_map(old(self))[id@];
                let d1 = deployments_map(final(self))[id@];
                &&& executed_status(d0.status, d1.status, outcome_view(outcome), now)
                &&& d1 == Deployment { status: d1.status, completed_at: match outcome {
                        Ok(_) => Some(now),
                        Err(_) => d0.completed_at,
                    }, ..d0 }
            },
    {
        let pos = find_key(&self.deployments, id);
        proof {
            lemma_key_pos(self.deployments@, id@);
        }
        if let Some(i) = pos {
            proof {
                lemma_as_map_index(self.deployments@, i as int);
            }
            let s0 = &self.deployments[i].1.status;
            let s1 = match outcome {
                Ok(_) => DeploymentStatus {
                    status: owned("completed"),
                    progress_percent: 100,
                    details: Some(owned("Deployment completed successfully")),
                    created_at: s0.created_at,
                    updated_at: now,
                    completed: true,
                    success: Some(true),
                },
                Err(e) => {
                    let mut t = owned("Deployment failed: ");
                    push_str(&mut t, e.as_str());
                    DeploymentStatus {
                        status: owned("failed"),
                        progress_percent: s0.progress_percent,
                        details: Some(t),
                        created_at: s0.created_at,
                        updated_at: now,
                        completed: true,
                        success: Some(false),
                    }
                },
            };
            let done_at = match outcome {
                Ok(_) => Some(now),
                Err(_) => self.deployments[i].1.completed_at,
            };
            self.set_finished(i, s1, done_at);
            assert(deployments_map(self).dom() =~= deployments_map(old(self)).dom());
        }
    }

    /// Replaces the status and completion time of the deployment at position `i`.
    fn set_finished(&mut self, i: usize, status: DeploymentStatus, completed_at: Option<i64>)
        requires
            keys_distinct(old(self).deployments@),
            i < old(self).deployments@.len(),
        ensures
            keys_distinct(final(self).deployments@),
            deployments_map(final(self)) == deployments_map(old(self)).insert(old(self).deployments@[i as int].0@,
                Deployment { status, completed_at, ..old(self).deployments@[i as int].1 }),
    {
        let ghost v0 = self.deployments@;
        let (k, d) = self.deployments.remove(i);
        let d2 = Deployment { status, completed_at, ..d };
        let ghost e = (k, d2);
        proof {
            lemma_as_map_update(v0, i as int, e);
        }
        self.deployments.insert(i, (k, d2));
        assert(self.deployments@ =~= v0.update(i as int, e));
    }

    /// Records how the rollback of deployment `id` ended at `now` (see
    /// [`rolled_back_status`]); an unknown deployment is left alone.
    pub fn finish_rollback(&mut self, id: &str, outcome: &Result<(), String>, now: i64)
        requires
            keys_distinct(old(self).deployments@),
        ensures
            keys_distinct(final(self).deployments@),
            deployments_map(final(self)).dom() == deployments_map(old(self)).dom(),
            forall|k: Seq<char>| k != id@ && #[trigger] deployments_map(old(self)).contains_key(k)
                ==> deployments_map(final(self))[k] == deployments_map(old(self))[k],
            deployments_map(old(self)).contains_key(id@) ==> {
                let d0 = deployments_map(old(self))[id@];
                let d1 = deployments_map(final(self))[id@];
                same_but_status(d0, d1) && rolled_back_status(d0.status, d1.status, outcome_view(outcome), now)
            },
    {
        let pos = find_key(&self.deployments, id);
        proof {
            lemma_key_pos(self.deployments@, id@);
        }
        if let Some(i) = pos {
            proof {
                lemma_as_map_index(self.deployments@, i as int);
            }
            let s0 = &self.deployments[i].1.status;
            let s1 = match outcome {
                Ok(_) => DeploymentStatus {
                    status: owned("rolled back"),
                    progress_percent: s0.progress_percent,
                    details: Some(owned("Deployment rolled back successfully")),
                    created_at: s0.created_at,
                    updated_at: now,
                    completed: true,
                    success: Some(false),
                },
                Err(e) => {
                    let mut t = owned("Rollback failed: ");
                    push_str(&mut t, e.as_str());
                    DeploymentStatus {
                        status: owned("rollback failed"),
                        progress_percent: s0.progress_percent,
                        details: Some(t),
                        created_at: s0.created_at,
                        updated_at: now,
                        completed: s0.completed,
                        success: s0.success,
                    }
                },
            };
            self.set_status(i, s1);
            assert(deployments_map(self).dom() =~= deployments_map(old(self)).dom());
        }
    }
}

/// The plan of an A/B test: for each variant its application name, image and
/// container names; the traffic weight of each variant's application; the winner
/// (the first variant), which then takes all traffic; and the applications of the
/// other variants, removed at the end.
#[derive(Debug, Clone)]
pub struct ABTestingPlan {
    pub deployments: Vec<(String, String, Vec<String>)>,
    pub weights: Vec<(String, u32)>,
    pub winner: String,
    pub retired: Vec<String>,
}

/// The application name of a variant: `{app}-{variant}`.
pub open spec fn variant_app(app: Seq<char>, variant: Seq<char>) -> Seq<char> {
    app + "-"@ + variant
}

/// The applications of the variants not named `winner`, in order.
pub open spec fn losing_apps(app: Seq<char>, vs: Seq<ABTestingVariant>, winner: Seq<char>) -> Seq<Seq<char>>
    decreases vs.len(),
{
    if vs.len() == 0 {
        Seq::empty()
    } else if vs.last().name@ != winner {
        losing_apps(app, vs.drop_last(), winner).push(variant_app(app, vs.last().name@))
    } else {
        losing_apps(app, vs.drop_last(), winner)
    }
}

/// The plan of an A/B test of `app` (see [`ABTestingPlan`]), the `i`-th variant
/// having `counts[i]` replicas named `{variant app}-0`, `{variant app}-1`, ...
pub fn ab_testing_plan(app: &str, variants: &Vec<ABTestingVariant>, counts: &Vec<u32>) -> (r: ABTestingPlan)
    requires
        variants@.len() > 0,
        counts@.len() == variants@.len(),
    ensures
        r.deployments@.len() == variants@.len(),
        r.weights@.len() == variants@.len(),
        forall|i: int| 0 <= i < variants@.len() ==> {
            let va = variant_app(app@, variants@[i].name@);
            &&& (#[trigger] r.deployments@[i]).0@ == va
            &&& r.deployments@[i].1@ == variants@[i].image@
            &&& r.deployments@[i].2@.map_values(|s: String| s@) == replica_names(va, 0, counts@[i] as int, Seq::empty())
            &&& r.weights@[i].0@ == va
            &&& r.weights@[i].1 == variants@[i].percentage
        },
        r.winner@ == variant_app(app@, variants@[0].name@),
        r.retired@.map_values(|s: String| s@) == losing_apps(app@, variants@, variants@[0].name@),
{
    proof {
        reveal_strlit("");
    }
    let mut deployments: Vec<(String, String, Vec<String>)> = Vec::new();
    let mut weights: Vec<(String, u32)> = Vec::new();
    let mut retired: Vec<String> = Vec::new();
    let winner_name = variants[0].name.as_str();
    let mut i: usize = 0;
    while i < variants.len()
        invariant
            i <= variants@.len(),
            counts@.len() == variants@.len(),
            variants@.len() > 0,
            winner_name@ == variants@[0].name@,
            deployments@.len() == i,
            weights@.len() == i,
            forall|j: int| 0 <= j < i ==> {
                let va = variant_app(app@, variants@[j].name@);
                &&& (#[trigger] deployments@[j]).0@ == va
                &&& deployments@[j].1@ == variants@[j].image@
                &&& deployments@[j].2@.map_values(|s: String| s@) == replica_names(va, 0, counts@[j] as int, Seq::empty())
                &&& weights@[j].0@ == va
                &&& weights@[j].1 == variants@[j].percentage
            },
            retired@.map_values(|s: String| s@) == losing_apps(app@, variants@.take(i as int), winner_name@),
        decreases variants@.len() - i,
    {
        let v = &variants[i];
        let mut va = concat(app, "-");
        push_str(&mut va, v.name.as_str());
        assert(va@ == variant_app(app@, variants@[i as int].name@));
        let mut names: Vec<String> = Vec::new();
        proof {
            reveal_strlit("");
        }
        push_names(&mut names, va.as_str(), 0, counts[i] as u64, "");
        assert(Seq::<String>::empty().map_values(|s: String| s@) =~= Seq::<Seq<char>>::empty());
        assert(names@.map_values(|s: String| s@) =~= replica_names(va@, 0, counts@[i as int] as int, Seq::empty()));
        let ghost r0 = retired@;
        assert(variants@.take(i + 1).drop_last() =~= variants@.take(i as int));
        assert(variants@.take(i + 1).last() == variants@[i as int]);
        if !crate::text::str_eq(v.name.as_str(), winner_name) {
            retired.push(va.clone());
            assert(retired@.map_values(|s: String| s@) =~= r0.map_values(|s: String| s@).push(va@));
        }
        let ghost d0 = deployments@;
        let ghost w0 = weights@;
        let ghost vav = va@;
        let ghost nv = names@.map_values(|s: String| s@);
        weights.push((va.clone(), v.percentage));
        deployments.push((va, v.image.clone(), names));
        proof {
            assert forall|j: int| 0 <= j < i + 1 implies {
                let vaj = variant_app(app@, variants@[j].name@);
                &&& (#[trigger] deployments@[j]).0@ == vaj
                &&& deployments@[j].1@ == variants@[j].image@
                &&& deployments@[j].2@.map_values(|s: String| s@) == replica_names(vaj, 0, counts@[j] as int, Seq::empty())
                &&& weights@[j].0@ == vaj
                &&& weights@[j].1 == variants@[j].percentage
            } by {
                if j < i {
                    assert(deployments@[j] == d0[j]);
                    assert(weights@[j] == w0[j]);
                } else {
                    assert(deployments@[j].0@ == vav);
                    assert(deployments@[j].2@.map_values(|s: String| s@) == nv);
                }
            }
        }
        i = i + 1;
    }
    assert(variants@.take(variants@.len() as int) =~= variants@);
    let mut winner = concat(app, "-");
    push_str(&mut winner, winner_name);
    ABTestingPlan { deployments, weights, winner, retired }
}

} // verus!
