//! The bookkeeping of the containerd-backed runtime: image references, process
//! environments and mounts, the metrics cache, configured health checks and their
//! verdicts, the log cache with its filters, and the order of the requests that
//! create and stop a container. The requests to containerd are not made here:
//! these functions decide from their outcomes.
use vstd::prelude::*;
use crate::assoc::{as_map, keys_distinct, key_pos, find_key, insert_key, remove_key, get_key, lemma_key_pos, lemma_as_map_index};
use crate::containers::{Container, ContainerView, ContainerStats, ContainerStatus, EnvVar, EnvVarView, PortMapping, Volume,
    VolumeView, env_views, port_views, volume_views, volume_path, new_uuid, copy_container, mounts_for, mounts_from,
    request_view, first_user_from, find_volume_user, sorted_volumes, sort_by_name, volume_list};
use crate::text::{first_index_of, lemma_first_index_of, owned, push_str, push_char, push_decimal, chars_of, find_char,
    contains_char, slice_chars, string_of, decimal, byte_sum, byte_sum_u64, utf8_bytes, parse_u64, parse_u64_spec};

verus! {

/// The search path every container process starts with.
pub const DEFAULT_PATH_ENV: &'static str = "PATH=/usr/local/sbin:/usr/local/bin:/usr/sbin:/usr/bin:/sbin:/bin";

/// Which output stream a log line came from.
#[derive(Debug, Clone, Copy, PartialEq, Eq, Structural)]
pub enum LogStream {
    Stdout,
    Stderr,
}

/// One line of a container's log.
#[derive(Debug)]
pub struct LogEntry {
    pub timestamp: i64,
    pub stream: LogStream,
    pub content: String,
}

/// Outcome of a container health check.
#[derive(Debug, Clone, Copy, PartialEq, Eq, Structural)]
pub enum HealthCheckStatus {
    Healthy,
    Unhealthy,
    Unknown,
}

/// How a container's health is checked.
#[derive(Debug)]
pub enum HealthCheckType {
    Http { port: u16, path: String, expected_status: u16 },
    Tcp { port: u16 },
    Command { command: String, args: Vec<String>, expected_exit_code: i32 },
}

/// A configured health check and its latest outcome.
#[derive(Debug)]
pub struct HealthCheck {
    pub container_id: String,
    pub check_type: HealthCheckType,
    pub interval_seconds: u64,
    pub timeout_seconds: u64,
    pub retries: u32,
    pub last_check: Option<i64>,
    pub status: HealthCheckStatus,
}

/// Progress of an image pull.
#[derive(Debug, Clone, Copy, PartialEq, Eq, Structural)]
pub enum ImagePullStatus {
    InProgress,
    Completed,
    Failed,
}

/// Download progress of one image layer.
#[derive(Debug)]
pub struct LayerProgress {
    pub digest: String,
    pub total_bytes: u64,
    pub downloaded_bytes: u64,
    pub status: String,
}

/// Progress of an image pull, with the layers by digest.
#[derive(Debug)]
pub struct ImagePullProgress {
    pub image: String,
    pub registry: String,
    pub layer_progress: Vec<(String, LayerProgress)>,
    pub started_at: i64,
    pub completed_at: Option<i64>,
    pub status: ImagePullStatus,
}

/// Credentials for a container registry.
#[derive(Debug)]
pub struct RegistryAuth {
    pub username: String,
    pub password: String,
    pub server: String,
    pub email: Option<String>,
}

/// A filesystem mount of a container process.
#[derive(Debug)]
pub struct MountSpec {
    pub destination: String,
    pub source: String,
    pub kind: String,
    pub options: Vec<String>,
}

/// Errors of the runtime's bookkeeping.
#[derive(Debug, Clone, PartialEq, Eq)]
pub enum ContainerdError {
    ContainerNotFound(String),
    VolumeNotFound(String),
    VolumeInUse { volume: String, container_name: String },
    NoHealthCheck(String),
    MetricsUnavailable(String),
    TaskKill(String),
    TaskDelete(String),
    ContainerDelete(String),
    ContainerCreate(String),
    TaskCreate(String),
    TaskStart(String),
}

/// The registry, repository and tag of an image reference. The part before the
/// first `/` is a registry only if it holds a `.` or a `:`; the registry defaults
/// to `docker.io` and the tag, after the first `:` of the rest, to `latest`.
pub open spec fn image_parts(image: Seq<char>) -> (Seq<char>, Seq<char>, Seq<char>) {
    let (registry, rest) = match first_index_of(image, '/') {
        Some(p) => {
            let pre = image.take(p);
            if pre.contains('.') || pre.contains(':') {
                (pre, image.skip(p + 1))
            } else {
                ("docker.io"@, image)
            }
        },
        None => ("docker.io"@, image),
    };
    match first_index_of(rest, ':') {
        Some(q) => (registry, rest.take(q), rest.skip(q + 1)),
        None => (registry, rest, "latest"@),
    }
}

/// Splits an image reference into registry, repository and tag (see [`image_parts`]).
pub fn parse_image_name(image: &str) -> (r: (String, String, String))
    ensures
        (r.0@, r.1@, r.2@) == image_parts(image@),
{
    let v = chars_of(image);
    proof {
        lemma_first_index_of(image@, '/');
    }
    let mut registry = owned("docker.io");
    let mut rest = v;
    match find_char(&rest, '/') {
        Some(p) => {
            let pre = slice_chars(&rest, 0, p);
            if contains_char(&pre, '.') || contains_char(&pre, ':') {
                registry = string_of(&pre);
                let n = rest.len();
                rest = slice_chars(&rest, p + 1, n);
                assert(rest@ =~= image@.skip(p + 1));
            }
            assert(pre@ =~= image@.take(p as int));
        },
        None => {},
    }
    proof {
        lemma_first_index_of(rest@, ':');
    }
    match find_char(&rest, ':') {
        Some(q) => {
            let repo = slice_chars(&rest, 0, q);
            let n = rest.len();
            let tag = slice_chars(&rest, q + 1, n);
            assert(repo@ =~= rest@.take(q as int));
            assert(tag@ =~= rest@.skip(q + 1));
            (registry, string_of(&repo), string_of(&tag))
        },
        None => (registry, string_of(&rest), owned("latest")),
    }
}

/// An environment entry `KEY=value`.
pub open spec fn env_line(e: EnvVarView) -> Seq<char> {
    e.key + seq!['='] + e.value
}

/// The environment of a container process: the default search path, then each
/// variable in order.
pub open spec fn process_env_view(env: Seq<EnvVarView>) -> Seq<Seq<char>> {
    seq![DEFAULT_PATH_ENV@] + env.map_values(|e: EnvVarView| env_line(e))
}

/// The characters of each string of a list.
pub open spec fn texts(v: Seq<String>) -> Seq<Seq<char>> {
    v.map_values(|s: String| s@)
}

/// The environment of a container process (see [`process_env_view`]).
pub fn process_env(env_vars: &Vec<EnvVar>) -> (r: Vec<String>)
    ensures
        texts(r@) == process_env_view(env_views(env_vars@)),
{
    let mut r: Vec<String> = Vec::new();
    r.push(owned(DEFAULT_PATH_ENV));
    let mut i: usize = 0;
    while i < env_vars.len()
        invariant
            i <= env_vars.len(),
            texts(r@) == seq![DEFAULT_PATH_ENV@] + env_views(env_vars@).take(i as int).map_values(|e: EnvVarView| env_line(e)),
        decreases env_vars.len() - i,
    {
        let ghost before = r@;
        let mut line = env_vars[i].key.clone();
        push_char(&mut line, '=');
        push_str(&mut line, env_vars[i].value.as_str());
        assert(line@ == env_line(env_views(env_vars@)[i as int]));
        r.push(line);
        assert(texts(r@) =~= texts(before).push(line@));
        assert(env_views(env_vars@).take(i + 1).map_values(|e: EnvVarView| env_line(e)) =~= env_views(env_vars@).take(
            i as int).map_values(|e: EnvVarView| env_line(e)).push(env_line(env_views(env_vars@)[i as int])));
        i = i + 1;
    }
    assert(env_views(env_vars@).take(env_vars@.len() as int) =~= env_views(env_vars@));
    r
}

/// Identifier of a container created under the random token `uuid`.
pub open spec fn containerd_id(uuid: Seq<char>) -> Seq<char> {
    "hivemind-"@ + uuid
}

/// A fresh container identifier `hivemind-{random UUID}`.
pub fn new_container_id() -> (r: String)
    ensures
        exists|u: Seq<char>| u.len() == 36 && r@ == #[trigger] containerd_id(u),
{
    let u = new_uuid();
    let mut r = owned("hivemind-");
    push_str(&mut r, u.as_str());
    assert(r@ == containerd_id(u@));
    r
}

/// Mathematical value of a [`MountSpec`].
pub struct MountView {
    pub destination: Seq<char>,
    pub source: Seq<char>,
    pub kind: Seq<char>,
    pub options: Seq<Seq<char>>,
}

impl View for MountSpec {
    type V = MountView;

    open spec fn view(&self) -> MountView {
        MountView { destination: self.destination@, source: self.source@, kind: self.kind@, options: texts(self.options@) }
    }
}

/// The views of a list of mounts.
pub open spec fn mount_views(v: Seq<MountSpec>) -> Seq<MountView> {
    v.map_values(|m: MountSpec| m@)
}

/// The bind mount of volume `name` at `path`.
pub open spec fn volume_bind(name: Seq<char>, path: Seq<char>) -> MountView {
    MountView { destination: path, source: volume_path(name), kind: "bind"@, options: seq!["rbind"@, "rw"@] }
}

/// The mounts of a container process: `/proc`, a `tmpfs` at `/dev`, then a bind
/// mount for each requested `(volume, path)` pair, in order.
pub open spec fn container_mounts_view(req: Seq<(Seq<char>, Seq<char>)>) -> Seq<MountView> {
    seq![
        MountView { destination: "/proc"@, source: "proc"@, kind: "proc"@, options: seq!["nosuid"@, "noexec"@, "nodev"@] },
        MountView { destination: "/dev"@, source: "tmpfs"@, kind: "tmpfs"@,
            options: seq!["nosuid"@, "strictatime"@, "mode=755"@, "size=65536k"@] },
    ] + req.map_values(|p: (Seq<char>, Seq<char>)| volume_bind(p.0, p.1))
}

/// The requested `(volume, path)` pairs as characters.
pub open spec fn pair_views(v: Seq<(String, String)>) -> Seq<(Seq<char>, Seq<char>)> {
    v.map_values(|p: (String, String)| (p.0@, p.1@))
}

/// A list of strings made from literals.
fn strings2(a: &str, b: &str) -> (r: Vec<String>)
    ensures
        texts(r@) == seq![a@, b@],
{
    let mut r: Vec<String> = Vec::new();
    r.push(owned(a));
    r.push(owned(b));
    assert(texts(r@) =~= seq![a@, b@]);
    r
}

/// The mounts of a container process (see [`container_mounts_view`]).
pub fn container_mounts(volumes: &Vec<(String, String)>) -> (r: Vec<MountSpec>)
    ensures
        mount_views(r@) == container_mounts_view(pair_views(volumes@)),
{
    let mut r: Vec<MountSpec> = Vec::new();
    let mut proc_opts = strings2("nosuid", "noexec");
    let ghost p0 = proc_opts@;
    proc_opts.push(owned("nodev"));
    assert(texts(proc_opts@) =~= texts(p0).push("nodev"@));
    assert(texts(proc_opts@) =~= seq!["nosuid"@, "noexec"@, "nodev"@]);
    r.push(MountSpec { destination: owned("/proc"), source: owned("proc"), kind: owned("proc"), options: proc_opts });
    let mut dev_opts = strings2("nosuid", "strictatime");
    let ghost d0 = dev_opts@;
    dev_opts.push(owned("mode=755"));
    let ghost d1 = dev_opts@;
    dev_opts.push(owned("size=65536k"));
    assert(texts(d1) =~= texts(d0).push("mode=755"@));
    assert(texts(dev_opts@) =~= texts(d1).push("size=65536k"@));
    assert(texts(dev_opts@) =~= seq!["nosuid"@, "strictatime"@, "mode=755"@, "size=65536k"@]);
    r.push(MountSpec { destination: owned("/dev"), source: owned("tmpfs"), kind: owned("tmpfs"), options: dev_opts });
    let ghost head = mount_views(r@);
    assert(head[0].options =~= seq!["nosuid"@, "noexec"@, "nodev"@]);
    assert(head[1].options =~= seq!["nosuid"@, "strictatime"@, "mode=755"@, "size=65536k"@]);
    let ghost req = pair_views(volumes@);
    let mut i: usize = 0;
    while i < volumes.len()
        invariant
            i <= volumes.len(),
            req == pair_views(volumes@),
            head.len() == 2,
            mount_views(r@) == head + req.take(i as int).map_values(|p: (Seq<char>, Seq<char>)| volume_bind(p.0, p.1)),
        decreases volumes.len() - i,
    {
        let ghost before = r@;
        let mut src = owned("/var/lib/hivemind/volumes/");
        push_str(&mut src, volumes[i].0.as_str());
        let m = MountSpec { destination: volumes[i].1.clone(), source: src, kind: owned("bind"), options: strings2("rbind", "rw") };
        assert(m@ == volume_bind(req[i as int].0, req[i as int].1));
        r.push(m);
        assert(mount_views(r@) =~= mount_views(before).push(volume_bind(req[i as int].0, req[i as int].1)));
        assert(req.take(i + 1).map_values(|p: (Seq<char>, Seq<char>)| volume_bind(p.0, p.1)) =~= req.take(i as int).map_values(
            |p: (Seq<char>, Seq<char>)| volume_bind(p.0, p.1)).push(volume_bind(req[i as int].0, req[i as int].1)));
        i = i + 1;
    }
    assert(req.take(volumes@.len() as int) =~= req);
    assert(head =~= seq![
        MountView { destination: "/proc"@, source: "proc"@, kind: "proc"@, options: seq!["nosuid"@, "noexec"@, "nodev"@] },
        MountView { destination: "/dev"@, source: "tmpfs"@, kind: "tmpfs"@,
            options: seq!["nosuid"@, "strictatime"@, "mode=755"@, "size=65536k"@] },
    ]);
    r
}

/// Statistics made up for a container that containerd reports nothing for,
/// derived from the byte sum `h` of its id (wrapping at 2^64).
pub open spec fn fallback_stats_view(id: Seq<char>, now: i64) -> ContainerStats {
    let h = byte_sum(vstd::utf8::encode_utf8(id)) % 0x1_0000_0000_0000_0000;
    ContainerStats {
        cpu_usage_centi: ((h % 100) * 100 + (h % 10) * 10) as u64,
        memory_usage: (((h % 1024) + 128) * 1024 * 1024) as u64,
        network_rx: (((h % 100) + 1) * 1024 * 1024) as u64,
        network_tx: (((h % 50) + 1) * 1024 * 1024) as u64,
        last_updated: now,
    }
}

/// Statistics made up for a container that containerd reports nothing for.
pub fn fallback_stats(container_id: &str, now: i64) -> (r: ContainerStats)
    ensures
        r == fallback_stats_view(container_id@, now),
{
    let h = byte_sum_u64(container_id);
    ContainerStats {
        cpu_usage_centi: (h % 100) * 100 + (h % 10) * 10,
        memory_usage: ((h % 1024) + 128) * 1024 * 1024,
        network_rx: ((h % 100) + 1) * 1024 * 1024,
        network_tx: ((h % 50) + 1) * 1024 * 1024,
        last_updated: now,
    }
}

/// The value of the last metric named `name` whose data parses as a `u64`, if any.
pub open spec fn metric_value(ms: Seq<(Seq<char>, Seq<char>)>, name: Seq<char>) -> Option<u64>
    decreases ms.len(),
{
    if ms.len() == 0 {
        None
    } else if ms.last().0 == name && crate::text::parse_u64_spec(ms.last().1) is Some {
        crate::text::parse_u64_spec(ms.last().1)
    } else {
        metric_value(ms.drop_last(), name)
    }
}

/// The statistics of a container from containerd's metrics (name, data) at `now`:
/// memory from `memory.usage.usage`, traffic from `network.usage.rx.bytes` and
/// `network.usage.tx.bytes` (0 where absent), CPU as given; with no metrics at all,
/// the made-up statistics of [`fallback_stats_view`].
pub open spec fn stats_from_metrics_view(ms: Seq<(Seq<char>, Seq<char>)>, cpu_usage_centi: u64, id: Seq<char>, now: i64)
    -> ContainerStats {
    if ms.len() == 0 {
        fallback_stats_view(id, now)
    } else {
        ContainerStats {
            cpu_usage_centi,
            memory_usage: match metric_value(ms, "memory.usage.usage"@) { Some(v) => v, None => 0 },
            network_rx: match metric_value(ms, "network.usage.rx.bytes"@) { Some(v) => v, None => 0 },
            network_tx: match metric_value(ms, "network.usage.tx.bytes"@) { Some(v) => v, None => 0 },
            last_updated: now,
        }
    }
}

/// The statistics of a container from containerd's metrics (see
/// [`stats_from_metrics_view`]); the CPU usage, which containerd reports as a
/// floating-point number of nanoseconds, is converted by the caller.
pub fn stats_from_metrics(metrics: &Vec<(String, String)>, cpu_usage_centi: u64, container_id: &str, now: i64)
    -> (r: ContainerStats)
    ensures
        r == stats_from_metrics_view(pair_views(metrics@), cpu_usage_centi, container_id@, now),
{
    if metrics.len() == 0 {
        assert(pair_views(metrics@).len() == 0);
        return fallback_stats(container_id, now);
    }
    let ghost ms = pair_views(metrics@);
    let mut memory: Option<u64> = None;
    let mut rx: Option<u64> = None;
    let mut tx: Option<u64> = None;
    let mut i: usize = 0;
    while i < metrics.len()
        invariant
            i <= metrics.len(),
            ms == pair_views(metrics@),
            memory == metric_value(ms.take(i as int), "memory.usage.usage"@),
            rx == metric_value(ms.take(i as int), "network.usage.rx.bytes"@),
            tx == metric_value(ms.take(i as int), "network.usage.tx.bytes"@),
        decreases metrics.len() - i,
    {
        assert(ms.take(i + 1).drop_last() =~= ms.take(i as int));
        assert(ms.take(i + 1).last() == ms[i as int]);
        proof {
            reveal_strlit("memory.usage.usage");
            reveal_strlit("network.usage.rx.bytes");
            reveal_strlit("network.usage.tx.bytes");
            assert("memory.usage.usage"@.len() != "network.usage.rx.bytes"@.len());
            assert("memory.usage.usage"@.len() != "network.usage.tx.bytes"@.len());
            assert("network.usage.rx.bytes"@[14] != "network.usage.tx.bytes"@[14]);
        }
        let name = metrics[i].0.as_str();
        let parsed = crate::text::parse_u64(metrics[i].1.as_str());
        if parsed.is_some() {
            if crate::text::str_eq(name, "memory.usage.usage") {
                memory = parsed;
            } else if crate::text::str_eq(name, "network.usage.rx.bytes") {
                rx = parsed;
            } else if crate::text::str_eq(name, "network.usage.tx.bytes") {
                tx = parsed;
            }
        }
        i = i + 1;
    }
    assert(ms.take(metrics@.len() as int) =~= ms);
    ContainerStats {
        cpu_usage_centi,
        memory_usage: match memory { Some(v) => v, None => 0 },
        network_rx: match rx { Some(v) => v, None => 0 },
        network_tx: match tx { Some(v) => v, None => 0 },
        last_updated: now,
    }
}

/// The address of a container as the runtime knows it: always the local host.
pub fn get_container_ip(container_id: &str) -> (r: String)
    ensures
        r@ == "127.0.0.1"@,
{
    owned("127.0.0.1")
}

/// The URL of an HTTP health check: `http://{ip}:{port}{path}`.
pub open spec fn http_check_url(ip: Seq<char>, port: u16, path: Seq<char>) -> Seq<char> {
    "http://"@ + ip + seq![':'] + decimal(port as nat) + path
}

/// The URL of an HTTP health check (see [`http_check_url`]).
pub fn health_check_url(ip: &str, port: u16, path: &str) -> (r: String)
    ensures
        r@ == http_check_url(ip@, port, path@),
{
    let mut r = owned("http://");
    push_str(&mut r, ip);
    push_char(&mut r, ':');
    push_decimal(&mut r, port as u64);
    push_str(&mut r, path);
    assert(r@ =~= http_check_url(ip@, port, path@));
    r
}

/// The address a TCP health check connects to: `{ip}:{port}`.
pub open spec fn tcp_check_address(ip: Seq<char>, port: u16) -> Seq<char> {
    ip + seq![':'] + decimal(port as nat)
}

/// The address a TCP health check connects to (see [`tcp_check_address`]).
pub fn health_check_address(ip: &str, port: u16) -> (r: String)
    ensures
        r@ == tcp_check_address(ip@, port),
{
    let mut r = owned(ip);
    push_char(&mut r, ':');
    push_decimal(&mut r, port as u64);
    assert(r@ =~= tcp_check_address(ip@, port));
    r
}

/// The verdict of an HTTP check from the response status (`None` when the request
/// failed): healthy exactly when the status is the expected one.
pub fn http_check_verdict(response_status: Option<u16>, expected_status: u16) -> (r: HealthCheckStatus)
    ensures
        r == (if response_status == Some(expected_status) { HealthCheckStatus::Healthy } else { HealthCheckStatus::Unhealthy }),
{
    match response_status {
        Some(s) => if s == expected_status { HealthCheckStatus::Healthy } else { HealthCheckStatus::Unhealthy },
        None => HealthCheckStatus::Unhealthy,
    }
}

/// The verdict of a TCP check: healthy exactly when the connection was made.
pub fn tcp_check_verdict(connected: bool) -> (r: HealthCheckStatus)
    ensures
        r == (if connected { HealthCheckStatus::Healthy } else { HealthCheckStatus::Unhealthy }),
{
    if connected { HealthCheckStatus::Healthy } else { HealthCheckStatus::Unhealthy }
}

/// The verdict of a command check from the exit code (`None` when the command could
/// not be run or waited for): unknown without a code, else healthy exactly when the
/// code is the expected one.
pub fn command_check_verdict(exit_code: Option<i32>, expected_exit_code: i32) -> (r: HealthCheckStatus)
    ensures
        r == match exit_code {
            Some(c) => if c == expected_exit_code { HealthCheckStatus::Healthy } else { HealthCheckStatus::Unhealthy },
            None => HealthCheckStatus::Unknown,
        },
{
    match exit_code {
        Some(c) => if c == expected_exit_code { HealthCheckStatus::Healthy } else { HealthCheckStatus::Unhealthy },
        None => HealthCheckStatus::Unknown,
    }
}

/// The optional text as characters.
pub open spec fn opt_chars(o: Option<String>) -> Option<Seq<char>> {
    match o {
        Some(s) => Some(s@),
        None => None,
    }
}

/// What `serde_json` writes for the registry credentials document
/// `{"auths": {server: {"username": .., "password": .., "email": ..}}}`, the
/// email `null` when absent.
pub uninterp spec fn auth_document(server: Seq<char>, username: Seq<char>, password: Seq<char>, email: Option<Seq<char>>)
    -> Seq<char>;

/// The registry credentials document as JSON text (`serde_json::Value::to_string`
/// on the document built from the arguments). Nothing is stated of the text beyond
/// its being a function of the arguments.
#[verifier::external_body]
fn auth_document_text(server: &str, username: &str, password: &str, email: &Option<String>) -> (r: String)
    ensures
        r@ == auth_document(server@, username@, password@, opt_chars(*email)),
{
    let mut creds = serde_json::Map::new();
    creds.insert("username".to_string(), serde_json::Value::String(username.to_string()));
    creds.insert("password".to_string(), serde_json::Value::String(password.to_string()));
    creds.insert("email".to_string(), match email {
        Some(e) => serde_json::Value::String(e.clone()),
        None => serde_json::Value::Null,
    });
    let mut auths = serde_json::Map::new();
    auths.insert(server.to_string(), serde_json::Value::Object(creds));
    let mut doc = serde_json::Map::new();
    doc.insert("auths".to_string(), serde_json::Value::Object(auths));
    serde_json::Value::Object(doc).to_string()
}

/// Standard (padded) base64 text of a byte sequence.
pub uninterp spec fn base64_standard(b: Seq<u8>) -> Seq<char>;

/// Standard base64 encoding with padding (`base64::encode`). Its documentation
/// gives the padded length: four characters for every started group of three bytes.
#[verifier::external_body]
#[allow(deprecated)]
pub(crate) fn base64_encode(b: &Vec<u8>) -> (r: String)
    ensures
        r@ == base64_standard(b@),
        r@.len() == 4 * ((b@.len() + 2) / 3),
{
    base64::encode(b)
}

/// The authorization value sent with an authenticated image pull: the base64 text
/// of the credentials document.
pub fn registry_authorization(auth: &RegistryAuth) -> (r: String)
    ensures
        r@ == base64_standard(vstd::utf8::encode_utf8(auth_document(auth.server@, auth.username@, auth.password@,
            opt_chars(auth.email)))),
{
    let doc = auth_document_text(auth.server.as_str(), auth.username.as_str(), auth.password.as_str(), &auth.email);
    let bytes = utf8_bytes(doc.as_str());
    base64_encode(&bytes)
}

/// A pull of `image` begun at `now`: in progress, no layers yet, the registry as
/// [`image_parts`] gives it.
pub fn begin_image_pull(image: &str, now: i64) -> (r: ImagePullProgress)
    ensures
        r.image@ == image@,
        r.registry@ == image_parts(image@).0,
        r.layer_progress@.len() == 0,
        r.started_at == now,
        r.completed_at is None,
        r.status == ImagePullStatus::InProgress,
{
    let (registry, _, _) = parse_image_name(image);
    ImagePullProgress {
        image: owned(image),
        registry,
        layer_progress: Vec::new(),
        started_at: now,
        completed_at: None,
        status: ImagePullStatus::InProgress,
    }
}

/// Marks a pull completed at `now`.
pub fn complete_image_pull(p: &mut ImagePullProgress, now: i64)
    ensures
        final(p).status == ImagePullStatus::Completed,
        final(p).completed_at == Some(now),
        final(p).image == old(p).image,
        final(p).registry == old(p).registry,
        final(p).layer_progress == old(p).layer_progress,
        final(p).started_at == old(p).started_at,
{
    p.status = ImagePullStatus::Completed;
    p.completed_at = Some(now);
}


/// Mathematical value of a [`HealthCheckType`].
pub enum HealthCheckTypeView {
    Http { port: u16, path: Seq<char>, expected_status: u16 },
    Tcp { port: u16 },
    Command { command: Seq<char>, args: Seq<Seq<char>>, expected_exit_code: i32 },
}

impl View for HealthCheckType {
    type V = HealthCheckTypeView;

    open spec fn view(&self) -> HealthCheckTypeView {
        match self {
            HealthCheckType::Http { port, path, expected_status } =>
                HealthCheckTypeView::Http { port: *port, path: path@, expected_status: *expected_status },
            HealthCheckType::Tcp { port } => HealthCheckTypeView::Tcp { port: *port },
            HealthCheckType::Command { command, args, expected_exit_code } =>
                HealthCheckTypeView::Command { command: command@, args: texts(args@), expected_exit_code: *expected_exit_code },
        }
    }
}

/// Mathematical value of a [`HealthCheck`].
pub struct HealthCheckView {
    pub container_id: Seq<char>,
    pub check_type: HealthCheckTypeView,
    pub interval_seconds: u64,
    pub timeout_seconds: u64,
    pub retries: u32,
    pub last_check: Option<i64>,
    pub status: HealthCheckStatus,
}

impl View for HealthCheck {
    type V = HealthCheckView;

    open spec fn view(&self) -> HealthCheckView {
        HealthCheckView {
            container_id: self.container_id@,
            check_type: self.check_type@,
            interval_seconds: self.interval_seconds,
            timeout_seconds: self.timeout_seconds,
            retries: self.retries,
            last_check: self.last_check,
            status: self.status,
        }
    }
}

/// Mathematical value of a [`LogEntry`].
pub struct LogEntryView {
    pub timestamp: i64,
    pub stream: LogStream,
    pub content: Seq<char>,
}

impl View for LogEntry {
    type V = LogEntryView;

    open spec fn view(&self) -> LogEntryView {
        LogEntryView { timestamp: self.timestamp, stream: self.stream, content: self.content@ }
    }
}

/// The views of a list of log entries.
pub open spec fn log_views(v: Seq<LogEntry>) -> Seq<LogEntryView> {
    v.map_values(|e: LogEntry| e@)
}

/// The bookkeeping of the containerd-backed runtime: containers, statistics and
/// volumes by name, the metrics cache (statistics and when they were taken), the
/// log cache, and the configured health checks, each by container id.
pub struct ContainerdManager {
    pub namespace: String,
    pub containers: Vec<(String, Container)>,
    pub container_stats: Vec<(String, ContainerStats)>,
    pub volumes: Vec<(String, Volume)>,
    pub metrics_cache: Vec<(String, (ContainerStats, i64))>,
    pub logs_cache: Vec<(String, Vec<LogEntry>)>,
    pub health_checks: Vec<(String, HealthCheck)>,
}

/// Containers by id.
pub open spec fn cd_containers(m: &ContainerdManager) -> Map<Seq<char>, ContainerView> {
    as_map(m.containers@).map_values(|c: Container| c@)
}

/// Statistics by container id.
pub open spec fn cd_stats(m: &ContainerdManager) -> Map<Seq<char>, ContainerStats> {
    as_map(m.container_stats@)
}

/// Volumes by name.
pub open spec fn cd_volumes(m: &ContainerdManager) -> Map<Seq<char>, VolumeView> {
    as_map(m.volumes@).map_values(|v: Volume| v@)
}

/// Cached statistics and the time they were cached, by container id.
pub open spec fn cd_cache(m: &ContainerdManager) -> Map<Seq<char>, (ContainerStats, i64)> {
    as_map(m.metrics_cache@)
}

/// Cached logs by container id.
pub open spec fn cd_logs(m: &ContainerdManager) -> Map<Seq<char>, Seq<LogEntryView>> {
    as_map(m.logs_cache@).map_values(|v: Vec<LogEntry>| log_views(v@))
}

/// Configured health checks by container id.
pub open spec fn cd_checks(m: &ContainerdManager) -> Map<Seq<char>, HealthCheckView> {
    as_map(m.health_checks@).map_values(|h: HealthCheck| h@)
}

/// The tables have distinct keys and cache times are not before the epoch.
pub open spec fn cd_wf(m: &ContainerdManager) -> bool {
    &&& keys_distinct(m.containers@)
    &&& keys_distinct(m.container_stats@)
    &&& keys_distinct(m.volumes@)
    &&& keys_distinct(m.metrics_cache@)
    &&& keys_distinct(m.logs_cache@)
    &&& keys_distinct(m.health_checks@)
}

/// A container record as this runtime makes it: running on the local node.
pub open spec fn local_container_view(id: Seq<char>, name: Seq<char>, image: Seq<char>, env: Seq<EnvVarView>,
    ports: Seq<crate::containers::PortMappingView>, volumes: Seq<VolumeView>, now: i64) -> ContainerView {
    ContainerView {
        id,
        name,
        image,
        status: ContainerStatus::Running,
        node_id: "local"@,
        created_at: now,
        ports,
        env_vars: env,
        volumes,
        service_domain: None,
    }
}

/// How stopping a container went in containerd.
#[derive(Debug)]
pub enum StopOutcome {
    /// The task was killed and deleted, and the container deleted.
    Deleted,
    /// Killing the task failed with this message.
    KillFailed(String),
    /// The task was killed but deleting it failed with this message.
    TaskDeleteFailed(String),
    /// Deleting the container failed with this message.
    ContainerDeleteFailed(String),
}

/// A request to containerd in creating or stopping a container.
#[derive(Debug, Clone, Copy, PartialEq, Eq, Structural)]
pub enum CdRequest {
    CreateContainer,
    CreateTask,
    StartTask,
    KillTask,
    DeleteTask,
    DeleteContainer,
}

/// How a creation that went wrong is cleaned up, whatever the clean-up gives.
#[derive(Debug, Clone, Copy, PartialEq, Eq, Structural)]
pub enum CreateCleanup {
    /// Delete the container just created.
    DeleteContainer,
    /// Stop the container (see [`stop_step`]).
    StopContainer,
}

/// What creating a container does next.
#[derive(Debug, Clone, PartialEq, Eq)]
pub enum CreateStep {
    /// Send this request and report its outcome.
    Next(CdRequest),
    /// Started: the container is to be recorded.
    Started,
    /// Failed with this error, after this clean-up, if any.
    Failed(Option<CreateCleanup>, ContainerdError),
}

/// The step after request `done` of a creation ended with `outcome`: the
/// container, then its task, are created and the task started; a failure to
/// create the container just fails, one to create the task deletes the container
/// first, and one to start the task stops the container first.
pub fn create_step(done: CdRequest, outcome: &Result<(), String>) -> (r: CreateStep)
    requires
        done == CdRequest::CreateContainer || done == CdRequest::CreateTask || done == CdRequest::StartTask,
    ensures
        match outcome {
            Ok(_) => r == if done == CdRequest::CreateContainer { CreateStep::Next(CdRequest::CreateTask) }
                else if done == CdRequest::CreateTask { CreateStep::Next(CdRequest::StartTask) }
                else { CreateStep::Started },
            Err(m) => if done == CdRequest::CreateContainer {
                r matches CreateStep::Failed(None, ContainerdError::ContainerCreate(x)) && x@ == m@
            } else if done == CdRequest::CreateTask {
                r matches CreateStep::Failed(Some(CreateCleanup::DeleteContainer), ContainerdError::TaskCreate(x)) && x@ == m@
            } else {
                r matches CreateStep::Failed(Some(CreateCleanup::StopContainer), ContainerdError::TaskStart(x)) && x@ == m@
            },
        },
{
    match outcome {
        Ok(_) => match done {
            CdRequest::CreateContainer => CreateStep::Next(CdRequest::CreateTask),
            CdRequest::CreateTask => CreateStep::Next(CdRequest::StartTask),
            _ => CreateStep::Started,
        },
        Err(m) => match done {
            CdRequest::CreateContainer => CreateStep::Failed(None, ContainerdError::ContainerCreate(m.clone())),
            CdRequest::CreateTask => CreateStep::Failed(Some(CreateCleanup::DeleteContainer),
                ContainerdError::TaskCreate(m.clone())),
            _ => CreateStep::Failed(Some(CreateCleanup::StopContainer), ContainerdError::TaskStart(m.clone())),
        },
    }
}

/// What stopping a container does next.
#[derive(Debug)]
pub enum StopStep {
    /// Send this request (after a task is killed, two seconds later) and report
    /// its outcome.
    Next(CdRequest),
    /// Stopping ended so: record it with [`ContainerdManager::finish_stop`].
    Finish(StopOutcome),
}

/// The step after request `done` of stopping a container ended with `outcome`:
/// the task is killed, then deleted, then the container is deleted. A kill that
/// fails because the task is missing goes straight to deleting the container;
/// any other failure ends the stop with what failed.
pub fn stop_step(done: CdRequest, outcome: &Result<(), String>) -> (r: StopStep)
    requires
        done == CdRequest::KillTask || done == CdRequest::DeleteTask || done == CdRequest::DeleteContainer,
    ensures
        match outcome {
            Ok(_) => if done == CdRequest::KillTask { r matches StopStep::Next(CdRequest::DeleteTask) }
                else if done == CdRequest::DeleteTask { r matches StopStep::Next(CdRequest::DeleteContainer) }
                else { r matches StopStep::Finish(StopOutcome::Deleted) },
            Err(m) => if done == CdRequest::KillTask {
                if crate::text::contains_text_spec(m@, "not found"@) {
                    r matches StopStep::Next(CdRequest::DeleteContainer)
                } else {
                    r matches StopStep::Finish(StopOutcome::KillFailed(x)) && x@ == m@
                }
            } else if done == CdRequest::DeleteTask {
                r matches StopStep::Finish(StopOutcome::TaskDeleteFailed(x)) && x@ == m@
            } else {
                r matches StopStep::Finish(StopOutcome::ContainerDeleteFailed(x)) && x@ == m@
            },
        },
{
    match outcome {
        Ok(_) => match done {
            CdRequest::KillTask => StopStep::Next(CdRequest::DeleteTask),
            CdRequest::DeleteTask => StopStep::Next(CdRequest::DeleteContainer),
            _ => StopStep::Finish(StopOutcome::Deleted),
        },
        Err(m) => match done {
            CdRequest::KillTask => if ContainerdManager::kill_error_means_missing(m.as_str()) {
                StopStep::Next(CdRequest::DeleteContainer)
            } else {
                StopStep::Finish(StopOutcome::KillFailed(m.clone()))
            },
            CdRequest::DeleteTask => StopStep::Finish(StopOutcome::TaskDeleteFailed(m.clone())),
            _ => StopStep::Finish(StopOutcome::ContainerDeleteFailed(m.clone())),
        },
    }
}

/// Whether metrics can be served from the cache or must be collected.
#[derive(Debug)]
pub enum MetricsLookup {
    Cached(ContainerStats),
    Collect,
}

/// The container with `id` marked stopped, if it is recorded.
pub open spec fn stopped_in(cm: Map<Seq<char>, ContainerView>, id: Seq<char>) -> Map<Seq<char>, ContainerView> {
    if cm.contains_key(id) { cm.insert(id, ContainerView { status: ContainerStatus::Stopped, ..cm[id] }) } else { cm }
}

impl ContainerdManager {
    /// Empty bookkeeping for the given containerd namespace.
    pub fn new(namespace: String) -> (m: Self)
        ensures
            cd_wf(&m),
            m.namespace == namespace,
            m.containers@.len() == 0,
            m.container_stats@.len() == 0,
            m.volumes@.len() == 0,
            m.metrics_cache@.len() == 0,
            m.logs_cache@.len() == 0,
            m.health_checks@.len() == 0,
    {
        let m = ContainerdManager {
            namespace,
            containers: Vec::new(),
            container_stats: Vec::new(),
            volumes: Vec::new(),
            metrics_cache: Vec::new(),
            logs_cache: Vec::new(),
            health_checks: Vec::new(),
        };
        assert(cd_cache(&m) =~= Map::empty());
        m
    }

    /// Whether container `id` is recorded.
    pub fn has_container(&self, id: &str) -> (r: bool)
        requires
            cd_wf(self),
        ensures
            r == cd_containers(self).contains_key(id@),
    {
        find_key(&self.containers, id).is_some()
    }

    /// The mounts for the requested `(volume, path)` pairs (see
    /// [`crate::containers::mounts_for`]), checked before a container is created.
    pub fn resolve_volume_mounts(&self, requested: &Vec<(String, String)>) -> (r: Result<Vec<Volume>, ContainerdError>)
        requires
            cd_wf(self),
        ensures
            match mounts_for(cd_volumes(self), request_view(requested@)) {
                Ok(ms) => r is Ok && volume_views(r->Ok_0@) == ms,
                Err(n) => r matches Err(ContainerdError::VolumeNotFound(x)) && x@ == n,
            },
    {
        match mounts_from(&self.volumes, requested) {
            Ok(ms) => Ok(ms),
            Err(n) => Err(ContainerdError::VolumeNotFound(n)),
        }
    }

    /// Records a container that containerd created and started at `now`.
    pub fn record_container(&mut self, id: String, name: &str, image: &str, env_vars: Vec<EnvVar>, ports: Vec<PortMapping>,
        volumes: Vec<Volume>, now: i64)
        requires
            cd_wf(old(self)),
        ensures
            cd_wf(final(self)),
            cd_containers(final(self)) == cd_containers(old(self)).insert(id@,
                local_container_view(id@, name@, image@, env_views(env_vars@), port_views(ports@), volume_views(volumes@), now)),
            final(self).container_stats == old(self).container_stats,
            final(self).volumes == old(self).volumes,
            final(self).metrics_cache == old(self).metrics_cache,
            final(self).logs_cache == old(self).logs_cache,
            final(self).health_checks == old(self).health_checks,
    {
        let c = Container {
            id: id.clone(),
            name: owned(name),
            image: owned(image),
            status: ContainerStatus::Running,
            node_id: owned("local"),
            created_at: now,
            ports,
            env_vars,
            volumes,
            service_domain: None,
        };
        let ghost cv = c@;
        insert_key(&mut self.containers, id, c);
        assert(cd_containers(self) =~= cd_containers(old(self)).insert(cv.id, cv));
    }

    /// Marks container `id`, if recorded, stopped.
    fn mark_stopped(&mut self, id: &str)
        requires
            cd_wf(old(self)),
        ensures
            cd_wf(final(self)),
            cd_containers(final(self)) == stopped_in(cd_containers(old(self)), id@),
            final(self).container_stats == old(self).container_stats,
            final(self).volumes == old(self).volumes,
            final(self).metrics_cache == old(self).metrics_cache,
            final(self).logs_cache == old(self).logs_cache,
            final(self).health_checks == old(self).health_checks,
    {
        let pos = find_key(&self.containers, id);
        proof {
            lemma_key_pos(self.containers@, id@);
        }
        match pos {
            Some(i) => {
                proof {
                    lemma_as_map_index(self.containers@, i as int);
                }
                let mut c = copy_container(&self.containers[i].1);
                c.status = ContainerStatus::Stopped;
                let ghost cv = c@;
                insert_key(&mut self.containers, owned(id), c);
                assert(cd_containers(self) =~= cd_containers(old(self)).insert(id@, cv));
            },
            None => {},
        }
    }

    /// Whether a failure to kill a task means the task does not exist (its message
    /// says "not found"), in which case the container is deleted directly.
    pub fn kill_error_means_missing(message: &str) -> (r: bool)
        ensures
            r == crate::text::contains_text_spec(message@, "not found"@),
    {
        crate::text::contains_text(message, "not found")
    }

    /// The check made before any request to stop container `id` is sent: an id
    /// not recorded is refused as not found, and nothing is sent for it.
    pub fn begin_stop(&self, id: &str) -> (r: Result<(), ContainerdError>)
        requires
            cd_wf(self),
        ensures
            cd_containers(self).contains_key(id@) ==> r is Ok,
            !cd_containers(self).contains_key(id@) ==> (r matches Err(ContainerdError::ContainerNotFound(x)) && x@ == id@),
    {
        if self.has_container(id) {
            Ok(())
        } else {
            Err(ContainerdError::ContainerNotFound(owned(id)))
        }
    }

    /// Records how stopping container `id` went: once the task is gone (deleted, or
    /// its deletion or the container's failed) the container is marked stopped; a
    /// failed kill changes nothing. Only a complete deletion succeeds.
    pub fn finish_stop(&mut self, id: &str, outcome: StopOutcome) -> (r: Result<(), ContainerdError>)
        requires
            cd_wf(old(self)),
        ensures
            cd_wf(final(self)),
            match outcome {
                StopOutcome::Deleted => r is Ok && cd_containers(final(self)) == stopped_in(cd_containers(old(self)), id@),
                StopOutcome::KillFailed(m) => r matches Err(ContainerdError::TaskKill(x)) && x@ == m@
                    && final(self).containers == old(self).containers,
                StopOutcome::TaskDeleteFailed(m) => r matches Err(ContainerdError::TaskDelete(x)) && x@ == m@
                    && cd_containers(final(self)) == stopped_in(cd_containers(old(self)), id@),
                StopOutcome::ContainerDeleteFailed(m) => r matches Err(ContainerdError::ContainerDelete(x)) && x@ == m@
                    && cd_containers(final(self)) == stopped_in(cd_containers(old(self)), id@),
            },
            final(self).container_stats == old(self).container_stats,
            final(self).volumes == old(self).volumes,
            final(self).metrics_cache == old(self).metrics_cache,
            final(self).logs_cache == old(self).logs_cache,
            final(self).health_checks == old(self).health_checks,
    {
        match outcome {
            StopOutcome::Deleted => {
                self.mark_stopped(id);
                Ok(())
            },
            StopOutcome::KillFailed(m) => Err(ContainerdError::TaskKill(m)),
            StopOutcome::TaskDeleteFailed(m) => {
                self.mark_stopped(id);
                Err(ContainerdError::TaskDelete(m))
            },
            StopOutcome::ContainerDeleteFailed(m) => {
                self.mark_stopped(id);
                Err(ContainerdError::ContainerDelete(m))
            },
        }
    }

    /// Where metrics for `id` come from at `now`: the cache if it was filled less
    /// than five seconds ago, else a collection; unknown containers are refused.
    pub fn lookup_metrics(&self, id: &str, now: i64) -> (r: Result<MetricsLookup, ContainerdError>)
        requires
            cd_wf(self),
        ensures
            !cd_containers(self).contains_key(id@) ==> (r matches Err(ContainerdError::ContainerNotFound(x)) && x@ == id@),
            cd_containers(self).contains_key(id@) ==> (if cd_cache(self).contains_key(id@) && now - cd_cache(self)[id@].1 < 5 {
                (r matches Ok(MetricsLookup::Cached(s)) && s == cd_cache(self)[id@].0)
            } else {
                r matches Ok(MetricsLookup::Collect)
            }),
    {
        if !self.has_container(id) {
            return Err(ContainerdError::ContainerNotFound(owned(id)));
        }
        let pos = find_key(&self.metrics_cache, id);
        proof {
            lemma_key_pos(self.metrics_cache@, id@);
        }
        match pos {
            Some(i) => {
                proof {
                    lemma_as_map_index(self.metrics_cache@, i as int);
                }
                let (stats, t) = self.metrics_cache[i].1;
                assert(as_map(self.metrics_cache@).contains_key(id@));
                if (now as i128) - (t as i128) < 5 {
                    return Ok(MetricsLookup::Cached(stats));
                }
                Ok(MetricsLookup::Collect)
            },
            None => Ok(MetricsLookup::Collect),
        }
    }

    /// Caches freshly collected statistics of `id` at `now`.
    pub fn update_container_metrics(&mut self, id: &str, stats: ContainerStats, now: i64)
        requires
            cd_wf(old(self)),
        ensures
            cd_wf(final(self)),
            cd_cache(final(self)) == cd_cache(old(self)).insert(id@, (stats, now)),
            cd_stats(final(self)) == cd_stats(old(self)).insert(id@, stats),
            final(self).containers == old(self).containers,
            final(self).volumes == old(self).volumes,
            final(self).logs_cache == old(self).logs_cache,
            final(self).health_checks == old(self).health_checks,
    {
        insert_key(&mut self.metrics_cache, owned(id), (stats, now));
        insert_key(&mut self.container_stats, owned(id), stats);
    }

    /// The statistics of `id` after a collection at `now`: the collected ones (which
    /// are cached), else the cached ones however old, else an error.
    pub fn metrics_collected(&mut self, id: &str, collected: Option<ContainerStats>, now: i64)
        -> (r: Result<ContainerStats, ContainerdError>)
        requires
            cd_wf(old(self)),
        ensures
            cd_wf(final(self)),
            match collected {
                Some(s) => r == Ok::<ContainerStats, ContainerdError>(s)
                    && cd_cache(final(self)) == cd_cache(old(self)).insert(id@, (s, now))
                    && cd_stats(final(self)) == cd_stats(old(self)).insert(id@, s),
                None => final(self).metrics_cache == old(self).metrics_cache
                    && final(self).container_stats == old(self).container_stats
                    && if cd_cache(old(self)).contains_key(id@) {
                        r == Ok::<ContainerStats, ContainerdError>(cd_cache(old(self))[id@].0)
                    } else {
                        r matches Err(ContainerdError::MetricsUnavailable(x)) && x@ == id@
                    },
            },
            final(self).containers == old(self).containers,
            final(self).volumes == old(self).volumes,
            final(self).logs_cache == old(self).logs_cache,
            final(self).health_checks == old(self).health_checks,
    {
        match collected {
            Some(s) => {
                self.update_container_metrics(id, s, now);
                Ok(s)
            },
            None => {
                let pos = find_key(&self.metrics_cache, id);
                proof {
                    lemma_key_pos(self.metrics_cache@, id@);
                }
                match pos {
                    Some(i) => {
                        proof {
                            lemma_as_map_index(self.metrics_cache@, i as int);
                        }
                        Ok(self.metrics_cache[i].1.0)
                    },
                    None => Err(ContainerdError::MetricsUnavailable(owned(id))),
                }
            },
        }
    }
}


/// What a configured health check asks the application to do.
#[derive(Debug)]
pub enum HealthProbe {
    /// Request this URL and compare the response status.
    Http { url: String, expected_status: u16 },
    /// Connect to this address.
    Tcp { address: String },
    /// Run this command in the container and compare its exit code.
    Command { container_id: String, command: String, args: Vec<String>, expected_exit_code: i32 },
}

/// Mathematical value of a [`HealthProbe`].
pub enum HealthProbeView {
    Http { url: Seq<char>, expected_status: u16 },
    Tcp { address: Seq<char> },
    Command { container_id: Seq<char>, command: Seq<char>, args: Seq<Seq<char>>, expected_exit_code: i32 },
}

impl View for HealthProbe {
    type V = HealthProbeView;

    open spec fn view(&self) -> HealthProbeView {
        match self {
            HealthProbe::Http { url, expected_status } => HealthProbeView::Http { url: url@, expected_status: *expected_status },
            HealthProbe::Tcp { address } => HealthProbeView::Tcp { address: address@ },
            HealthProbe::Command { container_id, command, args, expected_exit_code } => HealthProbeView::Command {
                container_id: container_id@,
                command: command@,
                args: texts(args@),
                expected_exit_code: *expected_exit_code,
            },
        }
    }
}

/// The probe for a check of container `id`, addressed at the container's address.
pub open spec fn probe_for(id: Seq<char>, t: HealthCheckTypeView) -> HealthProbeView {
    match t {
        HealthCheckTypeView::Http { port, path, expected_status } =>
            HealthProbeView::Http { url: http_check_url("127.0.0.1"@, port, path), expected_status },
        HealthCheckTypeView::Tcp { port } => HealthProbeView::Tcp { address: tcp_check_address("127.0.0.1"@, port) },
        HealthCheckTypeView::Command { command, args, expected_exit_code } =>
            HealthProbeView::Command { container_id: id, command, args, expected_exit_code },
    }
}

/// A copy of a list of strings.
pub fn copy_strings(v: &Vec<String>) -> (r: Vec<String>)
    ensures
        texts(r@) == texts(v@),
{
    let mut r: Vec<String> = Vec::new();
    let mut i: usize = 0;
    while i < v.len()
        invariant
            i <= v.len(),
            texts(r@) == texts(v@).take(i as int),
        decreases v.len() - i,
    {
        let ghost before = r@;
        r.push(v[i].clone());
        assert(texts(r@) =~= texts(before).push(v@[i as int]@));
        i = i + 1;
        assert(texts(r@) =~= texts(v@).take(i as int));
    }
    assert(texts(v@).take(v@.len() as int) =~= texts(v@));
    r
}

/// A log entry's timestamp lies in the optional window `[since, until]`.
pub open spec fn in_window(ts: i64, since: Option<i64>, until: Option<i64>) -> bool {
    !(since matches Some(s) && ts < s) && !(until matches Some(u) && ts > u)
}

/// A log entry passes the filters: in the window, and its stream selected.
pub open spec fn log_selected(e: LogEntryView, since: Option<i64>, until: Option<i64>, stdout: bool, stderr: bool) -> bool {
    in_window(e.timestamp, since, until) && (e.stream == LogStream::Stdout ==> stdout) && (e.stream == LogStream::Stderr ==> stderr)
}

/// The entries that pass the filters, in order.
pub open spec fn filter_logs_view(s: Seq<LogEntryView>, since: Option<i64>, until: Option<i64>, stdout: bool, stderr: bool)
    -> Seq<LogEntryView>
    decreases s.len(),
{
    if s.len() == 0 {
        s
    } else if log_selected(s.last(), since, until, stdout, stderr) {
        filter_logs_view(s.drop_last(), since, until, stdout, stderr).push(s.last())
    } else {
        filter_logs_view(s.drop_last(), since, until, stdout, stderr)
    }
}

/// The last `tail` entries (all of them without a limit or with a limit not below
/// their number).
pub open spec fn tail_view(s: Seq<LogEntryView>, tail: Option<usize>) -> Seq<LogEntryView> {
    match tail {
        Some(t) => if t < s.len() { s.skip(s.len() - t) } else { s },
        None => s,
    }
}

/// A copy of a log entry.
pub fn copy_log_entry(e: &LogEntry) -> (r: LogEntry)
    ensures
        r@ == e@,
{
    LogEntry { timestamp: e.timestamp, stream: e.stream, content: e.content.clone() }
}

/// Whether a log entry's timestamp lies in the window (see [`in_window`]).
pub fn log_in_window(ts: i64, since: Option<i64>, until: Option<i64>) -> (r: bool)
    ensures
        r == in_window(ts, since, until),
{
    match since {
        Some(s) => {
            if ts < s {
                return false;
            }
        },
        None => {},
    }
    match until {
        Some(u) => {
            if ts > u {
                return false;
            }
        },
        None => {},
    }
    true
}

/// The last `tail` entries of a list (see [`tail_view`]).
pub fn tail_logs(logs: Vec<LogEntry>, tail: Option<usize>) -> (r: Vec<LogEntry>)
    ensures
        log_views(r@) == tail_view(log_views(logs@), tail),
{
    match tail {
        Some(t) => {
            if t < logs.len() {
                let start = logs.len() - t;
                let mut r: Vec<LogEntry> = Vec::new();
                let mut i: usize = start;
                while i < logs.len()
                    invariant
                        start <= i <= logs.len(),
                        start == logs.len() - t,
                        log_views(r@) == log_views(logs@).subrange(start as int, i as int),
                    decreases logs.len() - i,
                {
                    let ghost before = r@;
                    r.push(copy_log_entry(&logs[i]));
                    assert(log_views(r@) =~= log_views(before).push(logs@[i as int]@));
                    i = i + 1;
                    assert(log_views(r@) =~= log_views(logs@).subrange(start as int, i as int));
                }
                assert(log_views(logs@).skip(start as int) =~= log_views(logs@).subrange(start as int, logs@.len() as int));
                r
            } else {
                logs
            }
        },
        None => logs,
    }
}

/// The entries that pass the filters, then the last `tail` of them.
pub fn filter_logs(logs: &Vec<LogEntry>, tail: Option<usize>, since: Option<i64>, until: Option<i64>, stdout: bool, stderr: bool)
    -> (r: Vec<LogEntry>)
    ensures
        log_views(r@) == tail_view(filter_logs_view(log_views(logs@), since, until, stdout, stderr), tail),
{
    let ghost all = log_views(logs@);
    let mut out: Vec<LogEntry> = Vec::new();
    let mut i: usize = 0;
    while i < logs.len()
        invariant
            i <= logs.len(),
            all == log_views(logs@),
            log_views(out@) == filter_logs_view(all.take(i as int), since, until, stdout, stderr),
        decreases logs.len() - i,
    {
        assert(all.take(i + 1).drop_last() =~= all.take(i as int));
        let e = &logs[i];
        let keep = log_in_window(e.timestamp, since, until)
            && (e.stream != LogStream::Stdout || stdout)
            && (e.stream != LogStream::Stderr || stderr);
        if keep {
            let ghost before = out@;
            out.push(copy_log_entry(e));
            assert(log_views(out@) =~= log_views(before).push(all[i as int]));
        }
        i = i + 1;
    }
    assert(all.take(all.len() as int) =~= all);
    tail_logs(out, tail)
}

/// The cached log of one container after appending `e`: past 10000 entries the
/// oldest 5000 are dropped.
pub open spec fn append_log(s: Seq<LogEntryView>, e: LogEntryView) -> Seq<LogEntryView> {
    let p = s.push(e);
    if p.len() > 10000 { p.skip(5000) } else { p }
}

/// What `chrono::DateTime::parse_from_rfc3339` makes of a text: the Unix time in
/// seconds of a valid RFC 3339 date-time, nothing otherwise.
pub uninterp spec fn rfc3339_seconds(s: Seq<char>) -> Option<i64>;

/// The Unix time of an RFC 3339 date-time (`chrono::DateTime::parse_from_rfc3339`,
/// then `timestamp`); `None` when the text is not one. Nothing is stated of which
/// texts parse.
#[verifier::external_body]
pub(crate) fn parse_rfc3339(s: &str) -> (r: Option<i64>)
    ensures
        r == rfc3339_seconds(s@),
{
    match chrono::DateTime::parse_from_rfc3339(s) {
        Ok(dt) => Some(dt.timestamp()),
        Err(_) => None,
    }
}

/// The text without its leading whitespace (`str::trim_start`). Its documentation
/// defines whitespace by Unicode's `White_Space` property, as `char::is_whitespace`
/// does (see [`skip_whitespace`]).
#[verifier::external_body]
fn trim_start(s: &str) -> (r: String)
    ensures
        r@ == skip_whitespace(s@),
{
    s.trim_start().to_string()
}

/// The timestamp and content of a raw log line read at `now`: a line that starts
/// with an RFC 3339 time ending in the first `Z` (past its 20th byte, with text
/// after it) takes that time, and keeps the text after it without leading
/// whitespace; any other line is kept whole, stamped `now`.
pub open spec fn parse_log_line_view(content: Seq<char>, now: i64) -> (i64, Seq<char>) {
    match first_index_of(content, 'Z') {
        Some(z) => {
            let bz = vstd::utf8::encode_utf8(content.take(z)).len();
            if bz > 20 && vstd::utf8::encode_utf8(content).len() > bz + 1 {
                match rfc3339_seconds(content.take(z + 1)) {
                    Some(t) => (t, skip_whitespace(content.skip(z + 1))),
                    None => (now, content),
                }
            } else {
                (now, content)
            }
        },
        None => (now, content),
    }
}

/// The timestamp and content of a raw log line read at `now` (see [`parse_log_line_view`]).
pub fn parse_log_line(content: &str, now: i64) -> (r: (i64, String))
    ensures
        (r.0, r.1@) == parse_log_line_view(content@, now),
{
    let v = chars_of(content);
    proof {
        lemma_first_index_of(content@, 'Z');
    }
    match find_char(&v, 'Z') {
        Some(z) => {
            let head = string_of(&slice_chars(&v, 0, z));
            let bz = utf8_bytes(head.as_str()).len();
            let total = utf8_bytes(content).len();
            assert(head@ =~= content@.take(z as int));
            if bz > 20 && total > bz && total - bz > 1 {
                let stamp = string_of(&slice_chars(&v, 0, z + 1));
                assert(stamp@ =~= content@.take(z + 1));
                match parse_rfc3339(stamp.as_str()) {
                    Some(t) => {
                        let n = v.len();
                        let rest = string_of(&slice_chars(&v, z + 1, n));
                        assert(rest@ =~= content@.skip(z + 1));
                        (t, trim_start(rest.as_str()))
                    },
                    None => (now, owned(content)),
                }
            } else {
                (now, owned(content))
            }
        },
        None => (now, owned(content)),
    }
}

/// A copy of a list of log entries.
fn copy_logs(v: &Vec<LogEntry>) -> (r: Vec<LogEntry>)
    ensures
        log_views(r@) == log_views(v@),
{
    let mut r: Vec<LogEntry> = Vec::new();
    let mut i: usize = 0;
    while i < v.len()
        invariant
            i <= v.len(),
            log_views(r@) == log_views(v@).take(i as int),
        decreases v.len() - i,
    {
        let ghost before = r@;
        r.push(copy_log_entry(&v[i]));
        assert(log_views(r@) =~= log_views(before).push(v@[i as int]@));
        i = i + 1;
        assert(log_views(r@) =~= log_views(v@).take(i as int));
    }
    assert(log_views(v@).take(v@.len() as int) =~= log_views(v@));
    r
}

impl ContainerdManager {
    /// Configures the health check of container `id`; its status is unknown until
    /// it first runs. Unknown containers are refused.
    pub fn configure_health_check(&mut self, id: &str, check_type: HealthCheckType, interval_seconds: u64, timeout_seconds: u64,
        retries: u32) -> (r: Result<(), ContainerdError>)
        requires
            cd_wf(old(self)),
        ensures
            cd_wf(final(self)),
            if cd_containers(old(self)).contains_key(id@) {
                &&& r is Ok
                &&& cd_checks(final(self)) == cd_checks(old(self)).insert(id@, HealthCheckView {
                        container_id: id@,
                        check_type: check_type@,
                        interval_seconds,
                        timeout_seconds,
                        retries,
                        last_check: None,
                        status: HealthCheckStatus::Unknown,
                    })
            } else {
                &&& r matches Err(ContainerdError::ContainerNotFound(x)) && x@ == id@
                &&& final(self).health_checks == old(self).health_checks
            },
            final(self).containers == old(self).containers,
            final(self).container_stats == old(self).container_stats,
            final(self).volumes == old(self).volumes,
            final(self).metrics_cache == old(self).metrics_cache,
            final(self).logs_cache == old(self).logs_cache,
    {
        if !self.has_container(id) {
            return Err(ContainerdError::ContainerNotFound(owned(id)));
        }
        let hc = HealthCheck {
            container_id: owned(id),
            check_type,
            interval_seconds,
            timeout_seconds,
            retries,
            last_check: None,
            status: HealthCheckStatus::Unknown,
        };
        let ghost hv = hc@;
        insert_key(&mut self.health_checks, owned(id), hc);
        assert(cd_checks(self) =~= cd_checks(old(self)).insert(id@, hv));
        Ok(())
    }

    /// The latest outcome of the health check of container `id`.
    pub fn get_health_check_status(&self, id: &str) -> (r: Result<HealthCheckStatus, ContainerdError>)
        requires
            cd_wf(self),
        ensures
            if !cd_containers(self).contains_key(id@) {
                r matches Err(ContainerdError::ContainerNotFound(x)) && x@ == id@
            } else if !cd_checks(self).contains_key(id@) {
                r matches Err(ContainerdError::NoHealthCheck(x)) && x@ == id@
            } else {
                r == Ok::<HealthCheckStatus, ContainerdError>(cd_checks(self)[id@].status)
            },
    {
        if !self.has_container(id) {
            return Err(ContainerdError::ContainerNotFound(owned(id)));
        }
        let pos = find_key(&self.health_checks, id);
        proof {
            lemma_key_pos(self.health_checks@, id@);
        }
        match pos {
            Some(i) => {
                proof {
                    lemma_as_map_index(self.health_checks@, i as int);
                }
                Ok(self.health_checks[i].1.status)
            },
            None => Err(ContainerdError::NoHealthCheck(owned(id))),
        }
    }

    /// What the configured health check of container `id` asks to do (see
    /// [`probe_for`]); refused when none is configured.
    pub fn plan_health_check(&self, id: &str) -> (r: Result<HealthProbe, ContainerdError>)
        requires
            cd_wf(self),
        ensures
            if cd_checks(self).contains_key(id@) {
                r matches Ok(p) && p@ == probe_for(id@, cd_checks(self)[id@].check_type)
            } else {
                r matches Err(ContainerdError::NoHealthCheck(x)) && x@ == id@
            },
    {
        let pos = find_key(&self.health_checks, id);
        proof {
            lemma_key_pos(self.health_checks@, id@);
        }
        match pos {
            Some(i) => {
                proof {
                    lemma_as_map_index(self.health_checks@, i as int);
                }
                let ip = get_container_ip(id);
                let probe = match &self.health_checks[i].1.check_type {
                    HealthCheckType::Http { port, path, expected_status } =>
                        HealthProbe::Http { url: health_check_url(ip.as_str(), *port, path.as_str()), expected_status: *expected_status },
                    HealthCheckType::Tcp { port } => HealthProbe::Tcp { address: health_check_address(ip.as_str(), *port) },
                    HealthCheckType::Command { command, args, expected_exit_code } => HealthProbe::Command {
                        container_id: owned(id),
                        command: command.clone(),
                        args: copy_strings(args),
                        expected_exit_code: *expected_exit_code,
                    },
                };
                Ok(probe)
            },
            None => Err(ContainerdError::NoHealthCheck(owned(id))),
        }
    }

    /// Records the outcome of the health check of container `id` run at `now`.
    pub fn record_health_check(&mut self, id: &str, status: HealthCheckStatus, now: i64)
        requires
            cd_wf(old(self)),
        ensures
            cd_wf(final(self)),
            cd_checks(final(self)) == (if cd_checks(old(self)).contains_key(id@) {
                cd_checks(old(self)).insert(id@, HealthCheckView { status, last_check: Some(now), ..cd_checks(old(self))[id@] })
            } else {
                cd_checks(old(self))
            }),
            final(self).containers == old(self).containers,
            final(self).container_stats == old(self).container_stats,
            final(self).volumes == old(self).volumes,
            final(self).metrics_cache == old(self).metrics_cache,
            final(self).logs_cache == old(self).logs_cache,
    {
        let pos = find_key(&self.health_checks, id);
        proof {
            lemma_key_pos(self.health_checks@, id@);
        }
        match pos {
            Some(i) => {
                proof {
                    lemma_as_map_index(self.health_checks@, i as int);
                }
                let old_check = &self.health_checks[i].1;
                let check_type = match &old_check.check_type {
                    HealthCheckType::Http { port, path, expected_status } =>
                        HealthCheckType::Http { port: *port, path: path.clone(), expected_status: *expected_status },
                    HealthCheckType::Tcp { port } => HealthCheckType::Tcp { port: *port },
                    HealthCheckType::Command { command, args, expected_exit_code } => HealthCheckType::Command {
                        command: command.clone(),
                        args: copy_strings(args),
                        expected_exit_code: *expected_exit_code,
                    },
                };
                let hc = HealthCheck {
                    container_id: old_check.container_id.clone(),
                    check_type,
                    interval_seconds: old_check.interval_seconds,
                    timeout_seconds: old_check.timeout_seconds,
                    retries: old_check.retries,
                    last_check: Some(now),
                    status,
                };
                let ghost hv = hc@;
                insert_key(&mut self.health_checks, owned(id), hc);
                assert(cd_checks(self) =~= cd_checks(old(self)).insert(id@, hv));
            },
            None => {},
        }
    }

    /// The cached log of container `id` filtered (see [`filter_logs_view`] and
    /// [`tail_view`]); `None` when nothing is cached. Unknown containers are refused.
    pub fn get_cached_logs(&self, id: &str, tail: Option<usize>, since: Option<i64>, until: Option<i64>, stdout: bool,
        stderr: bool) -> (r: Result<Option<Vec<LogEntry>>, ContainerdError>)
        requires
            cd_wf(self),
        ensures
            if !cd_containers(self).contains_key(id@) {
                r matches Err(ContainerdError::ContainerNotFound(x)) && x@ == id@
            } else if cd_logs(self).contains_key(id@) {
                r matches Ok(Some(v)) && log_views(v@) == tail_view(filter_logs_view(cd_logs(self)[id@], since, until, stdout, stderr), tail)
            } else {
                r matches Ok(None)
            },
    {
        if !self.has_container(id) {
            return Err(ContainerdError::ContainerNotFound(owned(id)));
        }
        let pos = find_key(&self.logs_cache, id);
        proof {
            lemma_key_pos(self.logs_cache@, id@);
        }
        match pos {
            Some(i) => {
                proof {
                    lemma_as_map_index(self.logs_cache@, i as int);
                }
                Ok(Some(filter_logs(&self.logs_cache[i].1, tail, since, until, stdout, stderr)))
            },
            None => Ok(None),
        }
    }

    /// Appends a streamed log entry to the cache of container `id` (see [`append_log`]).
    pub fn cache_log_entry(&mut self, id: &str, entry: LogEntry)
        requires
            cd_wf(old(self)),
        ensures
            cd_wf(final(self)),
            cd_logs(final(self)) == cd_logs(old(self)).insert(id@, if cd_logs(old(self)).contains_key(id@) {
                append_log(cd_logs(old(self))[id@], entry@)
            } else {
                seq![entry@]
            }),
            final(self).containers == old(self).containers,
            final(self).container_stats == old(self).container_stats,
            final(self).volumes == old(self).volumes,
            final(self).metrics_cache == old(self).metrics_cache,
            final(self).health_checks == old(self).health_checks,
    {
        let ghost ev = entry@;
        let pos = find_key(&self.logs_cache, id);
        proof {
            lemma_key_pos(self.logs_cache@, id@);
        }
        let mut logs = match pos {
            Some(i) => {
                proof {
                    lemma_as_map_index(self.logs_cache@, i as int);
                }
                copy_logs(&self.logs_cache[i].1)
            },
            None => Vec::new(),
        };
        let ghost l0 = log_views(logs@);
        logs.push(entry);
        assert(log_views(logs@) =~= l0.push(ev));
        if logs.len() > 10000 {
            let n = logs.len();
            let mut kept: Vec<LogEntry> = Vec::new();
            let mut i: usize = 5000;
            while i < n
                invariant
                    5000 <= i <= n,
                    n == logs.len(),
                    log_views(kept@) == log_views(logs@).subrange(5000, i as int),
                decreases n - i,
            {
                let ghost before = kept@;
                kept.push(copy_log_entry(&logs[i]));
                assert(log_views(kept@) =~= log_views(before).push(logs@[i as int]@));
                i = i + 1;
                assert(log_views(kept@) =~= log_views(logs@).subrange(5000, i as int));
            }
            assert(log_views(logs@).skip(5000) =~= log_views(logs@).subrange(5000, n as int));
            logs = kept;
        }
        let ghost lv = log_views(logs@);
        assert(pos is None ==> lv =~= seq![ev]);
        insert_key(&mut self.logs_cache, owned(id), logs);
        assert(cd_logs(self) =~= cd_logs(old(self)).insert(id@, lv));
    }

    /// Caches the logs collected from container `id`, unless there are none.
    pub fn store_collected_logs(&mut self, id: &str, logs: Vec<LogEntry>)
        requires
            cd_wf(old(self)),
        ensures
            cd_wf(final(self)),
            cd_logs(final(self)) == (if logs@.len() > 0 { cd_logs(old(self)).insert(id@, log_views(logs@)) } else { cd_logs(old(self)) }),
            final(self).containers == old(self).containers,
            final(self).container_stats == old(self).container_stats,
            final(self).volumes == old(self).volumes,
            final(self).metrics_cache == old(self).metrics_cache,
            final(self).health_checks == old(self).health_checks,
    {
        if logs.len() > 0 {
            let ghost lv = log_views(logs@);
            insert_key(&mut self.logs_cache, owned(id), logs);
            assert(cd_logs(self) =~= cd_logs(old(self)).insert(id@, lv));
        }
    }
}


impl ContainerdManager {
    /// Records volume `name`, created at `now` in its directory, empty.
    pub fn record_volume(&mut self, name: &str, now: i64)
        requires
            cd_wf(old(self)),
        ensures
            cd_wf(final(self)),
            cd_volumes(final(self)) == cd_volumes(old(self)).insert(name@,
                VolumeView { name: name@, path: volume_path(name@), size: 0, created_at: now }),
            final(self).containers == old(self).containers,
            final(self).container_stats == old(self).container_stats,
            final(self).metrics_cache == old(self).metrics_cache,
            final(self).logs_cache == old(self).logs_cache,
            final(self).health_checks == old(self).health_checks,
    {
        self.set_volume(name, 0, now);
    }

    /// Records volume `name` in its directory with the given size and time.
    pub fn set_volume(&mut self, name: &str, size: u64, now: i64)
        requires
            cd_wf(old(self)),
        ensures
            cd_wf(final(self)),
            cd_volumes(final(self)) == cd_volumes(old(self)).insert(name@,
                VolumeView { name: name@, path: volume_path(name@), size, created_at: now }),
            final(self).containers == old(self).containers,
            final(self).container_stats == old(self).container_stats,
            final(self).metrics_cache == old(self).metrics_cache,
            final(self).logs_cache == old(self).logs_cache,
            final(self).health_checks == old(self).health_checks,
    {
        let mut path = owned("/var/lib/hivemind/volumes/");
        push_str(&mut path, name);
        let v = Volume { name: owned(name), path, size, created_at: now };
        let ghost vv = v@;
        insert_key(&mut self.volumes, owned(name), v);
        assert(cd_volumes(self) =~= cd_volumes(old(self)).insert(name@, vv));
    }

    /// Records a volume found on disk at `path` at `now`, unless already known.
    pub fn add_discovered_volume(&mut self, name: &str, path: &str, now: i64)
        requires
            cd_wf(old(self)),
        ensures
            cd_wf(final(self)),
            cd_volumes(final(self)) == (if cd_volumes(old(self)).contains_key(name@) {
                cd_volumes(old(self))
            } else {
                cd_volumes(old(self)).insert(name@, VolumeView { name: name@, path: path@, size: 0, created_at: now })
            }),
            final(self).containers == old(self).containers,
            final(self).container_stats == old(self).container_stats,
            final(self).metrics_cache == old(self).metrics_cache,
            final(self).logs_cache == old(self).logs_cache,
            final(self).health_checks == old(self).health_checks,
    {
        if get_key(&self.volumes, name).is_none() {
            let v = Volume { name: owned(name), path: owned(path), size: 0, created_at: now };
            let ghost vv = v@;
            insert_key(&mut self.volumes, owned(name), v);
            assert(cd_volumes(self) =~= cd_volumes(old(self)).insert(name@, vv));
        }
    }

    /// The directory of volume `name`.
    pub fn volume_dir(&self, name: &str) -> (r: Result<String, ContainerdError>)
        requires
            cd_wf(self),
        ensures
            match r {
                Ok(p) => cd_volumes(self).contains_key(name@) && p@ == cd_volumes(self)[name@].path,
                Err(e) => !cd_volumes(self).contains_key(name@) && (e matches ContainerdError::VolumeNotFound(x) && x@ == name@),
            },
    {
        match get_key(&self.volumes, name) {
            Some(v) => Ok(v.path.clone()),
            None => Err(ContainerdError::VolumeNotFound(owned(name))),
        }
    }

    /// Forgets volume `name` and returns its directory, unless it is unknown or a
    /// container mounts it (the first such container in table order is named).
    pub fn delete_volume(&mut self, name: &str) -> (r: Result<String, ContainerdError>)
        requires
            cd_wf(old(self)),
        ensures
            cd_wf(final(self)),
            final(self).containers == old(self).containers,
            if !cd_volumes(old(self)).contains_key(name@) {
                &&& r matches Err(ContainerdError::VolumeNotFound(x)) && x@ == name@
                &&& final(self).volumes == old(self).volumes
            } else {
                match first_user_from(old(self).containers@, name@, 0) {
                    Some(k) => {
                        &&& r matches Err(ContainerdError::VolumeInUse { volume, container_name })
                            && volume@ == name@ && container_name@ == old(self).containers@[k].1.name@
                        &&& final(self).volumes == old(self).volumes
                    },
                    None => {
                        &&& r matches Ok(p) && p@ == cd_volumes(old(self))[name@].path
                        &&& cd_volumes(final(self)) == cd_volumes(old(self)).remove(name@)
                    },
                }
            },
            final(self).container_stats == old(self).container_stats,
            final(self).metrics_cache == old(self).metrics_cache,
            final(self).logs_cache == old(self).logs_cache,
            final(self).health_checks == old(self).health_checks,
    {
        let path = match self.volume_dir(name) {
            Ok(p) => p,
            Err(e) => {
                return Err(e);
            },
        };
        match find_volume_user(&self.containers, name) {
            Some(k) => {
                return Err(ContainerdError::VolumeInUse { volume: owned(name), container_name: self.containers[k].1.name.clone() });
            },
            None => {},
        }
        let _ = remove_key(&mut self.volumes, name);
        assert(cd_volumes(self) =~= cd_volumes(old(self)).remove(name@));
        Ok(path)
    }

    /// All volumes, sorted by name.
    pub fn list_volumes(&self) -> (r: Vec<Volume>)
        ensures
            volume_views(r@) == sort_by_name(volume_list(self.volumes@)),
    {
        sorted_volumes(&self.volumes)
    }
}

/// What `char::is_whitespace` says of a character.
pub uninterp spec fn whitespace(c: char) -> bool;

/// Whether a character is whitespace (`char::is_whitespace`, Unicode's
/// `White_Space` property).
#[verifier::external_body]
fn is_whitespace(c: char) -> (r: bool)
    ensures
        r == whitespace(c),
{
    c.is_whitespace()
}

/// The text without its leading whitespace.
pub open spec fn skip_whitespace(s: Seq<char>) -> Seq<char>
    decreases s.len(),
{
    if s.len() > 0 && whitespace(s[0]) { skip_whitespace(s.drop_first()) } else { s }
}

/// The length of the run of non-whitespace characters that begins the text.
pub open spec fn word_len(s: Seq<char>) -> nat
    decreases s.len(),
{
    if s.len() > 0 && !whitespace(s[0]) { 1 + word_len(s.drop_first()) } else { 0 }
}

/// The first whitespace-separated word of a text, if it has one.
pub open spec fn first_word_of(s: Seq<char>) -> Option<Seq<char>> {
    let t = skip_whitespace(s);
    if t.len() == 0 { None } else { Some(t.take(word_len(t) as int)) }
}

/// `skip(i)` then dropping the first character is `skip(i + 1)`.
proof fn lemma_skip_step(s: Seq<char>, i: int)
    requires
        0 <= i < s.len(),
    ensures
        s.skip(i).drop_first() == s.skip(i + 1),
        s.skip(i)[0] == s[i],
{
    assert(s.skip(i).drop_first() =~= s.skip(i + 1));
}

/// The size `du -sb` reports: the first word of its output, as a number of
/// bytes; 0 when the command failed or the word is no number.
pub open spec fn du_size_of(success: bool, output: Seq<char>) -> u64 {
    if !success {
        0
    } else {
        match first_word_of(output) {
            Some(w) => match parse_u64_spec(w) {
                Some(n) => n,
                None => 0,
            },
            None => 0,
        }
    }
}

/// The size of a restored volume from the output of `du -sb` (see
/// [`du_size_of`]).
pub fn du_size(success: bool, output: &str) -> (r: u64)
    ensures
        r == du_size_of(success, output@),
{
    if !success {
        return 0;
    }
    let v = chars_of(output);
    let mut i: usize = 0;
    assert(v@.skip(0) =~= v@);
    while i < v.len() && is_whitespace(v[i])
        invariant
            i <= v.len(),
            v@ == output@,
            skip_whitespace(v@) == skip_whitespace(v@.skip(i as int)),
        decreases v.len() - i,
    {
        proof {
            lemma_skip_step(v@, i as int);
        }
        i = i + 1;
    }
    let ghost t = v@.skip(i as int);
    assert(skip_whitespace(t) == t);
    if i == v.len() {
        assert(t.len() == 0);
        return 0;
    }
    let mut j: usize = i;
    while j < v.len() && !is_whitespace(v[j])
        invariant
            i <= j <= v.len(),
            v@ == output@,
            t == v@.skip(i as int),
            word_len(t) == (j - i) + word_len(v@.skip(j as int)),
        decreases v.len() - j,
    {
        proof {
            lemma_skip_step(v@, j as int);
        }
        j = j + 1;
    }
    assert(word_len(v@.skip(j as int)) == 0);
    let w = slice_chars(&v, i, j);
    assert(w@ =~= t.take(word_len(t) as int));
    let ws = string_of(&w);
    match parse_u64(ws.as_str()) {
        Some(n) => n,
        None => 0,
    }
}

} // verus!
