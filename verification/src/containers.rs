//! Container records and the in-memory container runtime: containers, their
//! statistics and named volumes, with the validation rules of volume management.
use vstd::prelude::*;
use vstd::string::*;
use crate::assoc::{as_map, keys_distinct, key_pos, find_key, insert_key, remove_key, get_key, lemma_key_pos, lemma_as_map_index};
use crate::text::{signed_decimal, push_signed_decimal, owned, str_eq, concat, decimal, push_str, push_char, push_decimal, starts_with, is_prefix, chars_of, seq_less, str_less, lemma_seq_less_strict, lemma_seq_less_trans};

verus! {

/// Lifecycle state of a container.
#[derive(Debug, Clone, Copy, PartialEq, Eq, Structural)]
pub enum ContainerStatus {
    Running,
    Stopped,
    Failed,
    Pending,
    Restarting,
}

/// A volume, or a volume mounted into a container at `path`.
#[derive(Debug, Clone)]
pub struct Volume {
    pub name: String,
    pub path: String,
    /// Size in bytes.
    pub size: u64,
    pub created_at: i64,
}

/// A published port.
#[derive(Debug, Clone)]
pub struct PortMapping {
    pub container_port: u16,
    pub host_port: u16,
    /// "tcp" or "udp".
    pub protocol: String,
}

/// An environment variable of a container.
#[derive(Debug, Clone)]
pub struct EnvVar {
    pub key: String,
    pub value: String,
}

/// A container record.
#[derive(Debug, Clone)]
pub struct Container {
    pub id: String,
    pub name: String,
    pub image: String,
    pub status: ContainerStatus,
    pub node_id: String,
    pub created_at: i64,
    pub ports: Vec<PortMapping>,
    pub env_vars: Vec<EnvVar>,
    pub volumes: Vec<Volume>,
    pub service_domain: Option<String>,
}

/// Resource usage of a container. CPU usage is in hundredths of a percent.
#[derive(Debug, Clone, Copy, PartialEq, Eq, Structural)]
pub struct ContainerStats {
    pub cpu_usage_centi: u64,
    pub memory_usage: u64,
    pub network_rx: u64,
    pub network_tx: u64,
    pub last_updated: i64,
}

/// Errors of the container runtime.
#[derive(Debug, Clone, PartialEq, Eq)]
pub enum RuntimeError {
    ContainerNotFound(String),
    VolumeNotFound(String),
    EmptyVolumeName,
    InvalidVolumeName,
    VolumeExists(String),
    VolumeInUse { volume: String, container_name: String, container_id: String },
    BackupNotFound(String),
    InvalidBackup,
}

/// Mathematical value of a [`Volume`].
pub struct VolumeView {
    pub name: Seq<char>,
    pub path: Seq<char>,
    pub size: u64,
    pub created_at: i64,
}

impl View for Volume {
    type V = VolumeView;

    open spec fn view(&self) -> VolumeView {
        VolumeView { name: self.name@, path: self.path@, size: self.size, created_at: self.created_at }
    }
}

/// Mathematical value of a [`PortMapping`].
pub struct PortMappingView {
    pub container_port: u16,
    pub host_port: u16,
    pub protocol: Seq<char>,
}

impl View for PortMapping {
    type V = PortMappingView;

    open spec fn view(&self) -> PortMappingView {
        PortMappingView { container_port: self.container_port, host_port: self.host_port, protocol: self.protocol@ }
    }
}

/// Mathematical value of an [`EnvVar`].
pub struct EnvVarView {
    pub key: Seq<char>,
    pub value: Seq<char>,
}

impl View for EnvVar {
    type V = EnvVarView;

    open spec fn view(&self) -> EnvVarView {
        EnvVarView { key: self.key@, value: self.value@ }
    }
}

/// The views of a list of port mappings.
pub open spec fn port_views(v: Seq<PortMapping>) -> Seq<PortMappingView> {
    v.map_values(|p: PortMapping| p@)
}

/// The views of a list of environment variables.
pub open spec fn env_views(v: Seq<EnvVar>) -> Seq<EnvVarView> {
    v.map_values(|e: EnvVar| e@)
}

/// The views of a list of volumes.
pub open spec fn volume_views(v: Seq<Volume>) -> Seq<VolumeView> {
    v.map_values(|x: Volume| x@)
}

/// Mathematical value of a [`Container`].
pub struct ContainerView {
    pub id: Seq<char>,
    pub name: Seq<char>,
    pub image: Seq<char>,
    pub status: ContainerStatus,
    pub node_id: Seq<char>,
    pub created_at: i64,
    pub ports: Seq<PortMappingView>,
    pub env_vars: Seq<EnvVarView>,
    pub volumes: Seq<VolumeView>,
    pub service_domain: Option<Seq<char>>,
}

impl View for Container {
    type V = ContainerView;

    open spec fn view(&self) -> ContainerView {
        ContainerView {
            id: self.id@,
            name: self.name@,
            image: self.image@,
            status: self.status,
            node_id: self.node_id@,
            created_at: self.created_at,
            ports: port_views(self.ports@),
            env_vars: env_views(self.env_vars@),
            volumes: volume_views(self.volumes@),
            service_domain: match self.service_domain {
                Some(d) => Some(d@),
                None => None,
            },
        }
    }
}

/// The text form of a status.
pub open spec fn status_text(s: ContainerStatus) -> Seq<char> {
    match s {
        ContainerStatus::Running => "running"@,
        ContainerStatus::Stopped => "stopped"@,
        ContainerStatus::Failed => "failed"@,
        ContainerStatus::Pending => "pending"@,
        ContainerStatus::Restarting => "restarting"@,
    }
}

/// The status a text names; any other text means pending.
pub open spec fn status_of(t: Seq<char>) -> ContainerStatus {
    if t == "running"@ {
        ContainerStatus::Running
    } else if t == "stopped"@ {
        ContainerStatus::Stopped
    } else if t == "failed"@ {
        ContainerStatus::Failed
    } else if t == "restarting"@ {
        ContainerStatus::Restarting
    } else {
        ContainerStatus::Pending
    }
}

impl ContainerStatus {
    /// The lowercase name of the status.
    pub fn as_str(&self) -> (r: &'static str)
        ensures
            r@ == status_text(*self),
    {
        match self {
            ContainerStatus::Running => "running",
            ContainerStatus::Stopped => "stopped",
            ContainerStatus::Failed => "failed",
            ContainerStatus::Pending => "pending",
            ContainerStatus::Restarting => "restarting",
        }
    }

    /// The status named by `s`; unknown names give `Pending`.
    pub fn from_str(s: &str) -> (r: Self)
        ensures
            r == status_of(s@),
    {
        if str_eq(s, "running") {
            ContainerStatus::Running
        } else if str_eq(s, "stopped") {
            ContainerStatus::Stopped
        } else if str_eq(s, "failed") {
            ContainerStatus::Failed
        } else if str_eq(s, "restarting") {
            ContainerStatus::Restarting
        } else {
            ContainerStatus::Pending
        }
    }
}

/// Reading a status's name gives the status back.
pub proof fn law_status_round_trip(s: ContainerStatus)
    ensures
        status_of(status_text(s)) == s,
{
    reveal_strlit("running");
    reveal_strlit("stopped");
    reveal_strlit("failed");
    reveal_strlit("pending");
    reveal_strlit("restarting");
    match s {
        ContainerStatus::Stopped => {
            assert("stopped"@ != "running"@) by { assert("stopped"@[1] != "running"@[1]); }
        },
        ContainerStatus::Failed => {
            assert("failed"@ != "running"@) by { assert("failed"@[0] != "running"@[0]); }
            assert("failed"@ != "stopped"@) by { assert("failed"@[0] != "stopped"@[0]); }
        },
        ContainerStatus::Pending => {
            assert("pending"@ != "running"@) by { assert("pending"@[0] != "running"@[0]); }
            assert("pending"@ != "stopped"@) by { assert("pending"@[0] != "stopped"@[0]); }
            assert("pending"@ != "failed"@) by { assert("pending"@[0] != "failed"@[0]); }
            assert("pending"@ != "restarting"@) by { assert("pending"@[0] != "restarting"@[0]); }
        },
        ContainerStatus::Restarting => {
            assert("restarting"@ != "running"@) by { assert("restarting"@[1] != "running"@[1]); }
            assert("restarting"@ != "stopped"@) by { assert("restarting"@[0] != "stopped"@[0]); }
            assert("restarting"@ != "failed"@) by { assert("restarting"@[0] != "failed"@[0]); }
        },
        ContainerStatus::Running => {},
    }
}

/// An equal copy of a list of environment variables.
pub fn copy_env_vars(v: &Vec<EnvVar>) -> (r: Vec<EnvVar>)
    ensures
        env_views(r@) == env_views(v@),
{
    let mut r: Vec<EnvVar> = Vec::new();
    let mut i: usize = 0;
    while i < v.len()
        invariant
            i <= v.len(),
            env_views(r@) == env_views(v@.take(i as int)),
        decreases v.len() - i,
    {
        let ghost r0 = r@;
        r.push(EnvVar { key: v[i].key.clone(), value: v[i].value.clone() });
        assert(env_views(r@) =~= env_views(r0).push(v@[i as int]@));
        assert(env_views(v@.take(i + 1)) =~= env_views(v@.take(i as int)).push(v@[i as int]@));
        i = i + 1;
    }
    assert(v@.take(v@.len() as int) =~= v@);
    r
}

/// An equal copy of a list of port mappings.
pub fn copy_ports(v: &Vec<PortMapping>) -> (r: Vec<PortMapping>)
    ensures
        port_views(r@) == port_views(v@),
{
    let mut r: Vec<PortMapping> = Vec::new();
    let mut i: usize = 0;
    while i < v.len()
        invariant
            i <= v.len(),
            port_views(r@) == port_views(v@.take(i as int)),
        decreases v.len() - i,
    {
        let ghost r0 = r@;
        r.push(PortMapping { container_port: v[i].container_port, host_port: v[i].host_port, protocol: v[i].protocol.clone() });
        assert(port_views(r@) =~= port_views(r0).push(v@[i as int]@));
        assert(port_views(v@.take(i + 1)) =~= port_views(v@.take(i as int)).push(v@[i as int]@));
        i = i + 1;
    }
    assert(v@.take(v@.len() as int) =~= v@);
    r
}

/// An equal copy of a volume.
pub fn copy_volume(v: &Volume) -> (r: Volume)
    ensures
        r@ == v@,
{
    Volume { name: v.name.clone(), path: v.path.clone(), size: v.size, created_at: v.created_at }
}

/// An equal copy of a list of volumes.
pub fn copy_volumes(v: &Vec<Volume>) -> (r: Vec<Volume>)
    ensures
        volume_views(r@) == volume_views(v@),
{
    let mut r: Vec<Volume> = Vec::new();
    let mut i: usize = 0;
    while i < v.len()
        invariant
            i <= v.len(),
            volume_views(r@) == volume_views(v@.take(i as int)),
        decreases v.len() - i,
    {
        let ghost r0 = r@;
        r.push(copy_volume(&v[i]));
        assert(volume_views(r@) =~= volume_views(r0).push(v@[i as int]@));
        assert(volume_views(v@.take(i + 1)) =~= volume_views(v@.take(i as int)).push(v@[i as int]@));
        i = i + 1;
    }
    assert(v@.take(v@.len() as int) =~= v@);
    r
}

/// An equal copy of a container record.
pub fn copy_container(c: &Container) -> (r: Container)
    ensures
        r@ == c@,
{
    Container {
        id: c.id.clone(),
        name: c.name.clone(),
        image: c.image.clone(),
        status: c.status,
        node_id: c.node_id.clone(),
        created_at: c.created_at,
        ports: copy_ports(&c.ports),
        env_vars: copy_env_vars(&c.env_vars),
        volumes: copy_volumes(&c.volumes),
        service_domain: match &c.service_domain {
            Some(d) => Some(d.clone()),
            None => None,
        },
    }
}

/// The statistics the in-memory runtime reports for a new container: 25.5% CPU,
/// 512 MiB of memory, 1 MiB received and 2 MiB sent.
pub open spec fn initial_stats(now: i64) -> ContainerStats {
    ContainerStats {
        cpu_usage_centi: 2550,
        memory_usage: 536870912,
        network_rx: 1048576,
        network_tx: 2097152,
        last_updated: now,
    }
}

/// Where the runtime keeps a named volume's data.
pub open spec fn volume_path(name: Seq<char>) -> Seq<char> {
    "/var/lib/hivemind/volumes/"@ + name
}

/// One gibibyte, the default size of a new volume.
pub const DEFAULT_VOLUME_SIZE: u64 = 1073741824;

/// What `char::is_alphanumeric` says of a character.
pub uninterp spec fn alphanumeric(c: char) -> bool;

/// Whether `c` is alphabetic or numeric in Unicode (`char::is_alphanumeric`). Its
/// documentation gives the ASCII case: exactly the letters and digits.
#[verifier::external_body]
pub fn is_alphanumeric(c: char) -> (r: bool)
    ensures
        r == alphanumeric(c),
        (c as u32) < 128 ==> (r <==> ((48 <= (c as u32) <= 57) || (65 <= (c as u32) <= 90) || (97 <= (c as u32) <= 122))),
{
    c.is_alphanumeric()
}

/// A valid volume name is non-empty and made of alphanumeric characters, dashes
/// and underscores.
pub open spec fn valid_volume_chars(name: Seq<char>) -> bool {
    forall|i: int| 0 <= i < name.len() ==> (alphanumeric(#[trigger] name[i]) || name[i] == '-' || name[i] == '_')
}

/// A random, hyphenated UUID (version 4) as text (`uuid::Uuid::new_v4`). Nothing is
/// known of it but its form: 36 characters.
#[verifier::external_body]
pub fn new_uuid() -> (r: String)
    ensures
        r@.len() == 36,
{
    uuid::Uuid::new_v4().to_string()
}

/// The current time in seconds since the Unix epoch (`chrono::Utc::now`). Nothing
/// is known of its value.
#[verifier::external_body]
pub fn unix_now() -> (r: i64) {
    chrono::Utc::now().timestamp()
}

/// The in-memory container runtime: container records and statistics by container
/// id, and volumes by name.
pub struct MockContainerManager {
    pub containers: Vec<(String, Container)>,
    pub container_stats: Vec<(String, ContainerStats)>,
    pub volumes: Vec<(String, Volume)>,
}

/// The containers by id.
pub open spec fn containers_map(m: &MockContainerManager) -> Map<Seq<char>, ContainerView> {
    as_map(m.containers@).map_values(|c: Container| c@)
}

/// The statistics by container id.
pub open spec fn stats_map(m: &MockContainerManager) -> Map<Seq<char>, ContainerStats> {
    as_map(m.container_stats@)
}

/// The volumes by name.
pub open spec fn volumes_map(m: &MockContainerManager) -> Map<Seq<char>, VolumeView> {
    as_map(m.volumes@).map_values(|v: Volume| v@)
}

/// Each table has distinct keys.
pub open spec fn runtime_wf(m: &MockContainerManager) -> bool {
    &&& keys_distinct(m.containers@)
    &&& keys_distinct(m.container_stats@)
    &&& keys_distinct(m.volumes@)
    &&& volumes_named(m.volumes@)
}

/// Each volume is filed under its own name.
pub open spec fn volumes_named(vs: Seq<(String, Volume)>) -> bool {
    forall|k: Seq<char>| #[trigger] as_map(vs).contains_key(k) ==> as_map(vs)[k].name@ == k
}

/// A container record as the runtime creates it: running on "mock-node", no
/// service domain.
pub open spec fn new_container_view(id: Seq<char>, name: Seq<char>, image: Seq<char>, env: Seq<EnvVarView>,
    ports: Seq<PortMappingView>, volumes: Seq<VolumeView>, now: i64) -> ContainerView {
    ContainerView {
        id,
        name,
        image,
        status: ContainerStatus::Running,
        node_id: "mock-node"@,
        created_at: now,
        ports,
        env_vars: env,
        volumes,
        service_domain: None,
    }
}

/// The mounts for the requested `(volume, path)` pairs, each taking the size and
/// creation time of the named volume; the first unknown volume's name otherwise.
pub open spec fn mounts_for(vm: Map<Seq<char>, VolumeView>, req: Seq<(Seq<char>, Seq<char>)>) -> Result<Seq<VolumeView>, Seq<char>>
    decreases req.len(),
{
    if req.len() == 0 {
        Ok(Seq::empty())
    } else {
        match mounts_for(vm, req.drop_last()) {
            Err(n) => Err(n),
            Ok(ms) => {
                let r = req.last();
                if vm.contains_key(r.0) {
                    Ok(ms.push(VolumeView { name: r.0, path: r.1, size: vm[r.0].size, created_at: vm[r.0].created_at }))
                } else {
                    Err(r.0)
                }
            },
        }
    }
}

/// The volume names requested, with their mount paths.
pub open spec fn request_view(v: Seq<(String, String)>) -> Seq<(Seq<char>, Seq<char>)> {
    v.map_values(|p: (String, String)| (p.0@, p.1@))
}

/// The position of the first container at or after `i` that mounts volume `name`.
pub open spec fn first_user_from(cs: Seq<(String, Container)>, name: Seq<char>, i: int) -> Option<int>
    decreases cs.len() - i,
{
    if i < 0 || i >= cs.len() {
        None
    } else if exists|j: int| 0 <= j < cs[i].1.volumes@.len() && #[trigger] cs[i].1.volumes@[j].name@ == name {
        Some(i)
    } else {
        first_user_from(cs, name, i + 1)
    }
}

/// `v` placed before the first volume whose name comes after its own.
pub open spec fn insert_by_name(s: Seq<VolumeView>, v: VolumeView) -> Seq<VolumeView>
    decreases s.len(),
{
    if s.len() == 0 {
        seq![v]
    } else if seq_less(v.name, s[0].name) {
        seq![v] + s
    } else {
        seq![s[0]] + insert_by_name(s.drop_first(), v)
    }
}

/// Sort by name (insertion sort, stable).
pub open spec fn sort_by_name(s: Seq<VolumeView>) -> Seq<VolumeView>
    decreases s.len(),
{
    if s.len() == 0 { s } else { insert_by_name(sort_by_name(s.drop_last()), s.last()) }
}

/// The text of a volume backup.
pub open spec fn backup_text_of(v: VolumeView) -> Seq<char> {
    "MOCK_VOLUME_BACKUP\nname="@ + v.name + "\npath="@ + v.path + "\nsize="@ + decimal(v.size as nat)
        + "\ncreated_at="@ + signed_decimal(v.created_at as int) + "\n"@
}

/// Why a volume name is refused, if it is.
pub open spec fn volume_name_error(name: Seq<char>) -> Option<RuntimeError> {
    if name.len() == 0 {
        Some(RuntimeError::EmptyVolumeName)
    } else if !valid_volume_chars(name) {
        Some(RuntimeError::InvalidVolumeName)
    } else {
        None
    }
}

/// `v` inserted as [`insert_by_name`] does, at the first position whose name comes
/// after `v`'s.
pub proof fn lemma_insert_by_name(s: Seq<VolumeView>, v: VolumeView, i: int)
    requires
        0 <= i <= s.len(),
        forall|j: int| 0 <= j < i ==> !seq_less(v.name, #[trigger] s[j].name),
    ensures
        insert_by_name(s, v) == s.take(i) + insert_by_name(s.skip(i), v),
    decreases i,
{
    if i > 0 {
        lemma_insert_by_name(s.drop_first(), v, i - 1);
        assert(s.drop_first().skip(i - 1) =~= s.skip(i));
        assert(s.take(i) =~= seq![s[0]] + s.drop_first().take(i - 1));
    } else {
        assert(s.skip(0) =~= s);
    }
}

impl MockContainerManager {
    /// An empty runtime.
    pub fn new() -> (m: Self)
        ensures
            runtime_wf(&m),
            m.containers@.len() == 0,
            m.container_stats@.len() == 0,
            m.volumes@.len() == 0,
    {
        MockContainerManager { containers: Vec::new(), container_stats: Vec::new(), volumes: Vec::new() }
    }

    /// Pulling an image always succeeds.
    pub fn pull_image(&self, image: &str) -> (r: Result<(), RuntimeError>)
        ensures
            r is Ok,
    {
        Ok(())
    }

    /// Records a running container `id` created at `now` with the initial statistics.
    pub fn create_container_with_id(&mut self, id: String, image: &str, name: &str, env_vars: Vec<EnvVar>,
        ports: Vec<PortMapping>, volumes: Vec<Volume>, now: i64)
        requires
            runtime_wf(old(self)),
        ensures
            runtime_wf(final(self)),
            containers_map(final(self)) == containers_map(old(self)).insert(id@,
                new_container_view(id@, name@, image@, env_views(env_vars@), port_views(ports@), volume_views(volumes@), now)),
            stats_map(final(self)) == stats_map(old(self)).insert(id@, initial_stats(now)),
            final(self).volumes@ == old(self).volumes@,
    {
        let c = Container {
            id: id.clone(),
            name: owned(name),
            image: owned(image),
            status: ContainerStatus::Running,
            node_id: owned("mock-node"),
            created_at: now,
            ports,
            env_vars,
            volumes,
            service_domain: None,
        };
        let ghost cv = c@;
        insert_key(&mut self.containers, id.clone(), c);
        assert(containers_map(self) =~= containers_map(old(self)).insert(id@, cv));
        let stats = ContainerStats {
            cpu_usage_centi: 2550,
            memory_usage: 536870912,
            network_rx: 1048576,
            network_tx: 2097152,
            last_updated: now,
        };
        insert_key(&mut self.container_stats, id, stats);
    }

    /// Creates a running container under a fresh random id, which it returns.
    pub fn create_container(&mut self, image: &str, name: &str, env_vars: Vec<EnvVar>, ports: Vec<PortMapping>) -> (id: String)
        requires
            runtime_wf(old(self)),
        ensures
            runtime_wf(final(self)),
            id@.len() == 36,
            containers_map(final(self)).contains_key(id@),
            containers_map(final(self)) == containers_map(old(self)).insert(id@,
                new_container_view(id@, name@, image@, env_views(env_vars@), port_views(ports@), Seq::empty(),
                    containers_map(final(self))[id@].created_at)),
            stats_map(final(self)) == stats_map(old(self)).insert(id@, initial_stats(containers_map(final(self))[id@].created_at)),
            final(self).volumes@ == old(self).volumes@,
    {
        let id = new_uuid();
        let now = unix_now();
        let none: Vec<Volume> = Vec::new();
        assert(volume_views(none@) =~= Seq::<VolumeView>::empty());
        self.create_container_with_id(id.clone(), image, name, env_vars, ports, none, now);
        id
    }

    /// The mounts for the requested volumes (see [`mounts_for`]).
    pub fn mount_volumes(&self, requested: &Vec<(String, String)>) -> (r: Result<Vec<Volume>, RuntimeError>)
        requires
            runtime_wf(self),
        ensures
            match mounts_for(volumes_map(self), request_view(requested@)) {
                Ok(ms) => r is Ok && volume_views(r->Ok_0@) == ms,
                Err(n) => r matches Err(RuntimeError::VolumeNotFound(x)) && x@ == n,
            },
    {
        match mounts_from(&self.volumes, requested) {
            Ok(ms) => Ok(ms),
            Err(n) => Err(RuntimeError::VolumeNotFound(n)),
        }
    }
}

/// Once a prefix of the request fails, the whole request fails with the same name.
pub proof fn lemma_mounts_err_sticky(vm: Map<Seq<char>, VolumeView>, req: Seq<(Seq<char>, Seq<char>)>, k: int)
    requires
        0 <= k <= req.len(),
        mounts_for(vm, req.take(k)) is Err,
    ensures
        mounts_for(vm, req) == mounts_for(vm, req.take(k)),
    decreases req.len() - k,
{
    if k < req.len() {
        assert(req.take(k + 1).drop_last() =~= req.take(k));
        lemma_mounts_err_sticky(vm, req, k + 1);
    } else {
        assert(req.take(k) =~= req);
    }
}

/// The container records in table order.
pub open spec fn container_list(cs: Seq<(String, Container)>) -> Seq<ContainerView> {
    cs.map_values(|e: (String, Container)| e.1@)
}

/// The volumes in table order.
pub open spec fn volume_list(vs: Seq<(String, Volume)>) -> Seq<VolumeView> {
    vs.map_values(|e: (String, Volume)| e.1@)
}

/// Inserts `v` into `out` as [`insert_by_name`] does.
fn insert_volume_by_name(out: &mut Vec<Volume>, v: Volume)
    ensures
        volume_views(final(out)@) == insert_by_name(volume_views(old(out)@), v@),
{
    let ghost s = volume_views(out@);
    let mut i: usize = 0;
    while i < out.len() && !str_less(v.name.as_str(), out[i].name.as_str())
        invariant
            i <= out.len(),
            s == volume_views(out@),
            forall|j: int| 0 <= j < i ==> !seq_less(v@.name, #[trigger] s[j].name),
        decreases out.len() - i,
    {
        i = i + 1;
    }
    proof {
        lemma_insert_by_name(s, v@, i as int);
        if i < s.len() {
            assert(s.skip(i as int)[0] == s[i as int]);
        }
    }
    let ghost vv = v@;
    out.insert(i, v);
    assert(volume_views(out@) =~= s.take(i as int) + seq![vv] + s.skip(i as int));
    assert(insert_by_name(s.skip(i as int), vv) =~= seq![vv] + s.skip(i as int));
}

/// The mounts for the requested `(volume, path)` pairs of a volume table (see
/// [`mounts_for`]); the first unknown volume's name otherwise.
pub fn mounts_from(volumes: &Vec<(String, Volume)>, requested: &Vec<(String, String)>) -> (r: Result<Vec<Volume>, String>)
    requires
        keys_distinct(volumes@),
    ensures
        match mounts_for(as_map(volumes@).map_values(|v: Volume| v@), request_view(requested@)) {
            Ok(ms) => r is Ok && volume_views(r->Ok_0@) == ms,
            Err(n) => r matches Err(x) && x@ == n,
        },
{
    let ghost rv = request_view(requested@);
    let mut mounts: Vec<Volume> = Vec::new();
    let mut i: usize = 0;
    assert(rv.take(0) =~= Seq::<(Seq<char>, Seq<char>)>::empty());
    assert(volume_views(mounts@) =~= Seq::<VolumeView>::empty());
    while i < requested.len()
        invariant
            keys_distinct(volumes@),
            rv == request_view(requested@),
            i <= requested.len(),
            mounts_for(as_map(volumes@).map_values(|v: Volume| v@), rv.take(i as int)) == Ok::<Seq<VolumeView>, Seq<char>>(volume_views(mounts@)),
        decreases requested.len() - i,
    {
        assert(rv.take(i + 1).drop_last() =~= rv.take(i as int));
        assert(rv.take(i + 1).last() == (requested@[i as int].0@, requested@[i as int].1@));
        let pos = find_key(&volumes, requested[i].0.as_str());
        proof {
            lemma_key_pos(volumes@, requested@[i as int].0@);
        }
        match pos {
            Some(p) => {
                let ghost m0 = mounts@;
                mounts.push(Volume {
                    name: requested[i].0.clone(),
                    path: requested[i].1.clone(),
                    size: volumes[p].1.size,
                    created_at: volumes[p].1.created_at,
                });
                assert(volume_views(mounts@) =~= volume_views(m0).push(mounts@[m0.len() as int]@));
            },
            None => {
                proof {
                    lemma_mounts_err_sticky(as_map(volumes@).map_values(|v: Volume| v@), rv, i as int + 1);
                }
                return Err(requested[i].0.clone());
            },
        }
        i = i + 1;
    }
    assert(rv.take(rv.len() as int) =~= rv);
    Ok(mounts)
}

/// Position of the first container (in table order) that mounts volume `name`.
pub fn find_volume_user(containers: &Vec<(String, Container)>, name: &str) -> (r: Option<usize>)
    ensures
        match r {
            Some(k) => first_user_from(containers@, name@, 0) == Some(k as int) && k < containers@.len(),
            None => first_user_from(containers@, name@, 0) is None,
        },
{
    let mut i: usize = 0;
    while i < containers.len()
        invariant
            i <= containers.len(),
            first_user_from(containers@, name@, 0) == first_user_from(containers@, name@, i as int),
        decreases containers.len() - i,
    {
        let vols = &containers[i].1.volumes;
        let mut j: usize = 0;
        while j < vols.len()
            invariant
                i < containers.len(),
                first_user_from(containers@, name@, 0) == first_user_from(containers@, name@, i as int),
                j <= vols.len(),
                vols@ == containers@[i as int].1.volumes@,
                forall|q: int| 0 <= q < j ==> #[trigger] vols@[q].name@ != name@,
            decreases vols.len() - j,
        {
            if str_eq(vols[j].name.as_str(), name) {
                assert(containers@[i as int].1.volumes@[j as int].name@ == name@);
                return Some(i);
            }
            j = j + 1;
        }
        i = i + 1;
    }
    None
}

/// The volumes of a table, sorted by name.
pub fn sorted_volumes(volumes: &Vec<(String, Volume)>) -> (r: Vec<Volume>)
    ensures
        volume_views(r@) == sort_by_name(volume_list(volumes@)),
{
    let ghost all = volume_list(volumes@);
    let mut out: Vec<Volume> = Vec::new();
    let mut i: usize = 0;
    while i < volumes.len()
        invariant
            i <= volumes.len(),
            all == volume_list(volumes@),
            volume_views(out@) == sort_by_name(all.take(i as int)),
        decreases volumes.len() - i,
    {
        assert(all.take(i + 1).drop_last() =~= all.take(i as int));
        insert_volume_by_name(&mut out, copy_volume(&volumes[i].1));
        i = i + 1;
    }
    assert(all.take(all.len() as int) =~= all);
    out
}

impl MockContainerManager {
    /// Creates a running container `id` at `now` with the requested volumes mounted;
    /// fails with the first requested volume that does not exist.
    pub fn create_container_with_volumes_at(&mut self, id: String, image: &str, name: &str, env_vars: Vec<EnvVar>,
        ports: Vec<PortMapping>, volumes: &Vec<(String, String)>, now: i64) -> (r: Result<String, RuntimeError>)
        requires
            runtime_wf(old(self)),
        ensures
            runtime_wf(final(self)),
            final(self).volumes@ == old(self).volumes@,
            match mounts_for(volumes_map(old(self)), request_view(volumes@)) {
                Ok(ms) => {
                    &&& r is Ok && r->Ok_0@ == id@
                    &&& containers_map(final(self)) == containers_map(old(self)).insert(id@,
                        new_container_view(id@, name@, image@, env_views(env_vars@), port_views(ports@), ms, now))
                    &&& stats_map(final(self)) == stats_map(old(self)).insert(id@, initial_stats(now))
                },
                Err(n) => {
                    &&& r matches Err(RuntimeError::VolumeNotFound(x)) && x@ == n
                    &&& final(self).containers@ == old(self).containers@
                    &&& final(self).container_stats@ == old(self).container_stats@
                },
            },
    {
        match self.mount_volumes(volumes) {
            Err(e) => Err(e),
            Ok(mounts) => {
                self.create_container_with_id(id.clone(), image, name, env_vars, ports, mounts, now);
                Ok(id)
            },
        }
    }

    /// Creates a running container under a fresh random id with the requested volumes
    /// mounted; fails with the first requested volume that does not exist.
    pub fn create_container_with_volumes(&mut self, image: &str, name: &str, env_vars: Vec<EnvVar>,
        ports: Vec<PortMapping>, volumes: &Vec<(String, String)>) -> (r: Result<String, RuntimeError>)
        requires
            runtime_wf(old(self)),
        ensures
            runtime_wf(final(self)),
            final(self).volumes@ == old(self).volumes@,
            match mounts_for(volumes_map(old(self)), request_view(volumes@)) {
                Ok(ms) => {
                    &&& r is Ok
                    &&& containers_map(final(self)).contains_key(r->Ok_0@)
                    &&& containers_map(final(self)) == containers_map(old(self)).insert(r->Ok_0@,
                        new_container_view(r->Ok_0@, name@, image@, env_views(env_vars@), port_views(ports@), ms,
                            containers_map(final(self))[r->Ok_0@].created_at))
                },
                Err(n) => {
                    &&& r matches Err(RuntimeError::VolumeNotFound(x)) && x@ == n
                    &&& final(self).containers@ == old(self).containers@
                },
            },
    {
        let id = new_uuid();
        let now = unix_now();
        self.create_container_with_volumes_at(id, image, name, env_vars, ports, volumes, now)
    }

    /// Marks a known container as stopped; unknown ids are ignored.
    pub fn stop_container(&mut self, container_id: &str) -> (r: Result<(), RuntimeError>)
        requires
            runtime_wf(old(self)),
        ensures
            runtime_wf(final(self)),
            r is Ok,
            final(self).container_stats@ == old(self).container_stats@,
            final(self).volumes@ == old(self).volumes@,
            containers_map(final(self)) == if containers_map(old(self)).contains_key(container_id@) {
                containers_map(old(self)).insert(container_id@,
                    ContainerView { status: ContainerStatus::Stopped, ..containers_map(old(self))[container_id@] })
            } else {
                containers_map(old(self))
            },
    {
        let pos = find_key(&self.containers, container_id);
        proof {
            lemma_key_pos(self.containers@, container_id@);
        }
        if let Some(i) = pos {
            let mut c = copy_container(&self.containers[i].1);
            c.status = ContainerStatus::Stopped;
            let key = self.containers[i].0.clone();
            let ghost cv = c@;
            proof {
                crate::assoc::lemma_as_map_update(self.containers@, i as int, (key, c));
            }
            self.containers.set(i, (key, c));
            assert(containers_map(self) =~= containers_map(old(self)).insert(container_id@, cv));
        } else {
            assert(containers_map(self) =~= containers_map(old(self)));
        }
        Ok(())
    }

    /// All container records, in table order.
    pub fn list_containers(&self) -> (r: Result<Vec<Container>, RuntimeError>)
        ensures
            r is Ok,
            r->Ok_0@.map_values(|c: Container| c@) == container_list(self.containers@),
    {
        let mut out: Vec<Container> = Vec::new();
        let mut i: usize = 0;
        while i < self.containers.len()
            invariant
                i <= self.containers.len(),
                out@.map_values(|c: Container| c@) == container_list(self.containers@.take(i as int)),
            decreases self.containers.len() - i,
        {
            let ghost o0 = out@;
            out.push(copy_container(&self.containers[i].1));
            assert(out@.map_values(|c: Container| c@) =~= o0.map_values(|c: Container| c@).push(self.containers@[i as int].1@));
            assert(container_list(self.containers@.take(i + 1)) =~= container_list(self.containers@.take(i as int)).push(self.containers@[i as int].1@));
            i = i + 1;
        }
        assert(self.containers@.take(self.containers@.len() as int) =~= self.containers@);
        Ok(out)
    }

    /// The statistics of a container.
    pub fn get_container_metrics(&self, container_id: &str) -> (r: Result<ContainerStats, RuntimeError>)
        requires
            runtime_wf(self),
        ensures
            if stats_map(self).contains_key(container_id@) {
                r == Ok::<ContainerStats, RuntimeError>(stats_map(self)[container_id@])
            } else {
                r matches Err(RuntimeError::ContainerNotFound(x)) && x@ == container_id@
            },
    {
        match get_key(&self.container_stats, container_id) {
            Some(st) => Ok(*st),
            None => Err(RuntimeError::ContainerNotFound(owned(container_id))),
        }
    }

    /// Creates volume `name` at `now` (1 GiB, under the runtime's volume directory).
    /// The name must be non-empty, made of alphanumeric characters, dashes and
    /// underscores, and not already taken.
    pub fn create_volume_at(&mut self, name: &str, now: i64) -> (r: Result<(), RuntimeError>)
        requires
            runtime_wf(old(self)),
        ensures
            runtime_wf(final(self)),
            final(self).containers@ == old(self).containers@,
            final(self).container_stats@ == old(self).container_stats@,
            match volume_name_error(name@) {
                Some(e) => r == Err::<(), RuntimeError>(e) && final(self).volumes@ == old(self).volumes@,
                None => if volumes_map(old(self)).contains_key(name@) {
                    &&& r matches Err(RuntimeError::VolumeExists(x)) && x@ == name@
                    &&& final(self).volumes@ == old(self).volumes@
                } else {
                    &&& r is Ok
                    &&& volumes_map(final(self)) == volumes_map(old(self)).insert(name@,
                        VolumeView { name: name@, path: volume_path(name@), size: DEFAULT_VOLUME_SIZE, created_at: now })
                    &&& volume_list(final(self).volumes@) == volume_list(old(self).volumes@).push(
                        VolumeView { name: name@, path: volume_path(name@), size: DEFAULT_VOLUME_SIZE, created_at: now })
                },
            },
    {
        let v = chars_of(name);
        if v.len() == 0 {
            return Err(RuntimeError::EmptyVolumeName);
        }
        let mut i: usize = 0;
        while i < v.len()
            invariant
                runtime_wf(self),
                self.containers@ == old(self).containers@,
                self.container_stats@ == old(self).container_stats@,
                self.volumes@ == old(self).volumes@,
                v@ == name@,
                i <= v.len(),
                forall|j: int| 0 <= j < i ==> (alphanumeric(#[trigger] v@[j]) || v@[j] == '-' || v@[j] == '_'),
            decreases v.len() - i,
        {
            let c = v[i];
            if !(is_alphanumeric(c) || c == '-' || c == '_') {
                return Err(RuntimeError::InvalidVolumeName);
            }
            i = i + 1;
        }
        if get_key(&self.volumes, name).is_some() {
            return Err(RuntimeError::VolumeExists(owned(name)));
        }
        let vol = Volume {
            name: owned(name),
            path: concat("/var/lib/hivemind/volumes/", name),
            size: DEFAULT_VOLUME_SIZE,
            created_at: now,
        };
        let ghost vv = vol@;
        proof {
            lemma_key_pos(self.volumes@, name@);
        }
        insert_key(&mut self.volumes, owned(name), vol);
        assert(volumes_map(self) =~= volumes_map(old(self)).insert(name@, vv));
        assert(volume_list(self.volumes@) =~= volume_list(old(self).volumes@).push(vv));
        Ok(())
    }

    /// Creates volume `name` now (see [`MockContainerManager::create_volume_at`]).
    pub fn create_volume(&mut self, name: &str) -> (r: Result<(), RuntimeError>)
        requires
            runtime_wf(old(self)),
        ensures
            runtime_wf(final(self)),
            final(self).containers@ == old(self).containers@,
            final(self).container_stats@ == old(self).container_stats@,
            match volume_name_error(name@) {
                Some(e) => r == Err::<(), RuntimeError>(e) && final(self).volumes@ == old(self).volumes@,
                None => if volumes_map(old(self)).contains_key(name@) {
                    &&& r matches Err(RuntimeError::VolumeExists(x)) && x@ == name@
                    &&& final(self).volumes@ == old(self).volumes@
                } else {
                    &&& r is Ok
                    &&& volumes_map(final(self)).contains_key(name@)
                    &&& volumes_map(final(self)) == volumes_map(old(self)).insert(name@,
                        VolumeView { name: name@, path: volume_path(name@), size: DEFAULT_VOLUME_SIZE,
                            created_at: volumes_map(final(self))[name@].created_at })
                    &&& volume_list(final(self).volumes@) == volume_list(old(self).volumes@).push(
                        VolumeView { name: name@, path: volume_path(name@), size: DEFAULT_VOLUME_SIZE,
                            created_at: volumes_map(final(self))[name@].created_at })
                },
            },
    {
        let now = unix_now();
        self.create_volume_at(name, now)
    }

    /// Deletes volume `name`, unless it does not exist or a container mounts it (the
    /// first such container in table order is named in the error).
    pub fn delete_volume(&mut self, name: &str) -> (r: Result<(), RuntimeError>)
        requires
            runtime_wf(old(self)),
        ensures
            runtime_wf(final(self)),
            final(self).containers@ == old(self).containers@,
            final(self).container_stats@ == old(self).container_stats@,
            if !volumes_map(old(self)).contains_key(name@) {
                &&& r matches Err(RuntimeError::VolumeNotFound(x)) && x@ == name@
                &&& final(self).volumes@ == old(self).volumes@
            } else {
                match first_user_from(old(self).containers@, name@, 0) {
                    Some(k) => {
                        &&& r matches Err(RuntimeError::VolumeInUse { volume, container_name, container_id })
                            && volume@ == name@ && container_name@ == old(self).containers@[k].1.name@
                            && container_id@ == old(self).containers@[k].0@
                        &&& final(self).volumes@ == old(self).volumes@
                    },
                    None => {
                        &&& r is Ok
                        &&& volumes_map(final(self)) == volumes_map(old(self)).remove(name@)
                        &&& key_pos(old(self).volumes@, name@) matches Some(i)
                            && volume_list(final(self).volumes@) == volume_list(old(self).volumes@).remove(i)
                    },
                }
            },
    {
        if get_key(&self.volumes, name).is_none() {
            return Err(RuntimeError::VolumeNotFound(owned(name)));
        }
        match find_volume_user(&self.containers, name) {
            Some(k) => {
                return Err(RuntimeError::VolumeInUse {
                    volume: owned(name),
                    container_name: self.containers[k].1.name.clone(),
                    container_id: self.containers[k].0.clone(),
                });
            },
            None => {},
        }
        proof {
            lemma_key_pos(self.volumes@, name@);
        }
        let _ = remove_key(&mut self.volumes, name);
        assert(volumes_map(self) =~= volumes_map(old(self)).remove(name@));
        assert(volume_list(self.volumes@) =~= volume_list(old(self).volumes@).remove(key_pos(old(self).volumes@, name@)->0));
        Ok(())
    }

    /// All volumes, sorted by name.
    pub fn list_volumes(&self) -> (r: Result<Vec<Volume>, RuntimeError>)
        ensures
            r is Ok,
            volume_views(r->Ok_0@) == sort_by_name(volume_list(self.volumes@)),
    {
        let out = sorted_volumes(&self.volumes);
        Ok(out)
    }

    /// The backup text of volume `name`.
    pub fn backup_text(&self, name: &str) -> (r: Result<String, RuntimeError>)
        requires
            runtime_wf(self),
        ensures
            if volumes_map(self).contains_key(name@) {
                r is Ok && r->Ok_0@ == backup_text_of(volumes_map(self)[name@])
            } else {
                r matches Err(RuntimeError::VolumeNotFound(x)) && x@ == name@
            },
    {
        let pos = find_key(&self.volumes, name);
        proof {
            lemma_key_pos(self.volumes@, name@);
        }
        match pos {
            None => Err(RuntimeError::VolumeNotFound(owned(name))),
            Some(i) => {
                let v = &self.volumes[i].1;
                let mut t = owned("MOCK_VOLUME_BACKUP\nname=");
                push_str(&mut t, v.name.as_str());
                push_str(&mut t, "\npath=");
                push_str(&mut t, v.path.as_str());
                push_str(&mut t, "\nsize=");
                push_decimal(&mut t, v.size);
                push_str(&mut t, "\ncreated_at=");
                push_signed_decimal(&mut t, v.created_at);
                push_str(&mut t, "\n");
                assert(t@ =~= backup_text_of(v@));
                Ok(t)
            },
        }
    }

    /// Restores volume `name` at `now` from backup text `data`, which must begin with
    /// the backup header; the volume is (re)created with the default size.
    pub fn restore_volume_at(&mut self, name: &str, data: &str, now: i64) -> (r: Result<(), RuntimeError>)
        requires
            runtime_wf(old(self)),
        ensures
            runtime_wf(final(self)),
            final(self).containers@ == old(self).containers@,
            final(self).container_stats@ == old(self).container_stats@,
            if is_prefix("MOCK_VOLUME_BACKUP\n"@, data@) {
                &&& r is Ok
                &&& volumes_map(final(self)) == volumes_map(old(self)).insert(name@,
                    VolumeView { name: name@, path: volume_path(name@), size: DEFAULT_VOLUME_SIZE, created_at: now })
            } else {
                &&& r == Err::<(), RuntimeError>(RuntimeError::InvalidBackup)
                &&& final(self).volumes@ == old(self).volumes@
            },
    {
        if !starts_with(data, "MOCK_VOLUME_BACKUP\n") {
            return Err(RuntimeError::InvalidBackup);
        }
        let vol = Volume {
            name: owned(name),
            path: concat("/var/lib/hivemind/volumes/", name),
            size: DEFAULT_VOLUME_SIZE,
            created_at: now,
        };
        let ghost vv = vol@;
        insert_key(&mut self.volumes, owned(name), vol);
        assert(volumes_map(self) =~= volumes_map(old(self)).insert(name@, vv));
        Ok(())
    }
}


/// The text of a runtime error.
pub open spec fn runtime_error_text(e: RuntimeError) -> Seq<char> {
    match e {
        RuntimeError::ContainerNotFound(id) => "Container "@ + id@ + " not found"@,
        RuntimeError::VolumeNotFound(n) => "Volume '"@ + n@ + "' not found"@,
        RuntimeError::EmptyVolumeName => "Volume name cannot be empty"@,
        RuntimeError::InvalidVolumeName => "Volume name can only contain alphanumeric characters, dashes, and underscores"@,
        RuntimeError::VolumeExists(n) => "Volume with name '"@ + n@ + "' already exists"@,
        RuntimeError::VolumeInUse { volume, container_name, container_id } => "Cannot delete volume '"@ + volume@
            + "' because it is in use by container "@ + container_name@ + " ("@ + container_id@ + ")"@,
        RuntimeError::BackupNotFound(p) => "Backup file '"@ + p@ + "' not found"@,
        RuntimeError::InvalidBackup => "Invalid backup file format"@,
    }
}

impl RuntimeError {
    /// The text of the error (see [`runtime_error_text`]).
    pub fn message(&self) -> (r: String)
        ensures
            r@ == runtime_error_text(*self),
    {
        let r = match self {
            RuntimeError::ContainerNotFound(id) => {
                let mut m = owned("Container ");
                push_str(&mut m, id.as_str());
                push_str(&mut m, " not found");
                m
            },
            RuntimeError::VolumeNotFound(n) => {
                let mut m = owned("Volume '");
                push_str(&mut m, n.as_str());
                push_str(&mut m, "' not found");
                m
            },
            RuntimeError::EmptyVolumeName => owned("Volume name cannot be empty"),
            RuntimeError::InvalidVolumeName => owned("Volume name can only contain alphanumeric characters, dashes, and underscores"),
            RuntimeError::VolumeExists(n) => {
                let mut m = owned("Volume with name '");
                push_str(&mut m, n.as_str());
                push_str(&mut m, "' already exists");
                m
            },
            RuntimeError::VolumeInUse { volume, container_name, container_id } => {
                let mut m = owned("Cannot delete volume '");
                push_str(&mut m, volume.as_str());
                push_str(&mut m, "' because it is in use by container ");
                push_str(&mut m, container_name.as_str());
                push_str(&mut m, " (");
                push_str(&mut m, container_id.as_str());
                push_str(&mut m, ")");
                m
            },
            RuntimeError::BackupNotFound(p) => {
                let mut m = owned("Backup file '");
                push_str(&mut m, p.as_str());
                push_str(&mut m, "' not found");
                m
            },
            RuntimeError::InvalidBackup => owned("Invalid backup file format"),
        };
        assert(r@ =~= runtime_error_text(*self));
        r
    }
}

} // verus!
