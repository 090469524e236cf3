//! Applications on top of the container runtime: deploying containers and
//! services, scaling services to a replica count, restarting, routing requests
//! by domain, and keeping the container records in step with the runtime.
use vstd::prelude::*;
use crate::assoc::{as_map, keys_distinct, key_pos, find_key, insert_key, get_key, lemma_key_pos, lemma_as_map_index};
use crate::containers::{Container, ContainerView, ContainerStats, ContainerStatus, EnvVar, EnvVarView, PortMapping,
    PortMappingView, Volume, VolumeView, MockContainerManager, RuntimeError, containers_map, stats_map, volumes_map,
    runtime_wf, new_container_view, initial_stats, env_views, port_views, volume_views, container_list, copy_container,
    copy_env_vars, copy_ports, new_uuid, unix_now, volume_name_error, volume_path, DEFAULT_VOLUME_SIZE, first_user_from,
    sort_by_name, volume_list, mounts_for, request_view};
use crate::text::{owned, str_eq, push_str, push_char, push_decimal, decimal};

verus! {

/// A service: a named set of containers reachable under a domain.
#[derive(Debug)]
pub struct ServiceConfig {
    pub name: String,
    pub domain: String,
    pub container_ids: Vec<String>,
    pub desired_replicas: u32,
    pub current_replicas: u32,
}

/// Mathematical value of a [`ServiceConfig`].
pub struct ServiceView {
    pub name: Seq<char>,
    pub domain: Seq<char>,
    pub container_ids: Seq<Seq<char>>,
    pub desired_replicas: u32,
    pub current_replicas: u32,
}

/// The characters of each string of a list.
pub open spec fn ids_view(v: Seq<String>) -> Seq<Seq<char>> {
    v.map_values(|s: String| s@)
}

impl View for ServiceConfig {
    type V = ServiceView;

    open spec fn view(&self) -> ServiceView {
        ServiceView {
            name: self.name@,
            domain: self.domain@,
            container_ids: ids_view(self.container_ids@),
            desired_replicas: self.desired_replicas,
            current_replicas: self.current_replicas,
        }
    }
}

/// Errors of the application manager.
#[derive(Debug, Clone, PartialEq, Eq)]
pub enum AppError {
    NoRuntime,
    ServiceNotFound,
    Runtime(RuntimeError),
}

/// The application manager: a container runtime (when one is attached), the known
/// images, services by name, the container records in deployment order, and the
/// latest statistics by container id.
pub struct AppManager {
    pub runtime: Option<MockContainerManager>,
    pub images: Vec<String>,
    pub services: Vec<(String, ServiceConfig)>,
    pub containers: Vec<Container>,
    pub container_stats: Vec<(String, ContainerStats)>,
}

/// Services by name.
pub open spec fn services_map(m: &AppManager) -> Map<Seq<char>, ServiceView> {
    as_map(m.services@).map_values(|s: ServiceConfig| s@)
}

/// The container records, in deployment order.
pub open spec fn records(m: &AppManager) -> Seq<ContainerView> {
    m.containers@.map_values(|c: Container| c@)
}

/// The latest statistics by container id.
pub open spec fn app_stats(m: &AppManager) -> Map<Seq<char>, ContainerStats> {
    as_map(m.container_stats@)
}

/// The tables have distinct keys and the runtime, if any, is well formed.
pub open spec fn app_wf(m: &AppManager) -> bool {
    &&& keys_distinct(m.services@)
    &&& keys_distinct(m.container_stats@)
    &&& (m.runtime matches Some(rt) ==> runtime_wf(&rt))
}

/// The environment variables of `(key, value)` pairs.
pub open spec fn env_of_pairs(p: Seq<(String, String)>) -> Seq<EnvVarView> {
    p.map_values(|e: (String, String)| EnvVarView { key: e.0@, value: e.1@ })
}

/// The TCP port mappings of `(container port, host port)` pairs.
pub open spec fn ports_of_pairs(p: Seq<(u16, u16)>) -> Seq<PortMappingView> {
    p.map_values(|e: (u16, u16)| PortMappingView { container_port: e.0, host_port: e.1, protocol: "tcp"@ })
}

/// The record of a container deployed at `t`.
pub open spec fn app_record(id: Seq<char>, name: Seq<char>, image: Seq<char>, node: Seq<char>, domain: Option<Seq<char>>,
    env: Seq<EnvVarView>, ports: Seq<PortMappingView>, t: i64) -> ContainerView {
    ContainerView {
        id,
        name,
        image,
        status: ContainerStatus::Running,
        node_id: node,
        created_at: t,
        ports,
        env_vars: env,
        volumes: Seq::empty(),
        service_domain: domain,
    }
}

/// The optional text as characters.
pub open spec fn opt_view(o: Option<&str>) -> Option<Seq<char>> {
    match o {
        Some(s) => Some(s@),
        None => None,
    }
}

/// The environment variables of `(key, value)` pairs.
pub fn env_from_pairs(p: &Vec<(String, String)>) -> (r: Vec<EnvVar>)
    ensures
        env_views(r@) == env_of_pairs(p@),
{
    let mut r: Vec<EnvVar> = Vec::new();
    let mut i: usize = 0;
    while i < p.len()
        invariant
            i <= p.len(),
            env_views(r@) == env_of_pairs(p@).take(i as int),
        decreases p.len() - i,
    {
        let ghost before = r@;
        r.push(EnvVar { key: p[i].0.clone(), value: p[i].1.clone() });
        assert(env_views(r@) =~= env_views(before).push(env_of_pairs(p@)[i as int]));
        i = i + 1;
        assert(env_views(r@) =~= env_of_pairs(p@).take(i as int));
    }
    assert(env_of_pairs(p@).take(p@.len() as int) =~= env_of_pairs(p@));
    r
}

/// The TCP port mappings of `(container port, host port)` pairs.
pub fn ports_from_pairs(p: &Vec<(u16, u16)>) -> (r: Vec<PortMapping>)
    ensures
        port_views(r@) == ports_of_pairs(p@),
{
    let mut r: Vec<PortMapping> = Vec::new();
    let mut i: usize = 0;
    while i < p.len()
        invariant
            i <= p.len(),
            port_views(r@) == ports_of_pairs(p@).take(i as int),
        decreases p.len() - i,
    {
        let ghost before = r@;
        r.push(PortMapping { container_port: p[i].0, host_port: p[i].1, protocol: owned("tcp") });
        assert(port_views(r@) =~= port_views(before).push(ports_of_pairs(p@)[i as int]));
        i = i + 1;
        assert(port_views(r@) =~= ports_of_pairs(p@).take(i as int));
    }
    assert(ports_of_pairs(p@).take(p@.len() as int) =~= ports_of_pairs(p@));
    r
}

/// Copy of a service.
pub fn copy_service(s: &ServiceConfig) -> (r: ServiceConfig)
    ensures
        r@ == s@,
{
    let mut ids: Vec<String> = Vec::new();
    let mut i: usize = 0;
    while i < s.container_ids.len()
        invariant
            i <= s.container_ids.len(),
            ids_view(ids@) == ids_view(s.container_ids@).take(i as int),
        decreases s.container_ids.len() - i,
    {
        let ghost before = ids@;
        ids.push(s.container_ids[i].clone());
        assert(ids_view(ids@) =~= ids_view(before).push(s.container_ids@[i as int]@));
        i = i + 1;
        assert(ids_view(ids@) =~= ids_view(s.container_ids@).take(i as int));
    }
    assert(ids_view(s.container_ids@).take(s.container_ids@.len() as int) =~= ids_view(s.container_ids@));
    ServiceConfig {
        name: s.name.clone(),
        domain: s.domain.clone(),
        container_ids: ids,
        desired_replicas: s.desired_replicas,
        current_replicas: s.current_replicas,
    }
}

/// The images every manager starts with.
pub open spec fn default_images() -> Seq<Seq<char>> {
    seq!["nginx:latest"@, "redis:latest"@, "postgres:latest"@, "ubuntu:latest"@]
}

impl AppManager {
    /// A manager without a runtime, knowing the default images.
    pub fn new() -> (m: Self)
        ensures
            app_wf(&m),
            m.runtime is None,
            ids_view(m.images@) == default_images(),
            m.services@.len() == 0,
            m.containers@.len() == 0,
            m.container_stats@.len() == 0,
    {
        let mut images: Vec<String> = Vec::new();
        images.push(owned("nginx:latest"));
        images.push(owned("redis:latest"));
        images.push(owned("postgres:latest"));
        images.push(owned("ubuntu:latest"));
        assert(ids_view(images@) =~= default_images());
        AppManager { runtime: None, images, services: Vec::new(), containers: Vec::new(), container_stats: Vec::new() }
    }

    /// The manager with `runtime` attached.
    pub fn with_container_runtime(self, runtime: MockContainerManager) -> (m: Self)
        requires
            app_wf(&self),
            runtime_wf(&runtime),
        ensures
            app_wf(&m),
            m.runtime == Some(runtime),
            m.images == self.images,
            m.services == self.services,
            m.containers == self.containers,
            m.container_stats == self.container_stats,
    {
        AppManager { runtime: Some(runtime), ..self }
    }

    /// A manager on a fresh in-memory runtime, with no images known: the runtime
    /// used when containerd support is not built in.
    pub fn with_containerd(socket_path: &str, namespace: &str) -> (m: Self)
        ensures
            app_wf(&m),
            m.runtime matches Some(rt) && rt.containers@.len() == 0 && rt.container_stats@.len() == 0 && rt.volumes@.len() == 0,
            m.images@.len() == 0,
            m.services@.len() == 0,
            m.containers@.len() == 0,
            m.container_stats@.len() == 0,
    {
        AppManager {
            runtime: Some(MockContainerManager::new()),
            images: Vec::new(),
            services: Vec::new(),
            containers: Vec::new(),
            container_stats: Vec::new(),
        }
    }

    /// The known images.
    pub fn list_images(&self) -> (r: Vec<String>)
        ensures
            ids_view(r@) == ids_view(self.images@),
    {
        let mut r: Vec<String> = Vec::new();
        let mut i: usize = 0;
        while i < self.images.len()
            invariant
                i <= self.images.len(),
                ids_view(r@) == ids_view(self.images@).take(i as int),
            decreases self.images.len() - i,
        {
            let ghost before = r@;
            r.push(self.images[i].clone());
            assert(ids_view(r@) =~= ids_view(before).push(self.images@[i as int]@));
            i = i + 1;
            assert(ids_view(r@) =~= ids_view(self.images@).take(i as int));
        }
        assert(ids_view(self.images@).take(self.images@.len() as int) =~= ids_view(self.images@));
        r
    }

    /// The service named `name`, if any.
    pub fn get_service(&self, name: &str) -> (r: Option<ServiceConfig>)
        requires
            app_wf(self),
        ensures
            match r {
                Some(s) => services_map(self).contains_key(name@) && s@ == services_map(self)[name@],
                None => !services_map(self).contains_key(name@),
            },
    {
        let pos = find_key(&self.services, name);
        proof {
            lemma_key_pos(self.services@, name@);
        }
        match pos {
            Some(i) => {
                proof {
                    lemma_as_map_index(self.services@, i as int);
                }
                Some(copy_service(&self.services[i].1))
            },
            None => None,
        }
    }

    /// All services, in table order.
    pub fn list_services(&self) -> (r: Vec<ServiceConfig>)
        ensures
            r@.len() == self.services@.len(),
            forall|i: int| 0 <= i < r@.len() ==> #[trigger] r@[i]@ == self.services@[i].1@,
    {
        let mut r: Vec<ServiceConfig> = Vec::new();
        let mut i: usize = 0;
        while i < self.services.len()
            invariant
                i <= self.services.len(),
                r@.len() == i,
                forall|j: int| 0 <= j < i ==> #[trigger] r@[j]@ == self.services@[j].1@,
            decreases self.services.len() - i,
        {
            r.push(copy_service(&self.services[i].1));
            i = i + 1;
        }
        r
    }

    /// The container a request for `domain` goes to: the first container of the
    /// first service (in table order) under that domain that has one.
    pub fn route_request(&self, domain: &str) -> (r: Option<String>)
        ensures
            match r {
                Some(id) => exists|i: int| #![trigger self.services@[i]] 0 <= i < self.services@.len()
                    && self.services@[i].1.domain@ == domain@ && self.services@[i].1.container_ids@.len() > 0
                    && id@ == self.services@[i].1.container_ids@[0]@
                    && forall|j: int| 0 <= j < i ==> !(self.services@[j].1.domain@ == domain@
                        && #[trigger] self.services@[j].1.container_ids@.len() > 0),
                None => forall|j: int| 0 <= j < self.services@.len() ==> !(self.services@[j].1.domain@ == domain@
                    && #[trigger] self.services@[j].1.container_ids@.len() > 0),
            },
    {
        let mut i: usize = 0;
        while i < self.services.len()
            invariant
                i <= self.services.len(),
                forall|j: int| 0 <= j < i ==> !(self.services@[j].1.domain@ == domain@
                    && #[trigger] self.services@[j].1.container_ids@.len() > 0),
            decreases self.services.len() - i,
        {
            let s = &self.services[i].1;
            if str_eq(s.domain.as_str(), domain) && s.container_ids.len() > 0 {
                let id = s.container_ids[0].clone();
                assert(self.services@[i as int].1.container_ids@.len() > 0);
                return Some(id);
            }
            i = i + 1;
        }
        None
    }
}


/// The node given, or `local`.
pub open spec fn node_arg(node_id: Option<&str>) -> Seq<char> {
    match node_id {
        Some(n) => n@,
        None => "local"@,
    }
}

/// The environment given by optional `(key, value)` pairs (none when absent).
pub open spec fn env_arg(p: Option<Vec<(String, String)>>) -> Seq<EnvVarView> {
    match p {
        Some(v) => env_of_pairs(v@),
        None => Seq::empty(),
    }
}

/// The port mappings given by optional `(container, host)` pairs (none when absent).
pub open spec fn ports_arg(p: Option<Vec<(u16, u16)>>) -> Seq<PortMappingView> {
    match p {
        Some(v) => ports_of_pairs(v@),
        None => Seq::empty(),
    }
}

/// A deployment of container `id` at `t`: the runtime records and starts it with
/// its initial statistics, and the manager appends its record.
pub open spec fn deploy_effect(m0: &AppManager, m1: &AppManager, id: Seq<char>, t: i64, image: Seq<char>, name: Seq<char>,
    node: Seq<char>, domain: Option<Seq<char>>, env: Seq<EnvVarView>, ports: Seq<PortMappingView>) -> bool {
    &&& m0.runtime matches Some(rt0)
    &&& m1.runtime matches Some(rt1)
    &&& containers_map(&rt1) == containers_map(&rt0).insert(id, new_container_view(id, name, image, env, ports, Seq::empty(), t))
    &&& stats_map(&rt1) == stats_map(&rt0).insert(id, initial_stats(t))
    &&& rt1.volumes@ == rt0.volumes@
    &&& records(m1) == records(m0).push(app_record(id, name, image, node, domain, env, ports, t))
    &&& m1.container_stats == m0.container_stats
    &&& m1.images == m0.images
}

/// The records with the first one of container `id`, if any, given status `st`.
#[verifier::opaque]
pub open spec fn set_first_status(recs: Seq<ContainerView>, id: Seq<char>, st: ContainerStatus) -> Seq<ContainerView> {
    if exists|i: int| 0 <= i < recs.len() && recs[i].id == id {
        let i = choose|i: int| 0 <= i < recs.len() && recs[i].id == id && forall|j: int| 0 <= j < i ==> recs[j].id != id;
        recs.update(i, ContainerView { status: st, ..recs[i] })
    } else {
        recs
    }
}

/// The records with the first one of container `id`, if any, marked stopped.
pub open spec fn stop_record(recs: Seq<ContainerView>, id: Seq<char>) -> Seq<ContainerView> {
    set_first_status(recs, id, ContainerStatus::Stopped)
}

/// Position of the first record of container `id`, if any.
#[verifier::opaque]
pub open spec fn first_record(recs: Seq<ContainerView>, id: Seq<char>) -> Option<int> {
    if exists|i: int| 0 <= i < recs.len() && recs[i].id == id {
        Some(choose|i: int| 0 <= i < recs.len() && recs[i].id == id && forall|j: int| 0 <= j < i ==> recs[j].id != id)
    } else {
        None
    }
}

/// The containers on node `node`, in order.
pub open spec fn on_node(s: Seq<ContainerView>, node: Seq<char>) -> Seq<ContainerView>
    decreases s.len(),
{
    if s.len() == 0 {
        s
    } else if s.last().node_id == node {
        on_node(s.drop_last(), node).push(s.last())
    } else {
        on_node(s.drop_last(), node)
    }
}

/// The runtime's record of `id`, if any, marked stopped.
pub open spec fn stopped_container(cm: Map<Seq<char>, ContainerView>, id: Seq<char>) -> Map<Seq<char>, ContainerView> {
    if cm.contains_key(id) { cm.insert(id, ContainerView { status: ContainerStatus::Stopped, ..cm[id] }) } else { cm }
}

/// A record with container `id` at `w` means there is a first one.
proof fn lemma_first_record_exists(recs: Seq<ContainerView>, id: Seq<char>, w: int)
    requires
        0 <= w < recs.len(),
        recs[w].id == id,
    ensures
        exists|i: int| 0 <= i < recs.len() && recs[i].id == id && forall|j: int| 0 <= j < i ==> recs[j].id != id,
    decreases w,
{
    if exists|j: int| 0 <= j < w && recs[j].id == id {
        let j = choose|j: int| 0 <= j < w && recs[j].id == id;
        lemma_first_record_exists(recs, id, j);
    } else {
        assert(0 <= w < recs.len() && recs[w].id == id && forall|j: int| 0 <= j < w ==> recs[j].id != id);
    }
}

impl AppManager {
    /// Detaches the runtime, leaving none.
    fn take_runtime(&mut self) -> (r: Option<MockContainerManager>)
        ensures
            r == old(self).runtime,
            final(self).runtime is None,
            final(self).images == old(self).images,
            final(self).services == old(self).services,
            final(self).containers == old(self).containers,
            final(self).container_stats == old(self).container_stats,
    {
        let mut r: Option<MockContainerManager> = None;
        std::mem::swap(&mut r, &mut self.runtime);
        r
    }

    /// Creates volume `name` in the runtime (see
    /// [`crate::containers::MockContainerManager::create_volume`]).
    pub fn create_volume(&mut self, name: &str) -> (r: Result<(), AppError>)
        requires
            app_wf(old(self)),
        ensures
            app_wf(final(self)),
            final(self).images == old(self).images,
            final(self).services == old(self).services,
            final(self).containers == old(self).containers,
            final(self).container_stats == old(self).container_stats,
            match old(self).runtime {
                None => r == Err::<(), AppError>(AppError::NoRuntime) && final(self).runtime is None,
                Some(rt0) => final(self).runtime matches Some(rt1)
                    && rt1.containers@ == rt0.containers@ && rt1.container_stats@ == rt0.container_stats@
                    && match volume_name_error(name@) {
                        Some(e) => r == Err::<(), AppError>(AppError::Runtime(e)) && rt1.volumes@ == rt0.volumes@,
                        None => if volumes_map(&rt0).contains_key(name@) {
                            (r matches Err(AppError::Runtime(RuntimeError::VolumeExists(x))) && x@ == name@)
                                && rt1.volumes@ == rt0.volumes@
                        } else {
                            r is Ok && volumes_map(&rt1).contains_key(name@) && volumes_map(&rt1) == volumes_map(&rt0).insert(
                                name@, VolumeView { name: name@, path: volume_path(name@), size: DEFAULT_VOLUME_SIZE,
                                    created_at: volumes_map(&rt1)[name@].created_at })
                        },
                    },
            },
    {
        match self.take_runtime() {
            None => Err(AppError::NoRuntime),
            Some(mut rt) => {
                let res = rt.create_volume(name);
                self.runtime = Some(rt);
                match res {
                    Ok(()) => Ok(()),
                    Err(e) => Err(AppError::Runtime(e)),
                }
            },
        }
    }

    /// Deletes volume `name` in the runtime (see
    /// [`crate::containers::MockContainerManager::delete_volume`]).
    pub fn delete_volume(&mut self, name: &str) -> (r: Result<(), AppError>)
        requires
            app_wf(old(self)),
        ensures
            app_wf(final(self)),
            final(self).images == old(self).images,
            final(self).services == old(self).services,
            final(self).containers == old(self).containers,
            final(self).container_stats == old(self).container_stats,
            match old(self).runtime {
                None => r == Err::<(), AppError>(AppError::NoRuntime) && final(self).runtime is None,
                Some(rt0) => final(self).runtime matches Some(rt1)
                    && rt1.containers@ == rt0.containers@ && rt1.container_stats@ == rt0.container_stats@
                    && if !volumes_map(&rt0).contains_key(name@) {
                        (r matches Err(AppError::Runtime(RuntimeError::VolumeNotFound(x))) && x@ == name@)
                            && rt1.volumes@ == rt0.volumes@
                    } else {
                        match first_user_from(rt0.containers@, name@, 0) {
                            Some(k) => (r matches Err(AppError::Runtime(RuntimeError::VolumeInUse { volume, container_name,
                                container_id })) && volume@ == name@ && container_name@ == rt0.containers@[k].1.name@
                                && container_id@ == rt0.containers@[k].0@) && rt1.volumes@ == rt0.volumes@,
                            None => r is Ok && volumes_map(&rt1) == volumes_map(&rt0).remove(name@),
                        }
                    },
            },
    {
        match self.take_runtime() {
            None => Err(AppError::NoRuntime),
            Some(mut rt) => {
                let res = rt.delete_volume(name);
                self.runtime = Some(rt);
                match res {
                    Ok(()) => Ok(()),
                    Err(e) => Err(AppError::Runtime(e)),
                }
            },
        }
    }

    /// The runtime's volumes, sorted by name.
    pub fn list_volumes(&self) -> (r: Result<Vec<Volume>, AppError>)
        ensures
            match self.runtime {
                None => r == Err::<Vec<Volume>, AppError>(AppError::NoRuntime),
                Some(rt) => r matches Ok(v) && volume_views(v@) == sort_by_name(volume_list(rt.volumes@)),
            },
    {
        match &self.runtime {
            None => Err(AppError::NoRuntime),
            Some(rt) => match rt.list_volumes() {
                Ok(v) => Ok(v),
                Err(e) => Err(AppError::Runtime(e)),
            },
        }
    }

    /// Deploys container `id` at `now` (see [`deploy_effect`]): on the node given or
    /// `local`, with the environment and ports given or none.
    pub fn deploy_container_at(&mut self, id: String, now: i64, image: &str, name: &str, node_id: Option<&str>,
        service_domain: Option<&str>, env_vars: Option<Vec<(String, String)>>, ports: Option<Vec<(u16, u16)>>)
        -> (r: Result<String, AppError>)
        requires
            app_wf(old(self)),
        ensures
            app_wf(final(self)),
            match old(self).runtime {
                None => r == Err::<String, AppError>(AppError::NoRuntime) && final(self).runtime is None
                    && final(self).containers == old(self).containers && final(self).services == old(self).services
                    && final(self).container_stats == old(self).container_stats && final(self).images == old(self).images,
                Some(_) => (r matches Ok(x) && x@ == id@) && deploy_effect(old(self), final(self), id@, now, image@, name@,
                    node_arg(node_id), opt_view(service_domain), env_arg(env_vars),
                    ports_arg(ports)),
            },
            final(self).services == old(self).services,
    {
        let env = match &env_vars {
            Some(p) => env_from_pairs(p),
            None => Vec::new(),
        };
        let port_list = match &ports {
            Some(p) => ports_from_pairs(p),
            None => Vec::new(),
        };
        assert(env_views(env@) =~= env_arg(env_vars));
        assert(port_views(port_list@) =~= ports_arg(ports));
        match self.take_runtime() {
            None => Err(AppError::NoRuntime),
            Some(mut rt) => {
                let _ = rt.pull_image(image);
                let none: Vec<Volume> = Vec::new();
                assert(volume_views(none@) =~= Seq::<VolumeView>::empty());
                rt.create_container_with_id(id.clone(), image, name, copy_env_vars(&env), copy_ports(&port_list), none, now);
                self.runtime = Some(rt);
                let node = match node_id {
                    Some(n) => owned(n),
                    None => owned("local"),
                };
                let domain = match service_domain {
                    Some(d) => Some(owned(d)),
                    None => None,
                };
                let c = Container {
                    id: id.clone(),
                    name: owned(name),
                    image: owned(image),
                    status: ContainerStatus::Running,
                    node_id: node,
                    created_at: now,
                    ports: port_list,
                    env_vars: env,
                    volumes: Vec::new(),
                    service_domain: domain,
                };
                let ghost cv = c@;
                assert(cv.volumes =~= Seq::<VolumeView>::empty());
                self.containers.push(c);
                assert(records(self) =~= records(old(self)).push(cv));
                Ok(id)
            },
        }
    }

    /// Deploys a container under a fresh random id at the current time (see
    /// [`AppManager::deploy_container_at`]).
    pub fn deploy_container(&mut self, image: &str, name: &str, node_id: Option<&str>, service_domain: Option<&str>,
        env_vars: Option<Vec<(String, String)>>, ports: Option<Vec<(u16, u16)>>) -> (r: Result<String, AppError>)
        requires
            app_wf(old(self)),
        ensures
            app_wf(final(self)),
            match old(self).runtime {
                None => r == Err::<String, AppError>(AppError::NoRuntime) && final(self).runtime is None
                    && final(self).containers == old(self).containers && final(self).services == old(self).services
                    && final(self).container_stats == old(self).container_stats && final(self).images == old(self).images,
                Some(_) => r is Ok && r->Ok_0@.len() == 36 && exists|t: i64| #[trigger] deploy_effect(old(self), final(self),
                    r->Ok_0@, t, image@, name@, node_arg(node_id), opt_view(service_domain), env_arg(env_vars), ports_arg(ports)),
            },
            final(self).services == old(self).services,
    {
        let ghost envs = env_arg(env_vars);
        let ghost ps = ports_arg(ports);
        let id = new_uuid();
        let now = unix_now();
        let r = self.deploy_container_at(id, now, image, name, node_id, service_domain, env_vars, ports);
        proof {
            if old(self).runtime is Some {
                assert(deploy_effect(old(self), self, r->Ok_0@, now, image@, name@, node_arg(node_id),
                    opt_view(service_domain), envs, ps));
            }
        }
        r
    }

    /// Stops container `id` in the runtime and marks its first record stopped.
    pub fn stop_container(&mut self, container_id: &str) -> (r: Result<bool, AppError>)
        requires
            app_wf(old(self)),
        ensures
            app_wf(final(self)),
            final(self).images == old(self).images,
            final(self).services == old(self).services,
            final(self).container_stats == old(self).container_stats,
            match old(self).runtime {
                None => r == Err::<bool, AppError>(AppError::NoRuntime) && final(self).runtime is None
                    && final(self).containers == old(self).containers,
                Some(rt0) => r == Ok::<bool, AppError>(true) && (final(self).runtime matches Some(rt1)
                    && containers_map(&rt1) == stopped_container(containers_map(&rt0), container_id@)
                    && rt1.container_stats@ == rt0.container_stats@ && rt1.volumes@ == rt0.volumes@)
                    && records(final(self)) == stop_record(records(old(self)), container_id@),
            },
    {
        match self.take_runtime() {
            None => Err(AppError::NoRuntime),
            Some(mut rt) => {
                let _ = rt.stop_container(container_id);
                self.runtime = Some(rt);
                let _ = self.set_first_record_status(container_id, ContainerStatus::Stopped);
                Ok(true)
            },
        }
    }

    /// Gives the first record of container `id`, if any, status `st`; returns its
    /// position.
    fn set_first_record_status(&mut self, id: &str, st: ContainerStatus) -> (r: Option<usize>)
        ensures
            records(final(self)) == set_first_status(records(old(self)), id@, st),
            match r {
                Some(i) => first_record(records(old(self)), id@) == Some(i as int) && i < old(self).containers@.len(),
                None => first_record(records(old(self)), id@) is None,
            },
            final(self).runtime == old(self).runtime,
            final(self).images == old(self).images,
            final(self).services == old(self).services,
            final(self).container_stats == old(self).container_stats,
    {
        let ghost recs = records(old(self));
        let mut i: usize = 0;
        while i < self.containers.len()
            invariant
                i <= self.containers.len(),
                self.containers == old(self).containers,
                self.runtime == old(self).runtime,
                self.images == old(self).images,
                self.services == old(self).services,
                self.container_stats == old(self).container_stats,
                recs == records(old(self)),
                forall|j: int| 0 <= j < i ==> recs[j].id != id@,
            decreases self.containers.len() - i,
        {
            if str_eq(self.containers[i].id.as_str(), id) {
                proof {
                    lemma_first_record_exists(recs, id@, i as int);
                    let k = choose|k: int| 0 <= k < recs.len() && recs[k].id == id@ && forall|j: int| 0 <= j < k ==> recs[j].id != id@;
                    assert(k == i) by {
                        if k < i {
                        } else if k > i {
                            assert(recs[i as int].id == id@);
                        }
                    }
                }
                let mut c = copy_container(&self.containers[i]);
                c.status = st;
                let ghost cv = c@;
                self.containers.set(i, c);
                assert(records(self) =~= recs.update(i as int, cv));
                proof {
                    reveal(set_first_status);
                    reveal(first_record);
                }
                return Some(i);
            }
            i = i + 1;
        }
        assert(records(self) =~= recs);
        proof {
            reveal(set_first_status);
            reveal(first_record);
        }
        None
    }

    /// The runtime's record of container `id`.
    pub fn get_container_by_id(&self, container_id: &str) -> (r: Option<Container>)
        requires
            app_wf(self),
        ensures
            match self.runtime {
                None => r is None,
                Some(rt) => match r {
                    Some(c) => containers_map(&rt).contains_key(container_id@) && c@ == containers_map(&rt)[container_id@],
                    None => !containers_map(&rt).contains_key(container_id@),
                },
            },
    {
        match &self.runtime {
            None => None,
            Some(rt) => {
                match get_key(&rt.containers, container_id) {
                    Some(c) => Some(copy_container(c)),
                    None => None,
                }
            },
        }
    }

    /// The runtime's containers on node `node_id`, in table order.
    pub fn get_containers_by_node(&self, node_id: &str) -> (r: Vec<Container>)
        ensures
            match self.runtime {
                None => r@.len() == 0,
                Some(rt) => r@.map_values(|c: Container| c@) == on_node(container_list(rt.containers@), node_id@),
            },
    {
        match &self.runtime {
            None => Vec::new(),
            Some(rt) => {
                let ghost all = container_list(rt.containers@);
                let mut out: Vec<Container> = Vec::new();
                let mut i: usize = 0;
                while i < rt.containers.len()
                    invariant
                        i <= rt.containers.len(),
                        all == container_list(rt.containers@),
                        out@.map_values(|c: Container| c@) == on_node(all.take(i as int), node_id@),
                    decreases rt.containers.len() - i,
                {
                    let ghost before = out@;
                    assert(all.take(i + 1).drop_last() =~= all.take(i as int));
                    if str_eq(rt.containers[i].1.node_id.as_str(), node_id) {
                        out.push(copy_container(&rt.containers[i].1));
                        assert(out@.map_values(|c: Container| c@) =~= before.map_values(|c: Container| c@).push(all[i as int]));
                    }
                    i = i + 1;
                }
                assert(all.take(all.len() as int) =~= all);
                out
            },
        }
    }

    /// The runtime's statistics of container `id`, if it has any.
    pub fn get_container_stats(&self, container_id: &str) -> (r: Option<ContainerStats>)
        requires
            app_wf(self),
        ensures
            match self.runtime {
                None => r is None,
                Some(rt) => if stats_map(&rt).contains_key(container_id@) {
                    r == Some(stats_map(&rt)[container_id@])
                } else {
                    r is None
                },
            },
    {
        match &self.runtime {
            None => None,
            Some(rt) => match rt.get_container_metrics(container_id) {
                Ok(s) => Some(s),
                Err(_) => None,
            },
        }
    }

    /// The runtime's containers, in table order (none without a runtime).
    pub fn get_container_details(&self) -> (r: Vec<Container>)
        ensures
            match self.runtime {
                None => r@.len() == 0,
                Some(rt) => r@.map_values(|c: Container| c@) == container_list(rt.containers@),
            },
    {
        match &self.runtime {
            None => Vec::new(),
            Some(rt) => match rt.list_containers() {
                Ok(v) => v,
                Err(_) => Vec::new(),
            },
        }
    }

    /// The ids of the runtime's containers, in table order (none without a runtime).
    pub fn list_containers(&self) -> (r: Vec<String>)
        ensures
            match self.runtime {
                None => r@.len() == 0,
                Some(rt) => ids_view(r@) == container_list(rt.containers@).map_values(|c: ContainerView| c.id),
            },
    {
        let cs = self.get_container_details();
        let ghost cv = cs@.map_values(|c: Container| c@);
        let mut r: Vec<String> = Vec::new();
        let mut i: usize = 0;
        while i < cs.len()
            invariant
                i <= cs.len(),
                cv == cs@.map_values(|c: Container| c@),
                ids_view(r@) == cv.take(i as int).map_values(|c: ContainerView| c.id),
            decreases cs.len() - i,
        {
            let ghost before = r@;
            r.push(cs[i].id.clone());
            assert(ids_view(r@) =~= ids_view(before).push(cv[i as int].id));
            i = i + 1;
            assert(ids_view(r@) =~= cv.take(i as int).map_values(|c: ContainerView| c.id));
        }
        assert(cv.take(cs@.len() as int) =~= cv);
        r
    }
}


/// The environment of a deployed app: the pairs given, else `APP_NAME` set to its name.
pub open spec fn app_env(name: Seq<char>, env_vars: Option<Vec<(String, String)>>) -> Seq<EnvVarView> {
    match env_vars {
        Some(v) => env_of_pairs(v@),
        None => seq![EnvVarView { key: "APP_NAME"@, value: name }],
    }
}

/// The ports of a deployed app: the pairs given, else container port 80 on host port 8080.
pub open spec fn app_ports(ports: Option<Vec<(u16, u16)>>) -> Seq<PortMappingView> {
    match ports {
        Some(v) => ports_of_pairs(v@),
        None => seq![PortMappingView { container_port: 80, host_port: 8080, protocol: "tcp"@ }],
    }
}

/// A new service with one container.
pub open spec fn single_service(name: Seq<char>, domain: Seq<char>, id: Seq<char>) -> ServiceView {
    ServiceView { name, domain, container_ids: seq![id], desired_replicas: 1, current_replicas: 1 }
}

/// The name of a replica: `{name}-{n}`.
pub open spec fn replica_name(name: Seq<char>, n: nat) -> Seq<char> {
    name + seq!['-'] + decimal(n)
}

/// The runtime's containers after deploying replicas `ids` at `times`; the `i`-th
/// is named for position `len0 + 2 i`.
pub open spec fn replicas_runtime(cm: Map<Seq<char>, ContainerView>, name: Seq<char>, image: Seq<char>, len0: nat,
    ids: Seq<Seq<char>>, times: Seq<i64>) -> Map<Seq<char>, ContainerView>
    decreases ids.len(),
{
    if ids.len() == 0 {
        cm
    } else {
        let k = (ids.len() - 1) as nat;
        replicas_runtime(cm, name, image, len0, ids.take(k as int), times.take(k as int)).insert(ids[k as int],
            new_container_view(ids[k as int], replica_name(name, len0 + 2 * k), image, Seq::empty(), Seq::empty(), Seq::empty(),
                times[k as int]))
    }
}

/// The runtime's statistics after deploying replicas `ids` at `times`.
pub open spec fn replicas_stats(sm: Map<Seq<char>, ContainerStats>, ids: Seq<Seq<char>>, times: Seq<i64>)
    -> Map<Seq<char>, ContainerStats>
    decreases ids.len(),
{
    if ids.len() == 0 {
        sm
    } else {
        let k = ids.len() - 1;
        replicas_stats(sm, ids.take(k), times.take(k)).insert(ids[k], initial_stats(times[k]))
    }
}

/// The records of replicas `ids` deployed at `times` for a service under `domain`.
pub open spec fn replica_records(name: Seq<char>, image: Seq<char>, domain: Seq<char>, len0: nat, ids: Seq<Seq<char>>,
    times: Seq<i64>) -> Seq<ContainerView> {
    Seq::new(ids.len(), |i: int| app_record(ids[i], replica_name(name, len0 + 2 * (i as nat)), image, "local"@, Some(domain),
        Seq::empty(), Seq::empty(), times[i]))
}

/// The containers removed when scaling down by `k`: the last `k`, last first.
pub open spec fn popped(ids: Seq<Seq<char>>, k: nat) -> Seq<Seq<char>> {
    Seq::new(k, |j: int| ids[ids.len() - 1 - j])
}

/// The records after stopping each of `ids` in order.
pub open spec fn stop_records(recs: Seq<ContainerView>, ids: Seq<Seq<char>>) -> Seq<ContainerView>
    decreases ids.len(),
{
    if ids.len() == 0 { recs } else { stop_record(stop_records(recs, ids.drop_last()), ids.last()) }
}

/// The runtime's containers after stopping each of `ids` in order.
pub open spec fn stop_containers(cm: Map<Seq<char>, ContainerView>, ids: Seq<Seq<char>>) -> Map<Seq<char>, ContainerView>
    decreases ids.len(),
{
    if ids.len() == 0 { cm } else { stopped_container(stop_containers(cm, ids.drop_last()), ids.last()) }
}

impl AppManager {
    /// Records service `name` under `domain` with the single container `id`.
    fn register_service(&mut self, name: &str, domain: &str, id: &str)
        requires
            app_wf(old(self)),
        ensures
            app_wf(final(self)),
            services_map(final(self)) == services_map(old(self)).insert(name@, single_service(name@, domain@, id@)),
            final(self).runtime == old(self).runtime,
            final(self).images == old(self).images,
            final(self).containers == old(self).containers,
            final(self).container_stats == old(self).container_stats,
    {
        let mut ids: Vec<String> = Vec::new();
        ids.push(owned(id));
        let svc = ServiceConfig { name: owned(name), domain: owned(domain), container_ids: ids, desired_replicas: 1, current_replicas: 1 };
        assert(svc@.container_ids =~= seq![id@]);
        let ghost sv = svc@;
        insert_key(&mut self.services, owned(name), svc);
        assert(services_map(self) =~= services_map(old(self)).insert(name@, sv));
    }

    /// Deploys an app: a container with the app's environment and ports (see
    /// [`app_env`], [`app_ports`]) on the local node, registered as a service with
    /// one replica when a domain is given.
    pub fn deploy_app(&mut self, image: &str, name: &str, service_domain: Option<&str>, env_vars: Option<Vec<(String, String)>>,
        ports: Option<Vec<(u16, u16)>>) -> (r: Result<String, AppError>)
        requires
            app_wf(old(self)),
        ensures
            app_wf(final(self)),
            match old(self).runtime {
                None => r == Err::<String, AppError>(AppError::NoRuntime) && final(self).runtime is None
                    && final(self).containers == old(self).containers && final(self).services == old(self).services,
                Some(_) => r is Ok && r->Ok_0@.len() == 36
                    && (exists|t: i64| #[trigger] deploy_effect(old(self), final(self), r->Ok_0@, t, image@, name@, "local"@,
                        opt_view(service_domain), app_env(name@, env_vars), app_ports(ports)))
                    && services_map(final(self)) == match service_domain {
                        Some(d) => services_map(old(self)).insert(name@, single_service(name@, d@, r->Ok_0@)),
                        None => services_map(old(self)),
                    },
            },
    {
        let ghost envs = app_env(name@, env_vars);
        let ghost ps = app_ports(ports);
        let env = match env_vars {
            Some(v) => v,
            None => {
                let mut v: Vec<(String, String)> = Vec::new();
                v.push((owned("APP_NAME"), owned(name)));
                v
            },
        };
        let port_list = match ports {
            Some(v) => v,
            None => {
                let mut v: Vec<(u16, u16)> = Vec::new();
                v.push((80, 8080));
                v
            },
        };
        assert(env_arg(Some(env)) =~= envs);
        assert(ports_arg(Some(port_list)) =~= ps);
        let id = match self.deploy_container(image, name, None, service_domain, Some(env), Some(port_list)) {
            Ok(id) => id,
            Err(e) => {
                return Err(e);
            },
        };
        let ghost mid = *self;
        match service_domain {
            Some(d) => {
                self.register_service(name, d, id.as_str());
                proof {
                    let t = choose|t: i64| #[trigger] deploy_effect(old(self), &mid, id@, t, image@, name@, "local"@,
                        opt_view(service_domain), envs, ps);
                    assert(deploy_effect(old(self), self, id@, t, image@, name@, "local"@, opt_view(service_domain), envs, ps));
                }
            },
            None => {},
        }
        Ok(id)
    }
}


/// A service with its desired replica count set.
pub open spec fn with_desired(s: ServiceView, replicas: u32) -> ServiceView {
    ServiceView { desired_replicas: replicas, ..s }
}

/// What scaling service `name` (with record `s`) up to `replicas` does, given the
/// new replicas' ids and deployment times: when its first container is known to
/// the runtime, `replicas - current` replicas of that container's image are
/// deployed on the local node under the service's domain and added to the service,
/// whose counts become `replicas`; otherwise only the desired count changes.
pub open spec fn scaled_up(m0: &AppManager, m1: &AppManager, name: Seq<char>, s: ServiceView, replicas: u32, ids: Seq<Seq<char>>,
    times: Seq<i64>) -> bool {
    let can = s.container_ids.len() > 0 && (m0.runtime matches Some(rt0) && containers_map(&rt0).contains_key(s.container_ids[0]));
    if can {
        let rt0 = m0.runtime->Some_0;
        let image = containers_map(&rt0)[s.container_ids[0]].image;
        let len0 = s.container_ids.len();
        &&& ids.len() == replicas - s.current_replicas
        &&& times.len() == ids.len()
        &&& m1.runtime matches Some(rt1)
        &&& containers_map(&rt1) == replicas_runtime(containers_map(&rt0), name, image, len0, ids, times)
        &&& stats_map(&rt1) == replicas_stats(stats_map(&rt0), ids, times)
        &&& rt1.volumes@ == rt0.volumes@
        &&& records(m1) == records(m0) + replica_records(name, image, s.domain, len0, ids, times)
        &&& services_map(m1) == services_map(m0).insert(name, ServiceView {
                container_ids: s.container_ids + ids,
                desired_replicas: replicas,
                current_replicas: replicas,
                ..s
            })
    } else {
        &&& m1.runtime == m0.runtime
        &&& m1.containers == m0.containers
        &&& services_map(m1) == services_map(m0).insert(name, with_desired(s, replicas))
    }
}

/// What scaling service `name` (with record `s`) down to `replicas` does: the
/// last `current - replicas` containers (fewer if it has fewer) are taken off the
/// service, last first, and each stopped; its counts become `replicas`. Without a
/// runtime the first stop fails, after that container was taken off.
pub open spec fn scaled_down(m0: &AppManager, m1: &AppManager, name: Seq<char>, s: ServiceView, replicas: u32,
    r: Result<(), AppError>) -> bool {
    let n = s.container_ids.len();
    let want = (s.current_replicas - replicas) as nat;
    let k: nat = if want < n { want } else { n };
    match m0.runtime {
        Some(rt0) => {
            &&& r is Ok
            &&& m1.runtime matches Some(rt1)
            &&& containers_map(&rt1) == stop_containers(containers_map(&rt0), popped(s.container_ids, k))
            &&& rt1.container_stats@ == rt0.container_stats@
            &&& rt1.volumes@ == rt0.volumes@
            &&& records(m1) == stop_records(records(m0), popped(s.container_ids, k))
            &&& services_map(m1) == services_map(m0).insert(name, ServiceView {
                    container_ids: s.container_ids.take(n - k),
                    desired_replicas: replicas,
                    current_replicas: replicas,
                    ..s
                })
        },
        None => {
            &&& m1.runtime is None
            &&& m1.containers == m0.containers
            &&& if n > 0 {
                &&& r == Err::<(), AppError>(AppError::NoRuntime)
                &&& services_map(m1) == services_map(m0).insert(name, ServiceView {
                        container_ids: s.container_ids.drop_last(),
                        desired_replicas: replicas,
                        ..s
                    })
            } else {
                &&& r is Ok
                &&& services_map(m1) == services_map(m0).insert(name, ServiceView {
                        desired_replicas: replicas,
                        current_replicas: replicas,
                        ..s
                    })
            }
        },
    }
}

/// Whether a runtime is attached.
fn has_rt_exec(rt: &Option<MockContainerManager>) -> (r: bool)
    ensures
        r == rt is Some,
{
    rt.is_some()
}

/// Puts service `s` back under `name`.
fn put_service(services: &mut Vec<(String, ServiceConfig)>, name: &str, s: ServiceConfig)
    requires
        keys_distinct(old(services)@),
    ensures
        keys_distinct(final(services)@),
        as_map(final(services)@).map_values(|x: ServiceConfig| x@) == as_map(old(services)@).map_values(|x: ServiceConfig| x@).insert(
            name@, s@),
{
    let ghost sv = s@;
    insert_key(services, owned(name), s);
    assert(as_map(services@).map_values(|x: ServiceConfig| x@) =~= as_map(old(services)@).map_values(|x: ServiceConfig| x@).insert(
        name@, sv));
}

impl AppManager {
    /// Scales service `name` to `replicas` (see [`scaled_up`] and [`scaled_down`]);
    /// unknown services are refused.
    pub fn scale_app(&mut self, name: &str, replicas: u32) -> (r: Result<(), AppError>)
        requires
            app_wf(old(self)),
            services_map(old(self)).contains_key(name@) ==> services_map(old(self))[name@].container_ids.len() + 2 * (replicas as int)
                < usize::MAX,
        ensures
            app_wf(final(self)),
            final(self).images == old(self).images,
            final(self).container_stats == old(self).container_stats,
            if !services_map(old(self)).contains_key(name@) {
                &&& r == Err::<(), AppError>(AppError::ServiceNotFound)
                &&& final(self).runtime == old(self).runtime
                &&& final(self).containers == old(self).containers
                &&& final(self).services == old(self).services
            } else {
                let s = services_map(old(self))[name@];
                if replicas > s.current_replicas {
                    r is Ok && exists|ids: Seq<Seq<char>>, times: Seq<i64>| #[trigger] scaled_up(old(self), final(self), name@, s,
                        replicas, ids, times)
                } else if replicas < s.current_replicas {
                    scaled_down(old(self), final(self), name@, s, replicas, r)
                } else {
                    &&& r is Ok
                    &&& final(self).runtime == old(self).runtime
                    &&& final(self).containers == old(self).containers
                    &&& services_map(final(self)) == services_map(old(self)).insert(name@, with_desired(s, replicas))
                }
            },
    {
        let mut svc = match self.get_service(name) {
            Some(s) => s,
            None => {
                return Err(AppError::ServiceNotFound);
            },
        };
        let ghost s0 = svc@;
        svc.desired_replicas = replicas;
        let current = svc.current_replicas;
        if replicas > current {
            let to_add = replicas - current;
            let first = if svc.container_ids.len() > 0 { self.get_container_by_id(svc.container_ids[0].as_str()) } else { None };
            match first {
                Some(c) => {
                    let g = self.add_replicas(&mut svc, name, to_add, c.image.as_str());
                    let ghost ids = g@.0;
                    let ghost times = g@.1;
                    svc.current_replicas = replicas;
                    let ghost mid = *self;
                    put_service(&mut self.services, name, svc);
                    proof {
                        assert(scaled_up(old(self), self, name@, s0, replicas, ids, times));
                    }
                },
                None => {
                    put_service(&mut self.services, name, svc);
                    proof {
                        assert(svc@ == with_desired(s0, replicas));
                        assert(scaled_up(old(self), self, name@, s0, replicas, Seq::empty(), Seq::empty()));
                    }
                },
            }
            Ok(())
        } else if replicas < current {
            let to_remove = current - replicas;
            let r = self.remove_replicas(&mut svc, to_remove);
            if r.is_ok() {
                svc.current_replicas = replicas;
            }
            put_service(&mut self.services, name, svc);
            r
        } else {
            put_service(&mut self.services, name, svc);
            Ok(())
        }
    }
}


impl AppManager {
    /// Deploys `to_add` replicas of `image` for the service `svc` named `name`,
    /// adding their ids to it; returns the ids and deployment times.
    fn add_replicas(&mut self, svc: &mut ServiceConfig, name: &str, to_add: u32, image: &str)
        -> (g: Ghost<(Seq<Seq<char>>, Seq<i64>)>)
        requires
            app_wf(old(self)),
            old(self).runtime is Some,
            old(svc).container_ids@.len() + 2 * (to_add as int) < usize::MAX,
        ensures
            app_wf(final(self)),
            g@.0.len() == to_add,
            g@.1.len() == to_add,
            ids_view(final(svc).container_ids@) == ids_view(old(svc).container_ids@) + g@.0,
            final(svc).name == old(svc).name,
            final(svc).domain == old(svc).domain,
            final(svc).desired_replicas == old(svc).desired_replicas,
            final(svc).current_replicas == old(svc).current_replicas,
            final(self).runtime matches Some(rt1) && containers_map(&rt1) == replicas_runtime(
                containers_map(&old(self).runtime->Some_0), name@, image@, old(svc).container_ids@.len(), g@.0, g@.1)
                && stats_map(&rt1) == replicas_stats(stats_map(&old(self).runtime->Some_0), g@.0, g@.1)
                && rt1.volumes@ == old(self).runtime->Some_0.volumes@,
            records(final(self)) == records(old(self)) + replica_records(name@, image@, old(svc).domain@,
                old(svc).container_ids@.len(), g@.0, g@.1),
            final(self).services == old(self).services,
            final(self).container_stats == old(self).container_stats,
            final(self).images == old(self).images,
    {
        let ghost rt0 = old(self).runtime->Some_0;
        let ghost len0 = old(svc).container_ids@.len();
        let ghost ids0 = ids_view(old(svc).container_ids@);
        let ghost mut ids: Seq<Seq<char>> = Seq::empty();
        let ghost mut times: Seq<i64> = Seq::empty();
        let mut i: u32 = 0;
        while i < to_add
            invariant
                i <= to_add,
                app_wf(self),
                self.runtime is Some,
                ids.len() == i,
                times.len() == i,
                len0 == old(svc).container_ids@.len(),
                len0 + 2 * (to_add as int) < usize::MAX,
                ids_view(svc.container_ids@) == ids0 + ids,
                svc.container_ids@.len() == len0 + i,
                ids0 == ids_view(old(svc).container_ids@),
                svc.name == old(svc).name,
                svc.domain == old(svc).domain,
                svc.desired_replicas == old(svc).desired_replicas,
                svc.current_replicas == old(svc).current_replicas,
                self.runtime matches Some(rt1) && containers_map(&rt1) == replicas_runtime(containers_map(&rt0), name@, image@, len0,
                    ids, times) && stats_map(&rt1) == replicas_stats(stats_map(&rt0), ids, times) && rt1.volumes@ == rt0.volumes@,
                records(self) == records(old(self)) + replica_records(name@, image@, svc.domain@, len0, ids, times),
                self.services == old(self).services,
                self.container_stats == old(self).container_stats,
                self.images == old(self).images,
            decreases to_add - i,
        {
            let n = svc.container_ids.len() + i as usize;
            let mut rname = owned(name);
            push_char(&mut rname, '-');
            push_decimal(&mut rname, n as u64);
            assert(rname@ =~= replica_name(name@, (len0 + 2 * i) as nat));
            let ghost before = *self;
            let r = self.deploy_container(image, rname.as_str(), None, Some(svc.domain.as_str()), None, None);
            let id = match r {
                Ok(id) => id,
                Err(_) => {
                    proof {
                        assert(false);
                    }
                    return Ghost((ids, times));
                },
            };
            let ghost t = choose|t: i64| #[trigger] deploy_effect(&before, self, id@, t, image@, rname@, "local"@,
                Some(svc.domain@), Seq::empty(), Seq::empty());
            proof {
                assert(env_arg(None) =~= Seq::<EnvVarView>::empty());
                assert(ports_arg(None) =~= Seq::<PortMappingView>::empty());
                assert(deploy_effect(&before, self, id@, t, image@, rname@, "local"@, Some(svc.domain@), Seq::empty(), Seq::empty()));
            }
            let ghost sv0 = svc.container_ids@;
            svc.container_ids.push(id.clone());
            proof {
                let ids_old = ids;
                let times_old = times;
                ids = ids.push(id@);
                times = times.push(t);
                assert(ids.take(i as int) =~= ids_old);
                assert(times.take(i as int) =~= times_old);
                assert(ids_view(svc.container_ids@) =~= ids_view(sv0).push(id@));
                assert(ids_view(svc.container_ids@) =~= ids0 + ids);
                assert(svc.container_ids@.len() == len0 + i + 1);
                assert(replica_records(name@, image@, svc.domain@, len0, ids, times) =~= replica_records(name@, image@, svc.domain@, len0,
                    ids_old, times_old).push(app_record(id@, rname@, image@, "local"@, Some(svc.domain@), Seq::empty(), Seq::empty(), t)));
                assert(records(self) =~= records(old(self)) + replica_records(name@, image@, svc.domain@, len0, ids, times));
            }
            i = i + 1;
        }
        Ghost((ids, times))
    }

    /// Takes the last container off service `svc`, if it has one, and stops it.
    fn stop_last(&mut self, svc: &mut ServiceConfig) -> (r: Result<(), AppError>)
        requires
            app_wf(old(self)),
        ensures
            app_wf(final(self)),
            final(svc).name == old(svc).name,
            final(svc).domain == old(svc).domain,
            final(svc).desired_replicas == old(svc).desired_replicas,
            final(svc).current_replicas == old(svc).current_replicas,
            final(self).services == old(self).services,
            final(self).container_stats == old(self).container_stats,
            final(self).images == old(self).images,
            old(svc).container_ids@.len() == 0 ==> r is Ok && final(svc).container_ids@ == old(svc).container_ids@
                && final(self).runtime == old(self).runtime && final(self).containers == old(self).containers,
            old(svc).container_ids@.len() > 0 ==> ({
                let last = old(svc).container_ids@.last()@;
                &&& ids_view(final(svc).container_ids@) == ids_view(old(svc).container_ids@).drop_last()
                &&& match old(self).runtime {
                    Some(rt0) => {
                        &&& r is Ok
                        &&& final(self).runtime matches Some(rt1)
                        &&& containers_map(&rt1) == stopped_container(containers_map(&rt0), last)
                        &&& rt1.container_stats@ == rt0.container_stats@
                        &&& rt1.volumes@ == rt0.volumes@
                        &&& records(final(self)) == stop_record(records(old(self)), last)
                    },
                    None => {
                        &&& r == Err::<(), AppError>(AppError::NoRuntime)
                        &&& final(self).runtime is None
                        &&& final(self).containers == old(self).containers
                    },
                }
            }),
    {
        let ghost sv0 = svc.container_ids@;
        match svc.container_ids.pop() {
            Some(id) => {
                assert(ids_view(svc.container_ids@) =~= ids_view(sv0).drop_last());
                match self.stop_container(id.as_str()) {
                    Ok(_) => Ok(()),
                    Err(e) => Err(e),
                }
            },
            None => Ok(()),
        }
    }

    /// Takes up to `to_remove` containers off the end of service `svc`, stopping
    /// each, last first; without a runtime the first stop fails.
    fn remove_replicas(&mut self, svc: &mut ServiceConfig, to_remove: u32) -> (r: Result<(), AppError>)
        requires
            app_wf(old(self)),
        ensures
            app_wf(final(self)),
            final(svc).name == old(svc).name,
            final(svc).domain == old(svc).domain,
            final(svc).desired_replicas == old(svc).desired_replicas,
            final(svc).current_replicas == old(svc).current_replicas,
            final(self).services == old(self).services,
            final(self).container_stats == old(self).container_stats,
            final(self).images == old(self).images,
            ({
                let ids0 = ids_view(old(svc).container_ids@);
                let n = ids0.len();
                let k: nat = if (to_remove as nat) < n { to_remove as nat } else { n };
                match old(self).runtime {
                    Some(rt0) => {
                        &&& r is Ok
                        &&& ids_view(final(svc).container_ids@) == ids0.take(n - k)
                        &&& final(self).runtime matches Some(rt1)
                        &&& containers_map(&rt1) == stop_containers(containers_map(&rt0), popped(ids0, k))
                        &&& rt1.container_stats@ == rt0.container_stats@
                        &&& rt1.volumes@ == rt0.volumes@
                        &&& records(final(self)) == stop_records(records(old(self)), popped(ids0, k))
                    },
                    None => {
                        &&& final(self).runtime is None
                        &&& final(self).containers == old(self).containers
                        &&& if n > 0 && to_remove > 0 {
                            r == Err::<(), AppError>(AppError::NoRuntime) && ids_view(final(svc).container_ids@) == ids0.drop_last()
                        } else {
                            r is Ok && ids_view(final(svc).container_ids@) == ids0
                        }
                    },
                }
            }),
    {
        let ghost ids0 = ids_view(old(svc).container_ids@);
        let ghost n = ids0.len();
        let ghost has_rt = old(self).runtime is Some;
        let ghost cm0 = if has_rt { containers_map(&old(self).runtime->Some_0) } else { Map::empty() };
        let ghost st0 = if has_rt { old(self).runtime->Some_0.container_stats@ } else { Seq::empty() };
        let ghost vol0 = if has_rt { old(self).runtime->Some_0.volumes@ } else { Seq::empty() };
        let ghost recs0 = records(old(self));
        let ghost mut done: nat = 0;
        if !has_rt_exec(&self.runtime) {
            if svc.container_ids.len() > 0 && to_remove > 0 {
                return self.stop_last(svc);
            }
            return Ok(());
        }
        let mut j: u32 = 0;
        while j < to_remove
            invariant
                j <= to_remove,
                app_wf(self),
                has_rt,
                ids0 == ids_view(old(svc).container_ids@),
                n == ids0.len(),
                done <= j,
                done <= n,
                done < j ==> done == n,
                ids_view(svc.container_ids@) == ids0.take(n - done),
                svc.name == old(svc).name,
                svc.domain == old(svc).domain,
                svc.desired_replicas == old(svc).desired_replicas,
                svc.current_replicas == old(svc).current_replicas,
                self.services == old(self).services,
                self.container_stats == old(self).container_stats,
                self.images == old(self).images,
                self.runtime is Some,
                containers_map(&self.runtime->Some_0) == stop_containers(cm0, popped(ids0, done)),
                self.runtime->Some_0.container_stats@ == st0,
                self.runtime->Some_0.volumes@ == vol0,
                records(self) == stop_records(recs0, popped(ids0, done)),
            decreases to_remove - j,
        {
            let ghost sv0 = svc.container_ids@;
            let nonempty = svc.container_ids.len() > 0;
            let _ = self.stop_last(svc);
            if nonempty {
                proof {
                    let last = sv0.last()@;
                    assert(ids_view(sv0) == ids0.take(n - done));
                    assert(ids_view(sv0)[sv0.len() - 1] == last);
                    assert(last == ids0[n - 1 - done]);
                    let p_old = popped(ids0, done);
                    done = done + 1;
                    assert(popped(ids0, done) =~= p_old.push(last));
                    assert(popped(ids0, done).drop_last() =~= p_old);
                    assert(ids0.take(n - done) =~= ids0.take(n - done + 1).drop_last());
                }
            } else {
                proof {
                    assert(ids_view(sv0).len() == sv0.len());
                    assert(ids0.take(n - done).len() == n - done);
                }
            }
            j = j + 1;
        }
        Ok(())
    }
}


/// The runtime's containers and statistics and the manager's records.
pub struct DeployState {
    pub containers: Map<Seq<char>, ContainerView>,
    pub stats: Map<Seq<char>, ContainerStats>,
    pub records: Seq<ContainerView>,
}

/// The deployment state of a manager with a runtime.
pub open spec fn deploy_state(m: &AppManager) -> DeployState {
    DeployState { containers: containers_map(&m.runtime->Some_0), stats: stats_map(&m.runtime->Some_0), records: records(m) }
}

/// The port mappings with the protocol set to TCP.
pub open spec fn tcp_ports(ps: Seq<PortMappingView>) -> Seq<PortMappingView> {
    ps.map_values(|p: PortMappingView| PortMappingView { container_port: p.container_port, host_port: p.host_port, protocol: "tcp"@ })
}

/// Restarting container `id` as `new_id` at `t`: its first record is marked
/// restarting, the runtime stops it, and a container with the same name, image,
/// node, domain, environment and ports (as TCP) is deployed; nothing when it has
/// no record.
pub open spec fn restart_step(st: DeployState, id: Seq<char>, new_id: Seq<char>, t: i64) -> Option<DeployState> {
    match first_record(st.records, id) {
        None => None,
        Some(i) => {
            let c = st.records[i];
            Some(DeployState {
                containers: stopped_container(st.containers, id).insert(new_id, new_container_view(new_id, c.name, c.image,
                    c.env_vars, tcp_ports(c.ports), Seq::empty(), t)),
                stats: st.stats.insert(new_id, initial_stats(t)),
                records: set_first_status(st.records, id, ContainerStatus::Restarting).push(app_record(new_id, c.name, c.image,
                    c.node_id, c.service_domain, c.env_vars, tcp_ports(c.ports), t)),
            })
        },
    }
}

/// Restarting each of `ids` in order (the `i`-th as `new_ids[i]` at `times[i]`),
/// stopping at the first without a record; with whether all were restarted.
pub open spec fn restarts(st: DeployState, ids: Seq<Seq<char>>, new_ids: Seq<Seq<char>>, times: Seq<i64>) -> (DeployState, bool)
    decreases ids.len(),
{
    if ids.len() == 0 {
        (st, true)
    } else {
        let k = ids.len() - 1;
        let (s1, ok) = restarts(st, ids.take(k), new_ids.take(k), times.take(k));
        if !ok {
            (s1, false)
        } else {
            match restart_step(s1, ids[k], new_ids[k], times[k]) {
                Some(s2) => (s2, true),
                None => (s1, false),
            }
        }
    }
}

/// The `(key, value)` pairs of environment variables.
pub fn env_pairs(v: &Vec<EnvVar>) -> (r: Vec<(String, String)>)
    ensures
        env_of_pairs(r@) == env_views(v@),
{
    let mut r: Vec<(String, String)> = Vec::new();
    let mut i: usize = 0;
    while i < v.len()
        invariant
            i <= v.len(),
            env_of_pairs(r@) == env_views(v@).take(i as int),
        decreases v.len() - i,
    {
        let ghost before = r@;
        r.push((v[i].key.clone(), v[i].value.clone()));
        assert(env_of_pairs(r@) =~= env_of_pairs(before).push(env_views(v@)[i as int]));
        i = i + 1;
        assert(env_of_pairs(r@) =~= env_views(v@).take(i as int));
    }
    assert(env_views(v@).take(v@.len() as int) =~= env_views(v@));
    r
}

/// The `(container, host)` pairs of port mappings.
pub fn port_pairs(v: &Vec<PortMapping>) -> (r: Vec<(u16, u16)>)
    ensures
        ports_of_pairs(r@) == tcp_ports(port_views(v@)),
{
    let mut r: Vec<(u16, u16)> = Vec::new();
    let mut i: usize = 0;
    while i < v.len()
        invariant
            i <= v.len(),
            ports_of_pairs(r@) == tcp_ports(port_views(v@)).take(i as int),
        decreases v.len() - i,
    {
        let ghost before = r@;
        r.push((v[i].container_port, v[i].host_port));
        assert(ports_of_pairs(r@) =~= ports_of_pairs(before).push(tcp_ports(port_views(v@))[i as int]));
        i = i + 1;
        assert(ports_of_pairs(r@) =~= tcp_ports(port_views(v@)).take(i as int));
    }
    assert(tcp_ports(port_views(v@)).take(v@.len() as int) =~= tcp_ports(port_views(v@)));
    r
}

impl AppManager {
    /// Position of the first record of container `id`.
    fn find_first_record(&self, id: &str) -> (r: Option<usize>)
        ensures
            match r {
                Some(i) => first_record(records(self), id@) == Some(i as int) && i < self.containers@.len(),
                None => first_record(records(self), id@) is None,
            },
    {
        let ghost recs = records(self);
        let mut i: usize = 0;
        while i < self.containers.len()
            invariant
                i <= self.containers.len(),
                recs == records(self),
                forall|j: int| 0 <= j < i ==> recs[j].id != id@,
            decreases self.containers.len() - i,
        {
            if str_eq(self.containers[i].id.as_str(), id) {
                proof {
                    lemma_first_record_exists(recs, id@, i as int);
                    let k = choose|k: int| 0 <= k < recs.len() && recs[k].id == id@ && forall|j: int| 0 <= j < k ==> recs[j].id != id@;
                    assert(k == i) by {
                        if k < i {
                        } else if k > i {
                            assert(recs[i as int].id == id@);
                        }
                    }
                    reveal(first_record);
                }
                return Some(i);
            }
            i = i + 1;
        }
        proof {
            reveal(first_record);
        }
        None
    }

    /// Restarts container `id` (see [`restart_step`]); refused without a runtime
    /// or without a record of it.
    pub fn restart_container(&mut self, container_id: &str) -> (r: Result<bool, AppError>)
        requires
            app_wf(old(self)),
        ensures
            app_wf(final(self)),
            final(self).images == old(self).images,
            final(self).services == old(self).services,
            final(self).container_stats == old(self).container_stats,
            if old(self).runtime is None || first_record(records(old(self)), container_id@) is None {
                &&& r == Err::<bool, AppError>(AppError::NoRuntime)
                &&& final(self).runtime == old(self).runtime
                &&& final(self).containers == old(self).containers
            } else {
                &&& r == Ok::<bool, AppError>(true)
                &&& final(self).runtime is Some
                &&& final(self).runtime->Some_0.volumes@ == old(self).runtime->Some_0.volumes@
                &&& exists|new_id: Seq<char>, t: i64| #[trigger] restart_step(deploy_state(old(self)), container_id@, new_id, t)
                        == Some(deploy_state(final(self)))
            },
    {
        if !has_rt_exec(&self.runtime) {
            return Err(AppError::NoRuntime);
        }
        let i = match self.find_first_record(container_id) {
            Some(i) => i,
            None => {
                return Err(AppError::NoRuntime);
            },
        };
        let c = copy_container(&self.containers[i]);
        let ghost st0 = deploy_state(old(self));
        let _ = self.set_first_record_status(container_id, ContainerStatus::Restarting);
        let mut rt = self.take_runtime().unwrap();
        let _ = rt.stop_container(container_id);
        self.runtime = Some(rt);
        let ghost mid = *self;
        let env = env_pairs(&c.env_vars);
        let ports = port_pairs(&c.ports);
        let domain: Option<&str> = match &c.service_domain {
            Some(d) => Some(d.as_str()),
            None => None,
        };
        assert(opt_view(domain) == c@.service_domain);
        let r = self.deploy_container(c.image.as_str(), c.name.as_str(), Some(c.node_id.as_str()), domain, Some(env), Some(ports));
        proof {
            let t = choose|t: i64| #[trigger] deploy_effect(&mid, self, r->Ok_0@, t, c@.image, c@.name, c@.node_id,
                c@.service_domain, env_arg(Some(env)), ports_arg(Some(ports)));
            assert(deploy_effect(&mid, self, r->Ok_0@, t, c@.image, c@.name, c@.node_id, c@.service_domain, env_arg(Some(env)),
                ports_arg(Some(ports))));
            assert(restart_step(st0, container_id@, r->Ok_0@, t) == Some(deploy_state(self)));
        }
        Ok(true)
    }

    /// Restarts each container of service `name`, in order, stopping at the first
    /// that cannot be restarted; unknown services are refused.
    pub fn restart_app(&mut self, name: &str) -> (r: Result<(), AppError>)
        requires
            app_wf(old(self)),
        ensures
            app_wf(final(self)),
            final(self).images == old(self).images,
            final(self).services == old(self).services,
            final(self).container_stats == old(self).container_stats,
            if !services_map(old(self)).contains_key(name@) {
                &&& r == Err::<(), AppError>(AppError::ServiceNotFound)
                &&& final(self).runtime == old(self).runtime
                &&& final(self).containers == old(self).containers
            } else if old(self).runtime is None {
                &&& r == (if services_map(old(self))[name@].container_ids.len() > 0 { Err::<(), AppError>(AppError::NoRuntime) }
                        else { Ok::<(), AppError>(()) })
                &&& final(self).runtime == old(self).runtime
                &&& final(self).containers == old(self).containers
            } else {
                let ids = services_map(old(self))[name@].container_ids;
                &&& final(self).runtime is Some
                &&& final(self).runtime->Some_0.volumes@ == old(self).runtime->Some_0.volumes@
                &&& exists|new_ids: Seq<Seq<char>>, times: Seq<i64>| new_ids.len() == ids.len() && times.len() == ids.len()
                        && #[trigger] restarts(deploy_state(old(self)), ids, new_ids, times) == (deploy_state(final(self)), r is Ok)
                &&& (r is Err ==> r == Err::<(), AppError>(AppError::NoRuntime))
            },
    {
        let svc = match self.get_service(name) {
            Some(s) => s,
            None => {
                return Err(AppError::ServiceNotFound);
            },
        };
        let ghost ids = ids_view(svc.container_ids@);
        let ghost st0 = deploy_state(old(self));
        let ghost has_rt = old(self).runtime is Some;
        let ghost mut new_ids: Seq<Seq<char>> = Seq::empty();
        let ghost mut times: Seq<i64> = Seq::empty();
        let mut i: usize = 0;
        while i < svc.container_ids.len()
            invariant
                i <= svc.container_ids.len(),
                ids == ids_view(svc.container_ids@),
                services_map(old(self)).contains_key(name@),
                svc@ == services_map(old(self))[name@],
                st0 == deploy_state(old(self)),
                app_wf(self),
                self.images == old(self).images,
                self.services == old(self).services,
                self.container_stats == old(self).container_stats,
                has_rt == old(self).runtime is Some,
                !has_rt ==> i == 0 && self.runtime == old(self).runtime && self.containers == old(self).containers,
                has_rt ==> self.runtime is Some && self.runtime->Some_0.volumes@ == old(self).runtime->Some_0.volumes@,
                has_rt ==> new_ids.len() == i && times.len() == i && restarts(st0, ids.take(i as int), new_ids, times)
                    == (deploy_state(self), true),
            decreases svc.container_ids.len() - i,
        {
            let ghost before = *self;
            let r = self.restart_container(svc.container_ids[i].as_str());
            if r.is_err() {
                proof {
                    if has_rt {
                        assert(first_record(records(&before), ids[i as int]) is None);
                        lemma_restart_fail(st0, ids, new_ids, times, i as int, deploy_state(self));
                        assert(self.runtime is Some);
                        assert(self.runtime->Some_0.volumes@ == old(self).runtime->Some_0.volumes@);
                        assert(ids == services_map(old(self))[name@].container_ids);
                    } else {
                        assert(self.runtime == old(self).runtime);
                        assert(self.containers == old(self).containers);
                        assert(services_map(old(self))[name@].container_ids.len() > 0);
                    }
                }
                return Err(AppError::NoRuntime);
            }
            proof {
                let t_id = choose|new_id: Seq<char>, t: i64| #[trigger] restart_step(deploy_state(&before), ids[i as int], new_id, t)
                    == Some(deploy_state(self));
                let k = i as int;
                let n_old = new_ids;
                let t_old = times;
                new_ids = new_ids.push(t_id.0);
                times = times.push(t_id.1);
                assert(ids.take(k + 1).take(k) =~= ids.take(k));
                assert(new_ids.take(k) =~= n_old);
                assert(times.take(k) =~= t_old);
                assert(ids.take(k + 1)[k] == ids[k]);
            }
            i = i + 1;
        }
        proof {
            if has_rt {
                assert(ids.take(ids.len() as int) =~= ids);
                assert(restarts(st0, ids, new_ids, times) == (deploy_state(self), true));
                assert(new_ids.len() == ids.len());
                assert(ids == services_map(old(self))[name@].container_ids);
                assert(exists|new_ids: Seq<Seq<char>>, times: Seq<i64>| new_ids.len() == ids.len() && times.len() == ids.len()
                        && #[trigger] restarts(deploy_state(old(self)), ids, new_ids, times) == (deploy_state(self), true));
            }
        }
        Ok(())
    }
}

/// A round of restarts that reaches a container without a record fails there.
proof fn lemma_restart_fail(st0: DeployState, ids: Seq<Seq<char>>, new_ids: Seq<Seq<char>>, times: Seq<i64>, k: int, s: DeployState)
    requires
        0 <= k < ids.len(),
        new_ids.len() == k,
        times.len() == k,
        restarts(st0, ids.take(k), new_ids, times) == (s, true),
        first_record(s.records, ids[k]) is None,
    ensures
        exists|nids: Seq<Seq<char>>, ts: Seq<i64>| nids.len() == ids.len() && ts.len() == ids.len()
            && #[trigger] restarts(st0, ids, nids, ts) == (s, false),
{
    let nids = new_ids.push(Seq::empty());
    let ts = times.push(0i64);
    assert(ids.take(k + 1).take(k) =~= ids.take(k));
    assert(nids.take(k) =~= new_ids);
    assert(ts.take(k) =~= times);
    assert(ids.take(k + 1)[k] == ids[k]);
    assert(restart_step(s, ids[k], nids[k], ts[k]) is None);
    assert(restarts(st0, ids.take(k + 1), nids, ts) == (s, false));
    let rest_n = Seq::new((ids.len() - k - 1) as nat, |j: int| Seq::<char>::empty());
    let rest_t = Seq::new((ids.len() - k - 1) as nat, |j: int| 0i64);
    let all_n = nids + rest_n;
    let all_t = ts + rest_t;
    assert(all_n.take(k + 1) =~= nids);
    assert(all_t.take(k + 1) =~= ts);
    lemma_restarts_stuck(st0, ids, all_n, all_t, k + 1);
    assert(restarts(st0, ids, all_n, all_t) == (s, false));
}

/// Once a round of restarts has failed on a prefix, it fails on the whole.
proof fn lemma_restarts_stuck(st: DeployState, ids: Seq<Seq<char>>, nids: Seq<Seq<char>>, ts: Seq<i64>, k: int)
    requires
        0 <= k <= ids.len(),
        nids.len() == ids.len(),
        ts.len() == ids.len(),
        restarts(st, ids.take(k), nids.take(k), ts.take(k)).1 == false,
    ensures
        restarts(st, ids, nids, ts) == restarts(st, ids.take(k), nids.take(k), ts.take(k)),
    decreases ids.len() - k,
{
    if k < ids.len() {
        let k1 = k + 1;
        assert(ids.take(k1).take(k) =~= ids.take(k));
        assert(nids.take(k1).take(k) =~= nids.take(k));
        assert(ts.take(k1).take(k) =~= ts.take(k));
        assert(restarts(st, ids.take(k1), nids.take(k1), ts.take(k1)) == restarts(st, ids.take(k), nids.take(k), ts.take(k)));
        lemma_restarts_stuck(st, ids, nids, ts, k1);
    } else {
        assert(ids.take(k) =~= ids);
        assert(nids.take(k) =~= nids);
        assert(ts.take(k) =~= ts);
    }
}


/// The records after taking in the runtime's view of container `c`: the first
/// record of it takes its status, or `c` is appended when there is none.
pub open spec fn sync_record(recs: Seq<ContainerView>, c: ContainerView) -> Seq<ContainerView> {
    if first_record(recs, c.id) is Some { set_first_status(recs, c.id, c.status) } else { recs.push(c) }
}

/// The records after taking in each of the runtime's containers, in order.
pub open spec fn sync_records(recs: Seq<ContainerView>, cs: Seq<ContainerView>) -> Seq<ContainerView>
    decreases cs.len(),
{
    if cs.len() == 0 { recs } else { sync_record(sync_records(recs, cs.drop_last()), cs.last()) }
}

/// A record of a container the runtime no longer has is marked stopped.
pub open spec fn mark_missing_one(r: ContainerView, ids: Seq<Seq<char>>) -> ContainerView {
    if !ids.contains(r.id) && r.status != ContainerStatus::Stopped { ContainerView { status: ContainerStatus::Stopped, ..r } } else { r }
}

/// The records with those of containers the runtime no longer has marked stopped.
pub open spec fn mark_missing(recs: Seq<ContainerView>, ids: Seq<Seq<char>>) -> Seq<ContainerView> {
    recs.map_values(|r: ContainerView| mark_missing_one(r, ids))
}

/// The statistics after taking in the runtime's statistics of each container.
pub open spec fn stats_after(sm: Map<Seq<char>, ContainerStats>, cs: Seq<ContainerView>, rs: Map<Seq<char>, ContainerStats>)
    -> Map<Seq<char>, ContainerStats>
    decreases cs.len(),
{
    if cs.len() == 0 {
        sm
    } else {
        let m = stats_after(sm, cs.drop_last(), rs);
        if rs.contains_key(cs.last().id) { m.insert(cs.last().id, rs[cs.last().id]) } else { m }
    }
}

impl AppManager {
    /// Brings the records in step with the runtime: each of its containers in
    /// table order is taken in (see [`sync_record`]) and its statistics copied,
    /// then records of containers it no longer has are marked stopped.
    pub fn monitor_containers(&mut self) -> (r: Result<(), AppError>)
        requires
            app_wf(old(self)),
        ensures
            app_wf(final(self)),
            final(self).runtime == old(self).runtime,
            final(self).images == old(self).images,
            final(self).services == old(self).services,
            match old(self).runtime {
                None => r == Err::<(), AppError>(AppError::NoRuntime) && final(self).containers == old(self).containers
                    && final(self).container_stats == old(self).container_stats,
                Some(rt) => {
                    let cs = container_list(rt.containers@);
                    &&& r is Ok
                    &&& records(final(self)) == mark_missing(sync_records(records(old(self)), cs),
                            cs.map_values(|c: ContainerView| c.id))
                    &&& app_stats(final(self)) == stats_after(app_stats(old(self)), cs, stats_map(&rt))
                },
            },
    {
        let cs = match &self.runtime {
            None => {
                return Err(AppError::NoRuntime);
            },
            Some(rt) => match rt.list_containers() {
                Ok(v) => v,
                Err(e) => {
                    return Err(AppError::Runtime(e));
                },
            },
        };
        let ghost rt = self.runtime->Some_0;
        let ghost cv = cs@.map_values(|c: Container| c@);
        let mut runtime_ids: Vec<String> = Vec::new();
        let mut i: usize = 0;
        while i < cs.len()
            invariant
                i <= cs.len(),
                cv == cs@.map_values(|c: Container| c@),
                cv == container_list(rt.containers@),
                app_wf(self),
                self.runtime == old(self).runtime,
                self.runtime == Some(rt),
                self.images == old(self).images,
                self.services == old(self).services,
                crate::assoc::strings_view(runtime_ids@) == cv.take(i as int).map_values(|c: ContainerView| c.id),
                records(self) == sync_records(records(old(self)), cv.take(i as int)),
                app_stats(self) == stats_after(app_stats(old(self)), cv.take(i as int), stats_map(&rt)),
            decreases cs.len() - i,
        {
            let c = &cs[i];
            let ghost before_ids = runtime_ids@;
            runtime_ids.push(c.id.clone());
            assert(crate::assoc::strings_view(runtime_ids@) =~= crate::assoc::strings_view(before_ids).push(cv[i as int].id));
            assert(cv.take(i + 1).drop_last() =~= cv.take(i as int));
            assert(cv.take(i + 1).last() == cv[i as int]);
            assert(cv.take(i + 1).map_values(|c: ContainerView| c.id) =~= cv.take(i as int).map_values(|c: ContainerView| c.id).push(
                cv[i as int].id));
            match self.find_first_record(c.id.as_str()) {
                Some(k) => {
                    if self.containers[k].status != c.status {
                        let _ = self.set_first_record_status(c.id.as_str(), c.status);
                    } else {
                        proof {
                            reveal(set_first_status);
                            reveal(first_record);
                            assert(records(self).update(k as int, ContainerView { status: c.status, ..records(self)[k as int] })
                                =~= records(self));
                        }
                    }
                },
                None => {
                    let ghost r0 = records(self);
                    self.containers.push(copy_container(c));
                    assert(records(self) =~= r0.push(cv[i as int]));
                },
            }
            let ghost s0 = app_stats(self);
            let st = match &self.runtime {
                Some(rt) => match rt.get_container_metrics(c.id.as_str()) {
                    Ok(s) => Some(s),
                    Err(_) => None,
                },
                None => None,
            };
            match st {
                Some(s) => {
                    insert_key(&mut self.container_stats, c.id.clone(), s);
                },
                None => {},
            }
            i = i + 1;
        }
        assert(cv.take(cs@.len() as int) =~= cv);
        let ghost synced = records(self);
        let ghost ids = cv.map_values(|c: ContainerView| c.id);
        let mut j: usize = 0;
        while j < self.containers.len()
            invariant
                j <= self.containers.len(),
                synced.len() == self.containers@.len(),
                records(self) == mark_missing(synced.take(j as int), ids) + synced.skip(j as int),
                crate::assoc::strings_view(runtime_ids@) == ids,
                app_wf(self),
                self.runtime == old(self).runtime,
                self.images == old(self).images,
                self.services == old(self).services,
                app_stats(self) == stats_after(app_stats(old(self)), cv, stats_map(&rt)),
            decreases self.containers.len() - j,
        {
            let ghost r0 = records(self);
            assert(r0[j as int] == synced[j as int]);
            let present = crate::health::contains_string(&runtime_ids, self.containers[j].id.as_str());
            if !present && self.containers[j].status != ContainerStatus::Stopped {
                let mut c = copy_container(&self.containers[j]);
                c.status = ContainerStatus::Stopped;
                self.containers.set(j, c);
                assert(records(self) =~= r0.update(j as int, mark_missing_one(synced[j as int], ids)));
            } else {
                assert(records(self) =~= r0.update(j as int, mark_missing_one(synced[j as int], ids)));
            }
            assert(mark_missing(synced.take(j + 1), ids) =~= mark_missing(synced.take(j as int), ids).push(
                mark_missing_one(synced[j as int], ids)));
            assert(records(self) =~= mark_missing(synced.take(j + 1), ids) + synced.skip(j + 1));
            j = j + 1;
        }
        assert(synced.take(synced.len() as int) =~= synced);
        assert(synced.skip(synced.len() as int) =~= Seq::<ContainerView>::empty());
        assert(records(self) =~= mark_missing(synced, ids));
        Ok(())
    }
}


/// The runtime's volumes after making sure each named volume exists, in order
/// (the `i`-th created at `times[i]` when missing), with the error that stopped it.
pub open spec fn ensure_volumes(vm: Map<Seq<char>, VolumeView>, names: Seq<Seq<char>>, times: Seq<i64>)
    -> (Map<Seq<char>, VolumeView>, Option<RuntimeError>)
    decreases names.len(),
{
    if names.len() == 0 {
        (vm, None)
    } else {
        let k = names.len() - 1;
        let (m, e) = ensure_volumes(vm, names.take(k), times.take(k));
        if e is Some {
            (m, e)
        } else if m.contains_key(names[k]) {
            (m, None)
        } else {
            match volume_name_error(names[k]) {
                Some(err) => (m, Some(err)),
                None => (m.insert(names[k], VolumeView { name: names[k], path: volume_path(names[k]), size: DEFAULT_VOLUME_SIZE,
                    created_at: times[k] }), None),
            }
        }
    }
}

/// The volume names of requested `(volume, path)` pairs.
pub open spec fn volume_names(v: Seq<(String, String)>) -> Seq<Seq<char>> {
    v.map_values(|p: (String, String)| p.0@)
}

/// What deploying an app with volumes does once the volumes are in place (map
/// `vm`): the runtime records container `id` created at `t` with the app's
/// environment and ports and the requested mounts, and the service is registered
/// when a domain is given; the manager's own records are not touched.
pub open spec fn volume_deploy_effect(m0: &AppManager, m1: &AppManager, vm: Map<Seq<char>, VolumeView>, id: Seq<char>, t: i64,
    image: Seq<char>, name: Seq<char>, domain: Option<Seq<char>>, env: Seq<EnvVarView>, ports: Seq<PortMappingView>,
    req: Seq<(Seq<char>, Seq<char>)>) -> bool {
    &&& m0.runtime matches Some(rt0)
    &&& m1.runtime matches Some(rt1)
    &&& volumes_map(&rt1) == vm
    &&& match mounts_for(vm, req) {
        Ok(ms) => {
            &&& containers_map(&rt1) == containers_map(&rt0).insert(id, new_container_view(id, name, image, env, ports, ms, t))
            &&& services_map(m1) == match domain {
                    Some(d) => services_map(m0).insert(name, single_service(name, d, id)),
                    None => services_map(m0),
                }
        },
        Err(_) => containers_map(&rt1) == containers_map(&rt0) && m1.services == m0.services,
    }
}

impl AppManager {
    /// Makes sure each requested volume exists, creating missing ones, in order.
    fn ensure_app_volumes(&mut self, volumes: &Vec<(String, String)>) -> (r: Result<(), AppError>)
        requires
            app_wf(old(self)),
            old(self).runtime is Some,
        ensures
            app_wf(final(self)),
            final(self).images == old(self).images,
            final(self).services == old(self).services,
            final(self).containers == old(self).containers,
            final(self).container_stats == old(self).container_stats,
            final(self).runtime is Some,
            final(self).runtime->Some_0.containers@ == old(self).runtime->Some_0.containers@,
            final(self).runtime->Some_0.container_stats@ == old(self).runtime->Some_0.container_stats@,
            exists|times: Seq<i64>| times.len() == volumes@.len() && #[trigger] ensure_volumes(volumes_map(&old(self).runtime->Some_0),
                volume_names(volumes@), times) == (volumes_map(&final(self).runtime->Some_0), match r {
                    Ok(_) => None,
                    Err(AppError::Runtime(e)) => Some(e),
                    Err(_) => Some(RuntimeError::InvalidBackup),
                }),
            r is Err ==> r matches Err(AppError::Runtime(_)),
    {
        let ghost names = volume_names(volumes@);
        let ghost vm0 = volumes_map(&old(self).runtime->Some_0);
        let ghost mut times: Seq<i64> = Seq::empty();
        let mut i: usize = 0;
        while i < volumes.len()
            invariant
                i <= volumes.len(),
                names == volume_names(volumes@),
                vm0 == volumes_map(&old(self).runtime->Some_0),
                app_wf(self),
                self.images == old(self).images,
                self.services == old(self).services,
                self.containers == old(self).containers,
                self.container_stats == old(self).container_stats,
                self.runtime is Some,
                self.runtime->Some_0.containers@ == old(self).runtime->Some_0.containers@,
                self.runtime->Some_0.container_stats@ == old(self).runtime->Some_0.container_stats@,
                times.len() == i,
                ensure_volumes(vm0, names.take(i as int), times) == (volumes_map(&self.runtime->Some_0), None::<RuntimeError>),
            decreases volumes.len() - i,
        {
            let vname = volumes[i].0.as_str();
            assert(names[i as int] == vname@);
            assert(names.take(i + 1).take(i as int) =~= names.take(i as int));
            assert(names.take(i + 1)[i as int] == vname@);
            let exists_now = match &self.runtime {
                Some(rt) => get_key(&rt.volumes, vname).is_some(),
                None => false,
            };
            let ghost t_old = times;
            if !exists_now {
                let ghost vm_before = volumes_map(&self.runtime->Some_0);
                let res = self.create_volume(vname);
                let ghost t = if volumes_map(&self.runtime->Some_0).contains_key(vname@) {
                    volumes_map(&self.runtime->Some_0)[vname@].created_at
                } else {
                    0i64
                };
                proof {
                    times = times.push(t);
                    assert(times.take(i as int) =~= t_old);
                }
                match res {
                    Ok(()) => {},
                    Err(e) => {
                        proof {
                            let rest = Seq::new((volumes@.len() - i - 1) as nat, |j: int| 0i64);
                            let all = times + rest;
                            assert(all.take(i + 1) =~= times);
                            assert(ensure_volumes(vm0, names.take(i + 1), times) == (vm_before, volume_name_error(vname@)));
                            lemma_ensure_stuck(vm0, names, all, i + 1);
                            assert(names.take(names.len() as int) =~= names);
                            assert(ensure_volumes(vm0, names, all) == (volumes_map(&self.runtime->Some_0), volume_name_error(vname@)));
                        }
                        return Err(e);
                    },
                }
            } else {
                proof {
                    times = times.push(0i64);
                    assert(times.take(i as int) =~= t_old);
                }
            }
            i = i + 1;
        }
        assert(names.take(volumes@.len() as int) =~= names);
        Ok(())
    }
}

/// Once making sure of the volumes has failed on a prefix, it fails on the whole.
proof fn lemma_ensure_stuck(vm: Map<Seq<char>, VolumeView>, names: Seq<Seq<char>>, times: Seq<i64>, k: int)
    requires
        0 <= k <= names.len(),
        times.len() == names.len(),
        ensure_volumes(vm, names.take(k), times.take(k)).1 is Some,
    ensures
        ensure_volumes(vm, names, times) == ensure_volumes(vm, names.take(k), times.take(k)),
    decreases names.len() - k,
{
    if k < names.len() {
        assert(names.take(k + 1).take(k) =~= names.take(k));
        assert(times.take(k + 1).take(k) =~= times.take(k));
        lemma_ensure_stuck(vm, names, times, k + 1);
    } else {
        assert(names.take(k) =~= names);
        assert(times.take(k) =~= times);
    }
}


/// The outcome of deploying an app with volumes, given how making sure of the
/// volumes went (`ev`): its error, else the deployment (see [`volume_deploy_effect`]).
pub open spec fn volumes_deploy_outcome(m0: &AppManager, m1: &AppManager, ev: (Map<Seq<char>, VolumeView>, Option<RuntimeError>),
    r: Result<String, AppError>, image: Seq<char>, name: Seq<char>, domain: Option<Seq<char>>, env: Seq<EnvVarView>,
    ports: Seq<PortMappingView>, req: Seq<(Seq<char>, Seq<char>)>) -> bool {
    let (vm, e) = ev;
    match e {
        Some(err) => r == Err::<String, AppError>(AppError::Runtime(err)) && m1.runtime is Some
            && volumes_map(&m1.runtime->Some_0) == vm && m1.runtime->Some_0.containers@ == m0.runtime->Some_0.containers@
            && m1.services == m0.services,
        None => match mounts_for(vm, req) {
            Ok(_) => r is Ok && exists|t: i64| #[trigger] volume_deploy_effect(m0, m1, vm, r->Ok_0@, t, image, name, domain, env,
                ports, req),
            Err(n) => (r matches Err(AppError::Runtime(RuntimeError::VolumeNotFound(x))) && x@ == n)
                && volume_deploy_effect(m0, m1, vm, Seq::empty(), 0, image, name, domain, env, ports, req),
        },
    }
}

impl AppManager {
    /// Deploys an app with volumes: each requested volume is created first when
    /// missing (see [`ensure_volumes`]), then the runtime creates the container
    /// with the app's environment and ports (see [`app_env`], [`app_ports`]) and
    /// the volumes mounted, and it is registered as a service when a domain is given.
    pub fn deploy_app_with_volumes(&mut self, image: &str, name: &str, service_domain: Option<&str>,
        volumes: Vec<(String, String)>, env_vars: Option<Vec<(String, String)>>, ports: Option<Vec<(u16, u16)>>)
        -> (r: Result<String, AppError>)
        requires
            app_wf(old(self)),
        ensures
            app_wf(final(self)),
            final(self).images == old(self).images,
            final(self).containers == old(self).containers,
            final(self).container_stats == old(self).container_stats,
            match old(self).runtime {
                None => r == Err::<String, AppError>(AppError::NoRuntime) && final(self).runtime is None
                    && final(self).services == old(self).services,
                Some(rt0) => exists|times: Seq<i64>| times.len() == volumes@.len() && volumes_deploy_outcome(old(self), final(self),
                    #[trigger] ensure_volumes(volumes_map(&rt0), volume_names(volumes@), times), r, image@, name@,
                    opt_view(service_domain), app_env(name@, env_vars), app_ports(ports), request_view(volumes@)),
            },
    {
        if !has_rt_exec(&self.runtime) {
            return Err(AppError::NoRuntime);
        }
        let ghost rt0 = old(self).runtime->Some_0;
        let ghost envs = app_env(name@, env_vars);
        let ghost ps = app_ports(ports);
        let ensured = self.ensure_app_volumes(&volumes);
        let ghost times = choose|times: Seq<i64>| times.len() == volumes@.len() && #[trigger] ensure_volumes(volumes_map(&rt0),
            volume_names(volumes@), times) == (volumes_map(&self.runtime->Some_0), match ensured {
                Ok(_) => None,
                Err(AppError::Runtime(e)) => Some(e),
                Err(_) => Some(RuntimeError::InvalidBackup),
            });
        match ensured {
            Ok(()) => {},
            Err(e) => {
                return Err(e);
            },
        }
        let ghost vm = volumes_map(&self.runtime->Some_0);
        let ghost mid = *self;
        let env = match env_vars {
            Some(v) => v,
            None => {
                let mut v: Vec<(String, String)> = Vec::new();
                v.push((owned("APP_NAME"), owned(name)));
                v
            },
        };
        let port_list = match ports {
            Some(v) => v,
            None => {
                let mut v: Vec<(u16, u16)> = Vec::new();
                v.push((80, 8080));
                v
            },
        };
        assert(env_of_pairs(env@) =~= envs);
        assert(ports_of_pairs(port_list@) =~= ps);
        let env_list = env_from_pairs(&env);
        let port_maps = ports_from_pairs(&port_list);
        let mut rt = self.take_runtime().unwrap();
        let _ = rt.pull_image(image);
        let created = rt.create_container_with_volumes(image, name, env_list, port_maps, &volumes);
        let ghost rt1 = rt;
        self.runtime = Some(rt);
        match created {
            Ok(id) => {
                match service_domain {
                    Some(d) => {
                        self.register_service(name, d, id.as_str());
                    },
                    None => {},
                }
                proof {
                    let t = containers_map(&rt1)[id@].created_at;
                    assert(volume_deploy_effect(old(self), self, vm, id@, t, image@, name@, opt_view(service_domain), envs, ps,
                        request_view(volumes@)));
                    assert(ensure_volumes(volumes_map(&rt0), volume_names(volumes@), times) == (vm, None::<RuntimeError>));
                    assert(mounts_for(vm, request_view(volumes@)) is Ok);
                }
                let ghost t = containers_map(&rt1)[id@].created_at;
                let res: Result<String, AppError> = Ok(id);
                proof {
                    assert(res->Ok_0@ == id@);
                    assert(volume_deploy_effect(old(self), self, vm, res->Ok_0@, t, image@, name@, opt_view(service_domain), envs, ps,
                        request_view(volumes@)));
                    assert(volumes_deploy_outcome(old(self), self, ensure_volumes(volumes_map(&rt0), volume_names(volumes@), times),
                        res, image@, name@, opt_view(service_domain), envs, ps, request_view(volumes@)));
                }
                res
            },
            Err(e) => {
                proof {
                    assert(ensure_volumes(volumes_map(&rt0), volume_names(volumes@), times) == (vm, None::<RuntimeError>));
                    assert(mounts_for(vm, request_view(volumes@)) is Err);
                    assert(volume_deploy_effect(old(self), self, vm, Seq::empty(), 0, image@, name@, opt_view(service_domain), envs,
                        ps, request_view(volumes@)));
                }
                let res: Result<String, AppError> = Err(AppError::Runtime(e));
                proof {
                    assert(volumes_deploy_outcome(old(self), self, ensure_volumes(volumes_map(&rt0), volume_names(volumes@), times),
                        res, image@, name@, opt_view(service_domain), envs, ps, request_view(volumes@)));
                }
                res
            },
        }
    }
}

} // verus!
