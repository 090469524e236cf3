//! Properties of the application manager that span deployment, stopping and scaling.
use vstd::prelude::*;
use crate::containers::{ContainerView, ContainerStatus, containers_map, stats_map, initial_stats};
use crate::app::{AppManager, ServiceView, records, services_map, deploy_effect, stopped_container, stop_containers,
    replicas_runtime, scaled_up, scaled_down, popped};
use crate::containers::{EnvVarView, PortMappingView};
use crate::assoc::{lemma_key_pos, key_pos};

verus! {

/// A deployed container is running: after a deployment the runtime holds it,
/// running, under its id with the name and image asked for, with fresh
/// statistics, and the manager's newest record is of it, running too.
pub proof fn law_deploy_runs(m0: &AppManager, m1: &AppManager, id: Seq<char>, t: i64, image: Seq<char>, name: Seq<char>,
    node: Seq<char>, domain: Option<Seq<char>>, env: Seq<EnvVarView>, ports: Seq<PortMappingView>)
    requires
        deploy_effect(m0, m1, id, t, image, name, node, domain, env, ports),
    ensures
        ({
            let rt1 = m1.runtime->Some_0;
            &&& containers_map(&rt1).contains_key(id)
            &&& containers_map(&rt1)[id].status == ContainerStatus::Running
            &&& containers_map(&rt1)[id].name == name
            &&& containers_map(&rt1)[id].image == image
            &&& stats_map(&rt1)[id] == initial_stats(t)
            &&& records(m1).len() == records(m0).len() + 1
            &&& records(m1).last().id == id
            &&& records(m1).last().status == ContainerStatus::Running
            &&& records(m1).last().node_id == node
        }),
{
}

/// Stopping a container marks it stopped and leaves every other container as it was.
pub proof fn law_stop_marks_stopped(cm: Map<Seq<char>, ContainerView>, id: Seq<char>, other: Seq<char>)
    requires
        other != id,
    ensures
        cm.contains_key(id) ==> stopped_container(cm, id)[id].status == ContainerStatus::Stopped,
        stopped_container(cm, id).dom() == cm.dom(),
        cm.contains_key(other) ==> stopped_container(cm, id)[other] == cm[other],
{
    assert(stopped_container(cm, id).dom() =~= cm.dom());
}

/// Stopping containers one after another leaves each of them, where the runtime
/// knew it, stopped.
pub proof fn law_stops_accumulate(cm: Map<Seq<char>, ContainerView>, ids: Seq<Seq<char>>, j: int)
    requires
        0 <= j < ids.len(),
        cm.contains_key(ids[j]),
    ensures
        stop_containers(cm, ids).contains_key(ids[j]),
        stop_containers(cm, ids)[ids[j]].status == ContainerStatus::Stopped,
    decreases ids.len(),
{
    lemma_stops_keep_keys(cm, ids);
    if j < ids.len() - 1 {
        law_stops_accumulate(cm, ids.drop_last(), j);
    }
}

/// Stopping containers keeps the set of containers known.
pub proof fn lemma_stops_keep_keys(cm: Map<Seq<char>, ContainerView>, ids: Seq<Seq<char>>)
    ensures
        stop_containers(cm, ids).dom() == cm.dom(),
    decreases ids.len(),
{
    if ids.len() > 0 {
        lemma_stops_keep_keys(cm, ids.drop_last());
        let prev = stop_containers(cm, ids.drop_last());
        assert(stopped_container(prev, ids.last()).dom() =~= prev.dom());
    }
}

/// Every replica deployed while scaling up is in the runtime, running.
pub proof fn lemma_replicas_running(cm: Map<Seq<char>, ContainerView>, name: Seq<char>, image: Seq<char>, len0: nat,
    ids: Seq<Seq<char>>, times: Seq<i64>, i: int)
    requires
        0 <= i < ids.len(),
    ensures
        replicas_runtime(cm, name, image, len0, ids, times).contains_key(ids[i]),
        replicas_runtime(cm, name, image, len0, ids, times)[ids[i]].status == ContainerStatus::Running,
    decreases ids.len(),
{
    let k = ids.len() - 1;
    if i < k {
        lemma_replicas_running(cm, name, image, len0, ids.take(k), times.take(k), i);
        assert(ids.take(k)[i] == ids[i]);
    }
}

/// Scaling a service up to `replicas` leaves it with exactly `replicas` containers,
/// each new one running in the runtime, when its count matched its containers.
pub proof fn law_scale_up_reaches(m0: &AppManager, m1: &AppManager, name: Seq<char>, s: ServiceView, replicas: u32,
    ids: Seq<Seq<char>>, times: Seq<i64>, i: int)
    requires
        scaled_up(m0, m1, name, s, replicas, ids, times),
        replicas > s.current_replicas,
        s.container_ids.len() == s.current_replicas,
        s.container_ids.len() > 0,
        m0.runtime matches Some(rt0) && containers_map(&rt0).contains_key(s.container_ids[0]),
        0 <= i < ids.len(),
    ensures
        services_map(m1)[name].container_ids.len() == replicas,
        services_map(m1)[name].current_replicas == replicas,
        containers_map(&m1.runtime->Some_0).contains_key(ids[i]),
        containers_map(&m1.runtime->Some_0)[ids[i]].status == ContainerStatus::Running,
{
    let rt0 = m0.runtime->Some_0;
    let image = containers_map(&rt0)[s.container_ids[0]].image;
    lemma_replicas_running(containers_map(&rt0), name, image, s.container_ids.len(), ids, times, i);
}

/// Scaling a service down to `replicas` with a runtime leaves it with exactly
/// `replicas` containers when its count matched its containers, and each
/// container taken off that the runtime knew is stopped.
pub proof fn law_scale_down_reaches(m0: &AppManager, m1: &AppManager, name: Seq<char>, s: ServiceView, replicas: u32,
    r: Result<(), crate::app::AppError>, j: int)
    requires
        scaled_down(m0, m1, name, s, replicas, r),
        replicas < s.current_replicas,
        s.container_ids.len() == s.current_replicas,
        m0.runtime is Some,
        0 <= j < s.current_replicas - replicas,
        containers_map(&m0.runtime->Some_0).contains_key(popped(s.container_ids, (s.current_replicas - replicas) as nat)[j]),
    ensures
        r is Ok,
        services_map(m1)[name].container_ids.len() == replicas,
        ({
            let gone = popped(s.container_ids, (s.current_replicas - replicas) as nat);
            &&& containers_map(&m1.runtime->Some_0).contains_key(gone[j])
            &&& containers_map(&m1.runtime->Some_0)[gone[j]].status == ContainerStatus::Stopped
        }),
{
    let k = (s.current_replicas - replicas) as nat;
    let gone = popped(s.container_ids, k);
    law_stops_accumulate(containers_map(&m0.runtime->Some_0), gone, j);
}

/// Some service under domain `d` has a container, so a request for `d` is routed.
pub open spec fn routable(m: &AppManager, d: Seq<char>) -> bool {
    exists|j: int| 0 <= j < m.services@.len() && #[trigger] m.services@[j].1.domain@ == d
        && m.services@[j].1.container_ids@.len() > 0
}

/// A request for the domain of a service with containers is routed to a container:
/// after an app is deployed under a domain, requests for that domain find one.
pub proof fn law_service_domain_routes(m: &AppManager, name: Seq<char>)
    requires
        crate::app::app_wf(m),
        services_map(m).contains_key(name),
        services_map(m)[name].container_ids.len() > 0,
    ensures
        routable(m, services_map(m)[name].domain),
{
    lemma_key_pos(m.services@, name);
    let i = key_pos(m.services@, name)->0;
    assert(m.services@[i].1.domain@ == services_map(m)[name].domain);
    assert(m.services@[i].1.container_ids@.len() == services_map(m)[name].container_ids.len());
}

} // verus!
