//! Properties of the health monitor that span checks and alert handling.
use vstd::prelude::*;
use crate::health::{NodeCheckState, NodeHealthView, node_check_step, node_before, node_is_healthy, AlertSeverity, AlertSourceView, exceeded_alert_text, healthy_count, healthy_node_count, active_count, critical_count, ContainerHealth, NodeHealth,
    Alert, CheckState, ContainerCheckView, ContainerHealthView, AlertView, AlertStatus, HealthStatus,
    HISTORY_LIMIT, container_check_step, container_checks, record_before, active_alerts, push_history};

verus! {

/// Every container record keeps at most `HISTORY_LIMIT` history entries.
pub open spec fn histories_bounded(hm: Map<Seq<char>, ContainerHealthView>) -> bool {
    forall|k: Seq<char>| #[trigger] hm.contains_key(k) ==> hm[k].health_history.len() <= HISTORY_LIMIT
}

/// Checks never queue a container twice: a restart queue without repeats keeps
/// none through any round of checks.
pub proof fn law_restart_queue_no_repeats(st: CheckState, threshold: u32, max_restarts: u32,
    cs: Seq<ContainerCheckView>, now: i64, tokens: Seq<Seq<char>>)
    requires
        st.queue.no_duplicates(),
    ensures
        container_checks(st, threshold, max_restarts, cs, now, tokens).queue.no_duplicates(),
    decreases cs.len(),
{
    if cs.len() > 0 {
        let prev = container_checks(st, threshold, max_restarts, cs.drop_last(), now, tokens.take(cs.len() - 1));
        law_restart_queue_no_repeats(st, threshold, max_restarts, cs.drop_last(), now, tokens.take(cs.len() - 1));
        let c = cs.last();
        let next = container_check_step(prev, threshold, max_restarts, c, now, tokens[cs.len() - 1]);
        if next.queue != prev.queue {
            assert(!prev.queue.contains(c.id));
            assert forall|i: int, j: int| 0 <= i < j < next.queue.len() implies next.queue[i] != next.queue[j] by {
                if j == next.queue.len() - 1 {
                    assert(next.queue[i] == prev.queue[i]);
                }
            }
        }
    }
}

/// A healthy check clears a container's failures: its record is healthy with no
/// consecutive failures, and the check queues no restart and raises no alert.
pub proof fn law_healthy_check_resets(st: CheckState, threshold: u32, max_restarts: u32, c: ContainerCheckView,
    now: i64, token: Seq<char>)
    requires
        c.healthy,
    ensures
        ({
            let next = container_check_step(st, threshold, max_restarts, c, now, token);
            &&& next.health.contains_key(c.id)
            &&& next.health[c.id].consecutive_failures == 0
            &&& next.health[c.id].status == HealthStatus::Healthy
            &&& next.queue == st.queue
            &&& next.alerts == st.alerts
        }),
{
}

/// A failing check that reaches the failure threshold with restarts left marks the
/// container failed and leaves it queued for a restart.
pub proof fn law_threshold_queues_restart(st: CheckState, threshold: u32, max_restarts: u32, c: ContainerCheckView,
    now: i64, token: Seq<char>)
    requires
        !c.healthy,
        record_before(st.health, c.id, now).consecutive_failures + 1 >= threshold,
        record_before(st.health, c.id, now).restart_count < max_restarts,
    ensures
        ({
            let next = container_check_step(st, threshold, max_restarts, c, now, token);
            &&& next.health[c.id].status == HealthStatus::Failed
            &&& next.queue.contains(c.id)
        }),
{
    let next = container_check_step(st, threshold, max_restarts, c, now, token);
    if st.queue.contains(c.id) {
        assert(next.queue == st.queue);
    } else {
        assert(next.queue[next.queue.len() - 1] == c.id);
    }
}

/// Health histories stay within their limit through any round of checks.
pub proof fn law_history_bounded(st: CheckState, threshold: u32, max_restarts: u32, cs: Seq<ContainerCheckView>,
    now: i64, tokens: Seq<Seq<char>>)
    requires
        histories_bounded(st.health),
    ensures
        histories_bounded(container_checks(st, threshold, max_restarts, cs, now, tokens).health),
    decreases cs.len(),
{
    if cs.len() > 0 {
        let prev = container_checks(st, threshold, max_restarts, cs.drop_last(), now, tokens.take(cs.len() - 1));
        law_history_bounded(st, threshold, max_restarts, cs.drop_last(), now, tokens.take(cs.len() - 1));
        let c = cs.last();
        let h = record_before(prev.health, c.id, now);
        assert(h.health_history.len() <= HISTORY_LIMIT);
        let next = container_check_step(prev, threshold, max_restarts, c, now, tokens[cs.len() - 1]);
        assert forall|k: Seq<char>| #[trigger] next.health.contains_key(k) implies
            next.health[k].health_history.len() <= HISTORY_LIMIT by {
            if k == c.id {
                lemma_push_history_len(h.health_history, next.health[k].health_history.last());
            }
        }
    }
}

/// Appending to a history within the limit keeps it within the limit.
pub proof fn lemma_push_history_len<T>(h: Seq<T>, e: T)
    requires
        h.len() <= HISTORY_LIMIT,
    ensures
        push_history(h, e).len() <= HISTORY_LIMIT,
        push_history(h, e).len() > 0,
        push_history(h, e).last() == e,
{
}

/// Resolving an alert takes exactly one alert off the active list when it was
/// active, and none otherwise.
pub proof fn law_resolve_leaves_active(s: Seq<AlertView>, i: int, a: AlertView)
    requires
        0 <= i < s.len(),
        a.status != AlertStatus::Active,
    ensures
        active_alerts(s.update(i, a)).len() + (if s[i].status == AlertStatus::Active { 1int } else { 0int })
            == active_alerts(s).len(),
    decreases s.len(),
{
    if i == s.len() - 1 {
        assert(s.update(i, a).drop_last() =~= s.drop_last());
    } else {
        assert(s.update(i, a).drop_last() =~= s.drop_last().update(i, a));
        law_resolve_leaves_active(s.drop_last(), i, a);
    }
}

/// The counts of the health summary agree: critical alerts are among the
/// active ones, active alerts among all alerts, and the healthy containers and
/// nodes among all of them (so the healthy and unhealthy counts add up to the
/// totals).
pub proof fn law_summary_counts(cs: Seq<(String, ContainerHealth)>, ns: Seq<(String, NodeHealth)>, alerts: Seq<Alert>)
    ensures
        critical_count(alerts) <= active_count(alerts),
        active_count(alerts) <= alerts.len(),
        healthy_count(cs) <= cs.len(),
        healthy_node_count(ns) <= ns.len(),
    decreases cs.len() + ns.len() + alerts.len(),
{
    if alerts.len() > 0 {
        law_summary_counts(cs, ns, alerts.drop_last());
    }
    if cs.len() > 0 {
        law_summary_counts(cs.drop_last(), ns, alerts);
    }
    if ns.len() > 0 {
        law_summary_counts(cs, ns.drop_last(), alerts);
    }
}

/// A failing check below the failure threshold marks the container unhealthy,
/// counts one more consecutive failure, and neither queues a restart nor raises
/// an alert.
pub proof fn law_failure_below_threshold(st: CheckState, threshold: u32, max_restarts: u32, c: ContainerCheckView,
    now: i64, token: Seq<char>)
    requires
        !c.healthy,
        record_before(st.health, c.id, now).consecutive_failures + 1 < threshold,
    ensures
        ({
            let next = container_check_step(st, threshold, max_restarts, c, now, token);
            &&& next.health[c.id].status == HealthStatus::Unhealthy
            &&& next.health[c.id].consecutive_failures == record_before(st.health, c.id, now).consecutive_failures + 1
            &&& next.queue == st.queue
            &&& next.alerts == st.alerts
        }),
{
}

/// A failing check that reaches the failure threshold with no restarts left
/// marks the container failed, queues no restart, and raises one critical alert
/// about the container saying it is out of restarts.
pub proof fn law_out_of_restarts(st: CheckState, threshold: u32, max_restarts: u32, c: ContainerCheckView,
    now: i64, token: Seq<char>)
    requires
        !c.healthy,
        record_before(st.health, c.id, now).consecutive_failures + 1 >= threshold,
        record_before(st.health, c.id, now).restart_count >= max_restarts,
    ensures
        ({
            let next = container_check_step(st, threshold, max_restarts, c, now, token);
            &&& next.health[c.id].status == HealthStatus::Failed
            &&& next.queue == st.queue
            &&& next.alerts.len() == st.alerts.len() + 1
            &&& next.alerts.drop_last() == st.alerts
            &&& next.alerts.last().severity == AlertSeverity::Critical
            &&& next.alerts.last().source == AlertSourceView::Container(c.id)
            &&& next.alerts.last().message == exceeded_alert_text(c.id, max_restarts)
        }),
{
    let next = container_check_step(st, threshold, max_restarts, c, now, token);
    assert(next.alerts.drop_last() =~= st.alerts);
}

/// A check touches only the checked container's record: every other
/// container's record is as before.
pub proof fn law_check_touches_one(st: CheckState, threshold: u32, max_restarts: u32, c: ContainerCheckView,
    now: i64, token: Seq<char>, other: Seq<char>)
    requires
        other != c.id,
    ensures
        ({
            let next = container_check_step(st, threshold, max_restarts, c, now, token);
            &&& next.health.contains_key(other) == st.health.contains_key(other)
            &&& st.health.contains_key(other) ==> next.health[other] == st.health[other]
        }),
{
}

/// A node check decides the node's health by its failure count: a healthy
/// sample makes the node healthy with no failures, and raises an informational
/// alert exactly when it had failed before; a failing sample counts one more
/// failure; a node that was healthy and reaches the failure threshold becomes
/// unhealthy at `now` with one critical alert; one already unhealthy stays so
/// without a new alert; below the threshold the node keeps its health, with a
/// warning exactly at half the threshold. Other nodes are not touched.
pub proof fn law_node_check(st: NodeCheckState, threshold: u32, id: Seq<char>, info: NodeHealthView, now: i64,
    token: Seq<char>, other: Seq<char>)
    requires
        node_before(st.nodes, id, now, info).consecutive_failures < u32::MAX,
        other != id,
    ensures
        ({
            let n = node_before(st.nodes, id, now, info);
            let next = node_check_step(st, threshold, id, info, now, token);
            let m = next.nodes[id];
            &&& next.nodes.contains_key(id)
            &&& next.nodes.contains_key(other) == st.nodes.contains_key(other)
            &&& st.nodes.contains_key(other) ==> next.nodes[other] == st.nodes[other]
            &&& node_is_healthy(info) ==> {
                &&& m.is_healthy && m.consecutive_failures == 0
                &&& if n.consecutive_failures > 0 {
                        next.alerts.len() == st.alerts.len() + 1 && next.alerts.last().severity == AlertSeverity::Info
                    } else {
                        next.alerts == st.alerts
                    }
            }
            &&& !node_is_healthy(info) ==> {
                &&& m.consecutive_failures == n.consecutive_failures + 1
                &&& if n.consecutive_failures + 1 >= threshold {
                        if n.is_healthy {
                            &&& !m.is_healthy && m.last_failure == Some(now)
                            &&& next.alerts.len() == st.alerts.len() + 1
                            &&& next.alerts.last().severity == AlertSeverity::Critical
                        } else {
                            !m.is_healthy && next.alerts == st.alerts
                        }
                    } else {
                        &&& m.is_healthy == n.is_healthy
                        &&& if n.consecutive_failures + 1 == threshold / 2 {
                                next.alerts.len() == st.alerts.len() + 1 && next.alerts.last().severity == AlertSeverity::Warning
                            } else {
                                next.alerts == st.alerts
                            }
                    }
            }
        }),
{
}

} // verus!
