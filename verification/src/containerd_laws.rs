//! Properties of the containerd runtime's bookkeeping: log filtering and the log
//! cache, health-check records, and volumes.
use vstd::prelude::*;
use crate::containerd::{LogEntryView, HealthCheckView, HealthCheckStatus, HealthCheckTypeView, filter_logs_view, tail_view,
    log_selected, append_log};
use crate::containers::VolumeView;

verus! {

/// Every log entry that filtering keeps passes the filters, and every entry that
/// passes them is kept.
pub proof fn law_filter_logs_exact(s: Seq<LogEntryView>, since: Option<i64>, until: Option<i64>, stdout: bool, stderr: bool,
    e: LogEntryView)
    ensures
        filter_logs_view(s, since, until, stdout, stderr).contains(e) <==> (s.contains(e)
            && log_selected(e, since, until, stdout, stderr)),
    decreases s.len(),
{
    if s.len() > 0 {
        law_filter_logs_exact(s.drop_last(), since, until, stdout, stderr, e);
        let prev = filter_logs_view(s.drop_last(), since, until, stdout, stderr);
        if s.contains(e) {
            let i = choose|i: int| 0 <= i < s.len() && s[i] == e;
            if i < s.len() - 1 {
                assert(s.drop_last()[i] == e);
            }
        }
        if s.drop_last().contains(e) {
            let i = choose|i: int| 0 <= i < s.drop_last().len() && s.drop_last()[i] == e;
            assert(s[i] == e);
        }
        if log_selected(s.last(), since, until, stdout, stderr) {
            if prev.contains(e) {
                let i = choose|i: int| 0 <= i < prev.len() && prev[i] == e;
                assert(prev.push(s.last())[i] == e);
            }
            if prev.push(s.last()).contains(e) && e != s.last() {
                let i = choose|i: int| 0 <= i < prev.len() + 1 && prev.push(s.last())[i] == e;
                assert(prev[i] == e);
            }
            assert(prev.push(s.last())[prev.len() as int] == s.last());
        }
    }
}

/// A tail limit bounds the number of entries returned, and the entries returned
/// are the newest ones.
pub proof fn law_tail_newest(s: Seq<LogEntryView>, t: usize)
    ensures
        tail_view(s, Some(t)).len() <= t,
        tail_view(s, Some(t)).len() == (if t < s.len() { t as int } else { s.len() as int }),
        tail_view(s, Some(t)) == s.skip(s.len() - tail_view(s, Some(t)).len()),
{
    if t >= s.len() {
        assert(s.skip(0) =~= s);
    }
}

/// The cached log of a container never grows past 10000 entries, and the entry
/// just appended is always its newest.
pub proof fn law_log_cache_bounded(s: Seq<LogEntryView>, e: LogEntryView)
    requires
        s.len() <= 10000,
    ensures
        append_log(s, e).len() <= 10000,
        append_log(s, e).len() > 0,
        append_log(s, e).last() == e,
{
}

/// After a health check is configured and then run, its status reads as the
/// outcome of that run, at that time, with the configuration kept; before the
/// first run it reads unknown.
pub proof fn law_check_reads_last_outcome(c0: Map<Seq<char>, HealthCheckView>, id: Seq<char>, t: HealthCheckTypeView,
    interval: u64, timeout: u64, retries: u32, status: HealthCheckStatus, now: i64)
    ensures
        ({
            let c1 = c0.insert(id, HealthCheckView {
                container_id: id,
                check_type: t,
                interval_seconds: interval,
                timeout_seconds: timeout,
                retries,
                last_check: None,
                status: HealthCheckStatus::Unknown,
            });
            let c2 = c1.insert(id, HealthCheckView { status, last_check: Some(now), ..c1[id] });
            &&& c1[id].status == HealthCheckStatus::Unknown
            &&& c2[id].status == status
            &&& c2[id].last_check == Some(now)
            &&& c2[id].check_type == t
            &&& c2[id].interval_seconds == interval
            &&& c2[id].retries == retries
        }),
{
}

/// A volume recorded and then deleted is gone, and the other volumes are as
/// before the two steps.
pub proof fn law_volume_record_then_delete(v0: Map<Seq<char>, VolumeView>, name: Seq<char>, v: VolumeView)
    ensures
        !v0.insert(name, v).remove(name).contains_key(name),
        v0.insert(name, v).remove(name) == v0.remove(name),
{
    assert(v0.insert(name, v).remove(name) =~= v0.remove(name));
}

} // verus!
