//! Assembling one transmit-ready telemetry record from a collected
//! signal snapshot and node metadata, and planning what a cycle does
//! with the collection result.

use vstd::prelude::*;

verus! {

use crate::signals::CollectionError;
use crate::signals::FragIndex;
use crate::signals::SystemSignals;

/// Node identity and capture context of one record.
pub struct NodeMeta {
    pub node_id: String,
    pub timestamp_utc: String,
    pub kernel_version: String,
}

/// The memory grouping of the payload.
pub struct MemoryReport {
    pub mem_frag: FragIndex,
    /// No source feeds this yet; it is always reported as zero.
    pub oom_kill_count: u32,
}

/// The scheduler grouping of the payload.
pub struct SchedulerReport {
    pub load_avg_1m_centi: u64,
    pub procs_blocked: u32,
}

/// The I/O grouping of the payload.
pub struct IoReport {
    pub dirty_pages_bytes: u64,
}

/// One cycle's transmit-ready record; built, sent once, discarded.
pub struct TelemetryRecord {
    pub meta: NodeMeta,
    pub memory: MemoryReport,
    pub scheduler: SchedulerReport,
    pub io: IoReport,
}

/// The kernel-version string reported until a real probe exists.
pub open spec fn kernel_version_placeholder() -> Seq<char> {
    "5.15.0-generic"@
}

/// The placeholder as an owned string.
fn kernel_version_string() -> (r: String)
    ensures
        r@ == kernel_version_placeholder(),
{
    "5.15.0-generic".to_string()
}

/// Relies on chrono's `DateTime::from_timestamp` and
/// `DateTime::to_rfc3339`: the capture time, read from the system clock,
/// as an RFC 3339 date-and-time string, which is never empty.  Neither
/// call can panic --- `from_timestamp` answers `None` for a timestamp it
/// cannot hold --- so a clock before the epoch or out of range falls
/// back to the fixed epoch string rather than aborting.
#[verifier::external_body]
fn capture_timestamp_utc() -> (r: String)
    ensures
        r@.len() > 0,
{
    let stamp = match std::time::SystemTime::now().duration_since(std::time::UNIX_EPOCH) {
        Ok(d) => chrono::DateTime::from_timestamp(d.as_secs() as i64, d.subsec_nanos()),
        Err(_) => None,
    };
    match stamp {
        Some(t) => t.to_rfc3339(),
        None => "1970-01-01T00:00:00+00:00".to_string(),
    }
}

/// Pure assembly of one record from identity, capture time and signals.
pub fn build_record(node_id: String, timestamp_utc: String, signals: SystemSignals) -> (r:
    TelemetryRecord)
    ensures
        r.meta.node_id == node_id,
        r.meta.timestamp_utc == timestamp_utc,
        r.meta.kernel_version@ == kernel_version_placeholder(),
        r.memory.mem_frag == signals.mem_frag,
        r.memory.oom_kill_count == 0,
        r.scheduler.load_avg_1m_centi == signals.load_avg_1m_centi,
        r.scheduler.procs_blocked == signals.procs_blocked,
        r.io.dirty_pages_bytes == signals.dirty_pages_bytes,
{
    TelemetryRecord {
        meta: NodeMeta {
            node_id,
            timestamp_utc,
            kernel_version: kernel_version_string(),
        },
        memory: MemoryReport { mem_frag: signals.mem_frag, oom_kill_count: 0 },
        scheduler: SchedulerReport {
            load_avg_1m_centi: signals.load_avg_1m_centi,
            procs_blocked: signals.procs_blocked,
        },
        io: IoReport { dirty_pages_bytes: signals.dirty_pages_bytes },
    }
}

/// What a cycle does once collection has finished: send a record, or
/// skip without ever reaching the transmitter.
pub enum CyclePlan {
    Send(TelemetryRecord),
    SkipCollection(CollectionError),
}

/// Turns a collection result into the cycle's plan.  A successful
/// collection is stamped and sent; a failed one is skipped, so a
/// collection failure never triggers a transmitter call.
pub fn plan_cycle(node_id: String, collected: Result<SystemSignals, CollectionError>) -> (r:
    CyclePlan)
    ensures
        match collected {
            Ok(s) => r matches CyclePlan::Send(rec) && rec.meta.node_id == node_id
                && rec.meta.timestamp_utc@.len() > 0 && rec.meta.kernel_version@
                == kernel_version_placeholder() && rec.memory.mem_frag == s.mem_frag
                && rec.memory.oom_kill_count == 0 && rec.scheduler.load_avg_1m_centi
                == s.load_avg_1m_centi && rec.scheduler.procs_blocked == s.procs_blocked
                && rec.io.dirty_pages_bytes == s.dirty_pages_bytes,
            Err(e) => r matches CyclePlan::SkipCollection(skipped) && skipped == e,
        },
{
    match collected {
        Ok(s) => {
            let timestamp_utc = capture_timestamp_utc();
            CyclePlan::Send(build_record(node_id, timestamp_utc, s))
        },
        Err(e) => CyclePlan::SkipCollection(e),
    }
}

} // verus!
