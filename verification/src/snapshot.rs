//! The point-in-time model of the observed system: one record per
//! process, system-wide counters, and the rendered row text that both
//! the table display and the filter work on.

use vstd::prelude::*;
use crate::text::{contains_ci, dec_spec, tenths_text_spec, dec_u64, tenths_text};

verus! {

/// Lifecycle state of a process, reduced to the classes the table
/// styles differently.
#[derive(Clone, Copy, Debug, PartialEq, Eq, Structural)]
pub enum ProcStatus {
    Running,
    Sleeping,
    Zombie,
    Other,
}

/// How a table row should be styled, derived from the process status.
#[derive(Clone, Copy, Debug, PartialEq, Eq, Structural)]
pub enum StyleHint {
    Emphasize,
    Mute,
    Alert,
    Plain,
}

/// The per-row style: running rows are emphasized, sleeping rows muted,
/// zombie rows alerted, all others plain.
pub fn style_hint(status: ProcStatus) -> (r: StyleHint)
    ensures
        r == (match status {
            ProcStatus::Running => StyleHint::Emphasize,
            ProcStatus::Sleeping => StyleHint::Mute,
            ProcStatus::Zombie => StyleHint::Alert,
            ProcStatus::Other => StyleHint::Plain,
        }),
{
    match status {
        ProcStatus::Running => StyleHint::Emphasize,
        ProcStatus::Sleeping => StyleHint::Mute,
        ProcStatus::Zombie => StyleHint::Alert,
        ProcStatus::Other => StyleHint::Plain,
    }
}

/// One observed process. Text fields are held as bytes; CPU usage is
/// held in tenths of a percent, exactly the precision the table shows,
/// and is kept as the provider reported it (sums over cores may exceed
/// 1000 tenths).
#[derive(Clone, Debug)]
pub struct ProcessRecord {
    pub pid: u32,
    pub name: Vec<u8>,
    pub user: Option<Vec<u8>>,
    pub cpu_tenths: u32,
    pub memory_bytes: u64,
    pub virtual_memory_bytes: u64,
    pub disk_read_bytes: u64,
    pub disk_written_bytes: u64,
    pub status: ProcStatus,
    pub exe: Option<Vec<u8>>,
    pub cmd: Vec<Vec<u8>>,
    pub cwd: Option<Vec<u8>>,
    pub start_time_seconds: u64,
    pub run_time_seconds: u64,
}

/// System-wide counters refreshed along with the process table.
#[derive(Clone, Copy, Debug)]
pub struct SystemStats {
    pub total_memory_bytes: u64,
    pub used_memory_bytes: u64,
    pub total_swap_bytes: u64,
    pub used_swap_bytes: u64,
    pub cpu_tenths: u32,
    pub uptime_seconds: u64,
}

/// A full snapshot of the observed system. It is replaced wholesale on
/// each refresh and never mutated in place; the iteration order of
/// `procs` is the provider's order and is the tie-break order of the
/// projection.
#[derive(Clone, Debug)]
pub struct Snapshot {
    pub procs: Vec<ProcessRecord>,
    pub stats: SystemStats,
}

/// Resident memory rendered in tenths of a mebibyte, rounded down.
pub open spec fn mem_tenths_spec(bytes: u64) -> nat {
    ((bytes as nat / 0x100000) * 10 + ((bytes as nat % 0x100000) * 10) / 0x100000) as nat
}

/// Computes tenths of a mebibyte from a byte count.
pub fn mem_tenths(bytes: u64) -> (r: u64)
    ensures
        r == mem_tenths_spec(bytes),
{
    proof {
        assert(bytes as nat / 0x100000 <= 0xffff_ffff_ffff) by (nonlinear_arith);
        assert((bytes as nat % 0x100000) * 10 < 0x100000 * 10) by (nonlinear_arith);
    }
    (bytes / 0x100000) * 10 + ((bytes % 0x100000) * 10) / 0x100000
}

/// The visible text of one row: pid, name, user, CPU percent and
/// memory in mebibytes, joined with single spaces. This one rendering
/// is what the table shows and what the filter is matched against.
pub open spec fn rendered_spec(r: ProcessRecord) -> Seq<u8> {
    dec_spec(r.pid as nat) + seq![32u8] + r.name@ + seq![32u8] + (match r.user {
        Some(u) => u@,
        None => Seq::<u8>::empty(),
    }) + seq![32u8] + tenths_text_spec(r.cpu_tenths as nat) + seq![37u8] + seq![32u8]
        + tenths_text_spec(mem_tenths_spec(r.memory_bytes))
}

/// Builds the rendered row text of one record.
pub fn rendered_text(r: &ProcessRecord) -> (out: Vec<u8>)
    ensures
        out@ == rendered_spec(*r),
{
    let mut v = dec_u64(r.pid as u64);
    v.push(32);
    v.extend_from_slice(r.name.as_slice());
    v.push(32);
    match &r.user {
        Some(u) => {
            v.extend_from_slice(u.as_slice());
        },
        None => {},
    }
    v.push(32);
    let cpu = tenths_text(r.cpu_tenths as u64);
    v.extend_from_slice(cpu.as_slice());
    v.push(37);
    v.push(32);
    let mem = tenths_text(mem_tenths(r.memory_bytes));
    v.extend_from_slice(mem.as_slice());
    assert(v@ =~= rendered_spec(*r));
    v
}

/// A record whose rendered text contains the filter, ASCII
/// case-insensitively, is retained by the projection.
pub open spec fn record_matches(r: ProcessRecord, filter: Seq<u8>) -> bool {
    contains_ci(rendered_spec(r), filter)
}

/// Some record of the snapshot carries this pid.
pub open spec fn has_pid(s: Snapshot, pid: u32) -> bool {
    exists|i: int| 0 <= i < s.procs@.len() && s.procs@[i].pid == pid
}

impl Snapshot {
    /// Whether a process with this pid is live in the snapshot.
    pub fn contains_pid(&self, pid: u32) -> (r: bool)
        ensures
            r == has_pid(*self, pid),
    {
        let mut i: usize = 0;
        while i < self.procs.len()
            invariant
                i <= self.procs@.len(),
                forall|k: int| 0 <= k < i ==> self.procs@[k].pid != pid,
            decreases self.procs@.len() - i,
        {
            if self.procs[i].pid == pid {
                return true;
            }
            i = i + 1;
        }
        false
    }
}

/// Splits an uptime in seconds into whole days, hours within the day,
/// minutes within the hour and seconds within the minute.
pub fn uptime_parts(secs: u64) -> (r: (u64, u64, u64, u64))
    ensures
        r.0 == secs / 86400,
        r.1 == (secs % 86400) / 3600,
        r.2 == (secs % 3600) / 60,
        r.3 == secs % 60,
{
    (secs / 86400, (secs % 86400) / 3600, (secs % 3600) / 60, secs % 60)
}

} // verus!
