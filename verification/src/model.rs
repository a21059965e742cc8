//! Data model: one immutable snapshot of the system and the plain values
//! that the rest of the monitor derives from it.

use vstd::prelude::*;

verus! {

/// Identifier that the OS assigns to a process. The OS recycles identifiers
/// over time, but within a single `Sample` each occurs at most once.
pub type ProcessId = u32;

/// Resource counters of one process, all plain integers.
///
/// CPU load is held in hundredths of a percent, so the figure stays exact
/// integer data; it may exceed 10000 while a process keeps several cores
/// busy. The name is held as its bytes and, where a sort asks for names,
/// ordered bytewise.
pub struct ProcessInfo {
    pub pid: ProcessId,
    pub name: Vec<u8>,
    pub cpu_centi_percent: u64,
    pub resident_memory_bytes: u64,
    pub virtual_memory_bytes: u64,
}

/// Mathematical value of a `ProcessInfo`.
#[verifier::ext_equal]
pub struct ProcessInfoView {
    pub pid: ProcessId,
    pub name: Seq<u8>,
    pub cpu_centi_percent: u64,
    pub resident_memory_bytes: u64,
    pub virtual_memory_bytes: u64,
}

impl View for ProcessInfo {
    type V = ProcessInfoView;

    open spec fn view(&self) -> ProcessInfoView {
        ProcessInfoView {
            pid: self.pid,
            name: self.name@,
            cpu_centi_percent: self.cpu_centi_percent,
            resident_memory_bytes: self.resident_memory_bytes,
            virtual_memory_bytes: self.virtual_memory_bytes,
        }
    }
}

/// The views of a whole row sequence.
pub open spec fn views(s: Seq<ProcessInfo>) -> Seq<ProcessInfoView> {
    Seq::new(s.len(), |i: int| s[i]@)
}

/// No process identifier occurs twice.
pub open spec fn unique_pids(s: Seq<ProcessInfoView>) -> bool {
    forall|i: int, j: int| 0 <= i < j < s.len() ==> s[i].pid != s[j].pid
}

/// Byte-for-byte copy of a byte string.
pub fn clone_bytes(v: &Vec<u8>) -> (r: Vec<u8>)
    ensures
        r@ == v@,
{
    let mut r: Vec<u8> = Vec::new();
    let mut i: usize = 0;
    while i < v.len()
        invariant
            i <= v@.len(),
            r@ == v@.subrange(0, i as int),
        decreases v@.len() - i,
    {
        r.push(v[i]);
        proof {
            assert(v@.subrange(0, i + 1 as int) =~= v@.subrange(0, i as int).push(v@[i as int]));
        }
        i = i + 1;
    }
    proof {
        assert(v@.subrange(0, v@.len() as int) =~= v@);
    }
    r
}

impl ProcessInfo {
    /// A fresh row with the same value.
    pub fn duplicate(&self) -> (r: ProcessInfo)
        ensures
            r@ == self@,
    {
        let r = ProcessInfo {
            pid: self.pid,
            name: clone_bytes(&self.name),
            cpu_centi_percent: self.cpu_centi_percent,
            resident_memory_bytes: self.resident_memory_bytes,
            virtual_memory_bytes: self.virtual_memory_bytes,
        };
        proof {
            assert(r@ =~= self@);
        }
        r
    }
}

/// The column that orders the table. Ties under every key are broken by
/// ascending process identifier, so the row order never jitters between
/// ticks when primary keys are equal.
#[derive(Clone, Copy, Debug, PartialEq, Eq, Structural)]
pub enum SortKey {
    ByCpuDescending,
    ByMemoryDescending,
    ByNameAscending,
    ByPidAscending,
}

/// The four standard termination signals a selected process can receive.
#[derive(Clone, Copy, Debug, PartialEq, Eq, Structural)]
pub enum SignalKind {
    Interrupt,
    Quit,
    Terminate,
    Kill,
}

/// Modal state of the interface.
#[derive(Clone, Copy, Debug, PartialEq, Eq, Structural)]
pub enum UiMode {
    Normal,
    KillMenu,
}

/// A navigation step over the sorted view.
#[derive(Clone, Copy, Debug, PartialEq, Eq, Structural)]
pub enum Direction {
    Up,
    Down,
}

/// What came of one attempt to deliver a signal. Every variant but
/// `Delivered` is a normal, non-fatal outcome.
#[derive(Clone, Copy, Debug, PartialEq, Eq, Structural)]
pub enum DispatchOutcome {
    Delivered,
    NoSelection,
    ProcessNotFound,
    DeliveryFailed,
}

/// One immutable snapshot of global and per-process figures. Memory figures
/// are instantaneous; CPU figures are relative to the elapsed time since the
/// previous snapshot, and 0 throughout the very first one.
pub struct Sample {
    pub timestamp_ms: u64,
    pub global_cpu_centi_percent: u64,
    pub total_memory_bytes: u64,
    pub used_memory_bytes: u64,
    pub processes: Vec<ProcessInfo>,
}

/// Mathematical value of a `Sample`.
#[verifier::ext_equal]
pub struct SampleView {
    pub timestamp_ms: u64,
    pub global_cpu_centi_percent: u64,
    pub total_memory_bytes: u64,
    pub used_memory_bytes: u64,
    pub processes: Seq<ProcessInfoView>,
}

impl View for Sample {
    type V = SampleView;

    open spec fn view(&self) -> SampleView {
        SampleView {
            timestamp_ms: self.timestamp_ms,
            global_cpu_centi_percent: self.global_cpu_centi_percent,
            total_memory_bytes: self.total_memory_bytes,
            used_memory_bytes: self.used_memory_bytes,
            processes: views(self.processes@),
        }
    }
}

impl Sample {
    /// Well-formedness: identifiers are unique and the global CPU figure is
    /// a percentage.
    pub open spec fn wf(&self) -> bool {
        &&& unique_pids(self@.processes)
        &&& self.global_cpu_centi_percent <= 10000
    }
}

} // verus!
