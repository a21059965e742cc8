//! Building snapshots from raw readings. The sampler is total: whatever raw
//! rows it is handed, it produces a well-formed snapshot, resolving a
//! momentarily inconsistent enumeration by keeping the first row of any
//! repeated identifier. The very first snapshot reports 0 CPU for every
//! process, since no delta is available yet.

use vstd::prelude::*;
use crate::model::{ProcessInfo, ProcessInfoView, Sample, views, unique_pids};

verus! {

/// Some row carries `pid`.
pub open spec fn contains_pid(s: Seq<ProcessInfoView>, pid: u32) -> bool {
    exists|i: int| 0 <= i < s.len() && s[i].pid == pid
}

/// The rows with every repeated identifier reduced to its first occurrence,
/// in their original order.
pub open spec fn dedup_by_pid(s: Seq<ProcessInfoView>) -> Seq<ProcessInfoView>
    decreases s.len(),
{
    if s.len() == 0 {
        Seq::empty()
    } else {
        let rest = dedup_by_pid(s.drop_last());
        if contains_pid(rest, s.last().pid) {
            rest
        } else {
            rest.push(s.last())
        }
    }
}

/// The same rows with every CPU figure set to zero.
pub open spec fn zero_cpu(s: Seq<ProcessInfoView>) -> Seq<ProcessInfoView> {
    Seq::new(s.len(), |i: int| ProcessInfoView { cpu_centi_percent: 0, ..s[i] })
}

/// Deduplication leaves no identifier twice, and every row it keeps is a row
/// of the input.
pub proof fn lemma_dedup_by_pid(s: Seq<ProcessInfoView>)
    ensures
        unique_pids(dedup_by_pid(s)),
        forall|i: int|
            0 <= i < dedup_by_pid(s).len() ==> s.contains(#[trigger] dedup_by_pid(s)[i]),
    decreases s.len(),
{
    if s.len() == 0 {
    } else {
        lemma_dedup_by_pid(s.drop_last());
        let rest = dedup_by_pid(s.drop_last());
        assert forall|i: int|
            0 <= i < dedup_by_pid(s).len() implies s.contains(#[trigger] dedup_by_pid(s)[i]) by {
            if i < rest.len() {
                assert(s.drop_last().contains(rest[i]));
                let w = choose|w: int| 0 <= w < s.drop_last().len() && s.drop_last()[w] == rest[i];
                assert(s[w] == rest[i]);
            } else {
                assert(dedup_by_pid(s)[i] == s.last());
            }
        }
    }
}

/// Builds snapshots, and remembers whether a previous one exists: only then
/// can per-process CPU deltas be trusted.
pub struct Sampler {
    pub primed: bool,
}

impl Sampler {
    /// A sampler that has not yet taken a snapshot.
    pub fn new() -> (s: Sampler)
        ensures
            !s.primed,
    {
        Sampler { primed: false }
    }

    /// Turn one raw reading into a well-formed snapshot. Rows keep their
    /// order; a repeated identifier keeps only its first row; on the very
    /// first reading every per-process CPU figure is zeroed, and the global
    /// CPU figure is clamped to a percentage.
    pub fn build(
        &mut self,
        timestamp_ms: u64,
        global_cpu_centi_percent: u64,
        total_memory_bytes: u64,
        used_memory_bytes: u64,
        raw: Vec<ProcessInfo>,
    ) -> (s: Sample)
        ensures
            final(self).primed,
            s.timestamp_ms == timestamp_ms,
            s.total_memory_bytes == total_memory_bytes,
            s.used_memory_bytes == used_memory_bytes,
            s.global_cpu_centi_percent == if global_cpu_centi_percent <= 10000 {
                global_cpu_centi_percent
            } else {
                10000 as u64
            },
            s@.processes == dedup_by_pid(
                if old(self).primed {
                    views(raw@)
                } else {
                    zero_cpu(views(raw@))
                },
            ),
            !old(self).primed ==> forall|i: int|
                0 <= i < s@.processes.len() ==> s@.processes[i].cpu_centi_percent == 0,
            s.wf(),
    {
        let ghost base = if self.primed {
            views(raw@)
        } else {
            zero_cpu(views(raw@))
        };
        let first = !self.primed;
        self.primed = true;
        let mut rows: Vec<ProcessInfo> = Vec::new();
        proof {
            assert(base.subrange(0, 0) =~= Seq::<ProcessInfoView>::empty());
            assert(views(rows@) =~= Seq::<ProcessInfoView>::empty());
        }
        let n = raw.len();
        let mut i: usize = 0;
        while i < n
            invariant
                n == raw@.len(),
                base == if first {
                    zero_cpu(views(raw@))
                } else {
                    views(raw@)
                },
                base.len() == n,
                i <= n,
                views(rows@) == dedup_by_pid(base.subrange(0, i as int)),
            decreases n - i,
        {
            let x = ProcessInfo {
                pid: raw[i].pid,
                name: crate::model::clone_bytes(&raw[i].name),
                cpu_centi_percent: if first {
                    0
                } else {
                    raw[i].cpu_centi_percent
                },
                resident_memory_bytes: raw[i].resident_memory_bytes,
                virtual_memory_bytes: raw[i].virtual_memory_bytes,
            };
            proof {
                assert(x@ =~= base[i as int]);
            }
            let keep = !has_pid(&rows, x.pid);
            proof {
                let pref = base.subrange(0, i as int);
                let pref1 = base.subrange(0, i + 1);
                assert(pref1.drop_last() =~= pref);
                assert(pref1.last() == base[i as int]);
            }
            if keep {
                rows.push(x);
                proof {
                    assert(views(rows@) =~= dedup_by_pid(base.subrange(0, i + 1)));
                }
            } else {
                proof {
                    assert(views(rows@) =~= dedup_by_pid(base.subrange(0, i + 1)));
                }
            }
            i = i + 1;
        }
        proof {
            assert(base.subrange(0, n as int) =~= base);
            lemma_dedup_by_pid(base);
            if first {
                assert forall|m: int|
                    0 <= m < views(rows@).len() implies views(rows@)[m].cpu_centi_percent == 0 by {
                    assert(base.contains(views(rows@)[m]));
                    let w = choose|w: int| 0 <= w < base.len() && base[w] == views(rows@)[m];
                    assert(base[w].cpu_centi_percent == 0);
                }
            }
        }
        let s = Sample {
            timestamp_ms,
            global_cpu_centi_percent: if global_cpu_centi_percent <= 10000 {
                global_cpu_centi_percent
            } else {
                10000
            },
            total_memory_bytes,
            used_memory_bytes,
            processes: rows,
        };
        s
    }
}

/// Whether some already kept row carries `pid`.
fn has_pid(rows: &Vec<ProcessInfo>, pid: u32) -> (r: bool)
    ensures
        r == contains_pid(views(rows@), pid),
{
    let mut i: usize = 0;
    while i < rows.len()
        invariant
            i <= rows@.len(),
            forall|m: int| 0 <= m < i ==> views(rows@)[m].pid != pid,
        decreases rows@.len() - i,
    {
        if rows[i].pid == pid {
            proof {
                assert(views(rows@)[i as int].pid == pid);
            }
            return true;
        }
        i = i + 1;
    }
    false
}

} // verus!
