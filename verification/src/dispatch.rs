//! Signal dispatch. A selection is resolved against the live process table
//! immediately before signalling — not against the cached snapshot, which
//! may be a full tick stale — so a process that exited in between yields a
//! plain `ProcessNotFound`, never a signal to a recycled identifier read
//! from an old row index.

use vstd::prelude::*;
use crate::model::{ProcessId, SignalKind, DispatchOutcome};

verus! {

#[verifier::external_type_specification]
#[verifier::external_body]
pub struct ExSystem(sysinfo::System);

#[verifier::external_type_specification]
#[verifier::external_body]
pub struct ExProcess(sysinfo::Process);

/// The identifiers in the live table that a `sysinfo::System` holds: what
/// its last refresh saw of the OS process table.
pub uninterp spec fn live_pids(s: sysinfo::System) -> Set<ProcessId>;

/// Relies on sysinfo's `System::process`: a lookup in the process table of
/// the given system value, returning the entry if and only if the
/// identifier is present there.
#[verifier::external_body]
fn live_lookup<'a>(sys: &'a sysinfo::System, pid: ProcessId) -> (r: Option<&'a sysinfo::Process>)
    ensures
        r is Some <==> live_pids(*sys).contains(pid),
{
    sys.process(sysinfo::Pid::from_u32(pid))
}

/// Relies on sysinfo's `Process::kill_with`: a one-shot, non-blocking
/// request to the OS. It returns `None` where the platform lacks the
/// signal, else `Some` of whether the OS accepted the request; nothing more
/// is promised, since the outcome is the OS's alone.
#[verifier::external_body]
fn request_signal(p: &sysinfo::Process, kind: SignalKind) -> (r: Option<bool>) {
    let signal = match kind {
        SignalKind::Interrupt => sysinfo::Signal::Interrupt,
        SignalKind::Quit => sysinfo::Signal::Quit,
        SignalKind::Terminate => sysinfo::Signal::Term,
        SignalKind::Kill => sysinfo::Signal::Kill,
    };
    p.kill_with(signal)
}

/// The outcome that one answer of the OS amounts to: delivered only where
/// the request was accepted; an unsupported signal or a refusal (for one,
/// permission denied) is a delivery failure, non-fatal and never retried.
pub fn delivery_outcome(sent: Option<bool>) -> (o: DispatchOutcome)
    ensures
        o == if sent == Some(true) {
            DispatchOutcome::Delivered
        } else {
            DispatchOutcome::DeliveryFailed
        },
{
    match sent {
        Some(true) => DispatchOutcome::Delivered,
        Some(false) => DispatchOutcome::DeliveryFailed,
        None => DispatchOutcome::DeliveryFailed,
    }
}

/// Whether the selection names a process the live table still holds.
pub fn selection_is_live(sys: &sysinfo::System, selection: Option<ProcessId>) -> (r: bool)
    ensures
        r == (selection is Some && live_pids(*sys).contains(selection->0)),
{
    match selection {
        None => false,
        Some(pid) => match live_lookup(sys, pid) {
            Some(_) => true,
            None => false,
        },
    }
}

/// Resolve the selection against the live table and attempt delivery.
/// With no selection nothing is attempted; a selection absent from the live
/// table is reported, not signalled; otherwise the outcome is whatever the
/// OS answered. Every outcome is non-fatal.
pub fn dispatch(sys: &sysinfo::System, selection: Option<ProcessId>, kind: SignalKind) -> (o:
    DispatchOutcome)
    ensures
        (o == DispatchOutcome::NoSelection) <==> selection is None,
        (o == DispatchOutcome::ProcessNotFound) <==> (selection is Some && !live_pids(
            *sys,
        ).contains(selection->0)),
        (selection is Some && live_pids(*sys).contains(selection->0)) ==> (o
            == DispatchOutcome::Delivered || o == DispatchOutcome::DeliveryFailed),
{
    match selection {
        None => DispatchOutcome::NoSelection,
        Some(pid) => match live_lookup(sys, pid) {
            None => DispatchOutcome::ProcessNotFound,
            Some(p) => delivery_outcome(request_signal(p, kind)),
        },
    }
}

} // verus!
