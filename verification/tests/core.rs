use rtop::model::{Direction, DispatchOutcome, ProcessInfo, Sample, SignalKind, SortKey, UiMode};
use rtop::table::sorted;
use rtop::sampler::Sampler;
use rtop::selection::{advance, resolve};
use rtop::controller::{remaining_timeout_ms, step, Action, AppState, Command};
use rtop::dispatch::delivery_outcome;

fn row(pid: u32, name: &str, cpu: u64, rss: u64, virt: u64) -> ProcessInfo {
    ProcessInfo {
        pid,
        name: name.as_bytes().to_vec(),
        cpu_centi_percent: cpu,
        resident_memory_bytes: rss,
        virtual_memory_bytes: virt,
    }
}

/// A well-formed sample that keeps the given CPU figures (the sampler is
/// primed first, so the rows are not zeroed as a first sample would be).
fn sample_of(rows: Vec<ProcessInfo>) -> Sample {
    let mut sampler = Sampler::new();
    sampler.build(0, 0, 0, 0, Vec::new());
    sampler.build(1, 5000, 1_000_000, 500_000, rows)
}

fn pids(view: &Vec<ProcessInfo>) -> Vec<u32> {
    view.iter().map(|p| p.pid).collect()
}

#[test]
fn sorted_keeps_every_row_once() {
    let s = sample_of(vec![
        row(3, "c", 100, 10, 1),
        row(1, "a", 300, 30, 3),
        row(2, "b", 200, 20, 2),
    ]);
    for key in [
        SortKey::ByCpuDescending,
        SortKey::ByMemoryDescending,
        SortKey::ByNameAscending,
        SortKey::ByPidAscending,
    ] {
        let view = sorted(&s, key);
        assert_eq!(view.len(), 3);
        let mut seen = pids(&view);
        seen.sort();
        assert_eq!(seen, vec![1, 2, 3]);
    }
}

#[test]
fn sorted_by_each_key_exact_order() {
    let s = sample_of(vec![
        row(3, "c", 100, 30, 1),
        row(1, "a", 300, 10, 3),
        row(2, "b", 200, 20, 2),
    ]);
    assert_eq!(pids(&sorted(&s, SortKey::ByCpuDescending)), vec![1, 2, 3]);
    assert_eq!(pids(&sorted(&s, SortKey::ByMemoryDescending)), vec![3, 2, 1]);
    assert_eq!(pids(&sorted(&s, SortKey::ByNameAscending)), vec![1, 2, 3]);
    assert_eq!(pids(&sorted(&s, SortKey::ByPidAscending)), vec![1, 2, 3]);
}

#[test]
fn sorted_names_bytewise() {
    let s = sample_of(vec![
        row(1, "b", 0, 0, 0),
        row(2, "ab", 0, 0, 0),
        row(3, "aa", 0, 0, 0),
        row(4, "abc", 0, 0, 0),
    ]);
    let view = sorted(&s, SortKey::ByNameAscending);
    let names: Vec<&[u8]> = view.iter().map(|p| p.name.as_slice()).collect();
    assert_eq!(names, vec![b"aa".as_slice(), b"ab", b"abc", b"b"]);
}

#[test]
fn sorting_twice_is_idempotent() {
    let s = sample_of(vec![
        row(5, "e", 100, 1, 0),
        row(2, "b", 300, 2, 0),
        row(9, "i", 200, 3, 0),
    ]);
    for key in [
        SortKey::ByCpuDescending,
        SortKey::ByMemoryDescending,
        SortKey::ByNameAscending,
        SortKey::ByPidAscending,
    ] {
        let once = sorted(&s, key);
        let again_rows: Vec<ProcessInfo> = once.iter().map(|p| p.duplicate()).collect();
        let s2 = sample_of(again_rows);
        let twice = sorted(&s2, key);
        assert_eq!(pids(&once), pids(&twice));
    }
}

#[test]
fn equal_primary_keys_order_by_pid_whatever_the_insertion_order() {
    let forward = sample_of(vec![
        row(4, "d", 200, 40, 0),
        row(8, "h", 200, 40, 0),
        row(6, "f", 900, 90, 0),
    ]);
    let backward = sample_of(vec![
        row(8, "h", 200, 40, 0),
        row(6, "f", 900, 90, 0),
        row(4, "d", 200, 40, 0),
    ]);
    assert_eq!(pids(&sorted(&forward, SortKey::ByCpuDescending)), vec![6, 4, 8]);
    assert_eq!(pids(&sorted(&backward, SortKey::ByCpuDescending)), vec![6, 4, 8]);
    assert_eq!(pids(&sorted(&forward, SortKey::ByMemoryDescending)), vec![6, 4, 8]);
    assert_eq!(pids(&sorted(&backward, SortKey::ByMemoryDescending)), vec![6, 4, 8]);
}

#[test]
fn selection_survives_or_resolves_to_none_when_its_process_exits() {
    let s1 = sample_of(vec![row(1, "a", 0, 0, 0), row(2, "b", 0, 0, 0), row(3, "c", 0, 0, 0)]);
    let view1 = sorted(&s1, SortKey::ByPidAscending);
    assert_eq!(resolve(Some(2), &view1), Some(1));
    let s2 = sample_of(vec![row(1, "a", 0, 0, 0), row(3, "c", 0, 0, 0)]);
    let view2 = sorted(&s2, SortKey::ByPidAscending);
    assert_eq!(resolve(Some(2), &view2), None);
    assert_eq!(resolve(None, &view2), None);
}

#[test]
fn navigation_clamps_at_both_edges() {
    let s = sample_of(vec![row(1, "a", 0, 0, 0), row(2, "b", 0, 0, 0), row(3, "c", 0, 0, 0)]);
    let view = sorted(&s, SortKey::ByPidAscending);
    let mut sel = Some(2);
    sel = advance(sel, &view, Direction::Down);
    assert_eq!(sel, Some(3));
    for _ in 0..5 {
        sel = advance(sel, &view, Direction::Down);
        assert_eq!(sel, Some(3));
    }
    let mut sel = Some(2);
    sel = advance(sel, &view, Direction::Up);
    assert_eq!(sel, Some(1));
    for _ in 0..5 {
        sel = advance(sel, &view, Direction::Up);
        assert_eq!(sel, Some(1));
    }
}

#[test]
fn navigation_from_nothing_and_from_a_vanished_process() {
    let s = sample_of(vec![row(1, "a", 0, 0, 0), row(2, "b", 0, 0, 0), row(3, "c", 0, 0, 0)]);
    let view = sorted(&s, SortKey::ByPidAscending);
    assert_eq!(advance(None, &view, Direction::Down), Some(1));
    assert_eq!(advance(None, &view, Direction::Up), None);
    // A selection whose process left the view stands at row zero before the
    // step: down lands on row one, up stays on row zero.
    assert_eq!(advance(Some(99), &view, Direction::Down), Some(2));
    assert_eq!(advance(Some(99), &view, Direction::Up), Some(1));
    // Over an empty view the selection is left as it is.
    let empty = sample_of(Vec::new());
    let empty_view = sorted(&empty, SortKey::ByPidAscending);
    assert_eq!(advance(Some(99), &empty_view, Direction::Down), Some(99));
    assert_eq!(advance(None, &empty_view, Direction::Down), None);
}

#[test]
fn first_sample_reports_zero_cpu_everywhere() {
    let mut sampler = Sampler::new();
    let first = sampler.build(
        10,
        4200,
        1_000_000,
        400_000,
        vec![row(1, "a", 1234, 5, 6), row(2, "b", 777, 8, 9)],
    );
    assert_eq!(first.processes.len(), 2);
    for p in first.processes.iter() {
        assert_eq!(p.cpu_centi_percent, 0);
    }
    // Once a previous sample exists, CPU figures pass through unchanged.
    let second = sampler.build(20, 4200, 1_000_000, 400_000, vec![row(1, "a", 1234, 5, 6)]);
    assert_eq!(second.processes[0].cpu_centi_percent, 1234);
}

#[test]
fn sampler_keeps_first_row_of_a_repeated_pid() {
    let mut sampler = Sampler::new();
    sampler.build(0, 0, 0, 0, Vec::new());
    let s = sampler.build(
        1,
        0,
        0,
        0,
        vec![row(5, "first", 100, 1, 0), row(5, "second", 200, 2, 0), row(6, "other", 300, 3, 0)],
    );
    assert_eq!(s.processes.len(), 2);
    assert_eq!(s.processes[0].pid, 5);
    assert_eq!(s.processes[0].name, b"first".to_vec());
    assert_eq!(s.processes[1].pid, 6);
}

#[test]
fn sampler_clamps_the_global_cpu_figure() {
    let mut sampler = Sampler::new();
    let s = sampler.build(0, 20_000, 0, 0, Vec::new());
    assert_eq!(s.global_cpu_centi_percent, 10_000);
    let s2 = sampler.build(1, 9_999, 0, 0, Vec::new());
    assert_eq!(s2.global_cpu_centi_percent, 9_999);
}

#[test]
fn delivery_outcome_per_answer_of_the_os() {
    assert_eq!(delivery_outcome(Some(true)), DispatchOutcome::Delivered);
    assert_eq!(delivery_outcome(Some(false)), DispatchOutcome::DeliveryFailed);
    assert_eq!(delivery_outcome(None), DispatchOutcome::DeliveryFailed);
}

#[test]
fn kill_menu_only_opens_over_a_live_selection() {
    let s = sample_of(vec![row(1, "a", 0, 0, 0)]);
    let view = sorted(&s, SortKey::ByPidAscending);
    let st = AppState::initial();
    // No selection: the menu stays closed.
    let (st2, act) = step(&st, Command::OpenKillMenu, &view);
    assert_eq!(st2.mode, UiMode::Normal);
    assert_eq!(act, Action::Continue);
    // A selection that resolves: the menu opens.
    let st = AppState { selection: Some(1), ..st };
    let (st3, _) = step(&st, Command::OpenKillMenu, &view);
    assert_eq!(st3.mode, UiMode::KillMenu);
    // A stale selection: the menu stays closed.
    let st = AppState { selection: Some(42), ..st };
    let (st4, _) = step(&st, Command::OpenKillMenu, &view);
    assert_eq!(st4.mode, UiMode::Normal);
}

#[test]
fn choosing_a_signal_always_returns_to_normal_mode() {
    let s = sample_of(vec![row(1, "a", 0, 0, 0)]);
    let view = sorted(&s, SortKey::ByPidAscending);
    let st = AppState { mode: UiMode::KillMenu, selection: Some(1), sort_key: SortKey::ByPidAscending };
    let (st2, act) = step(&st, Command::ChooseSignal(SignalKind::Terminate), &view);
    assert_eq!(st2.mode, UiMode::Normal);
    assert_eq!(act, Action::Dispatch(SignalKind::Terminate));
    // Outside the menu a signal choice does nothing.
    let (st3, act3) = step(&st2, Command::ChooseSignal(SignalKind::Terminate), &view);
    assert_eq!(st3, st2);
    assert_eq!(act3, Action::Continue);
    // Cancelling the menu dispatches nothing.
    let (st4, act4) = step(&st, Command::CancelKillMenu, &view);
    assert_eq!(st4.mode, UiMode::Normal);
    assert_eq!(act4, Action::Continue);
}

#[test]
fn quit_is_immediate_and_navigation_works_in_either_mode() {
    let s = sample_of(vec![row(1, "a", 0, 0, 0), row(2, "b", 0, 0, 0)]);
    let view = sorted(&s, SortKey::ByPidAscending);
    let st = AppState { mode: UiMode::KillMenu, selection: Some(1), sort_key: SortKey::ByPidAscending };
    let (_, act) = step(&st, Command::Quit, &view);
    assert_eq!(act, Action::Exit);
    let (st2, _) = step(&st, Command::NavigateDown, &view);
    assert_eq!(st2.selection, Some(2));
    assert_eq!(st2.mode, UiMode::KillMenu);
}

#[test]
fn end_to_end_select_resort_and_kill() {
    // Start as the monitor starts.
    let st = AppState::initial();
    assert_eq!(st.mode, UiMode::Normal);
    assert_eq!(st.sort_key, SortKey::ByCpuDescending);
    assert_eq!(st.selection, None);
    let s = sample_of(vec![
        row(4, "alpha", 100, 1, 0),
        row(10, "beta", 900, 2, 0),
        row(7, "gamma", 500, 3, 0),
    ]);
    // First step down selects the top CPU row.
    let view = sorted(&s, st.sort_key);
    assert_eq!(pids(&view), vec![10, 7, 4]);
    let (st, _) = step(&st, Command::NavigateDown, &view);
    assert_eq!(st.selection, Some(10));
    // Re-sorting by name keeps the same logical process selected, at its
    // new alphabetical row.
    let (st, _) = step(&st, Command::SetSort(SortKey::ByNameAscending), &view);
    assert_eq!(st.sort_key, SortKey::ByNameAscending);
    assert_eq!(st.selection, Some(10));
    let view = sorted(&s, st.sort_key);
    assert_eq!(pids(&view), vec![4, 10, 7]);
    assert_eq!(resolve(st.selection, &view), Some(1));
    // Open the kill menu and choose a kill; the transition asks for the
    // delivery and returns to normal mode.
    let (st, _) = step(&st, Command::OpenKillMenu, &view);
    assert_eq!(st.mode, UiMode::KillMenu);
    let (st, act) = step(&st, Command::ChooseSignal(SignalKind::Kill), &view);
    assert_eq!(act, Action::Dispatch(SignalKind::Kill));
    assert_eq!(st.mode, UiMode::Normal);
    // With a live target and an accepting OS the delivery reports success.
    assert_eq!(delivery_outcome(Some(true)), DispatchOutcome::Delivered);
}

#[test]
fn io_errors_wrap_into_the_app_error() {
    let e = std::io::Error::new(std::io::ErrorKind::Other, "terminal setup failed");
    let app_err = rtop::AppError::from(e);
    assert!(matches!(app_err, rtop::AppError::Io(_)));
}

#[test]
fn timeout_never_goes_negative() {
    assert_eq!(remaining_timeout_ms(250, 0), 250);
    assert_eq!(remaining_timeout_ms(250, 100), 150);
    assert_eq!(remaining_timeout_ms(250, 250), 0);
    assert_eq!(remaining_timeout_ms(250, 400), 0);
}
