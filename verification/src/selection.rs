//! Selection tracking: the highlighted process is a logical identifier, not
//! a row index, so it follows the same process while the rows around it
//! reorder or disappear between snapshots.

use vstd::prelude::*;
use crate::model::{ProcessId, ProcessInfo, ProcessInfoView, Direction, views, unique_pids};

verus! {

/// Index of the first row that carries `pid`, if any.
pub open spec fn pid_index(s: Seq<ProcessInfoView>, pid: ProcessId) -> Option<int>
    decreases s.len(),
{
    if s.len() == 0 {
        None
    } else if s[0].pid == pid {
        Some(0)
    } else {
        match pid_index(s.drop_first(), pid) {
            Some(i) => Some(i + 1),
            None => None,
        }
    }
}

/// What `pid_index` returns, spelled out: the first matching row, or the
/// word that no row matches.
pub proof fn lemma_pid_index_spec(s: Seq<ProcessInfoView>, pid: ProcessId)
    ensures
        match pid_index(s, pid) {
            Some(i) => 0 <= i < s.len() && s[i].pid == pid && (forall|m: int|
                0 <= m < i ==> s[m].pid != pid),
            None => forall|m: int| 0 <= m < s.len() ==> s[m].pid != pid,
        },
    decreases s.len(),
{
    if s.len() == 0 {
    } else if s[0].pid == pid {
    } else {
        lemma_pid_index_spec(s.drop_first(), pid);
        match pid_index(s.drop_first(), pid) {
            Some(i) => {
                assert(s[i + 1] == s.drop_first()[i]);
                assert forall|m: int| 0 <= m < i + 1 implies s[m].pid != pid by {
                    if m > 0 {
                        assert(s[m] == s.drop_first()[m - 1]);
                    }
                }
            },
            None => {
                assert forall|m: int| 0 <= m < s.len() implies s[m].pid != pid by {
                    if m > 0 {
                        assert(s[m] == s.drop_first()[m - 1]);
                    }
                }
            },
        }
    }
}

/// A row whose earlier rows all carry other identifiers is the one that
/// `pid_index` finds.
pub proof fn lemma_pid_index_first(s: Seq<ProcessInfoView>, pid: ProcessId, i: int)
    requires
        0 <= i < s.len(),
        s[i].pid == pid,
        forall|m: int| 0 <= m < i ==> s[m].pid != pid,
    ensures
        pid_index(s, pid) == Some(i),
    decreases s.len(),
{
    if s[0].pid == pid {
        assert(i == 0);
    } else {
        assert(i > 0);
        assert(s.drop_first()[i - 1] == s[i]);
        assert forall|m: int| 0 <= m < i - 1 implies s.drop_first()[m].pid != pid by {
            assert(s.drop_first()[m] == s[m + 1]);
        }
        lemma_pid_index_first(s.drop_first(), pid, i - 1);
    }
}

/// When identifiers are unique, each row is found at its own index.
pub proof fn lemma_pid_index_of_row(s: Seq<ProcessInfoView>, i: int)
    requires
        unique_pids(s),
        0 <= i < s.len(),
    ensures
        pid_index(s, s[i].pid) == Some(i),
{
    lemma_pid_index_first(s, s[i].pid, i);
}

/// Resolve the logical selection against the current view: a pure lookup by
/// identity. A selection whose process has exited resolves to nothing; that
/// is a normal, expected state, not an error.
pub fn resolve(selection: Option<ProcessId>, view: &Vec<ProcessInfo>) -> (r: Option<usize>)
    ensures
        ({
            let s = views(view@);
            match selection {
                None => r.is_none(),
                Some(pid) => match pid_index(s, pid) {
                    Some(i) => r is Some && r->0 == i,
                    None => r.is_none(),
                },
            }
        }),
{
    let ghost s = views(view@);
    match selection {
        None => None,
        Some(pid) => {
            let mut i: usize = 0;
            while i < view.len()
                invariant
                    selection == Some(pid),
                    s == views(view@),
                    i <= s.len(),
                    forall|m: int| 0 <= m < i ==> s[m].pid != pid,
                decreases s.len() - i,
            {
                if view[i].pid == pid {
                    proof {
                        assert(s[i as int] == view@[i as int]@);
                        lemma_pid_index_first(s, pid, i as int);
                        assert(pid_index(s, pid) == Some(i as int));
                    }
                    return Some(i);
                }
                i = i + 1;
            }
            proof {
                lemma_pid_index_spec(s, pid);
                if pid_index(s, pid) is Some {
                    let w = pid_index(s, pid)->0;
                    assert(s[w].pid != pid);
                }
            }
            None
        },
    }
}

/// Where one navigation step lands. From no selection, a step down picks the
/// first row and a step up stays nowhere. From a selected row, the step
/// moves one row and clamps at the two edges. A selection whose process has
/// left the view is treated as standing at row zero before the step; over an
/// empty view the selection is left as it is.
pub open spec fn advance_spec(sel: Option<ProcessId>, s: Seq<ProcessInfoView>, dir: Direction) -> Option<
    ProcessId,
> {
    if s.len() == 0 {
        sel
    } else {
        match sel {
            None => match dir {
                Direction::Down => Some(s[0].pid),
                Direction::Up => None,
            },
            Some(pid) => {
                let i = match pid_index(s, pid) {
                    Some(i) => i,
                    None => 0,
                };
                match dir {
                    Direction::Down => Some(
                        s[if i + 1 < s.len() {
                            i + 1
                        } else {
                            s.len() - 1
                        }].pid,
                    ),
                    Direction::Up => Some(
                        s[if i > 0 {
                            i - 1
                        } else {
                            0
                        }].pid,
                    ),
                }
            },
        }
    }
}

/// Apply one navigation step to the selection.
pub fn advance(selection: Option<ProcessId>, view: &Vec<ProcessInfo>, dir: Direction) -> (r: Option<
    ProcessId,
>)
    ensures
        r == advance_spec(selection, views(view@), dir),
{
    let ghost s = views(view@);
    if view.len() == 0 {
        return selection;
    }
    match selection {
        None => match dir {
            Direction::Down => Some(view[0].pid),
            Direction::Up => None,
        },
        Some(pid) => {
            let i: usize = match resolve(selection, view) {
                Some(i) => i,
                None => 0,
            };
            proof {
                lemma_pid_index_spec(s, pid);
            }
            match dir {
                Direction::Down => {
                    let next: usize = if i + 1 < view.len() {
                        i + 1
                    } else {
                        view.len() - 1
                    };
                    Some(view[next].pid)
                },
                Direction::Up => {
                    let prev: usize = if i > 0 {
                        i - 1
                    } else {
                        0
                    };
                    Some(view[prev].pid)
                },
            }
        },
    }
}

/// Navigation clamps at both edges: a step down from the last row keeps the
/// last row selected, and a step up from the first keeps the first.
pub proof fn lemma_navigation_clamp(s: Seq<ProcessInfoView>)
    requires
        unique_pids(s),
        s.len() > 0,
    ensures
        advance_spec(Some(s[s.len() - 1].pid), s, Direction::Down) == Some(s[s.len() - 1].pid),
        advance_spec(Some(s[0].pid), s, Direction::Up) == Some(s[0].pid),
{
    lemma_pid_index_of_row(s, s.len() - 1);
    lemma_pid_index_of_row(s, 0);
}

} // verus!
