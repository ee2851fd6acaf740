//! Planning bulk moves. The host's accessibility facility exposes windows
//! per owning process, not by global identifier; the only reliable match is
//! the position of a record within its process's window list. This module
//! turns a layout and the engine's records into per-process move steps; the
//! host shell walks the steps and applies each rectangle.

use vstd::prelude::*;
use crate::geometry::Rect;
use crate::model::{rmap_distinct, rmap_get, rmap_has, rmap_lookup, Window, WindowId};

verus! {

/// One move the host should perform: the window at `index_in_pid` within
/// process `pid`'s window list receives `rect`.
#[derive(Debug, Clone, Copy, PartialEq, Eq, Structural)]
pub struct MoveStep {
    pub pid: i32,
    pub index_in_pid: usize,
    pub window_id: WindowId,
    pub rect: Rect,
}

/// The identifiers of the windows a process owns, in stored order.
pub open spec fn spec_pid_ids(ws: Seq<Window>, pid: i32) -> Seq<WindowId>
    decreases ws.len(),
{
    if ws.len() == 0 {
        Seq::empty()
    } else {
        (if ws[0].owner_pid == pid {
            seq![ws[0].id]
        } else {
            Seq::empty()
        }) + spec_pid_ids(ws.subrange(1, ws.len() as int), pid)
    }
}

/// The steps for one process: the first `upto` of its windows, in order,
/// each matched to the host window of the same index; windows the layout
/// says nothing about are skipped.
pub open spec fn spec_pid_steps(
    ids: Seq<WindowId>,
    layouts: Seq<(WindowId, Rect)>,
    pid: i32,
    k: int,
    upto: int,
) -> Seq<MoveStep>
    decreases upto - k,
{
    if k < 0 || k >= upto || k >= ids.len() {
        Seq::empty()
    } else {
        (if rmap_has(layouts, ids[k]) {
            seq![
                MoveStep {
                    pid,
                    index_in_pid: k as usize,
                    window_id: ids[k],
                    rect: rmap_get(layouts, ids[k]),
                },
            ]
        } else {
            Seq::empty()
        }) + spec_pid_steps(ids, layouts, pid, k + 1, upto)
    }
}

/// The whole plan: the per-process steps, processes in the order the host
/// listed them. For each process, only as many records are matched as the
/// host actually exposes accessible windows (`pid_counts` gives that count);
/// the remainder is left for the next pass.
pub open spec fn spec_plan(
    ws: Seq<Window>,
    layouts: Seq<(WindowId, Rect)>,
    pid_counts: Seq<(i32, usize)>,
    i: int,
) -> Seq<MoveStep>
    decreases pid_counts.len() - i,
{
    if i < 0 || i >= pid_counts.len() {
        Seq::empty()
    } else {
        let pid = pid_counts[i].0;
        let ids = spec_pid_ids(ws, pid);
        let host = pid_counts[i].1 as int;
        let upto = if ids.len() <= host {
            ids.len() as int
        } else {
            host
        };
        spec_pid_steps(ids, layouts, pid, 0, upto) + spec_plan(ws, layouts, pid_counts, i + 1)
    }
}

/// Collect the identifiers of one process's windows.
fn pid_ids(windows: &Vec<Window>, pid: i32) -> (r: Vec<WindowId>)
    ensures
        r@ == spec_pid_ids(windows@, pid),
{
    let n = windows.len();
    proof {
        assert(windows@.subrange(0, n as int) =~= windows@);
    }
    let mut out: Vec<WindowId> = Vec::new();
    let mut i: usize = 0;
    while i < n
        invariant
            i <= n,
            n == windows@.len(),
            spec_pid_ids(windows@, pid) == out@ + spec_pid_ids(
                windows@.subrange(i as int, n as int),
                pid,
            ),
        decreases n - i,
    {
        proof {
            let rest = windows@.subrange(i as int, n as int);
            assert(rest[0] == windows@[i as int]);
            assert(rest.subrange(1, rest.len() as int) =~= windows@.subrange(
                i + 1 as int,
                n as int,
            ));
        }
        let ghost pre = out@;
        if windows[i].owner_pid == pid {
            out.push(windows[i].id);
            proof {
                assert(out@ =~= pre + seq![windows@[i as int].id]);
                assert(spec_pid_ids(windows@, pid) =~= out@ + spec_pid_ids(
                    windows@.subrange(i + 1 as int, n as int),
                    pid,
                ));
            }
        } else {
            proof {
                assert(spec_pid_ids(windows@, pid) =~= out@ + spec_pid_ids(
                    windows@.subrange(i + 1 as int, n as int),
                    pid,
                ));
            }
        }
        i += 1;
    }
    proof {
        assert(windows@.subrange(n as int, n as int) =~= Seq::<Window>::empty());
        assert(spec_pid_ids(Seq::<Window>::empty(), pid) =~= Seq::<WindowId>::empty());
        assert(out@ =~= spec_pid_ids(windows@, pid));
    }
    out
}

/// Build the per-process move steps for a layout: partition the records by
/// owning process, match each process's records to the host's accessible
/// windows by position, and look each matched record's target rectangle up.
pub fn plan_bulk_moves(
    windows: &Vec<Window>,
    layouts: &Vec<(WindowId, Rect)>,
    pid_counts: &Vec<(i32, usize)>,
) -> (r: Vec<MoveStep>)
    requires
        rmap_distinct(layouts@),
    ensures
        r@ == spec_plan(windows@, layouts@, pid_counts@, 0),
{
    let pn = pid_counts.len();
    let mut out: Vec<MoveStep> = Vec::new();
    let mut i: usize = 0;
    while i < pn
        invariant
            i <= pn,
            pn == pid_counts@.len(),
            rmap_distinct(layouts@),
            spec_plan(windows@, layouts@, pid_counts@, 0) == out@ + spec_plan(
                windows@,
                layouts@,
                pid_counts@,
                i as int,
            ),
        decreases pn - i,
    {
        let pid = pid_counts[i].0;
        let host = pid_counts[i].1;
        let ids = pid_ids(windows, pid);
        let upto = if ids.len() <= host {
            ids.len()
        } else {
            host
        };
        let ghost round_base = out@;
        let mut k: usize = 0;
        while k < upto
            invariant
                k <= upto,
                upto <= ids@.len(),
                rmap_distinct(layouts@),
                ids@ == spec_pid_ids(windows@, pid),
                spec_pid_steps(ids@, layouts@, pid, 0, upto as int) == out@.subrange(
                    round_base.len() as int,
                    out@.len() as int,
                ) + spec_pid_steps(ids@, layouts@, pid, k as int, upto as int),
                out@.subrange(0, round_base.len() as int) == round_base,
                out@.len() >= round_base.len(),
            decreases upto - k,
        {
            let ghost pre = out@;
            match rmap_lookup(layouts, ids[k]) {
                Some(rect) => {
                    out.push(
                        MoveStep { pid, index_in_pid: k, window_id: ids[k], rect },
                    );
                    proof {
                        assert(out@.subrange(0, round_base.len() as int) =~= round_base);
                        assert(out@.subrange(round_base.len() as int, out@.len() as int)
                            =~= pre.subrange(round_base.len() as int, pre.len() as int)
                            + seq![out@.last()]);
                        assert(spec_pid_steps(ids@, layouts@, pid, k as int, upto as int)
                            =~= seq![out@.last()] + spec_pid_steps(
                            ids@,
                            layouts@,
                            pid,
                            k + 1 as int,
                            upto as int,
                        ));
                        assert(spec_pid_steps(ids@, layouts@, pid, 0, upto as int)
                            =~= out@.subrange(round_base.len() as int, out@.len() as int)
                            + spec_pid_steps(ids@, layouts@, pid, k + 1 as int, upto as int));
                    }
                },
                None => {
                    proof {
                        assert(spec_pid_steps(ids@, layouts@, pid, k as int, upto as int)
                            =~= spec_pid_steps(ids@, layouts@, pid, k + 1 as int, upto as int));
                    }
                },
            }
            k += 1;
        }
        proof {
            assert(spec_pid_steps(ids@, layouts@, pid, upto as int, upto as int)
                =~= Seq::<MoveStep>::empty());
            assert(out@.subrange(round_base.len() as int, out@.len() as int) =~= spec_pid_steps(
                ids@,
                layouts@,
                pid,
                0,
                upto as int,
            ));
            assert(out@ =~= round_base + spec_pid_steps(ids@, layouts@, pid, 0, upto as int));
            let host_i = pid_counts@[i as int].1 as int;
            assert(upto as int == if ids@.len() <= host_i {
                ids@.len() as int
            } else {
                host_i
            });
            assert(spec_plan(windows@, layouts@, pid_counts@, i as int) =~= spec_pid_steps(
                ids@,
                layouts@,
                pid,
                0,
                upto as int,
            ) + spec_plan(windows@, layouts@, pid_counts@, i + 1 as int));
            assert(spec_plan(windows@, layouts@, pid_counts@, 0) =~= out@ + spec_plan(
                windows@,
                layouts@,
                pid_counts@,
                i + 1 as int,
            ));
        }
        i += 1;
    }
    proof {
        assert(spec_plan(windows@, layouts@, pid_counts@, pn as int) =~= Seq::<
            MoveStep,
        >::empty());
        assert(out@ =~= spec_plan(windows@, layouts@, pid_counts@, 0));
    }
    out
}

} // verus!
