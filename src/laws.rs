//! Properties that relate several operations of the canvas.
use crate::canvas::{due_for_notice, link_step, scanned, CanvasState, Todo};
use crate::recurrence::LoopFrequency;
use crate::time::Timestamp;
use vstd::prelude::*;

verus! {

/// Two link gestures from no pending link, on `a` and then on `b`, leave no
/// link pending; they make the one link `(a, b)` when the ids differ and no
/// link when they are the same.
pub proof fn lemma_link_pairing(a: usize, b: usize)
    ensures
        link_step(link_step(None, a).0, b).0 is None,
        link_step(None, a).1 is None,
        a != b ==> link_step(link_step(None, a).0, b).1 == Some((a, b)),
        a == b ==> link_step(link_step(None, a).0, b).1 is None,
{
}

/// A one-shot to-do item that has been announced is never announced again
/// and stays as it is, over any run of reminder scans.
pub proof fn lemma_announced_once_stays_quiet<G>(runs: Seq<Todo<G>>, times: Seq<Timestamp>)
    requires
        runs.len() == times.len() + 1,
        runs[0].loop_freq == LoopFrequency::Once,
        runs[0].notified,
        forall|k: int| 0 <= k < times.len() ==> scanned(#[trigger] runs[k], runs[k + 1], times[k]),
    ensures
        forall|k: int| 0 <= k < times.len() ==> !due_for_notice(#[trigger] runs[k], times[k]),
        forall|k: int| 0 <= k < runs.len() ==> #[trigger] runs[k] == runs[0],
    decreases times.len(),
{
    if times.len() > 0 {
        let n = times.len() - 1;
        lemma_announced_once_stays_quiet(runs.drop_last(), times.drop_last());
        assert(runs.drop_last()[n] == runs[n]);
        assert(scanned(runs[n], runs[n + 1], times[n]));
        assert forall|k: int| 0 <= k < times.len() implies !due_for_notice(#[trigger] runs[k], times[k]) by {
            if k < n {
                assert(runs.drop_last()[k] == runs[k]);
                assert(times.drop_last()[k] == times[k]);
            }
        }
        assert forall|k: int| 0 <= k < runs.len() implies #[trigger] runs[k] == runs[0] by {
            if k <= n {
                assert(runs.drop_last()[k] == runs[k]);
            }
        }
    }
}

/// A recurring to-do item that a scan announces comes out still armed,
/// with a due time after the time of the scan.
pub proof fn lemma_recurring_rearms<G>(t: Todo<G>, u: Todo<G>, now: Timestamp)
    requires
        t.loop_freq != LoopFrequency::Once,
        due_for_notice(t, now),
        scanned(t, u, now),
    ensures
        !u.notified,
        u.due matches Some(d) && d.utc_secs > now.utc_secs,
        !due_for_notice(u, now),
{
}

/// A link with an end that resolves to no item adds nothing to what is
/// drawn.
pub proof fn lemma_dangling_link_not_drawn<G>(
    s: CanvasState<G>,
    links: Seq<(usize, usize)>,
    a: usize,
    b: usize,
)
    requires
        s.place_of(a) is None || s.place_of(b) is None,
    ensures
        s.drawn_links(links.push((a, b))) == s.drawn_links(links),
{
    assert(links.push((a, b)).drop_last() =~= links);
}

} // verus!
