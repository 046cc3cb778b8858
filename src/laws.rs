//! Properties of the shared state that hold across several operations.
use vstd::prelude::*;

use crate::geometry::{
    lemma_canvas_round_trip, lemma_canvas_round_trip_within, within_reach, Rect, UNIT,
};
use crate::line::{LineView, MergeMode};
use crate::lines::{lines_transformed, merged};
use crate::sync::{applied, SyncView};

verus! {

/// Two clients that each push lines under new ids, disjoint from each other's,
/// and then both pull, end up holding the union of those lines: the canonical
/// lines are the same whichever pushed first, both pulls hand back every
/// canonical id, and each client's local copy then holds all of them.
pub proof fn lemma_convergence(
    s: SyncView,
    a: u64,
    b: u64,
    ia: Map<u64, LineView>,
    ib: Map<u64, LineView>,
    ra: Rect,
    rb: Rect,
    la: Map<u64, LineView>,
    lb: Map<u64, LineView>,
)
    requires
        s.has_client(a),
        s.has_client(b),
        a != b,
        !s.clients[a as int].awaiting_clear,
        !s.clients[b as int].awaiting_clear,
        ia.dom().disjoint(ib.dom()),
        ia.dom().disjoint(s.lines.dom()),
        ib.dom().disjoint(s.lines.dom()),
    ensures
        ({
            let none = Set::<u64>::empty();
            let s_ab = s.pushed(a, ia, none, Some(ra)).pushed(b, ib, none, Some(rb));
            let s_ba = s.pushed(b, ib, none, Some(rb)).pushed(a, ia, none, Some(ra));
            let union = s.lines.dom().union(ia.dom()).union(ib.dom());
            let pa = s_ab.pull_result(a, ra);
            let pb = s_ab.pulled(a).pull_result(b, rb);
            &&& s_ab.lines == s_ba.lines
            &&& s_ab.lines.dom() == union
            &&& pa.lines.dom() == union
            &&& pb.lines.dom() == union
            &&& union.subset_of(applied(la, pa).dom())
            &&& union.subset_of(applied(lb, pb).dom())
        }),
{
    let none = Set::<u64>::empty();
    let s_a = s.pushed(a, ia, none, Some(ra));
    let s_ab = s_a.pushed(b, ib, none, Some(rb));
    let s_b = s.pushed(b, ib, none, Some(rb));
    let s_ba = s_b.pushed(a, ia, none, Some(ra));
    let union = s.lines.dom().union(ia.dom()).union(ib.dom());
    assert(s_ab.lines =~= s_ba.lines);
    assert(s_ab.lines.dom() =~= union);
    let pa = s_ab.pull_result(a, ra);
    let pb = s_ab.pulled(a).pull_result(b, rb);
    assert(pa.lines.dom() =~= union);
    assert(pb.lines.dom() =~= union);
}

/// After client `a` deletes the lines with the ids in `ids`, the next pull by
/// any other registered client hands back none of them, and flags each of them
/// as changed unless it carries the clear flag.
pub proof fn lemma_deletion_visible(
    s: SyncView,
    a: u64,
    ids: Set<u64>,
    b: u64,
    rect: Rect,
    x: u64,
)
    requires
        s.has_client(a),
        s.has_client(b),
        a != b,
        ids.contains(x),
    ensures
        ({
            let p = s.deleted(a, ids).pull_result(b, rect);
            &&& !p.lines.contains_key(x)
            &&& p.clear || (p.changed matches Some(ch) && ch.contains(x))
        }),
{
}

/// Whether client `b` is still owed the deletion of line `x`: the canonical
/// lines lack `x`, and `b` will be told on its next pull, either through its
/// changed ids or through the clear flag.
pub open spec fn owes_deletion(s: SyncView, b: u64, x: u64) -> bool {
    &&& s.has_client(b)
    &&& !s.lines.contains_key(x)
    &&& s.clients[b as int].awaiting_clear || s.clients[b as int].pending.contains(x)
}

/// A deletion of `x` by client `a` leaves every other registered client owed it.
pub proof fn lemma_deletion_owed(s: SyncView, a: u64, ids: Set<u64>, b: u64, x: u64)
    requires
        s.has_client(a),
        s.has_client(b),
        a != b,
        ids.contains(x),
    ensures
        owes_deletion(s.deleted(a, ids), b, x),
{
}

/// A deletion owed to client `b` stays owed until `b` pulls, whatever happens
/// in between: pushes that do not bring `x` back, deletions, pulls by other
/// clients, registrations and clears.
pub proof fn lemma_deletion_stays_owed(
    s: SyncView,
    b: u64,
    x: u64,
    c: u64,
    incoming: Map<u64, LineView>,
    changed: Set<u64>,
    rect: Option<Rect>,
    ids: Set<u64>,
    peer: Seq<char>,
)
    requires
        owes_deletion(s, b, x),
    ensures
        !incoming.contains_key(x) ==> owes_deletion(s.pushed(c, incoming, changed, rect), b, x),
        owes_deletion(s.deleted(c, ids), b, x),
        s.has_client(c) && c != b ==> owes_deletion(s.pulled(c), b, x),
        owes_deletion(s.registered(peer), b, x),
        owes_deletion(s.cleared(), b, x),
{
}

/// A pull by a client that is owed the deletion of `x` hands back no line `x`,
/// and flags `x` as changed unless it carries the clear flag.
pub proof fn lemma_owed_deletion_visible(s: SyncView, b: u64, x: u64, rect: Rect)
    requires
        owes_deletion(s, b, x),
    ensures
        ({
            let p = s.pull_result(b, rect);
            &&& !p.lines.contains_key(x)
            &&& p.clear || (p.changed matches Some(ch) && ch.contains(x))
        }),
{
}

/// A pushed line under an id that the canonical lines already hold, and that
/// the push does not flag as changed, leaves the canonical line as it was.
pub proof fn lemma_no_clobber(
    s: SyncView,
    c: u64,
    incoming: Map<u64, LineView>,
    changed: Set<u64>,
    rect: Option<Rect>,
    y: u64,
)
    requires
        incoming.contains_key(y),
        !changed.contains(y),
        s.lines.contains_key(y),
    ensures
        s.pushed(c, incoming, changed, rect).lines.contains_key(y),
        s.pushed(c, incoming, changed, rect).lines[y] == s.lines[y],
{
}

/// After a clear, every client registered at that time gets the clear flag on
/// its next pull, and not on the pull after that.
pub proof fn lemma_clear_observed_once(s: SyncView, c: u64, r1: Rect, r2: Rect)
    requires
        s.has_client(c),
    ensures
        s.cleared().has_client(c),
        s.cleared().pull_result(c, r1).clear,
        !s.cleared().pulled(c).pull_result(c, r2).clear,
{
}

/// Only a clear holds a client to observe a clear: once a client has observed
/// one, pushes, deletions, pulls and registrations leave it free of the barrier,
/// and a newly registered client starts free of it.
pub proof fn lemma_only_clear_arms_barrier(
    s: SyncView,
    c: u64,
    a: u64,
    incoming: Map<u64, LineView>,
    changed: Set<u64>,
    rect: Option<Rect>,
    ids: Set<u64>,
    b: u64,
    peer: Seq<char>,
)
    requires
        s.has_client(c),
        s.has_client(b),
        !s.clients[c as int].awaiting_clear,
    ensures
        !s.pushed(a, incoming, changed, rect).clients[c as int].awaiting_clear,
        !s.deleted(a, ids).clients[c as int].awaiting_clear,
        !s.pulled(b).clients[c as int].awaiting_clear,
        !s.registered(peer).clients[c as int].awaiting_clear,
        s.registered(peer).has_client(c),
        s.client_of(peer) is None ==> !s.registered(peer).clients[s.clients.len() as int].awaiting_clear,
{
}

/// A second pull with nothing pushed or deleted in between flags no ids as
/// changed and carries no clear flag.
pub proof fn lemma_pull_idempotent(s: SyncView, c: u64, r: Rect)
    requires
        s.has_client(c),
    ensures
        s.pulled(c).pull_result(c, r).changed == Some(Set::<u64>::empty()),
        !s.pulled(c).pull_result(c, r).clear,
        s.pulled(c).pulled(c) == s.pulled(c),
{
    assert(s.pulled(c).pulled(c).clients =~= s.pulled(c).clients);
}

/// A merge settles every flagged id: one that occurs in the incoming lines ends
/// up holding the (transformed) incoming line, and one that does not is gone.
pub proof fn lemma_merge_settles_changed(
    dest: Map<u64, LineView>,
    incoming: Map<u64, LineView>,
    changed: Set<u64>,
    rect: Option<Rect>,
    mode: MergeMode,
    id: u64,
)
    requires
        changed.contains(id),
    ensures
        incoming.contains_key(id) ==> merged(dest, incoming, changed, rect, mode).contains_key(id)
            && merged(dest, incoming, changed, rect, mode)[id] == incoming[id].transformed(
            rect,
            mode,
        ),
        !incoming.contains_key(id) ==> !merged(dest, incoming, changed, rect, mode).contains_key(
            id,
        ),
{
}

/// Lines taken from a canvas into the normalized space and back onto the same
/// canvas come back unchanged, for canvases up to `UNIT` wide and high and
/// points within reach of the canvas corner.
pub proof fn lemma_lines_round_trip(m: Map<u64, LineView>, r: Rect)
    requires
        r.is_valid(),
        r.width <= UNIT,
        r.height <= UNIT,
        forall|id: u64, i: int|
            m.contains_key(id) && 0 <= i < m[id].points.len() ==> within_reach(
                #[trigger] m[id].points[i],
                r,
            ),
    ensures
        lines_transformed(
            lines_transformed(m, Some(r), MergeMode::FromCanvas),
            Some(r),
            MergeMode::ToCanvas,
        ) == m,
{
    let back = lines_transformed(
        lines_transformed(m, Some(r), MergeMode::FromCanvas),
        Some(r),
        MergeMode::ToCanvas,
    );
    assert forall|id: u64| #[trigger] m.contains_key(id) implies back[id] == m[id] by {
        assert forall|i: int| 0 <= i < m[id].points.len() implies back[id].points[i]
            == #[trigger] m[id].points[i] by {
            lemma_canvas_round_trip(m[id].points[i], r);
        }
        assert(back[id].points =~= m[id].points);
    }
    assert(back =~= m);
}

/// Lines taken from a canvas of any size into the normalized space and back
/// onto it keep their ids, strokes and point counts, and each point comes back
/// at most `width / UNIT` (on x) and `height / UNIT` (on y) below where it was,
/// for points within reach of the canvas corner.
pub proof fn lemma_lines_round_trip_within(m: Map<u64, LineView>, r: Rect)
    requires
        r.is_valid(),
        forall|id: u64, i: int|
            m.contains_key(id) && 0 <= i < m[id].points.len() ==> within_reach(
                #[trigger] m[id].points[i],
                r,
            ),
    ensures
        ({
            let back = lines_transformed(
                lines_transformed(m, Some(r), MergeMode::FromCanvas),
                Some(r),
                MergeMode::ToCanvas,
            );
            &&& back.dom() == m.dom()
            &&& forall|id: u64|
                #[trigger] m.contains_key(id) ==> back[id].stroke == m[id].stroke
                    && back[id].points.len() == m[id].points.len()
            &&& forall|id: u64, i: int|
                m.contains_key(id) && 0 <= i < m[id].points.len() ==> {
                    let p = #[trigger] m[id].points[i];
                    let q = back[id].points[i];
                    &&& p.x - (r.width as int) / (UNIT as int) <= q.x <= p.x
                    &&& p.y - (r.height as int) / (UNIT as int) <= q.y <= p.y
                }
        }),
{
    let back = lines_transformed(
        lines_transformed(m, Some(r), MergeMode::FromCanvas),
        Some(r),
        MergeMode::ToCanvas,
    );
    assert(back.dom() =~= m.dom());
    assert forall|id: u64, i: int|
        m.contains_key(id) && 0 <= i < m[id].points.len() implies {
            let p = #[trigger] m[id].points[i];
            let q = back[id].points[i];
            &&& p.x - (r.width as int) / (UNIT as int) <= q.x <= p.x
            &&& p.y - (r.height as int) / (UNIT as int) <= q.y <= p.y
        } by {
        lemma_canvas_round_trip_within(m[id].points[i], r);
    }
}

} // verus!
