//! A keyed collection of lines and the merge that reconciles two of them.
use std::collections::BTreeMap;
use vstd::prelude::*;
use vstd::std_specs::btree::{axiom_spec_keys_iter, spec_keys_iter};
use vstd::std_specs::iter::IteratorSpec;

use crate::geometry::Rect;
use crate::line::{usable_rect, Line, LineView, MergeMode};


verus! {

/// Lines keyed by their author-chosen id.
pub struct Lines(pub BTreeMap<u64, Line>);

impl View for Lines {
    type V = Map<u64, LineView>;

    open spec fn view(&self) -> Map<u64, LineView> {
        self.0@.map_values(|l: Line| l@)
    }
}

/// Every line of `m`, transformed.
pub open spec fn lines_transformed(
    m: Map<u64, LineView>,
    rect: Option<Rect>,
    mode: MergeMode,
) -> Map<u64, LineView> {
    m.map_values(|l: LineView| l.transformed(rect, mode))
}

/// Whether the entry of `incoming` under `id` is taken into the destination `dest`:
/// it is new there, or flagged as changed.
pub open spec fn takes_incoming(
    dest: Map<u64, LineView>,
    incoming: Map<u64, LineView>,
    changed: Set<u64>,
    id: u64,
) -> bool {
    incoming.contains_key(id) && (!dest.contains_key(id) || changed.contains(id))
}

/// `dest` after the entries of `incoming` whose ids are in `done` have been
/// folded into it: new ids are added, ids flagged as changed are replaced, and
/// the others keep the destination's copy.
pub open spec fn merge_incoming(
    dest: Map<u64, LineView>,
    incoming: Map<u64, LineView>,
    changed: Set<u64>,
    rect: Option<Rect>,
    mode: MergeMode,
    done: Set<u64>,
) -> Map<u64, LineView> {
    Map::new(
        |id: u64| dest.contains_key(id) || (done.contains(id) && incoming.contains_key(id)),
        |id: u64|
            if done.contains(id) && takes_incoming(dest, incoming, changed, id) {
                incoming[id].transformed(rect, mode)
            } else {
                dest[id]
            },
    )
}

/// Result of merging `incoming` into `dest`: every id of `incoming` that is new
/// to `dest` or flagged in `changed` takes the (transformed) incoming line; every
/// other id of `dest` keeps its line, except the ids flagged in `changed` that do
/// not occur in `incoming`, which are removed.
pub open spec fn merged(
    dest: Map<u64, LineView>,
    incoming: Map<u64, LineView>,
    changed: Set<u64>,
    rect: Option<Rect>,
    mode: MergeMode,
) -> Map<u64, LineView> {
    Map::new(
        |id: u64|
            incoming.contains_key(id) || (dest.contains_key(id) && !changed.contains(id)),
        |id: u64|
            if takes_incoming(dest, incoming, changed, id) {
                incoming[id].transformed(rect, mode)
            } else {
                dest[id]
            },
    )
}

/// Whether `id` occurs in `ids`.
pub(crate) fn contains_id(ids: &Vec<u64>, id: u64) -> (r: bool)
    ensures
        r == ids@.contains(id),
{
    let mut i: usize = 0;
    while i < ids.len()
        invariant
            i <= ids@.len(),
            forall|j: int| 0 <= j < i ==> ids@[j] != id,
        decreases ids@.len() - i,
    {
        if ids[i] == id {
            return true;
        }
        i = i + 1;
    }
    false
}

impl Lines {
    /// An empty collection.
    pub fn new() -> (r: Lines)
        ensures
            r@ == Map::<u64, LineView>::empty(),
    {
        let r = Lines(BTreeMap::new());
        assert(r@ =~= Map::<u64, LineView>::empty());
        r
    }

    /// A collection of the given entries; where an id occurs more than once,
    /// the last entry wins.
    pub fn from_entries(entries: Vec<(u64, Line)>) -> (r: Lines)
        ensures
            forall|id: u64|
                #![trigger r@.contains_key(id)]
                r@.contains_key(id) <==> exists|i: int|
                    0 <= i < entries@.len() && (#[trigger] entries@[i]).0 == id,
            forall|i: int|
                #![trigger entries@[i]]
                0 <= i < entries@.len() && (forall|j: int|
                    i < j < entries@.len() ==> (#[trigger] entries@[j]).0 != entries@[i].0)
                    ==> r@[entries@[i].0] == entries@[i].1@,
    {
        let ghost all = entries@;
        let mut lines = Lines::new();
        let mut rest = entries;
        // Walk from the back, so that the first entry met for an id is the one that wins.
        while rest.len() > 0
            invariant
                rest@.len() <= all.len(),
                rest@ == all.take(rest@.len() as int),
                forall|id: u64|
                    #![trigger lines@.contains_key(id)]
                    lines@.contains_key(id) <==> exists|i: int|
                        rest@.len() <= i < all.len() && (#[trigger] all[i]).0 == id,
                forall|i: int|
                    #![trigger all[i]]
                    rest@.len() <= i < all.len() && (forall|j: int|
                        i < j < all.len() ==> (#[trigger] all[j]).0 != all[i].0)
                        ==> lines@[all[i].0] == all[i].1@,
            decreases rest@.len(),
        {
            let ghost before = lines@;
            let ghost m = rest@.len() - 1;
            let ghost tail = rest@;
            match rest.pop() {
                Some((id, line)) => {
                    assert(tail[m] == (id, line));
                    assert(tail[m] == all[m]);
                    assert(rest@ =~= all.take(m));
                    if !lines.contains(id) {
                        lines.insert(id, line);
                    }
                    assert forall|x: u64| #[trigger] lines@.contains_key(x) implies exists|i: int|
                        m <= i < all.len() && (#[trigger] all[i]).0 == x by {
                        if x != id {
                            assert(before.contains_key(x));
                        } else {
                            assert(all[m].0 == x);
                        }
                    }
                    assert forall|x: u64|
                        (exists|i: int| m <= i < all.len() && (#[trigger] all[i]).0 == x)
                        implies #[trigger] lines@.contains_key(x) by {
                        let i = choose|i: int| m <= i < all.len() && (#[trigger] all[i]).0 == x;
                        if i > m {
                            assert(before.contains_key(x));
                        }
                    }
                    assert forall|i: int|
                        m <= i < all.len() && (forall|j: int|
                            i < j < all.len() ==> (#[trigger] all[j]).0 != all[i].0)
                        implies lines@[#[trigger] all[i].0] == all[i].1@ by {
                        if i > m {
                            if all[i].0 == id {
                                assert(before.contains_key(id));
                            }
                        } else {
                            assert(!before.contains_key(id));
                        }
                    }
                },
                None => {},
            }
        }
        lines
    }

    /// Number of lines.
    pub fn len(&self) -> (r: usize)
        ensures
            r == self@.len(),
    {
        proof {
            assert(self@.dom() =~= self.0@.dom());
        }
        self.0.len()
    }

    /// Whether a line with `id` is held.
    pub fn contains(&self, id: u64) -> (r: bool)
        ensures
            r == self@.contains_key(id),
    {
        self.0.contains_key(&id)
    }

    /// The line with `id`, if held.
    pub fn get(&self, id: u64) -> (r: Option<&Line>)
        ensures
            match r {
                Some(l) => self@.contains_key(id) && l@ == self@[id],
                None => !self@.contains_key(id),
            },
    {
        self.0.get(&id)
    }

    /// Inserts `line` under `id`, replacing any line held there.
    pub fn insert(&mut self, id: u64, line: Line)
        ensures
            final(self)@ == old(self)@.insert(id, line@),
    {
        self.0.insert(id, line);
        assert(self@ =~= old(self)@.insert(id, line@));
    }

    /// Removes the line with `id`, returning it if it was held.
    pub fn remove(&mut self, id: u64) -> (r: Option<Line>)
        ensures
            final(self)@ == old(self)@.remove(id),
            match r {
                Some(l) => old(self)@.contains_key(id) && l@ == old(self)@[id],
                None => !old(self)@.contains_key(id),
            },
    {
        let r = self.0.remove(&id);
        assert(self@ =~= old(self)@.remove(id));
        r
    }

    /// Removes every line.
    pub fn clear(&mut self)
        ensures
            final(self)@ == Map::<u64, LineView>::empty(),
    {
        self.0.clear();
        assert(self@ =~= Map::<u64, LineView>::empty());
    }

    /// The ids of all lines, each once.
    pub fn ids(&self) -> (r: Vec<u64>)
        ensures
            r@.to_set() == self@.dom(),
            r@.no_duplicates(),
    {
        let mut out: Vec<u64> = Vec::new();
        let ghost ks = spec_keys_iter(&self.0).remaining();
        for k in it: self.0.keys()
            invariant
                it.seq() == ks,
                out@.len() == it.index(),
                forall|i: int| 0 <= i < it.index() ==> out@[i] == *it.seq()[i],
        {
            out.push(*k);
        }
        proof {
            axiom_spec_keys_iter(&self.0);
            assert(out@ =~= ks.unref());
        }
        out
    }

    /// A copy of this collection with every line transformed.
    pub fn transformed(&self, rect: Option<Rect>, mode: MergeMode) -> (r: Lines)
        requires
            usable_rect(rect),
        ensures
            r@ == lines_transformed(self@, rect, mode),
    {
        let ids = self.ids();
        let mut out = Lines::new();
        for i in 0..ids.len()
            invariant
                usable_rect(rect),
                ids@.to_set() == self@.dom(),
                ids@.no_duplicates(),
                out@ == lines_transformed(self@, rect, mode).restrict(ids@.take(i as int).to_set()),
        {
            let id = ids[i];
            assert(self@.dom().contains(id)) by {
                assert(ids@.contains(id));
            }
            match self.get(id) {
                Some(line) => {
                    out.insert(id, line.transformed(rect, mode));
                },
                None => {},
            }
            assert(ids@.take(i + 1).to_set() =~= ids@.take(i as int).to_set().insert(id)) by {
                assert(ids@.take(i + 1) =~= ids@.take(i as int).push(id));
                ids@.take(i as int).lemma_push_to_set_commute(id);
            }
            assert(out@ =~= lines_transformed(self@, rect, mode).restrict(
                ids@.take(i + 1).to_set(),
            ));
        }
        assert(ids@.take(ids@.len() as int) =~= ids@);
        assert(out@ =~= lines_transformed(self@, rect, mode));
        out
    }

    /// Takes every line from the canvas space of `canvas_rect` into the normalized space.
    pub fn from_canvas(&mut self, canvas_rect: &Rect)
        requires
            canvas_rect.is_valid(),
        ensures
            final(self)@ == lines_transformed(
                old(self)@,
                Some(*canvas_rect),
                MergeMode::FromCanvas,
            ),
    {
        *self = self.transformed(Some(*canvas_rect), MergeMode::FromCanvas);
    }

    /// Takes every line from the normalized space into the canvas space of `canvas_rect`.
    pub fn to_canvas(&mut self, canvas_rect: &Rect)
        requires
            canvas_rect.is_valid(),
        ensures
            final(self)@ == lines_transformed(old(self)@, Some(*canvas_rect), MergeMode::ToCanvas),
    {
        *self = self.transformed(Some(*canvas_rect), MergeMode::ToCanvas);
    }

    /// Adds the lines of `other` whose ids are new here; a line held here keeps
    /// its own copy. This is `merge` with no id flagged and no transform.
    pub fn update_from_other(&mut self, other: Lines)
        ensures
            final(self)@ == merged(old(self)@, other@, Set::empty(), None, MergeMode::FromCanvas),
            final(self)@ == old(self)@.union_prefer_right(other@.remove_keys(old(self)@.dom())),
    {
        let none: Vec<u64> = Vec::new();
        assert(none@.to_set() =~= Set::<u64>::empty());
        self.merge(&other, &none, None, MergeMode::FromCanvas);
        assert forall|id: u64| #[trigger] other@.contains_key(id) implies other@[id].transformed(
            None,
            MergeMode::FromCanvas,
        ) == other@[id] by {
            assert(other@[id].transformed(None, MergeMode::FromCanvas).points =~= other@[id].points);
        }
        assert(self@ =~= old(self)@.union_prefer_right(other@.remove_keys(old(self)@.dom())));
    }

    /// Folds `incoming` into this collection.
    ///
    /// An incoming line whose id is new here is added; one whose id is held here
    /// replaces the held line only when the id is flagged in `changed`, and is
    /// otherwise ignored, so a line that was edited here is not overwritten by an
    /// older copy. Flagged ids that do not occur in `incoming` are removed. Added
    /// and replacing lines are transformed through `rect` in direction `mode`.
    /// Every flagged id is settled by one of these steps.
    pub fn merge(&mut self, incoming: &Lines, changed: &Vec<u64>, rect: Option<Rect>, mode: MergeMode)
        requires
            usable_rect(rect),
        ensures
            final(self)@ == merged(old(self)@, incoming@, changed@.to_set(), rect, mode),
    {
        let ghost dest = self@;
        let ghost cs = changed@.to_set();
        let ids = incoming.ids();
        for i in 0..ids.len()
            invariant
                usable_rect(rect),
                ids@.to_set() == incoming@.dom(),
                ids@.no_duplicates(),
                cs == changed@.to_set(),
                self@ == merge_incoming(dest, incoming@, cs, rect, mode, ids@.take(i as int).to_set()),
        {
            let id = ids[i];
            assert(incoming@.dom().contains(id)) by {
                assert(ids@.contains(id));
            }
            assert(ids@.take(i + 1).to_set() =~= ids@.take(i as int).to_set().insert(id)) by {
                assert(ids@.take(i + 1) =~= ids@.take(i as int).push(id));
                ids@.take(i as int).lemma_push_to_set_commute(id);
            }
            match incoming.get(id) {
                Some(line) => {
                    if !self.contains(id) || contains_id(changed, id) {
                        self.insert(id, line.transformed(rect, mode));
                    }
                },
                None => {},
            }
            assert(self@ =~= merge_incoming(
                dest,
                incoming@,
                cs,
                rect,
                mode,
                ids@.take(i + 1).to_set(),
            ));
        }
        assert(ids@.take(ids@.len() as int) =~= ids@);
        let ghost stepped = self@;
        assert(stepped == merge_incoming(dest, incoming@, cs, rect, mode, incoming@.dom()));
        for j in 0..changed.len()
            invariant
                cs == changed@.to_set(),
                stepped == merge_incoming(dest, incoming@, cs, rect, mode, incoming@.dom()),
                self@ == stepped.remove_keys(
                    changed@.take(j as int).to_set().difference(incoming@.dom()),
                ),
        {
            let id = changed[j];
            assert(changed@.take(j + 1).to_set() =~= changed@.take(j as int).to_set().insert(id))
                by {
                assert(changed@.take(j + 1) =~= changed@.take(j as int).push(id));
                changed@.take(j as int).lemma_push_to_set_commute(id);
            }
            if !incoming.contains(id) {
                self.remove(id);
            }
            assert(self@ =~= stepped.remove_keys(
                changed@.take(j + 1).to_set().difference(incoming@.dom()),
            ));
        }
        assert(changed@.take(changed@.len() as int) =~= changed@);
        assert(self@ =~= merged(dest, incoming@, cs, rect, mode));
    }
}

} // verus!
