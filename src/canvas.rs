//! A client's own drawing: the lines it holds in its canvas space, which of
//! them the server already has, and the line being drawn.
use vstd::prelude::*;

use crate::geometry::{Point, Rect};
use crate::line::{Line, LineView, MergeMode, Stroke};
use crate::lines::{contains_id, lines_transformed, Lines};
use crate::sync::{add_all, applied, PullResponse};

verus! {

/// Distance below which a pointer touches a point of a line.
pub const TOLERANCE: i64 = 10;

/// Which pointer button is held.
#[derive(Clone, Copy, Debug, PartialEq, Eq, Structural)]
pub enum MouseDown {
    NoButton,
    Primary,
    Secondary,
    Middle,
}

/// Whether `p` is closer than `TOLERANCE` to `q`.
pub open spec fn near(p: Point, q: Point) -> bool {
    (p.x - q.x) * (p.x - q.x) + (p.y - q.y) * (p.y - q.y) < TOLERANCE * TOLERANCE
}

/// Whether some point of `l` is near `pos`.
pub open spec fn touches(l: LineView, pos: Point) -> bool {
    exists|i: int| 0 <= i < l.points.len() && near(#[trigger] l.points[i], pos)
}

/// `m`, with `line` put back under `id` if `m` lost it.
pub open spec fn keeping(m: Map<u64, LineView>, id: u64, line: LineView) -> Map<u64, LineView> {
    if m.contains_key(id) {
        m
    } else {
        m.insert(id, line)
    }
}

/// Model of a client's drawing.
pub ghost struct CanvasView {
    pub lines: Map<u64, LineView>,
    /// Ids of lines that the server holds already.
    pub synced: Set<u64>,
    /// Id of the line being drawn.
    pub current: u64,
    pub stroke: Stroke,
    /// The canvas rectangle, fixed when the drawing starts.
    pub rect: Rect,
}

impl CanvasView {
    /// Ids of the lines, other than the one being drawn, that `pos` touches.
    pub open spec fn touched(self, pos: Point) -> Set<u64> {
        Set::new(
            |id: u64|
                self.lines.contains_key(id) && id != self.current && touches(self.lines[id], pos),
        )
    }

    /// Whether `pos` repeats the last point of the line being drawn.
    pub open spec fn repeats_last(self, pos: Point) -> bool {
        let cur = self.lines[self.current];
        cur.points.len() > 0 && cur.points.last() == pos
    }

    /// The drawing after `pos` is added to the line being drawn, unless it
    /// repeats the line's last point.
    pub open spec fn drawn(self, pos: Point) -> CanvasView {
        if self.repeats_last(pos) {
            self
        } else {
            let cur = self.lines[self.current];
            CanvasView {
                lines: self.lines.insert(
                    self.current,
                    LineView { points: cur.points.push(pos), ..cur },
                ),
                ..self
            }
        }
    }

    /// The drawing after the lines that `pos` touches are erased.
    pub open spec fn erased(self, pos: Point) -> CanvasView {
        CanvasView {
            lines: self.lines.remove_keys(self.touched(pos)),
            synced: self.synced.difference(self.touched(pos)),
            ..self
        }
    }

    /// Whether the line being drawn can be finished, with `new_id` for the next
    /// line: it has points, and `new_id` is free.
    pub open spec fn can_finish(self, new_id: u64) -> bool {
        self.lines[self.current].points.len() > 0 && !self.lines.contains_key(new_id)
    }

    /// The drawing after the line being drawn is finished: every held line is
    /// synced, and an empty line under `new_id` is being drawn.
    pub open spec fn finished(self, new_id: u64) -> CanvasView {
        CanvasView {
            lines: self.lines.insert(new_id, LineView { points: Seq::empty(), stroke: self.stroke }),
            synced: self.synced.union(self.lines.dom()),
            current: new_id,
            ..self
        }
    }

    /// Lines that the server does not hold yet, in the normalized space.
    pub open spec fn unsynced(self) -> Map<u64, LineView> {
        lines_transformed(
            self.lines.remove_keys(self.synced),
            Some(self.rect),
            MergeMode::FromCanvas,
        )
    }
}

/// What a pointer event asks of the caller.
pub enum PointerAction {
    /// Nothing to do.
    Idle,
    /// The line being drawn grew; repaint.
    Drew,
    /// Lines were erased: tell the server to delete these ids.
    Erase(Vec<u64>),
    /// The middle button drags the background.
    Pan,
    /// A line was finished: push these lines, already normalized.
    Push(Lines),
}

/// A client's drawing.
pub struct Canvas {
    lines: Lines,
    synced: Vec<u64>,
    current: u64,
    stroke: Stroke,
    rect: Rect,
}

impl View for Canvas {
    type V = CanvasView;

    closed spec fn view(&self) -> CanvasView {
        CanvasView {
            lines: self.lines@,
            synced: self.synced@.to_set(),
            current: self.current,
            stroke: self.stroke,
            rect: self.rect,
        }
    }
}

/// Relies on `getrandom::getrandom`: it fills the buffer from the operating
/// system's source of randomness, or fails. Nothing is promised of the value.
#[verifier::external_body]
fn random_u64() -> (r: Option<u64>) {
    let mut buffer = [0u8; 8];
    match getrandom::getrandom(&mut buffer) {
        Ok(()) => Some(u64::from_ne_bytes(buffer)),
        Err(_) => None,
    }
}

/// Whether some point of `line` is near `pos`.
fn line_touches(line: &Line, pos: Point) -> (r: bool)
    ensures
        r == touches(line@, pos),
{
    let mut i: usize = 0;
    while i < line.points.len()
        invariant
            i <= line.points@.len(),
            forall|j: int| 0 <= j < i ==> !near(#[trigger] line.points@[j], pos),
        decreases line.points@.len() - i,
    {
        let p = line.points[i];
        let dx: i128 = p.x as i128 - pos.x as i128;
        let dy: i128 = p.y as i128 - pos.y as i128;
        if -TOLERANCE as i128 <= dx && dx <= TOLERANCE as i128 && -TOLERANCE as i128 <= dy && dy
            <= TOLERANCE as i128 {
            assert(0 <= dx * dx <= 100 && 0 <= dy * dy <= 100) by (nonlinear_arith)
                requires
                    -10 <= dx <= 10,
                    -10 <= dy <= 10,
            ;
            if dx * dx + dy * dy < (TOLERANCE * TOLERANCE) as i128 {
                assert(near(line@.points[i as int], pos));
                return true;
            }
        } else {
            assert(!near(p, pos)) by (nonlinear_arith)
                requires
                    dx == p.x - pos.x,
                    dy == p.y - pos.y,
                    !(-10 <= dx <= 10 && -10 <= dy <= 10),
            ;
        }
        i = i + 1;
    }
    false
}

/// A copy of `line`.
fn copy_line(line: &Line) -> (r: Line)
    ensures
        r@ == line@,
{
    let r = line.transformed(None, MergeMode::ToCanvas);
    assert(r@.points =~= line@.points);
    r
}

impl Canvas {
    /// The drawing's internal consistency: the line being drawn is held, the
    /// rectangle can be mapped, and each synced id is listed once.
    pub closed spec fn wf(&self) -> bool {
        &&& self.lines@.contains_key(self.current)
        &&& self.rect.is_valid()
        &&& self.synced@.no_duplicates()
    }

    /// A drawing on the canvas `rect` with one empty line, under `first_id`,
    /// drawn with `stroke`.
    pub fn new(stroke: Stroke, rect: Rect, first_id: u64) -> (r: Canvas)
        requires
            rect.is_valid(),
        ensures
            r.wf(),
            r@.lines == map![first_id => LineView { points: Seq::empty(), stroke }],
            r@.synced == Set::<u64>::empty(),
            r@.current == first_id,
            r@.stroke == stroke,
            r@.rect == rect,
    {
        let mut lines = Lines::new();
        lines.insert(first_id, Line::new(stroke));
        let r = Canvas { lines, synced: Vec::new(), current: first_id, stroke, rect };
        assert(r@.lines =~= map![first_id => LineView { points: Seq::empty(), stroke }]);
        assert(r@.synced =~= Set::<u64>::empty());
        r
    }

    /// A drawing as `new` makes it, with a random id for the first line; `None`
    /// when no random number could be had.
    pub fn with_random_id(stroke: Stroke, rect: Rect) -> (r: Option<Canvas>)
        requires
            rect.is_valid(),
        ensures
            r matches Some(c) ==> c.wf() && c@.lines.len() == 1 && c@.synced.is_empty()
                && c@.stroke == stroke && c@.rect == rect && c@.lines[c@.current]
                == (LineView { points: Seq::empty(), stroke }),
    {
        match random_u64() {
            Some(id) => {
                let c = Canvas::new(stroke, rect, id);
                assert(c@.lines.dom() =~= set![id]);
                assert(c@.lines.len() == 1);
                Some(c)
            },
            None => None,
        }
    }

    /// The lines held, in canvas space.
    pub fn lines(&self) -> (r: &Lines)
        ensures
            r@ == self@.lines,
    {
        &self.lines
    }

    /// Id of the line being drawn.
    pub fn current(&self) -> (r: u64)
        ensures
            r == self@.current,
    {
        self.current
    }

    /// Whether the server holds the line with `id` already.
    pub fn is_synced(&self, id: u64) -> (r: bool)
        ensures
            r == self@.synced.contains(id),
    {
        contains_id(&self.synced, id)
    }

    /// Sets the stroke of lines started from now on.
    pub fn set_stroke(&mut self, stroke: Stroke)
        requires
            old(self).wf(),
        ensures
            final(self).wf(),
            final(self)@ == (CanvasView { stroke, ..old(self)@ }),
    {
        self.stroke = stroke;
    }

    /// Adds `pos` to the line being drawn, unless it repeats the line's last
    /// point. Returns whether the line grew.
    pub fn draw(&mut self, pos: Point) -> (grew: bool)
        requires
            old(self).wf(),
        ensures
            final(self).wf(),
            grew == !old(self)@.repeats_last(pos),
            final(self)@ == old(self)@.drawn(pos),
    {
        let id = self.current;
        match self.lines.remove(id) {
            Some(line) => {
                let mut line = line;
                let n = line.points.len();
                let repeats = n > 0 && line.points[n - 1] == pos;
                if !repeats {
                    line.points.push(pos);
                }
                self.lines.insert(id, line);
                assert(self@.lines =~= if repeats {
                    old(self)@.lines
                } else {
                    old(self)@.lines.insert(id, line@)
                });
                !repeats
            },
            None => false,
        }
    }

    /// Erases every line, except the one being drawn, that has a point near
    /// `pos`, and returns their ids, each once, for the server.
    pub fn erase_near(&mut self, pos: Point) -> (erased: Vec<u64>)
        requires
            old(self).wf(),
        ensures
            final(self).wf(),
            erased@.no_duplicates(),
            erased@.to_set() == old(self)@.touched(pos),
            final(self)@ == old(self)@.erased(pos),
    {
        let ghost start = self@;
        let ids = self.lines.ids();
        let mut erased: Vec<u64> = Vec::new();
        for i in 0..ids.len()
            invariant
                ids@.to_set() == start.lines.dom(),
                ids@.no_duplicates(),
                self.current == start.current,
                self.rect == start.rect,
                self.stroke == start.stroke,
                self.synced == old(self).synced,
                self.lines@ == start.lines.remove_keys(erased@.to_set()),
                erased@.no_duplicates(),
                erased@.to_set() == start.touched(pos).intersect(ids@.take(i as int).to_set()),
        {
            let id = ids[i];
            assert(ids@.take(i + 1) =~= ids@.take(i as int).push(id));
            proof {
                ids@.take(i as int).lemma_push_to_set_commute(id);
            }
            assert(start.lines.contains_key(id)) by {
                assert(ids@.contains(id));
            }
            let hit = if id == self.current {
                false
            } else {
                match self.lines.get(id) {
                    Some(line) => line_touches(line, pos),
                    None => false,
                }
            };
            if hit {
                let ghost before = erased@;
                self.lines.remove(id);
                erased.push(id);
                proof {
                    before.lemma_push_to_set_commute(id);
                }
            }
            assert(self.lines@ =~= start.lines.remove_keys(erased@.to_set()));
            assert(erased@.to_set() =~= start.touched(pos).intersect(ids@.take(i + 1).to_set()));
        }
        assert(ids@.take(ids@.len() as int) =~= ids@);
        assert(erased@.to_set() =~= start.touched(pos));
        let mut kept: Vec<u64> = Vec::new();
        for j in 0..self.synced.len()
            invariant
                kept@.no_duplicates(),
                erased@.to_set() == start.touched(pos),
                self.synced@.no_duplicates(),
                kept@.to_set() == self.synced@.take(j as int).to_set().difference(erased@.to_set()),
        {
            let id = self.synced[j];
            assert(self.synced@.take(j + 1) =~= self.synced@.take(j as int).push(id));
            proof {
                self.synced@.take(j as int).lemma_push_to_set_commute(id);
            }
            if !contains_id(&erased, id) {
                assert(!kept@.contains(id)) by {
                    if kept@.contains(id) {
                        assert(kept@.to_set().contains(id));
                        let k = choose|k: int| 0 <= k < j && self.synced@.take(j as int)[k] == id;
                        assert(self.synced@[k] == self.synced@[j as int]);
                    }
                }
                let ghost before = kept@;
                kept.push(id);
                proof {
                    before.lemma_push_to_set_commute(id);
                }
            }
            assert(kept@.to_set() =~= self.synced@.take(j + 1).to_set().difference(
                erased@.to_set(),
            ));
        }
        assert(self.synced@.take(self.synced@.len() as int) =~= self.synced@);
        self.synced = kept;
        assert(self@.lines.contains_key(self.current)) by {
            assert(!start.touched(pos).contains(start.current));
        }
        erased
    }

    /// Finishes the line being drawn and starts a new one under `new_id`.
    ///
    /// Returns, in the normalized space, every line that the server does not
    /// hold yet, and marks all held lines as synced. Returns `None`, changing
    /// nothing, when the line being drawn has no points or `new_id` is taken.
    pub fn finish_line(&mut self, new_id: u64) -> (r: Option<Lines>)
        requires
            old(self).wf(),
        ensures
            final(self).wf(),
            if old(self)@.can_finish(new_id) {
                &&& r matches Some(batch) && batch@ == old(self)@.unsynced()
                &&& final(self)@ == old(self)@.finished(new_id)
            } else {
                r is None && final(self)@ == old(self)@
            },
    {
        let empty = match self.lines.get(self.current) {
            Some(line) => line.points.len() == 0,
            None => true,
        };
        if empty || self.lines.contains(new_id) {
            return None;
        }
        let ghost start = self@;
        let ids = self.lines.ids();
        let mut pending = Lines::new();
        for i in 0..ids.len()
            invariant
                ids@.to_set() == start.lines.dom(),
                ids@.no_duplicates(),
                self@ == start,
                self.wf(),
                pending@ == start.lines.remove_keys(start.synced).restrict(
                    ids@.take(i as int).to_set(),
                ),
        {
            let id = ids[i];
            assert(ids@.take(i + 1) =~= ids@.take(i as int).push(id));
            proof {
                ids@.take(i as int).lemma_push_to_set_commute(id);
            }
            if !contains_id(&self.synced, id) {
                match self.lines.get(id) {
                    Some(line) => {
                        pending.insert(id, copy_line(line));
                    },
                    None => {},
                }
            }
            assert(pending@ =~= start.lines.remove_keys(start.synced).restrict(
                ids@.take(i + 1).to_set(),
            ));
        }
        assert(ids@.take(ids@.len() as int) =~= ids@);
        assert(pending@ =~= start.lines.remove_keys(start.synced));
        let batch = pending.transformed(Some(self.rect), MergeMode::FromCanvas);
        add_all(&mut self.synced, &ids);
        self.lines.insert(new_id, Line::new(self.stroke));
        self.current = new_id;
        Some(batch)
    }

    /// `finish_line` under a random id for the new line; `None`, changing
    /// nothing, also when no random number could be had.
    pub fn finish_line_random(&mut self) -> (r: Option<Lines>)
        requires
            old(self).wf(),
        ensures
            final(self).wf(),
            r is None ==> final(self)@ == old(self)@,
            r matches Some(batch) ==> {
                &&& old(self)@.can_finish(final(self)@.current)
                &&& batch@ == old(self)@.unsynced()
                &&& final(self)@ == old(self)@.finished(final(self)@.current)
            },
    {
        match random_u64() {
            Some(id) => self.finish_line(id),
            None => None,
        }
    }

    /// Takes in what a pull handed back. The line being drawn survives even
    /// when the pull drops it; pulled lines count as synced, and a clear
    /// forgets what was synced.
    pub fn apply_pull(&mut self, response: &PullResponse)
        requires
            old(self).wf(),
        ensures
            final(self).wf(),
            ({
                let s = old(self)@;
                final(self)@ == CanvasView {
                    lines: keeping(applied(s.lines, response@), s.current, s.lines[s.current]),
                    synced: if response@.clear {
                        Set::empty()
                    } else {
                        s.synced.union(response@.lines.dom())
                    },
                    ..s
                }
            }),
    {
        let saved = match self.lines.get(self.current) {
            Some(line) => copy_line(line),
            None => Line::new(self.stroke),
        };
        response.apply_to(&mut self.lines);
        if !self.lines.contains(self.current) {
            self.lines.insert(self.current, saved);
        }
        if response.flag.is_some() {
            self.synced = Vec::new();
            assert(self@.synced =~= Set::<u64>::empty());
        } else {
            let pulled = response.lines.ids();
            add_all(&mut self.synced, &pulled);
        }
    }

    /// Empties the drawing, keeping an empty line under the current id, and
    /// forgets what was synced.
    pub fn clear_local(&mut self)
        requires
            old(self).wf(),
        ensures
            final(self).wf(),
            final(self)@ == (CanvasView {
                lines: map![
                    old(self)@.current => LineView { points: Seq::empty(), stroke: old(self)@.stroke },
                ],
                synced: Set::empty(),
                ..old(self)@
            }),
    {
        self.lines.clear();
        self.lines.insert(self.current, Line::new(self.stroke));
        self.synced = Vec::new();
        assert(self@.synced =~= Set::<u64>::empty());
        assert(self@.lines =~= map![
            old(self)@.current => LineView { points: Seq::empty(), stroke: old(self)@.stroke },
        ]);
    }

    /// Decides what a pointer event does. With the pointer on the canvas at
    /// `pos`, the primary button draws, the secondary button erases and the
    /// middle button pans; with no pointer on the canvas the line being drawn
    /// is finished under `new_id`.
    pub fn pointer(&mut self, button: MouseDown, pos: Option<Point>, new_id: u64) -> (r:
        PointerAction)
        requires
            old(self).wf(),
        ensures
            final(self).wf(),
            match pos {
                Some(p) => match button {
                    MouseDown::Primary => {
                        &&& final(self)@ == old(self)@.drawn(p)
                        &&& if old(self)@.repeats_last(p) {
                            r is Idle
                        } else {
                            r is Drew
                        }
                    },
                    MouseDown::Secondary => {
                        &&& final(self)@ == old(self)@.erased(p)
                        &&& if old(self)@.touched(p).is_empty() {
                            r is Idle
                        } else {
                            r matches PointerAction::Erase(ids) && ids@.no_duplicates()
                                && ids@.to_set() == old(self)@.touched(p)
                        }
                    },
                    MouseDown::Middle => r is Pan && final(self)@ == old(self)@,
                    MouseDown::NoButton => r is Idle && final(self)@ == old(self)@,
                },
                None => if old(self)@.can_finish(new_id) {
                    &&& r matches PointerAction::Push(batch) && batch@ == old(self)@.unsynced()
                    &&& final(self)@ == old(self)@.finished(new_id)
                } else {
                    r is Idle && final(self)@ == old(self)@
                },
            },
    {
        match pos {
            Some(p) => match button {
                MouseDown::Primary => {
                    if self.draw(p) {
                        PointerAction::Drew
                    } else {
                        PointerAction::Idle
                    }
                },
                MouseDown::Secondary => {
                    let erased = self.erase_near(p);
                    if erased.len() > 0 {
                        assert(erased@.to_set().contains(erased@[0]));
                        PointerAction::Erase(erased)
                    } else {
                        assert(old(self)@.touched(p) =~= Set::<u64>::empty());
                        PointerAction::Idle
                    }
                },
                MouseDown::Middle => PointerAction::Pan,
                MouseDown::NoButton => PointerAction::Idle,
            },
            None => match self.finish_line(new_id) {
                Some(batch) => PointerAction::Push(batch),
                None => PointerAction::Idle,
            },
        }
    }
}

} // verus!
