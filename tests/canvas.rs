use synced_drawing::canvas::{Canvas, MouseDown, PointerAction};
use synced_drawing::geometry::{Point, Rect};
use synced_drawing::line::{Line, Stroke};
use synced_drawing::lines::Lines;
use synced_drawing::sync::SyncState;

fn stroke() -> Stroke {
    Stroke { r: 0, g: 255, b: 0, a: 255, width: 3000 }
}

fn pt(x: i64, y: i64) -> Point {
    Point { x, y }
}

fn rect() -> Rect {
    Rect::new(0, 0, 100, 100)
}

fn coords(l: &Line) -> Vec<(i64, i64)> {
    l.points.iter().map(|p| (p.x, p.y)).collect()
}

fn ids_of(ls: &Lines) -> Vec<u64> {
    ls.0.keys().copied().collect()
}

/// A canvas holding a finished line under 1 with the given points, drawing line 2.
fn with_finished(points: &[(i64, i64)]) -> (Canvas, Lines) {
    let mut c = Canvas::new(stroke(), rect(), 1);
    for &(x, y) in points {
        c.draw(pt(x, y));
    }
    let batch = c.finish_line(2).unwrap();
    (c, batch)
}

#[test]
fn new_canvas_holds_one_empty_line() {
    let c = Canvas::new(stroke(), rect(), 42);
    assert_eq!(c.current(), 42);
    assert_eq!(ids_of(c.lines()), vec![42]);
    assert!(c.lines().get(42).unwrap().points.is_empty());
    assert!(!c.is_synced(42));
}

#[test]
fn draw_skips_repeated_point() {
    let mut c = Canvas::new(stroke(), rect(), 1);
    assert!(c.draw(pt(1, 1)));
    assert!(!c.draw(pt(1, 1)));
    assert!(c.draw(pt(2, 2)));
    assert!(c.draw(pt(1, 1)));
    assert_eq!(coords(c.lines().get(1).unwrap()), vec![(1, 1), (2, 2), (1, 1)]);
}

#[test]
fn finish_line_sends_unsynced_lines_normalized() {
    let (mut c, batch) = with_finished(&[(10, 20), (30, 40)]);
    assert_eq!(ids_of(&batch), vec![1]);
    assert_eq!(coords(batch.get(1).unwrap()), vec![(100_000, 200_000), (300_000, 400_000)]);
    assert_eq!(c.current(), 2);
    assert!(c.is_synced(1));
    assert!(!c.is_synced(2));
    // Line 1 is not sent again.
    c.draw(pt(5, 5));
    let batch = c.finish_line(3).unwrap();
    assert_eq!(ids_of(&batch), vec![2]);
}

#[test]
fn finish_line_refuses_empty_line_or_taken_id() {
    let mut c = Canvas::new(stroke(), rect(), 1);
    assert!(c.finish_line(2).is_none());
    assert_eq!(c.current(), 1);
    c.draw(pt(1, 1));
    assert!(c.finish_line(1).is_none());
    assert_eq!(c.current(), 1);
    assert!(!c.is_synced(1));
}

#[test]
fn erase_near_removes_touching_lines() {
    let (mut c, _) = with_finished(&[(50, 50), (60, 60)]);
    c.draw(pt(0, 0));
    c.finish_line(3).unwrap();
    // Line 2 holds (0, 0); line 3 is being drawn and empty.
    assert!(c.erase_near(pt(90, 90)).is_empty());
    let erased = c.erase_near(pt(57, 57));
    assert_eq!(erased, vec![1]);
    assert_eq!(ids_of(c.lines()), vec![2, 3]);
    assert!(!c.is_synced(1));
    assert!(c.is_synced(2));
}

#[test]
fn erase_tolerance_is_strict() {
    let (mut c, _) = with_finished(&[(0, 0)]);
    assert!(c.erase_near(pt(10, 0)).is_empty());
    assert!(c.erase_near(pt(6, 8)).is_empty());
    assert_eq!(c.erase_near(pt(6, 7)), vec![1]);
}

#[test]
fn erase_spares_line_being_drawn() {
    let mut c = Canvas::new(stroke(), rect(), 1);
    c.draw(pt(5, 5));
    assert!(c.erase_near(pt(5, 5)).is_empty());
    assert_eq!(ids_of(c.lines()), vec![1]);
}

#[test]
fn pointer_dispatch() {
    let mut c = Canvas::new(stroke(), rect(), 1);
    assert!(matches!(c.pointer(MouseDown::Primary, Some(pt(3, 3)), 9), PointerAction::Drew));
    assert!(matches!(c.pointer(MouseDown::Primary, Some(pt(3, 3)), 9), PointerAction::Idle));
    assert!(matches!(c.pointer(MouseDown::Middle, Some(pt(3, 3)), 9), PointerAction::Pan));
    assert!(matches!(c.pointer(MouseDown::NoButton, Some(pt(3, 3)), 9), PointerAction::Idle));
    match c.pointer(MouseDown::Primary, None, 9) {
        PointerAction::Push(batch) => assert_eq!(ids_of(&batch), vec![1]),
        _ => panic!("expected a push"),
    }
    assert_eq!(c.current(), 9);
    assert!(matches!(c.pointer(MouseDown::NoButton, None, 10), PointerAction::Idle));
    match c.pointer(MouseDown::Secondary, Some(pt(4, 4)), 10) {
        PointerAction::Erase(ids) => assert_eq!(ids, vec![1]),
        _ => panic!("expected an erase"),
    }
    assert!(matches!(c.pointer(MouseDown::Secondary, Some(pt(4, 4)), 10), PointerAction::Idle));
}

#[test]
fn apply_pull_keeps_line_being_drawn() {
    let mut server = SyncState::new();
    let me = server.register(&"me".to_string());
    let other = server.register(&"other".to_string());
    let mut theirs = Lines::new();
    let mut l = Line::new(stroke());
    l.points.push(pt(500_000, 500_000));
    theirs.insert(77, l);
    server.push(other, &theirs, None, None).unwrap();

    let mut c = Canvas::new(stroke(), rect(), 1);
    c.draw(pt(1, 1));
    let resp = server.pull(me, &rect()).unwrap();
    c.apply_pull(&resp);
    assert_eq!(ids_of(c.lines()), vec![1, 77]);
    assert_eq!(coords(c.lines().get(77).unwrap()), vec![(50, 50)]);
    assert_eq!(coords(c.lines().get(1).unwrap()), vec![(1, 1)]);
    assert!(c.is_synced(77));
    assert!(!c.is_synced(1));
}

#[test]
fn apply_pull_with_clear_keeps_only_line_being_drawn() {
    let mut server = SyncState::new();
    let me = server.register(&"me".to_string());
    let (mut c, _) = with_finished(&[(1, 1)]);
    c.draw(pt(2, 2));
    server.clear();
    let resp = server.pull(me, &rect()).unwrap();
    c.apply_pull(&resp);
    assert_eq!(ids_of(c.lines()), vec![2]);
    assert_eq!(coords(c.lines().get(2).unwrap()), vec![(2, 2)]);
    assert!(!c.is_synced(1));
}

#[test]
fn clear_local_leaves_one_empty_line() {
    let (mut c, _) = with_finished(&[(1, 1)]);
    c.draw(pt(3, 3));
    c.clear_local();
    assert_eq!(ids_of(c.lines()), vec![2]);
    assert!(c.lines().get(2).unwrap().points.is_empty());
    assert!(!c.is_synced(1));
}

#[test]
fn set_stroke_applies_to_next_line() {
    let mut c = Canvas::new(stroke(), rect(), 1);
    let blue = Stroke { r: 0, g: 0, b: 255, a: 255, width: 5 };
    c.set_stroke(blue);
    c.draw(pt(1, 1));
    c.finish_line(2).unwrap();
    assert_eq!(c.lines().get(2).unwrap().stroke, blue);
    assert_eq!(c.lines().get(1).unwrap().stroke, stroke());
}

#[test]
fn random_ids_draw_fresh_lines() {
    let mut c = Canvas::with_random_id(stroke(), rect()).unwrap();
    let first = c.current();
    assert_eq!(ids_of(c.lines()), vec![first]);
    c.draw(pt(1, 1));
    let batch = c.finish_line_random().unwrap();
    assert_eq!(ids_of(&batch), vec![first]);
    assert_ne!(c.current(), first);
    assert_eq!(c.lines().len(), 2);
}
