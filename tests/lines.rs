use synced_drawing::config::{Config, Host, Website};
use synced_drawing::geometry::{Point, Rect};
use synced_drawing::line::{Line, MergeMode, Stroke};
use synced_drawing::lines::Lines;

fn stroke() -> Stroke {
    Stroke { r: 1, g: 2, b: 3, a: 4, width: 2 }
}

fn line(points: &[(i64, i64)]) -> Line {
    Line { points: points.iter().map(|&(x, y)| Point { x, y }).collect(), stroke: stroke() }
}

fn coords(l: &Line) -> Vec<(i64, i64)> {
    l.points.iter().map(|p| (p.x, p.y)).collect()
}

fn ids_of(ls: &Lines) -> Vec<u64> {
    ls.0.keys().copied().collect()
}

#[test]
fn point_normalizes_by_rect() {
    let r = Rect::new(10, 20, 100, 200);
    let n = Point { x: 60, y: 70 }.from_canvas(&r);
    assert_eq!((n.x, n.y), (500_000, 250_000));
    let c = n.to_canvas(&r);
    assert_eq!((c.x, c.y), (60, 70));
}

#[test]
fn point_outside_rect_round_trips() {
    let r = Rect::new(5, 5, 3, 7);
    for &(x, y) in &[(-1, -100), (4, 4), (1000, -3), (6, 13), (0, 0)] {
        let p = Point { x, y };
        let back = p.from_canvas(&r).to_canvas(&r);
        assert_eq!(back, p);
    }
}

#[test]
fn point_round_trip_on_awkward_extent() {
    let r = Rect::new(0, 0, 3, 999_999);
    for v in -10..10 {
        let p = Point { x: v, y: v * 7 };
        assert_eq!(p.from_canvas(&r).to_canvas(&r), p);
    }
}

#[test]
fn rounding_directions() {
    let r = Rect::new(0, 0, 3, 3);
    // 1/3 of the extent rounds down on the way in.
    assert_eq!(Point { x: 1, y: -1 }.from_canvas(&r), Point { x: 333_333, y: -333_334 });
    // and up on the way out.
    let big = Rect::new(0, 0, 7, 7);
    assert_eq!(Point { x: 1, y: -1 }.to_canvas(&big), Point { x: 1, y: 0 });
}

#[test]
fn far_points_saturate() {
    let r = Rect::new(0, 0, 1, 1);
    let n = Point { x: i64::MAX, y: i64::MIN }.from_canvas(&r);
    assert_eq!((n.x, n.y), (i64::MAX, i64::MIN));
    let c = Point { x: i64::MAX, y: i64::MIN }.to_canvas(&Rect::new(i64::MAX, i64::MIN, 4_000_000_000, 1));
    assert_eq!((c.x, c.y), (i64::MAX, i64::MIN));
}

#[test]
fn rect_validity() {
    assert!(Rect::new(0, 0, 1, 1).valid());
    assert!(!Rect::new(0, 0, 0, 1).valid());
    assert!(!Rect::new(0, 0, 1, 0).valid());
}

#[test]
fn line_from_and_to_canvas() {
    let mut l = line(&[(0, 0), (50, 25)]);
    let r = Rect::new(0, 0, 100, 50);
    l.from_canvas(&r);
    assert_eq!(coords(&l), vec![(0, 0), (500_000, 500_000)]);
    l.to_canvas(&Rect::new(10, 10, 10, 10));
    assert_eq!(coords(&l), vec![(10, 10), (15, 15)]);
    assert_eq!(l.stroke, stroke());
}

#[test]
fn new_line_is_empty() {
    let l = Line::new(stroke());
    assert!(l.points.is_empty());
    assert_eq!(l.stroke, stroke());
}

#[test]
fn lines_transform_every_line() {
    let mut ls = Lines::new();
    ls.insert(1, line(&[(10, 10)]));
    ls.insert(2, line(&[(20, 40)]));
    ls.from_canvas(&Rect::new(0, 0, 100, 100));
    assert_eq!(coords(ls.get(1).unwrap()), vec![(100_000, 100_000)]);
    assert_eq!(coords(ls.get(2).unwrap()), vec![(200_000, 400_000)]);
    ls.to_canvas(&Rect::new(0, 0, 10, 10));
    assert_eq!(coords(ls.get(1).unwrap()), vec![(1, 1)]);
    assert_eq!(coords(ls.get(2).unwrap()), vec![(2, 4)]);
}

#[test]
fn update_from_other_keeps_held_lines() {
    let mut ls = Lines::new();
    ls.insert(1, line(&[(1, 1)]));
    ls.insert(2, line(&[(2, 2)]));
    let mut other = Lines::new();
    other.insert(2, line(&[(9, 9)]));
    other.insert(3, line(&[(3, 3)]));
    ls.update_from_other(other);
    assert_eq!(ids_of(&ls), vec![1, 2, 3]);
    assert_eq!(coords(ls.get(2).unwrap()), vec![(2, 2)]);
    assert_eq!(coords(ls.get(3).unwrap()), vec![(3, 3)]);
}

#[test]
fn merge_rules() {
    let mut dest = Lines::new();
    dest.insert(1, line(&[(1, 1)])); // kept: not flagged
    dest.insert(2, line(&[(2, 2)])); // replaced: flagged and incoming
    dest.insert(3, line(&[(3, 3)])); // removed: flagged, not incoming
    dest.insert(4, line(&[(4, 4)])); // untouched
    let mut incoming = Lines::new();
    incoming.insert(1, line(&[(10, 10)]));
    incoming.insert(2, line(&[(20, 20)]));
    incoming.insert(5, line(&[(50, 50)])); // new
    incoming.insert(6, line(&[(60, 60)])); // new and flagged
    dest.merge(&incoming, &vec![2, 3, 6, 9], Some(Rect::new(0, 0, 10, 10)), MergeMode::FromCanvas);
    assert_eq!(ids_of(&dest), vec![1, 2, 4, 5, 6]);
    assert_eq!(coords(dest.get(1).unwrap()), vec![(1, 1)]);
    assert_eq!(coords(dest.get(2).unwrap()), vec![(2_000_000, 2_000_000)]);
    assert_eq!(coords(dest.get(4).unwrap()), vec![(4, 4)]);
    assert_eq!(coords(dest.get(5).unwrap()), vec![(5_000_000, 5_000_000)]);
    assert_eq!(coords(dest.get(6).unwrap()), vec![(6_000_000, 6_000_000)]);
}

#[test]
fn merge_without_rect_copies() {
    let mut dest = Lines::new();
    let mut incoming = Lines::new();
    incoming.insert(8, line(&[(-5, 7)]));
    dest.merge(&incoming, &vec![], None, MergeMode::FromCanvas);
    assert_eq!(coords(dest.get(8).unwrap()), vec![(-5, 7)]);
}

#[test]
fn merge_of_empty_changes_nothing() {
    let mut dest = Lines::new();
    dest.insert(1, line(&[(1, 1)]));
    dest.merge(&Lines::new(), &vec![], None, MergeMode::ToCanvas);
    assert_eq!(ids_of(&dest), vec![1]);
}

#[test]
fn lines_basic_operations() {
    let mut ls = Lines::new();
    assert_eq!(ls.len(), 0);
    ls.insert(5, line(&[(1, 2)]));
    assert!(ls.contains(5));
    assert_eq!(ls.ids(), vec![5]);
    let removed = ls.remove(5).unwrap();
    assert_eq!(coords(&removed), vec![(1, 2)]);
    assert!(ls.remove(5).is_none());
    ls.insert(6, line(&[]));
    ls.clear();
    assert_eq!(ls.len(), 0);
}

#[test]
fn config_defaults() {
    let c = Config::default();
    assert_eq!(c.host.ip, "127.0.0.1");
    assert_eq!(c.host.port, 8439);
    assert_eq!(c.website.title, "Synced Drawing");
    assert_eq!(Host::default().port, 8439);
    assert_eq!(Website::default().title, "Synced Drawing");
}

#[test]
fn from_entries_last_wins() {
    let ls = Lines::from_entries(vec![
        (3, line(&[(1, 1)])),
        (1, line(&[(2, 2)])),
        (3, line(&[(3, 3)])),
    ]);
    assert_eq!(ids_of(&ls), vec![1, 3]);
    assert_eq!(coords(ls.get(3).unwrap()), vec![(3, 3)]);
    assert_eq!(coords(ls.get(1).unwrap()), vec![(2, 2)]);
    assert_eq!(Lines::from_entries(vec![]).len(), 0);
}

#[test]
fn round_trip_on_large_canvas_stays_within_tolerance() {
    let r = Rect::new(-7, 3, 3_500_000, 2_000_001);
    for &(x, y) in &[(1, 1), (0, 0), (1_234_567, -99), (-5, 1_999_999), (3_499_999, 7)] {
        let p = Point { x, y };
        let back = p.from_canvas(&r).to_canvas(&r);
        assert!(back.x <= p.x && back.x >= p.x - 3);
        assert!(back.y <= p.y && back.y >= p.y - 2);
    }
    // Off by one here: 1 unit is below the normalized resolution of this canvas.
    assert_eq!(Point { x: 1, y: 3 }.from_canvas(&Rect::new(0, 3, 2_000_000, 1)).to_canvas(&Rect::new(0, 3, 2_000_000, 1)), Point { x: 0, y: 3 });
}
