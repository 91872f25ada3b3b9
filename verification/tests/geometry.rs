use trex_runner::math::Line;
use trex_runner::math::Pos;
use trex_runner::math::Rect;
use trex_runner::math::Size;

#[test]
fn line_new_checked_rejects_degenerate() {
    assert_eq!(Line::new_checked(5, 5), None);
    assert_eq!(Line::new_checked(6, 5), None);
    assert_eq!(Line::new_checked(5, 6), Some(Line::new(5, 6)));
}

#[test]
fn line_intersect_cases() {
    let a = Line::new(0, 10);
    assert_eq!(a.intersect(Line::new(5, 15)), Some(Line::new(5, 10)));
    assert_eq!(a.intersect(Line::new(10, 20)), None);
    assert_eq!(a.intersect(Line::new(-5, 0)), None);
    assert_eq!(a.intersect(Line::new(2, 3)), Some(Line::new(2, 3)));
    assert_eq!(a.intersect(a), Some(a));
}

#[test]
fn line_translate_and_size() {
    let a = Line::new(2, 7);
    assert_eq!(a.size(), 5);
    assert_eq!(a.translate(-4), Line::new(-2, 3));
    assert_eq!(a.range(), 2..7);
}

#[test]
fn rect_intersect_needs_both_axes() {
    let a = Rect { x: Line::new(0, 4), y: Line::new(0, 4) };
    let b = Rect { x: Line::new(2, 6), y: Line::new(2, 6) };
    assert_eq!(
        a.intersect(b),
        Some(Rect { x: Line::new(2, 4), y: Line::new(2, 4) })
    );

    let off_y = Rect { x: Line::new(2, 6), y: Line::new(4, 6) };
    assert_eq!(a.intersect(off_y), None);

    let off_x = Rect { x: Line::new(4, 6), y: Line::new(2, 4) };
    assert_eq!(a.intersect(off_x), None);
}

#[test]
fn rect_size_and_pos() {
    let r = Rect { x: Line::new(1, 4), y: Line::new(2, 8) };
    let s = r.size();
    assert_eq!((s.width, s.height), (3, 6));
    assert_eq!(Pos::new(7, -2), Pos { x: 7, y: -2 });
    let s2 = Size::new(11, 13);
    assert_eq!((s2.width, s2.height), (11, 13));
}
