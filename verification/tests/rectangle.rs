use funnel_web::rectangle::Rectangle;

fn rectangle(top: i16, left: i16, bottom: i16, right: i16) -> Rectangle {
    Rectangle { top, left, bottom, right }
}

#[test]
fn from_width_and_height_starts_at_the_corner() {
    assert_eq!(Rectangle::from_width_and_height(640, 480), rectangle(0, 0, 480, 640));
    assert_eq!(Rectangle::from_width_and_height(-1, 0), rectangle(0, 0, 0, -1));
    assert_eq!(Rectangle::default(), rectangle(0, 0, 0, 0));
}

#[test]
fn width_and_height_are_differences() {
    let r = rectangle(10, 20, 110, 320);
    assert_eq!(r.width(), 300);
    assert_eq!(r.height(), 100);
    assert_eq!(rectangle(-5, -7, 5, 7).width(), 14);
    assert_eq!(rectangle(-5, -7, 5, 7).height(), 10);
}

#[test]
fn width_and_height_wrap() {
    assert_eq!(rectangle(0, 0, -1, -1).width(), 65535);
    assert_eq!(rectangle(0, 0, -1, -1).height(), 65535);
    assert_eq!(rectangle(i16::MIN, i16::MIN, i16::MAX, i16::MAX).width(), 65535);
    assert_eq!(rectangle(i16::MAX, i16::MAX, i16::MIN, i16::MIN).height(), 1);
    assert_eq!(rectangle(3, 3, 3, 3).width(), 0);
}

#[test]
fn centered_inside_moves_to_the_middle() {
    let screen = Rectangle::from_width_and_height(640, 480);
    let inner = Rectangle::from_width_and_height(100, 50);
    assert_eq!(inner.centered_inside(screen), rectangle(215, 270, 265, 370));
    assert_eq!(screen.centered_inside(screen), screen);
    assert_eq!(screen.centered_inside(inner), rectangle(-215, -270, 265, 370));
    let odd = Rectangle::from_width_and_height(3, 5);
    assert_eq!(odd.centered_inside(Rectangle::from_width_and_height(10, 10)), rectangle(3, 4, 8, 7));
}

#[test]
fn centered_inside_keeps_the_size_and_wraps() {
    let far = rectangle(32000, 32000, 32700, 32700);
    let moved = far.centered_inside(Rectangle::from_width_and_height(2000, 2000));
    assert_eq!(moved, rectangle(32650, 32650, -32186, -32186));
    assert_eq!(moved.width(), far.width());
    assert_eq!(moved.height(), far.height());
    let wide = rectangle(0, 0, -1, -1);
    assert_eq!(wide.centered_inside(Rectangle::from_width_and_height(0, 0)), rectangle(-32767, -32767, 32768u16 as i16, 32768u16 as i16));
}
