use mulch::scissor::ScissorRect;
use mulch::tools::{Eraser, Paintbrush};

#[test]
fn tools_describe_themselves() {
    let brush = Paintbrush {};
    let eraser = Eraser {};
    assert_eq!(brush.icon(), "\u{f1fc}");
    assert_eq!(brush.tooltip(), "Paintbrush");
    assert_eq!(brush.shortcut().key, 'B');
    assert_eq!(eraser.icon(), "\u{f12d}");
    assert_eq!(eraser.tooltip(), "Eraser");
    assert_eq!(eraser.shortcut().key, 'E');
}

#[test]
fn scissor_rect_inside_viewport_is_kept() {
    let r = ScissorRect::from_pixel_bounds(10, 20, 110, 70, [800, 600]);
    assert_eq!(r, ScissorRect { x: 10, y: 20, width: 100, height: 50 });
}

#[test]
fn scissor_rect_is_clamped_to_last_pixel() {
    let r = ScissorRect::from_pixel_bounds(700, 500, 900, 650, [800, 600]);
    assert_eq!(r, ScissorRect { x: 700, y: 500, width: 99, height: 99 });
    let s = ScissorRect::from_pixel_bounds(850, 650, 900, 700, [800, 600]);
    assert_eq!(s, ScissorRect { x: 799, y: 599, width: 0, height: 0 });
}
