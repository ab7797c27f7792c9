use disco_display::{
    fill_solid_is_defined, Display, FrameBuf, Pixel, Rectangle, FB_SIZE, LCD_WIDTH,
};

fn at(fb: &FrameBuf, x: usize, y: usize) -> u16 {
    fb.buf[y * LCD_WIDTH as usize + x]
}

#[test]
fn new_frame_buffer_is_black() {
    let fb = Box::new(FrameBuf::new());
    assert!(fb.buf.iter().all(|&p| p == 0));
    assert_eq!(fb.buf.len(), FB_SIZE);
}

#[test]
fn display_init_is_black() {
    let d = Box::new(Display::init());
    assert!(d.fb.buf.iter().all(|&p| p == 0));
}

#[test]
fn size_is_panel_size() {
    let fb = Box::new(FrameBuf::new());
    let s = fb.size();
    assert_eq!((s.width, s.height), (480, 272));
}

#[test]
fn draw_pixel_on_and_off_screen() {
    let mut fb = Box::new(FrameBuf::new());
    fb.draw_pixel(Pixel { x: 10, y: 20, color: 0xABCD });
    assert_eq!(at(&fb, 10, 20), 0xABCD);
    assert_eq!(fb.buf[20 * 480 + 10], 0xABCD);
    fb.draw_pixel(Pixel { x: 479, y: 271, color: 7 });
    assert_eq!(fb.buf[FB_SIZE - 1], 7);
    for p in [
        Pixel { x: -1, y: 0, color: 1 },
        Pixel { x: 0, y: -1, color: 1 },
        Pixel { x: 480, y: 0, color: 1 },
        Pixel { x: 0, y: 272, color: 1 },
        Pixel { x: i32::MIN, y: i32::MAX, color: 1 },
    ] {
        fb.draw_pixel(p);
    }
    let changed = fb.buf.iter().filter(|&&p| p != 0).count();
    assert_eq!(changed, 2);
}

#[test]
fn draw_iter_later_pixels_win() {
    let mut fb = Box::new(FrameBuf::new());
    let pixels = [
        Pixel { x: 5, y: 5, color: 1 },
        Pixel { x: 6, y: 5, color: 2 },
        Pixel { x: 5, y: 5, color: 3 },
        Pixel { x: 500, y: 5, color: 4 },
    ];
    fb.draw_iter(&pixels);
    assert_eq!(at(&fb, 5, 5), 3);
    assert_eq!(at(&fb, 6, 5), 2);
    assert_eq!(fb.buf.iter().filter(|&&p| p != 0).count(), 2);
}

#[test]
fn draw_iter_off_screen_only_changes_nothing() {
    let mut fb = Box::new(FrameBuf::new());
    fb.draw_iter(&[Pixel { x: -3, y: 3, color: 9 }, Pixel { x: 3, y: 300, color: 9 }]);
    assert!(fb.buf.iter().all(|&p| p == 0));
}

#[test]
fn fill_solid_inside() {
    let mut fb = Box::new(FrameBuf::new());
    let r = Rectangle { x: 10, y: 20, width: 5, height: 3 };
    assert!(fill_solid_is_defined(&r));
    fb.fill_solid(&r, 0x1111);
    for y in 0..272 {
        for x in 0..480 {
            let inside = (10..15).contains(&x) && (20..23).contains(&y);
            assert_eq!(at(&fb, x, y), if inside { 0x1111 } else { 0 });
        }
    }
}

#[test]
fn fill_solid_is_clipped() {
    let mut fb = Box::new(FrameBuf::new());
    let r = Rectangle { x: -5, y: 260, width: 20, height: 50 };
    assert!(fill_solid_is_defined(&r));
    fb.fill_solid(&r, 5);
    let painted = fb.buf.iter().filter(|&&p| p == 5).count();
    assert_eq!(painted, 15 * 12);
    assert_eq!(at(&fb, 0, 271), 5);
    assert_eq!(at(&fb, 14, 260), 5);
    assert_eq!(at(&fb, 15, 260), 0);
    assert_eq!(at(&fb, 0, 259), 0);
}

#[test]
fn fill_solid_below_the_screen_does_nothing() {
    let mut fb = Box::new(FrameBuf::new());
    let r = Rectangle { x: 0, y: 300, width: 10, height: 10 };
    assert!(fill_solid_is_defined(&r));
    fb.fill_solid(&r, 5);
    assert!(fb.buf.iter().all(|&p| p == 0));
}

#[test]
fn fill_solid_domain() {
    // right edge past i32::MAX
    assert!(!fill_solid_is_defined(&Rectangle { x: i32::MAX, y: 0, width: 1, height: 1 }));
    // bottom edge past i32::MAX
    assert!(!fill_solid_is_defined(&Rectangle { x: 0, y: i32::MAX - 1, width: 1, height: 2 }));
    // off-screen rectangles whose edges fit are accepted
    assert!(fill_solid_is_defined(&Rectangle { x: 0, y: -50, width: 10, height: 10 }));
    assert!(fill_solid_is_defined(&Rectangle { x: -100, y: 0, width: 10, height: 10 }));
    assert!(fill_solid_is_defined(&Rectangle { x: 600, y: 0, width: 10, height: 10 }));
    // empty rectangle
    assert!(fill_solid_is_defined(&Rectangle { x: 3, y: 3, width: 0, height: 0 }));
    // the whole screen
    assert!(fill_solid_is_defined(&Rectangle { x: 0, y: 0, width: 480, height: 272 }));
}

#[test]
fn fill_solid_off_screen_draws_nothing() {
    let mut fb = Box::new(FrameBuf::new());
    fb.draw_pixel(Pixel { x: 0, y: 0, color: 9 });
    for r in [
        Rectangle { x: 0, y: -50, width: 10, height: 10 },
        Rectangle { x: -100, y: 0, width: 10, height: 10 },
        Rectangle { x: 600, y: 0, width: 10, height: 10 },
        Rectangle { x: 480, y: 271, width: 10, height: 10 },
        Rectangle { x: -10, y: -10, width: 10, height: 300 },
        Rectangle { x: 3, y: 3, width: 0, height: 5 },
    ] {
        fb.fill_solid(&r, 5);
    }
    assert_eq!(at(&fb, 0, 0), 9);
    assert_eq!(fb.buf.iter().filter(|&&p| p != 0).count(), 1);
}

#[test]
fn fill_solid_equals_drawing_its_pixels() {
    for r in [
        Rectangle { x: 470, y: -3, width: 20, height: 7 },
        Rectangle { x: -2, y: 268, width: 5, height: 9 },
        Rectangle { x: 100, y: 100, width: 3, height: 2 },
    ] {
        let mut a = Box::new(FrameBuf::new());
        let mut b = Box::new(FrameBuf::new());
        a.fill_solid(&r, 0x7777);
        let mut pixels = Vec::new();
        for dy in 0..r.height as i32 {
            for dx in 0..r.width as i32 {
                pixels.push(Pixel { x: r.x + dx, y: r.y + dy, color: 0x7777 });
            }
        }
        b.draw_iter(&pixels);
        assert!(a.buf[..] == b.buf[..]);
    }
}

#[test]
fn clear_paints_everything() {
    let mut fb = Box::new(FrameBuf::new());
    fb.draw_pixel(Pixel { x: 1, y: 1, color: 3 });
    fb.clear(0xF800);
    assert!(fb.buf.iter().all(|&p| p == 0xF800));
}
