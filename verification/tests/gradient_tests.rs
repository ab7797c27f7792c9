use disco_display::{fill_gradient, rgb565, FB_SIZE, LCD_HEIGHT, LCD_WIDTH};

fn fresh_buffer() -> Box<[u16; FB_SIZE]> {
    vec![0x1234u16; FB_SIZE].into_boxed_slice().try_into().unwrap()
}

fn at(fb: &[u16; FB_SIZE], x: usize, y: usize) -> u16 {
    fb[y * LCD_WIDTH as usize + x]
}

#[test]
fn geometry_constants() {
    assert_eq!(LCD_WIDTH, 480);
    assert_eq!(LCD_HEIGHT, 272);
    assert_eq!(FB_SIZE, 480 * 272);
}

#[test]
fn gradient_border_is_white() {
    let mut fb = fresh_buffer();
    fill_gradient(&mut fb, 7);
    for x in 0..480 {
        assert_eq!(at(&fb, x, 0), 0xFFFF);
        assert_eq!(at(&fb, x, 271), 0xFFFF);
    }
    for y in 0..272 {
        assert_eq!(at(&fb, 0, y), 0xFFFF);
        assert_eq!(at(&fb, 479, y), 0xFFFF);
    }
}

#[test]
fn gradient_bands_in_frame_zero() {
    let mut fb = fresh_buffer();
    fill_gradient(&mut fb, 0);
    // column 240: intensity 240 * 63 / 479 = 31
    assert_eq!(at(&fb, 240, 50), rgb565(15, 0, 0));
    assert_eq!(at(&fb, 240, 50), 15 << 11);
    assert_eq!(at(&fb, 240, 100), rgb565(0, 31, 0));
    assert_eq!(at(&fb, 240, 100), 31 << 5);
    assert_eq!(at(&fb, 240, 200), rgb565(0, 0, 15));
    // band edges: rows 89 / 90 and 180 / 181
    assert_eq!(at(&fb, 240, 89), rgb565(15, 0, 0));
    assert_eq!(at(&fb, 240, 90), rgb565(0, 31, 0));
    assert_eq!(at(&fb, 240, 180), rgb565(0, 31, 0));
    assert_eq!(at(&fb, 240, 181), rgb565(0, 0, 15));
    // column 1 is dark, column 478 nearly full
    assert_eq!(at(&fb, 1, 100), rgb565(0, 0, 0));
    assert_eq!(at(&fb, 478, 100), rgb565(0, 62, 0));
}

#[test]
fn gradient_every_interior_pixel() {
    let frame: u32 = 1000;
    let mut fb = fresh_buffer();
    fill_gradient(&mut fb, frame);
    let shift = frame as usize % 480;
    for y in 1..271 {
        for x in 1..479 {
            let v = (((x + shift) % 480) * 63 / 479) as u8;
            let expected = if y < 90 {
                rgb565(v >> 1, 0, 0)
            } else if y < 181 {
                rgb565(0, v, 0)
            } else {
                rgb565(0, 0, v >> 1)
            };
            assert_eq!(at(&fb, x, y), expected);
        }
    }
}

#[test]
fn gradient_scrolls_one_column_per_frame() {
    let mut a = fresh_buffer();
    let mut b = fresh_buffer();
    fill_gradient(&mut a, 41);
    fill_gradient(&mut b, 42);
    for y in 1..271 {
        for x in 1..478 {
            assert_eq!(at(&b, x, y), at(&a, x + 1, y));
        }
    }
}

#[test]
fn gradient_repeats_every_480_frames() {
    let mut a = fresh_buffer();
    let mut b = fresh_buffer();
    fill_gradient(&mut a, 3);
    fill_gradient(&mut b, 3 + 480 * 5);
    assert!(a[..] == b[..]);
}

#[test]
fn gradient_at_counter_wrap() {
    // u32::MAX % 480 == 255, so the last frame before the counter wraps is
    // shifted by 255 columns; frame 0 after it is not shifted.
    let mut a = fresh_buffer();
    let mut b = fresh_buffer();
    fill_gradient(&mut a, u32::MAX);
    fill_gradient(&mut b, 255);
    assert!(a[..] == b[..]);
}
