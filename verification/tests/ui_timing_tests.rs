use disco_display::{
    checkbox_label, counter_text, ltdccfg, pllsai_config, PllSaiConfig, PolarityActive,
    PolarityEdge, UiState, SLIDER_MAX, SLIDER_MIN,
};

fn text(n: i32) -> String {
    let (buf, len) = counter_text(n);
    String::from_utf8(buf[..len].to_vec()).unwrap()
}

#[test]
fn counter_text_is_decimal() {
    for n in [0, 7, 10, 42, -1, -7, 100, -100, 123456789, i32::MAX, i32::MIN] {
        assert_eq!(text(n), format!("{}", n));
    }
    assert_eq!(text(i32::MIN), "-2147483648");
    assert_eq!(text(i32::MAX), "2147483647");
}

#[test]
fn checkbox_labels() {
    assert_eq!(checkbox_label(true), "Enabled");
    assert_eq!(checkbox_label(false), "Disabled");
}

#[test]
fn ui_state_starts_at_defaults() {
    let s = UiState::new();
    assert_eq!(s, UiState { counter: 0, checked: false, slider_val: 50 });
    assert!(SLIDER_MIN <= s.slider_val && s.slider_val <= SLIDER_MAX);
}

#[test]
fn counter_buttons() {
    let mut s = UiState::new();
    s.apply_buttons(false, true);
    s.apply_buttons(false, true);
    assert_eq!(s.counter, 2);
    s.apply_buttons(true, false);
    assert_eq!(s.counter, 1);
    s.apply_buttons(true, true);
    assert_eq!(s.counter, 1);
    s.apply_buttons(false, false);
    assert_eq!(s.counter, 1);
}

#[test]
fn counter_saturates() {
    let mut s = UiState { counter: i32::MAX, checked: true, slider_val: 3 };
    s.apply_buttons(false, true);
    assert_eq!(s.counter, i32::MAX);
    s.apply_buttons(true, false);
    assert_eq!(s.counter, i32::MAX - 1);
    let mut t = UiState { counter: i32::MIN, checked: false, slider_val: 0 };
    t.apply_buttons(true, false);
    assert_eq!(t.counter, i32::MIN);
    t.apply_buttons(true, true);
    assert_eq!(t.counter, i32::MIN + 1);
    assert!(t.slider_val == 0 && !t.checked);
}

#[test]
fn increment_then_decrement_restores() {
    for c in [0, -5, 1000, i32::MIN, i32::MAX - 1] {
        let mut s = UiState { counter: c, checked: false, slider_val: 50 };
        s.apply_buttons(false, true);
        s.apply_buttons(true, false);
        assert_eq!(s.counter, c);
    }
}

#[test]
fn ltdc_timing_values() {
    let c = ltdccfg();
    assert_eq!(c.h_sync, 40);
    assert_eq!(c.h_back_porch, 12);
    assert_eq!(c.active_width, 479);
    assert_eq!(c.h_front_porch, 31);
    assert_eq!(c.v_sync, 9);
    assert_eq!(c.v_back_porch, 1);
    assert_eq!(c.active_height, 271);
    assert_eq!(c.v_front_porch, 1);
    assert_eq!(c.pixel_clock_polarity, PolarityEdge::FallingEdge);
    assert_eq!(c.h_sync_polarity, PolarityActive::ActiveLow);
    assert_eq!(c.v_sync_polarity, PolarityActive::ActiveLow);
    assert_eq!(c.data_enable_polarity, PolarityActive::ActiveHigh);
}

#[test]
fn ltdc_frame_size() {
    let c = ltdccfg();
    let line = (c.h_sync + 1) + (c.h_back_porch + 1) + (c.active_width + 1) + (c.h_front_porch + 1);
    let lines = (c.v_sync + 1) + (c.v_back_porch + 1) + (c.active_height + 1) + (c.v_front_porch + 1);
    assert_eq!(line, 566);
    assert_eq!(lines, 286);
}

#[test]
fn pllsai_gives_9_6_mhz() {
    let c = pllsai_config();
    assert_eq!(c, PllSaiConfig { n: 192, q: 2, r: 5, divr: 1 });
    let divider = 2u32 << c.divr;
    assert_eq!(1_000_000u32 * c.n as u32, 192_000_000);
    assert_eq!(1_000_000u32 * c.n as u32 / c.r as u32 / divider, 9_600_000);
}
