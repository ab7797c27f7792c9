//! Display, touch and UI logic for the STM32F746G-DISCO board: RGB565 colour
//! packing, the frame buffer and its drawing primitives, the scrolling test
//! gradient, the LTDC panel timing, the touch debouncer and the demo UI state.

mod color;
mod framebuf;
mod geometry;
mod gradient;
mod timing;
mod touch;
mod ui_state;

pub use color::{
    lemma_rgb565_value, rgb565, rgb565_be_bytes, rgb565_value, rgb888_to_rgb565, spec_rgb565, spec_rgb888_to_rgb565,
};
pub use framebuf::{
    draw_all, draw_one, fill_bottom, fill_right, fill_solid_defined, fill_solid_is_defined,
    fill_result, fill_x0, fill_x1, fill_y0, fill_y1, in_fill, lands_at, lemma_draw_all_pointwise,
    lemma_fill_draws_its_pixels, rect_pixels,
    off_screen, on_screen,
    Display, FrameBuf, Pixel, Rectangle, Size,
};
pub use geometry::{pixel_index, FB_SIZE, LCD_HEIGHT, LCD_WIDTH};
pub use gradient::{
    band_pixel, fill_gradient, gradient_level, gradient_pixel, is_border, lemma_band_colours,
    lemma_border_is_white, lemma_border_white_in_every_frame, lemma_gradient_level_monotone,
    lemma_gradient_level_scales_column, scrolled_column,
    lemma_gradient_level_range, lemma_gradient_period, lemma_gradient_scrolls_left,
};
pub use touch::{
    click_release_count, counts_bounded, current_point, events_bracketed, initial_touch_view,
    is_click_or_release, last_sampled_point, lemma_raw_reading_is_swapped, lemma_clicks_and_releases_alternate,
    lemma_counts_stay_bounded, lemma_points_do_not_change_kinds, lemma_reachable_counts_bounded,
    lemma_state_after_history, lemma_update_after_history, same_flags, same_kind, state_after,
    trailing_touched, trailing_untouched,
    lemma_press_confirmed_on_second_frame, lemma_release_confirmed_on_third_frame,
    lemma_run_bracketed, lemma_step_transitions, lemma_touch_resumes_as_drag, panel_point,
    touch_point_from_raw, touch_run, touch_step, touching_after, Interaction, Point, TouchHandler,
    TouchView, PRESS_THRESHOLD, RELEASE_THRESHOLD,
};
pub use timing::{
    frame_lines, lemma_ltdc_frame_size, lemma_pixel_clock_is_9_6_mhz, line_clocks, ltdc_divider,
    ltdccfg, pixel_clock_hz, pllsai_config, vco_hz, LtdcConfiguration, PllSaiConfig, PolarityActive,
    PolarityEdge, LCD_HBP, LCD_HFP, LCD_HSYNC, LCD_VBP, LCD_VFP, LCD_VSYNC,
};
pub use ui_state::{
    all_digits, checkbox_label, counter_text, decimal_digits, decimal_text, digits_value,
    is_decimal_text_of, lemma_counter_steps, lemma_decimal_digits_parse, lemma_decimal_text_parses,
    lemma_increment_undone, spells,
    saturating_dec, saturating_inc, UiState, SLIDER_MAX, SLIDER_MIN,
};
