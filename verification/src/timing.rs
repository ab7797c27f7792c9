//! LTDC panel timing and the PLLSAI pixel-clock settings for the RK043FN48H.

use vstd::prelude::*;

use crate::geometry::{LCD_HEIGHT, LCD_WIDTH};

verus! {

/// Horizontal synchronization width in pixel clocks.
pub const LCD_HSYNC: u16 = 41;

/// Horizontal back porch in pixel clocks.
pub const LCD_HBP: u16 = 13;

/// Horizontal front porch in pixel clocks.
pub const LCD_HFP: u16 = 32;

/// Vertical synchronization height in lines.
pub const LCD_VSYNC: u16 = 10;

/// Vertical back porch in lines.
pub const LCD_VBP: u16 = 2;

/// Vertical front porch in lines.
pub const LCD_VFP: u16 = 2;

/// Edge of the pixel clock on which data is sampled.
#[derive(Clone, Copy, Debug, PartialEq, Eq, Structural)]
pub enum PolarityEdge {
    FallingEdge,
    RisingEdge,
}

/// Level at which a control signal is active.
#[derive(Clone, Copy, Debug, PartialEq, Eq, Structural)]
pub enum PolarityActive {
    ActiveLow,
    ActiveHigh,
}

/// LTDC timing: each length is stored minus one, as the controller's
/// registers take it.
#[derive(Clone, Copy, Debug, PartialEq, Eq, Structural)]
pub struct LtdcConfiguration {
    pub active_width: u16,
    pub active_height: u16,
    pub h_back_porch: u16,
    pub h_front_porch: u16,
    pub v_back_porch: u16,
    pub v_front_porch: u16,
    pub h_sync: u16,
    pub v_sync: u16,
    pub h_sync_polarity: PolarityActive,
    pub v_sync_polarity: PolarityActive,
    pub data_enable_polarity: PolarityActive,
    pub pixel_clock_polarity: PolarityEdge,
}

/// PLLSAI settings: multiplier N, dividers Q and R, and the 2-bit code of
/// the extra LTDC divider (0: /2, 1: /4, 2: /8, 3: /16).
#[derive(Clone, Copy, Debug, PartialEq, Eq, Structural)]
pub struct PllSaiConfig {
    pub n: u16,
    pub q: u8,
    pub r: u8,
    pub divr: u8,
}

/// Pixel clocks per line: sync, back porch, active pixels and front porch.
pub open spec fn line_clocks(c: LtdcConfiguration) -> int {
    (c.h_sync + 1) + (c.h_back_porch + 1) + (c.active_width + 1) + (c.h_front_porch + 1)
}

/// Lines per frame: sync, back porch, active lines and front porch.
pub open spec fn frame_lines(c: LtdcConfiguration) -> int {
    (c.v_sync + 1) + (c.v_back_porch + 1) + (c.active_height + 1) + (c.v_front_porch + 1)
}

/// The divisor that a PLLSAIDIVR code selects.
pub open spec fn ltdc_divider(code: u8) -> int {
    if code == 0 {
        2
    } else if code == 1 {
        4
    } else if code == 2 {
        8
    } else {
        16
    }
}

/// The PLLSAI VCO frequency in Hz for a PLL input of `vco_input_hz`.
pub open spec fn vco_hz(vco_input_hz: int, c: PllSaiConfig) -> int {
    vco_input_hz * c.n
}

/// The LTDC pixel clock in Hz for a PLL input of `vco_input_hz`:
/// input times N, divided by R, divided by the LTDC divider.
pub open spec fn pixel_clock_hz(vco_input_hz: int, c: PllSaiConfig) -> int {
    vco_input_hz * c.n / c.r as int / ltdc_divider(c.divr)
}

/// The panel timing of the RK043FN48H: active low syncs, active high data
/// enable, data on the falling edge.
pub fn ltdccfg() -> (c: LtdcConfiguration)
    ensures
        c.h_sync == LCD_HSYNC - 1,
        c.h_back_porch == LCD_HBP - 1,
        c.active_width == LCD_WIDTH - 1,
        c.h_front_porch == LCD_HFP - 1,
        c.v_sync == LCD_VSYNC - 1,
        c.v_back_porch == LCD_VBP - 1,
        c.active_height == LCD_HEIGHT - 1,
        c.v_front_porch == LCD_VFP - 1,
        c.pixel_clock_polarity == PolarityEdge::FallingEdge,
        c.h_sync_polarity == PolarityActive::ActiveLow,
        c.v_sync_polarity == PolarityActive::ActiveLow,
        c.data_enable_polarity == PolarityActive::ActiveHigh,
{
    let ltdc_config = LtdcConfiguration {
        pixel_clock_polarity: PolarityEdge::FallingEdge,
        h_sync_polarity: PolarityActive::ActiveLow,
        v_sync_polarity: PolarityActive::ActiveLow,
        data_enable_polarity: PolarityActive::ActiveHigh,
        h_sync: LCD_HSYNC - 1,
        h_back_porch: LCD_HBP - 1,
        active_width: LCD_WIDTH - 1,
        h_front_porch: LCD_HFP - 1,
        v_sync: LCD_VSYNC - 1,
        v_back_porch: LCD_VBP - 1,
        active_height: LCD_HEIGHT - 1,
        v_front_porch: LCD_VFP - 1,
    };
    ltdc_config
}

/// The PLLSAI settings for the LTDC pixel clock: N = 192, Q = 2, R = 5 and
/// the extra divider /4.
pub fn pllsai_config() -> (c: PllSaiConfig)
    ensures
        c == (PllSaiConfig { n: 192, q: 2, r: 5, divr: 1 }),
        50 <= c.n <= 432,
        2 <= c.q <= 15,
        2 <= c.r <= 7,
        c.divr <= 3,
{
    PllSaiConfig { n: 192, q: 2, r: 5, divr: 0b01 }
}

/// With the 1 MHz PLL input that the 25 MHz crystal and PLLM = 25 give, the
/// PLLSAI settings yield a 192 MHz VCO and a 9.6 MHz pixel clock.
pub proof fn lemma_pixel_clock_is_9_6_mhz()
    ensures
        vco_hz(1_000_000, PllSaiConfig { n: 192, q: 2, r: 5, divr: 1 }) == 192_000_000,
        pixel_clock_hz(1_000_000, PllSaiConfig { n: 192, q: 2, r: 5, divr: 1 }) == 9_600_000,
{
}

/// The panel timing spans 566 pixel clocks per line and 286 lines per frame,
/// of which 480 and 272 are active.
pub proof fn lemma_ltdc_frame_size(c: LtdcConfiguration)
    requires
        c.h_sync == LCD_HSYNC - 1,
        c.h_back_porch == LCD_HBP - 1,
        c.active_width == LCD_WIDTH - 1,
        c.h_front_porch == LCD_HFP - 1,
        c.v_sync == LCD_VSYNC - 1,
        c.v_back_porch == LCD_VBP - 1,
        c.active_height == LCD_HEIGHT - 1,
        c.v_front_porch == LCD_VFP - 1,
    ensures
        line_clocks(c) == 566,
        frame_lines(c) == 286,
        c.active_width + 1 == 480,
        c.active_height + 1 == 272,
{
}

} // verus!
