# disco_display

Display, touch and UI logic for the STM32F746G-DISCO board (480x272 RGB565
panel on the LTDC, FT5336 touch controller), written in Verus.

- `src/` is the verified library:
  - `color`: RGB565 packing, the 8-bit-per-channel conversion used for the
    image assets, and their big-endian byte order.
  - `geometry`: panel size and frame-buffer indexing.
  - `gradient`: the scrolling three-band test pattern.
  - `framebuf`: the frame buffer, pixel drawing, clipped rectangle fills.
  - `timing`: LTDC panel timing and the PLLSAI pixel-clock settings.
  - `touch`: the touch debouncer that turns samples into clicks, drags and
    releases.
  - `ui_state`: the demo UI's counter, checkbox and slider state and the text
    shown for them.
- `tests/` runs the library on concrete values.
- `app/` is the Embassy firmware: clock and peripheral set-up, the touch and
  UI tasks, the Kolibri widgets and the embedded-graphics draw target.
