# epaper_watch

Firmware logic of a four-button e-paper watch (ESP32-S3, 1.54" Waveshare panel),
verified with Verus.

- `src/` is the verified library: button debouncing and the interrupt slot
  protocol (`buttons`), the menu state machine and clock adjustment (`menu`),
  clock arithmetic and texts (`clock`, `text`), the panel's LUT schedule
  (`display`) and the main loop's decisions (`status`).
- `app/` is the firmware around it: peripherals, the GPIO interrupt handler,
  the event channel, drawing on the panel and deep sleep.
- `tests/` runs the library on concrete values.
