# BoardCOM gateway

Firmware logic for a small motorcycle telemetry gateway: read sensors, keep track
of how fresh their values are, and show them on zoned displays.

- `src/` is the library. Every function in it is verified with Verus; what it does
  is stated in `requires` / `ensures`, and what holds across functions in the
  public proof functions named `law_*`.
- `app/` is the program around it: the JSON schema, drawing with
  `embedded-graphics`, floating-point scaling, and the ESP32 hardware.
- `tests/` runs the library, with the real `embedded-graphics` and `serde_json`.

Two things are believed rather than proved: the glyph sizes of the three fonts that
text is laid out with (`src/drivers/display/widgets.rs`), and that cloning a JSON
value gives the same value (`src/drivers/mod.rs`).
