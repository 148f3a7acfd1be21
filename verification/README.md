# cyd_clock

Firmware logic of a desk clock on an ESP32 "Cheap Yellow Display" (ILI9341,
320x240 landscape), verified with Verus.

- `src/` is the verified library: colours and their 888 to 565 conversion,
  BMP decoding (through `tinybmp`), the drawing plans for the screen (fills
  of pixel windows and texts), the time zone lookup and clock texts (through
  `chrono` and `chrono-tz`), the decimal parser for the server's time, the
  digit layout and the decisions of the clock's main loop as a step function
  from state and tick to next state and action.
- `app/` is the firmware around it: display and Wi-Fi setup, HTTP requests,
  and the loop that performs the library's actions on the hardware.
- `tests/` runs the library on concrete values.
