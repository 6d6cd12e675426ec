# vector_screen

The logic of a touch screen for Klipper printers driven through Moonraker,
verified with Verus.

- `src/` — the verified library: G-code formatting, the console's input and
  history, LED/fan/tuning state, Wi-Fi scan parsing, printer selection, a
  bounded history buffer, JSON values and their compact text, Moonraker
  messages and notifications, file lists, and the decisions of the
  connection task (backoff, waiting requests, routing of replies).
- `tests/` — tests of the library.
- `app/` — the program around it: configuration and logging, the WebSocket
  and HTTP client, and the state that holds floating-point values
  (positions, temperatures, touch calibration).
