# cross_telegram

A Telegram console (desktop, browser and Android) built on egui, with its
logic in a library verified by Verus.

- `src/` — the verified library:
  - `console.rs`: the console state (`Console`) and every change the UI makes
    to it: sending, receiving, the activity log, tabs, the soft keyboard, token
    masking.
  - `telegram.rs`: the Bot API reply types, `collect_updates`, and the
    `sendMessage` / `getUpdates` request builders.
  - `polling.rs`: the decisions of the background poll (`Poller`).
  - `json.rs`: JSON string literals (through serde_json) and the browser's
    `sendMessage` body.
  - `text.rs`: decimal rendering and Unicode white space.
- `app/` — the program: egui drawing, layout and particle effects, HTTP with
  reqwest, the polling thread, and the platform entry points.
- `tests/` — tests of the library.
