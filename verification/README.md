# nemax

Verified core of a lightweight desktop client for the web messenger at
`web.max.ru`, written in Verus.

- `src/` — the library, every function with a contract proved by Verus:
  - `text` — character-level string operations (trim, prefix tests,
    search, replace-all) with their specifications and laws;
  - `json`, `encoding` — JSON string literals and base64 text, as the
    `serde_json` and `base64` crates produce them (trusted wrappers);
  - `filter` — the list of blocked request signatures and the injected
    filter script;
  - `ua_gen` — random Chrome user agents (`rand` behind a trusted wrapper);
  - `settings` — the user's settings and how each change affects them;
  - `ui` — the window event loop as a state machine from event to action,
    the settings-page commands and the scripts given to the web views;
  - `autostart`, `single_instance`, `tray` — the computing parts of logon
    autostart, the single-instance check and the tray menu.
- `app/` — the program around it: files, registry, windows, web views,
  tray and the event loop that performs the library's actions.
- `tests/` — tests of the library on concrete values.
