# rustwright

Browser automation over the Chrome DevTools Protocol and WebDriver BiDi,
with its logic verified by Verus.

- `src/` — the verified library: browser discovery and launch plans,
  DevTools HTTP framing and decoding, WebSocket message routing and the
  table of pending commands, page frame and lifecycle state, network request
  logs and their HAR export, request interception rules and dialog replies,
  selectors and locators, keyboard input,
  BiDi cookies and browsing contexts, dates, base64 and expectation verdicts.
  Each public function states what it returns in its contract; the laws that
  relate several operations are public proof functions next to them.
- `tests/` — tests of the library on concrete values.
- `app/` — the input and output around the library: the WebSocket transports,
  the HTTP client, process spawning, file-system and environment probing, the
  serde conversions, and the browser, context and page objects.
