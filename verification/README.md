# werust core

The toolkit-free browsing logic of the werust browser, written in Verus. The
library's functions in `src/` are verified against their contracts; the few
small wrappers around `serde_json` and std calls (marked
`#[verifier::external_body]`) are trusted, and their contracts say what those
calls do.

- `src/entry.rs`: the URL-bar front door (`.eth` names, explicit schemes,
  plausible hosts, refusals).
- `src/shell.rs`: the shell's decisions as the user acts and the rendering
  backend reports (the bar, pinned names, remembered ENS pages, the Back skip
  over redirect sources, blessing a name).
- `src/chrome.rs`: the chrome's facts and every presentation rule an edge paints.
- `src/name_resolution.rs`: what an ENS read and an IPNS record read decide.
- `src/pins.rs`: trust-on-first-use pins for mutable names, their wire form and
  the calendar their dates are written in.
- `src/redirects.rs`: the `_redirects` file grammar and fallback matching.
- `src/retrieval.rs`: the retrieval-backend setting and the `werust://settings`
  page.
- `src/shortcuts.rs`, `src/menu.rs`, `src/provider.rs`: the shortcut table, the
  browser menu and the read-only EIP-1193 provider transport.
- `src/json.rs`, `src/text.rs`: what `serde_json` says of a document, what it
  writes for the objects the library persists and what reading that text back
  gives; and the string helpers the rest is written with.

`ShellCore` is driven by the window's event loop: the edge performs what each
call asks of the rendering backend and hands back what the backend reports.
That loop belongs to the rendering backend's edge and is not part of this
crate.

`app/` holds the edge: the settings directory and its files, the chrome's JSON
document (it carries a floating-point progress fraction), and the platform's
shortcut convention. `tests/` exercises the library from outside.
