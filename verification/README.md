# bouncy

A headless browser and scraper whose logic is proved.

`src/` is the library. Each function states in its contract what it returns or
changes, and Verus checks it. The modules:

- `text`, `sort`, `textmap`, `urls`, `json`: texts, ordered maps, URLs and JSON values.
- `dom`: documents as tables of nodes, with parsing, selectors, edits and their laws.
- `select`, `extract`: what selectors find on a page; its title, text and links.
- `snapshot`: a structured view of a page, with selectors for what is on it.
- `fetch`: requests, headers, cookies, redirects, encodings and blocked hosts.
- `session`: browsing in steps, with history, forms, waits and chains.
- `js`: what a page holds while scripts run on it.
- `cdp`: answers to the debugging protocol.
- `cli`: what the command line asks for, scraping many pages, and the live view.
- `webarena`: tasks, tools and turns of an agent, and how its runs are scored.

Parsers, decoders and other outside code are called through small functions marked
`external_body`; the comment above each says what is taken on trust.

`app/` is the program around the library: connections, the script engine, the
WebSocket server, the terminal and the files. The script engine reads `bootstrap.js`
and `stealth.js` from the directory that `BOUNCY_JS_DIR` names, by default
`extras/js`. `bootstrap.js`, which sets up the globals that a page expects, is not
part of this repository.

`tests/` holds the tests of the library.
