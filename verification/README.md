# rab-browser

A light web browser built on the operating system's web view (through `wry` and `tao`):
one web view per tab, a web-based sidebar with a command palette, per-tab back/forward
lists, bookmarks, a bounded browsing history, suspension of idle background tabs, and a
built-in MCP server that lets assistants drive the visible tabs.

## Layout

- `src/` — the `rab_browser` library, verified with Verus. It holds the browser's state and
  every decision made on it:
  - `tabs`, `bookmarks`, `history`, `settings`, `tab_history`: the state types, each with a
    mathematical view and a well-formedness invariant;
  - `url_input`: what the address bar opens for a given input (through the `url` crate);
  - `navigation`, `events`: how the state reacts to page loads, title and favicon reports,
    navigation, back/forward steps, opening, switching and closing tabs;
  - `suspend`: when background tabs may drop their web view;
  - `chrome_state`, `pages`: what the sidebar is told and the browser's own `rab://` pages;
  - `mcp_tools`, `eval_reply`: the scripts the MCP tools run and the decoding of their
    replies (through `serde_json`);
  - `mcp_clients`, `client_config`, `config_text`: where each MCP client keeps its
    configuration, the server entry it gets, how that entry is merged into an existing
    configuration file's text (read and written through `serde_json` and `toml`) without
    touching anything else, and the registration report;
  - `startup`: command-line and environment switches.
- `app/` — the program around the library: the window, the web views, the event loop, the
  clock, the MCP transport and the configuration files.
- `tests/` — tests of the library on concrete values.

## MCP client registration

The settings panel can register the browser's MCP server with Cursor, Windsurf, Antigravity,
Zed, Codex and OpenCode. Anthropic's desktop application and command-line assistant, and the
Cline extension for VS Code, are not in the client table: a request to register with them is
answered with "unsupported MCP client", and their configuration has to be edited by hand.
