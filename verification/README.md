# nutsh_tui

The screens of a keyboard-driven terminal client for Nutanix Prism Central, written in Verus:
every screen is a state machine that takes a key and answers with an action for the
application to carry out, and every one of them is proved against its contract.

## Layout

- `src/` - the verified library.
  - `ascii`, `text`, `key`, `mouse` - folding and matching, the line editor, the input types,
    the pointer hit map.
  - `catalog` - the kinds, pages, menu items and form fields the screens read, as plain values.
  - `palette`, `ranking` - the command palette: the grammar, the word under the cursor, the
    merged and deduplicated ranking, the ghost completion and the history.
  - `menu`, `picker`, `form`, `confirm`, `search`, `settings`, `skins`, `ladder`, `journal`,
    `activity`, `contexts`, `detail`, `sidebar` - one module per screen or box.
  - `shell` - where a key goes (`ctrl-c` quits from anywhere), what a palette row runs, what a
    settings answer comes to, what opening a kind or a page comes to.
  - `acting` - an action's way to the wire: the refusal that journals every row before
    anything is sent, the confirm, the requests planned in table order, what each answer
    settles the journal to.
  - `table_view`, `poll`, `summary` - a table's own keys, what a poll message does to the
    session and what the cache keeps, the pages' summary boxes.
  - `resolve` - what a term on the command line opens.
  - `run` - the panic slot the event loop reads.
- `tests/` - scenario tests, run against the compiled library.
- `app/` - the terminal edge: crossterm events converted to the library's input, a table key
  routed and moved, the terminal restored on every way out, the panic hook.

The laws each module promises are `pub proof fn`s beside the functions they speak of.
