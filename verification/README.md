# mark

The verified core of `mark`/`dx`, a terminal diff pager and review tool,
written in Verus. Every function under `src/` carries a contract that Verus
proves, except one trusted wrapper (`strings::string_push`, which calls
`String::push`) whose contract Verus takes as given; `app/` is the thin
command-line program around the library.

## Layout

- `src/terminal.rs` — removing CSI/OSC escape sequences and escaping control
  characters in captured terminal output.
- `src/patch.rs` — deciding whether pager input holds a patch, and splitting
  a `git show` prelude from the patch.
- `src/pager.rs` — routing pager input (pass through, page as text, show the
  diff) and the step-by-step reading of standard input.
- `src/text_pager.rs` — choosing the plain-text pager without recursing into
  `mark pager`.
- `src/keys.rs`, `src/keymap.rs` — key presses, parsing and labelling key
  names, the default bindings, settings-driven bindings and their validation.
- `src/text_input.rs`, `src/selector.rs` — UTF-8 text editing with a byte
  cursor, and filterable selection lists.
- `src/rows.rs`, `src/annotation.rs`, `src/navigation.rs`, `src/action.rs` —
  the rows of the diff view, annotation anchors, scrolling with wrapped
  lines, and what each application action does.
- `src/cli.rs`, `src/error.rs` — diff options, usage errors and the
  revision preflight of the `dx` command line.
- `src/syntax_report.rs`, `src/version.rs` — the text of the `dx syntax`
  reports and the version string.
- `src/strings.rs` — small string helpers.

Laws that relate several functions are public proof functions whose names
start with `law_`.
