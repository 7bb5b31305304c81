# 42 Tools

A language server and an editor extension for C projects at 42 School. The
server puts the 42 header into `.c` and `.h` files, keeps its update line
current, and formats files with `c_formatter_42`. The extension finds or
installs the server and starts it.

The library under `src/` holds the decisions, with contracts that Verus proves.
The program under `app/` talks to the editor, runs processes, reads files and
decodes settings; it asks the library what to do next and tells it what came of
it. It holds the server and the extension side by side.

## Resolution order

- Server: `binary.path`, else the installed version, else the release download.
- Formatter: `settings.formatter.path` and nothing else where it is set; else
  the formatter that lies beside the server, then `c_formatter_42` on `PATH`,
  then the Python module of that name.
- Header: `settings.header.login` and `settings.header.email_domain`, else
  `USER`, `USERNAME` or `unknown`, at `student.42istanbul.com.tr`.

Release assets exist for macOS and Linux, on `aarch64` and `x86_64`.

## Modules

| Module | What it holds |
| --- | --- |
| `text`, `lines`, `bytes` | characters, lines, line breaks, widths, UTF-8 |
| `pattern`, `clock` | the stamped lines of a header, the local time |
| `header`, `header_laws` | writing, recognising and updating headers |
| `edits`, `edit_laws` | edits, and what an editor makes of them |
| `uri`, `documents`, `json` | documents, their files, values that the editor sends |
| `settings`, `formatter`, `formatter_laws` | settings, which formatter is run and what comes of it |
| `server`, `server_laws` | saving, code actions and commands |
| `pairs`, `environment` | lists of variables and their order |
| `extension` | platforms, releases, installing and starting the server |

The modules whose names end in `_laws`, and the public proof functions of the
others, state what holds of several operations together: a header that was
written is recognised, an update changes one line, the last update wins, a
saved document has a header, a second save changes nothing, a formatter is given
the text of the document and nothing else.
