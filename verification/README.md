# HDR Auto

A tray application for Windows that turns HDR on when a listed game starts and puts the displays
back as they were when it exits.

- `src/` is the library: the rules that the application goes by, written in Verus and proved.
- `tests/` runs the library on concrete values.
- `app/` is the application around it: the calls into Windows, files and threads.

## The library

| Module | What it holds |
| --- | --- |
| `text`, `wide`, `seqs` | characters, lines, UTF-16, first occurrences and first failures |
| `rules`, `rule_laws` | list entries, the rules made of them, and which processes match |
| `lists`, `list_files` | which lists are in use, loading and refreshing them |
| `monitor` | which lists are scanned with, and what happens when a game starts or stops |
| `hdr`, `hdr_laws` | what the displays say, and the changes that switch or restore them |
| `startup`, `status` | what is kept in the registry, and status codes |
| `tray` | the menu, the window messages and the icon |
| `download` | the calls of a download and what comes of them |

A call into Windows is made by `app/`, which hands its result to a function of the library and does
what that function says next. The contracts say what is decided for every such result.
