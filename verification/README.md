# esmail

A mail client with a verified core. Reading and sending mail, the local cache,
the web views that show messages, and the decisions behind the window are
written in Verus: each function's `requires` and `ensures` are proved against
its body.

## Layout

- `src/` is the library, verified throughout.
  - `text`, `files`, `data_uri`, `web_url`: texts, file names, inline data, URLs.
  - `config`: accounts.
  - `imap`, `imap_actor`: envelopes and pages; what the connections do next.
  - `db`, `db_actor`, `cache`: the cache's statements and decisions; its command
    loop; a model of its tables with the properties that hold of them.
  - `references`, `render`: the `cid:` references of a message; from raw mail to
    HTML that is safe to show, and to attachments.
  - `compose`, `smtp`: outgoing mail.
  - `notify`: when mail counts as new.
  - `mail_app`: the mail window's state and what each event changes.
  - `servo_view`, `litehtml_view`, `keyboard`, `cursor`: page views.
  - `es_mail`, `es_webview`: the plain window and its page view.
  - `store`: the mail store of a test server.
  - `profile`: the counts of a sampling profiler.
- `tests/` runs the library.
- `app/` is the program around it: windows, network, disk.

## What is taken on trust

A few calls go to other crates: mailparse, ammonia, base64, lettre, url, http,
and two functions of the standard library. Each stands behind a declaration
whose doc comment says what is claimed of the call. A result that takes pages to
describe has a name (`parsed_mail`, `ammonia_clean`, ...), and the contracts
above it speak of that name. SQLite is not modelled inside the statements:
`cache` says what each operation does to the tables, and the tests run the
statements on a database in memory.
