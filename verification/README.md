# lifelog

A daily logger that borrows git's vocabulary: a commit is `verb[:scope]
subject [-flag value]...`, `push` seals the day, and a grid of the last 30
days shows how busy each day was.

`src/` is the verified library:

- `types` – pillars, trailers, moments and commits, with their models;
- `parse` – the commit grammar and its laws;
- `store` – the row a commit is stored as, and reading it back;
- `day` – a day's status and the steps of `push`;
- `counts` – each day's commit count, no day twice;
- `grid` – tile shades, weekdays, the 30-day plan and its layout in weeks;
- `report`, `render` – the texts the command line and the terminal show;
- `app` – the terminal screens and key handling;
- `bridge` – the trusted calls into `uuid` and `chrono`;
- `text` – character helpers.

`app/` is the program: the SQLite store, the command line and the terminal
interface, which hand plain values to the library and print what it returns.
