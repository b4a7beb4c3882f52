# openkj-ticker

Reads the database of the OpenKJ karaoke host and serves the singer rotation as a web page, a
ticker for OBS and a JSON API.

The library under `src/` is verified with Verus:

- `text`, `number`: trimming, line splitting, decimal numerals.
- `db`: singers, the karaoke state, and the current position in the settings files.
- `query`: the query for the state, as a machine of requests and replies.
- `config`, `discovery`: the configuration, its file, and the search for the data directory.
- `server`: the latest state, the API's answers, addresses and the startup notice.

`app/` is the program around it: arguments, files, SQLite, HTTP. `tests/` runs the library, once
against a real SQLite database.
