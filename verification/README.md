# paperless_cli

A command-line client for the Paperless-ngx document server, with a verified
core library.

- `src/` is the library, checked by Verus:
  - `api.rs`: requests and responses, the `Transport` that carries them and
    the `ApiClient` that reads JSON answers and follows paginated listings;
  - `services.rs`: the operations of the client (listing, reading, editing,
    tagging, splitting, merging and downloading documents; tags,
    correspondents, document types, tasks, search) and the request bodies
    and query pairs they send;
  - `filename.rs`: reading file names out of `content-disposition` headers
    and making them safe to store;
  - `demo.rs` and `demo_data.rs`: a transport that answers every request
    from a built-in fixture library, so that each command can be tried
    without a server;
  - `cli.rs`: output modes, quiet mode and the login decisions;
  - `json.rs`, `text.rs`, `error.rs`: JSON values, text operations and the
    error type.
- `app/main.rs` is the `paperless` program: argument parsing, the HTTP
  transport, the configuration file, prompts and file writes.
- `tests/` run the library on examples, against the demo transport among
  others.

## Platform

File names taken from `content-disposition` headers are cut to their last
path component with `std::path::Path::file_name`, and the contract of that
call in `filename.rs` states the Unix path rules (`/` is the only
separator). The library is meant for Unix-like systems; on Windows, where
`\` also separates components and paths may carry a drive prefix, that
contract would not hold.

## Scope

The `paperless` program prints one result per command, as JSON or
Markdown. It has no full-screen interactive mode: run without a command it
prints the dashboard. It does not render PDF pages, keep a history of past
sessions or queries, or run background security checks; the `status` and
`dashboard` commands report what the server and the configuration say.
