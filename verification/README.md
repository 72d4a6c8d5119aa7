# tiny-httpd

A minimal static-file HTTP server for Kubernetes: static files from a content
root, `GET` and `HEAD` only, liveness (`/livez`) and readiness (`/readyz`)
probes, and graceful shutdown with a readiness drain window.

## Layout

- `src/` is the verified library. It holds every decision the server makes,
  each with a contract proved by Verus:
  - `request_path`: percent-decoding of request targets and the candidate
    files a target names;
  - `path`: a byte-level model of Unix path components, relative-path
    validation, component-wise prefix tests and file extensions;
  - `lookup`: safe file lookup as a state machine whose caller performs each
    filesystem step (canonicalize, read metadata, open);
  - `reply` and `routing`: the responses, described as plain values, and the
    routing of a request to a response;
  - `server`: the accept loop and per-connection lifetimes as state machines;
  - `metrics`, `cli`: metric labels and bookkeeping, command-line values;
  - `laws`: properties that relate several functions, proved from their
    contracts;
  - `bindings`: the trusted declarations of the outside calls the library
    makes (`mime_guess`, `humantime`, `String::from_utf8`).
- `app/` is the program around it: argument parsing, telemetry, sockets,
  timers and the filesystem, driving the library's state machines.
- `tests/` exercises the library on concrete values.

## Platform

Paths are read by Unix rules, where the server runs: `/` is the only
separator and there are no prefix components, so a request for `/C:\windows`
names an ordinary file called `C:\windows`. Windows path rules (drive and UNC
prefixes, `\` as a separator) are not modelled, and the program in `app/`
refuses to build for targets other than Unix.
