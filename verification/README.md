# krabka_admin

A library for two Krabka operator tools, proved with Verus.

For the admin UI it holds sessions, sign-in, the checks in front of every
mutation and the HTML of the pages.

For the `krabka` command line it holds the `--command-config` properties, JAAS
options, security settings, the admin commands' checks, their output lines and
JSON rows, and exit codes.

## Layout

- `src/` is the library, verified with Verus.
  - `text.rs`: characters, trimming, splitting, decimal parsing, HTML escaping.
  - `session.rs`: session ids, CSRF tokens and the session store.
  - `auth.rs`: what a sign-in turns into once the broker has answered.
  - `server.rs`: cookies, content types, the mutation gate and the replies.
  - `views/`: routes, the sidebar, mutation forms and pages.
  - `cli/`: the CLI's property maps, connection settings, admin command checks,
    what each command reports (lines and JSON), result output and exit codes.
- `tests/` runs the library on concrete values.
- `app/` is the program around it: the command-line parser, the broker calls,
  terminal output and the HTTP server.
