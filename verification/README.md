# domainest

Local development domains for your projects: `https://myapp.test` in place
of `pnpm dev` and `localhost:3000`. Domainest keeps a list of projects,
starts their dev servers on ports of their own, answers DNS for a zone
(default `test`) with `127.0.0.1`, and writes a Caddy configuration that
proxies each running project's domain to its port.

## Layout

- `src/` is the library, verified with Verus. Every rule of the program is
  here, with its contract:
  - `domain_suffix`: normalizing and validating DNS zones, and which hosts
    fall under a zone;
  - `projects`, `resolve`: the project list (adding with a free port and a
    default domain, updating, starting, stopping, removing, reconciling
    after a restart) and how a selector picks a project;
  - `dns`: which questions the embedded DNS server answers and the response
    message it sends;
  - `caddy`: the managed section of the Caddyfile and how it is spliced into
    a file the user also edits;
  - `process`, `sidecar`, `dnsmasq`: dev server arguments, the bundled tools'
    file names and arguments, resolver files and administrator scripts;
  - `paths`, `store`, `ids`, `text`, `models`, `error`, `cli`, `tray`: the
    data locations, identifiers, text handling, data types, messages and
    menu entries.

  Each module ends with its laws: proof functions stating what holds across
  calls (a section written again replaces the old one, a project added
  without a domain is answered by the DNS server, ports stay distinct, and
  so on).
- `app/` is the program around it: the command line, the JSON files under
  `~/.domainest`, the helper processes and the UDP socket of the DNS server.
  It sequences the library's calls around the I/O; the rules those calls
  follow are the library's.
- `tests/` runs the library on concrete values.

## Data locations

- Projects: `~/.domainest/projects.json`
- State (mkcert installed, zone): `~/.domainest/state.json`
- Certificates: `~/.domainest/certs/`
- Logs: `~/.domainest/logs/<project-id>.log`
- Caddy: `~/.domainest/caddy/`, configuration in `~/.domainest/Caddyfile`
