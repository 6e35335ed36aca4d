# ip_killswitch

A desktop tool that watches the machine's egress (public) IP address, compares
it with an allow-list, and warns about or ends chosen processes when the IP is
not allowed.

The crate is split in two:

- `src/` is the library, written in Verus. It holds every decision of the
  tool, each with a contract proved by Verus:
  - `detector` — extracting an IP from a provider's answer, the retry policy
    of one provider (a state machine: the application performs the HTTP
    requests and sleeps it asks for), and the verdict over all providers
    (`any` / `all` strategies);
  - `processes`, `process_watcher` — which running processes are targets,
    what killing them reported, and what a newly started target meets;
  - `scheduler`, `crontab` — the scheduler's state, what a restart sets up,
    and how long a cron schedule waits;
  - `verdict` — the latest verdict with its age;
  - `firewall` — the outbound-blocking rules to add and remove;
  - `tray`, `commands`, `window`, `logger`, `admin` — what the UI shows and
    how it reacts;
  - `config`, `state` — the configuration and the application's events;
  - `text` — character-level helpers (trimming, comparison, number
    formatting) with their specifications.
- `app/` is the desktop shell around it (Tauri window, tray, notifications,
  HTTP, process table, file and firewall access), which asks the library what
  to do and carries it out.

`tests/` exercises the library on concrete values.
