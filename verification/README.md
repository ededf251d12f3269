# focuser

The rules of a website and application blocker, verified with Verus.

`src/` is the library:

- `types`, `schedule`, `block` — block lists with website, application and
  exception rules, the weekly schedule, and the decision whether a list
  blocks a domain, a URL or a process.
- `browser`, `enforcement` — the known browsers and the grace-period state
  machine that closes browsers running without the Focuser extension.
- `hosts` — the Focuser section of the hosts file, with proofs that
  rewriting it is idempotent and that removing it restores the user's lines,
  where no kept user line ends in a carriage return and no domain's entry
  writes an end-marker line (and, for restoring, where the user part is not
  empty or no section was written).
- `blocker` — the decisions of the background loop: hosts file or
  extension, which domains the hosts file blocks (sorted, without repeats,
  minus domains with a still-available allowance), which processes to close.
- `commands`, `settings`, `events` — building rules from user input, bulk
  import, the schedule grid, setting values, and the event queue.
- `protection` — the Focus Lock decisions that refuse changes to a
  protected list.
- `laws` — properties that span functions and states.
- `external` — the calls into std, `chrono`, `glob-match` and `uuid`, each
  behind one trusted item.

`app/` is the program around it: hosts-file I/O, process enumeration and
termination (Windows), and the loop that drives the library's decisions.
