# lab_task

Lab tasks run as transient systemd services on the session bus.  The launcher
starts a command under a unit name `chen-lab-task.<task>@<start time>.service`;
the monitor lists the units of systemd, keeps those whose id names a task, and
shows, restarts, stops or resets them.

- `src/` is the verified library (Verus):
  - `common.rs`: the unit name format; reading a task name and start time out
    of a unit id, exactly as the pattern
    `chen-lab-task.(?<TaskId>[a-zA-Z_\d\-]+)@(?<StartTime>[a-zA-Z_\d\-:+]+).service`
    reads it; making a unit name; the proof that a made name reads back.
  - `introspect.rs`: the names of the objects in systemd's introspection XML.
  - `monitor.rs`: the list of tasks found among the units, and what the
    monitor asks of it.
  - `task.rs`: the shell command line, the unit properties and the start
    request of a task.
- `app/` holds the two programs (bus calls, terminal, command line); the
  executable acts as the monitor when its name contains `monitor`.
- `tests/` runs the library on concrete values.
