# twig

A shell prompt generator: a template such as

```
{time:cyan} {hostname:magenta} {cwd:green}~{git_branch:yellow}
{"$":white,bold} 
```

is filled with variables from providers (time, host name, working directory, git, IP,
battery, environment) and written for a shell (raw ANSI, bash `\[..\]`, zsh and tcsh
`%{..%}`).

## Layout

- `src/` — the library, verified with Verus:
  - `render` (conditional spaces `~`, placeholders, colours), `validate` (format checks,
    plain rendering, ANSI stripping), `shell` (the formatters), `config` and `sections`
    (configuration, implicit sections), `providers` (the providers, their registry and the
    combining of their results), `vars` (variable tables), `report` (the configuration
    validation and the boxes the command prints), `cli` (the choices made from the flags);
  - `template`, `variable`, `time`, `hostname`, `cwd`, `ip`, `host`, `env`, `env_var`,
    `git`, `power`, `cache`, `colors`, `daemon`: the template engine and the sections of
    the daemon-backed prompt;
  - `text`, `numbers`: character sequences and decimal numbers;
  - `system`: the calls into chrono, gethostname, hostname and std's clock and errors
    (`host` calls local_ip_address, `colors` glob);
  - `laws`: properties that span functions.
- `app/` — the `twig` command (configuration file, terminal, git commands, network
  interfaces, battery, output); when run as `twigd`, the caching daemon; when run as
  `twig-cached`, the daemon-backed prompt (`--timing`, `--colors`, `daemon [--fg]`), whose
  per-section decisions (skip, defer, cache or live; the timing counts) are `daemon`'s.
- `tests/` — tests of the library.
