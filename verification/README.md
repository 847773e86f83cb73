# zfswatch

Cross-platform ZFS USB auto-mount and encryption tool for macOS and Linux,
with its core verified by Verus.

## Layout

- `src/` — the verified library:
  - `text.rs`: character-level string handling (trim, lines, split, number
    parsing and printing) with specifications of what the standard methods do;
  - `size.rs`: sizes (`1.5T`) and health words as `zpool` prints them;
  - `command.rs`: the command-runner abstraction and a scripted runner for tests;
  - `pool.rs`, `dataset.rs`, `encryption.rs`: the `zpool`/`zfs` commands each
    operation issues and how their output is read;
  - `config.rs`: configuration structure, defaults and where the file is found;
  - `prereqs.rs`: the system diagnostics and the printed report;
  - `device.rs`: USB storage devices from udev facts or `diskutil` output, and
    the insertion/removal events of successive scans;
  - `daemon.rs`: how the daemon answers each request;
  - `cli.rs`: the client's decisions and the tables it prints;
  - `keys.rs`: keyring helpers and the wiping of secrets;
  - `protocol.rs`, `types.rs`, `error.rs`: the shared data types.
- `app/` — the programs around the library: the `zfswatch` client and the
  `zfswatchd` daemon (one binary, chosen by its name), process execution,
  sockets, udev and `diskutil`, the TOML file, locked passphrase memory.
- `tests/` — tests of the library.
