# tailcloak

A macOS background daemon that turns Tailscale on for untrusted networks and
off for trusted ones. A network is identified by the MAC address of its default
gateway; it is trusted when that address is in the user's trusted set.

```
current gateway MAC in trusted set  ->  tailscale down
otherwise (no network included)     ->  tailscale up
while paused                        ->  tailscale left as it is
```

## Layout

- `src/` is the verified library (Verus). It holds the decisions and the data:
  - `mac`: MAC addresses, their text, and their 48-bit keys; parsing goes
    through netdev's parser.
  - `config`: the trusted set, its text form for the configuration file.
  - `daemon`: what a reconciliation does and the line it logs.
  - `pause`: the manual-override window: what the pause file holds and what a
    read of it means (reads fail open).
  - `tailscale`: locating the CLI and what its exit means.
  - `launchd`: the LaunchAgent plist, its paths and launchctl targets.
  - `paths`: the XDG configuration and state directories.
  - `cli`: the commands that the arguments name, and their reports.
  - `text`: decimal numbers, whitespace trimming, string helpers.
- `app/` is the binary: it reads the environment, the clock, the files and the
  network, runs `tailscale` and `launchctl`, watches SystemConfiguration for
  network changes, and (de)serializes the TOML configuration.
- `tests/` runs the library on concrete values.
