# clash-tray

A tiny Linux desktop tray for controlling the [mihomo](https://wiki.metacubex.one) core. It
provides its menu through StatusNotifierItem.

- Shows the core version and the current mode in the menu and the tooltip
- **Mode**: switch between Rule / Direct / Global
- **Proxies**: pick a node per proxy group
- **Rules**: lists every rule; click one to disable or enable it
- **Kernal Options**: reload the configuration, update the GEO database, flush the fake-IP and DNS
  caches, restart the core
- When the core is unreachable, the reason is shown right in the menu

| Environment variable | Default | Description |
| --- | --- | --- |
| `CLASH_CONTROLLER` | `127.0.0.1:9090` | Controller address; a full `http://host:port` also works |
| `CLASH_SECRET` | empty | When set, `Authorization: Bearer` is sent |

## Layout

- `src/` is the verified library: the state of the kernel, the menu, the calls of the controller
  and the order in which things happen, with contracts that Verus proves. What `serde_json` and
  `http` do for it stands in `src/json.rs` and `src/wire.rs`, and what is taken on trust of them is
  said there.
- `tests/` runs the library on concrete values.
- `app/` is the program around it: the network, the environment, the desktop.
