# mitos-network

A network-management daemon for mitosOS: devices and connection profiles,
Wi-Fi through wpa_supplicant, hotspots through hostapd, OpenVPN sessions, a
DHCP lease table for shared connections, proxy auto-configuration, and a
Unix-socket control API. The library also lays out WireGuard's
`WG_CMD_SET_DEVICE` request, but the daemon in `app/` has no netlink
socket layer, so it cannot set up WireGuard sessions; nor does it manage
routes, firewall zones or Bluetooth.

## Layout

- `src/` is the library, verified with Verus. Every function carries a
  contract over mathematical models (`Seq`, `Map`, spec functions), and the
  properties that span several functions are stated as proof functions:
  - `manager/` — the coordinator's state and its decisions (which requests
    the state answers, autoconnect choice, activation bookkeeping, event
    fan-out);
  - `wifi/` — scan-result parsing, security classification, roaming, the
    `SET_NETWORK` dialogue for joining a network, wpa_supplicant replies;
  - `proxy/pac/` — the PAC script tokenizer and parser, the pure PAC helper
    functions, HTTP response handling for fetching scripts;
  - `ipc/` — message types, framing, authorization and rate limiting;
  - `sharing/` — the DHCP lease table and reply options, hotspot settings;
  - `vpn/` — WireGuard settings, key decoding and the byte layout of the
    `WG_CMD_SET_DEVICE` generic-netlink request; OpenVPN command lines,
    scripts and management-feed tracking;
  - `routing/`, `monitoring/`, `security/`, `persistence/`, `logging/` —
    the rest of the daemon's rules and formats.
- `tests/` exercises the library on concrete values.
- `app/` is the daemon around the library: the command line, the sockets,
  files and processes, and the PAC interpreter (its values are IEEE
  doubles, which the verified library does not model).
