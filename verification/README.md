# network_monitor

A LAN monitoring agent: it finds the devices on the local network (active ARP
sweeps, passive ARP/DHCP capture, mDNS), classifies them, keeps their history,
announces joins, departures, returns and network outages over ntfy, webhooks and
desktop notifications, and runs periodic speed tests behind a small REST API.

The library under `src/` holds the agent's logic, verified with Verus:

- `registry`, `registry_laws`, `table`: what a discovery pass does to the device
  table and which events it reports, with the laws every pass obeys;
- `classify`: device kind and OS inference;
- `packets`, `neighbors`, `interface`, `context`, `discovery`, `mdns`: ARP and DHCP
  frames, the kernel's ARP cache and routing table, network selection, WiFi name
  and link state, passive capture, mDNS services;
- `notify`, `channels`, `agent`: notification texts, channels and the daemon's
  decisions;
- `config`, `speedtest`, `api`, `store`: configuration defaults and derived values,
  speed-test scheduling rules, the REST API's rules, and reading stored rows;
- `text`, `net`, `ipv6`, `ipparse`, `model`: strings, addresses (printing and
  reading them back, with `ip_laws` proving that a printed address reads back as
  itself) and the data model.

`app/` is the program around it: command line, SQLite, HTTP, packet capture,
pings, timers and serde encodings.

Manufacturer names come from an OUI registry that is not part of this tree: the
packet readers take the vendor lookup as an argument (`parse_packet`,
`parse_dhcp_hostname`), and the program passes one that knows no manufacturer,
so observed devices carry no vendor unless a lookup is supplied.
