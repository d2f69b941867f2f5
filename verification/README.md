# nicwatch

Two system tools around one verified library:

- **nicwatch**, a live network interface monitor: frames captured from
  `/dev/bpf` (FreeBSD) or an `AF_PACKET` socket (Linux) are decoded,
  aggregated into rolling per-flow, per-host and per-MAC views, and drawn
  in a terminal view;
- **syssec**, a FreeBSD security scanner: users, processes, file
  permissions, disks, devices, services, kernel settings, SSH, SUID
  binaries, logs, binary integrity and live sockets, reported on the console
  and as a self-contained HTML file.

## Layout

- `src/` is the library, written in Verus. Every function carries a
  contract, and the laws that relate functions are stated as proof
  functions.
  - `domain`, `decode`, `window`, `tables`, `aggregate`, `capture`,
    `pipeline`, `ui`, `error`: the monitor's data model, frame decoding,
    sliding windows, the aggregator and its tables, the capture settings and
    the synthetic traffic, interface selection, and the state of the view.
  - `scanner`, `checks`, `integrity`, `netinspect`, `report`, `ioctl`: the
    scanner's results, each check's verdict from what was read, tree walks
    and binary integrity, socket inspection, and the reports.
  - `text`: strings and numbers over `Seq<char>`.
- `app/` is the ordinary Rust around it: command lines, system calls, file
  and process I/O, the tokio runtime and the ratatui drawing.
- `tests/` runs the library on concrete values.

`etherparse` slices IP packets and reads Ethernet headers, and `dashmap`
holds the aggregator's tables; both are called from the library through
wrappers whose contracts are stated in `src/decode.rs` and `src/tables.rs`.
