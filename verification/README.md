# Bluetooth Monitor

A desktop tool that scans for Bluetooth Low Energy devices, shows and edits their GATT
attributes, decodes byte streams into frames, plots values, and captures and replays traffic.

The logic is a verified library under `src/`; `app/` is the window, the Bluetooth stack and the
files around it.

## The library

| Module | What it holds |
| --- | --- |
| `codec`, `text`, `numbers`, `lists`, `sorting` | hexadecimal and ASCII notation, texts, numbers read from bytes, lists, stable sorting |
| `protocol`, `protocol_preset`, `protocol_export` | the stream decoder (framing, checksums, fields), its presets, the exported table |
| `capture`, `replay` | the capture format and its playback |
| `plotting` | plot channels and the values they take from payloads |
| `ble` | the data of devices, the scan filters, and the connection as a state machine |
| `monitor` | the state of the whole window: sessions, panels, events, profiles, workspaces |
| `naming`, `paths`, `profile`, `plugin`, `workspace`, `i18n` | file names, settings, plugin data, saved workspaces, translations |

Every type has a mathematical value, its `deep_view`; contracts say of each operation which value
it leaves. Public proof functions state what holds across operations: that a capture reads back
what was written, that cutting a stream elsewhere gives the same frames, that a packet reaches one
session only.

## Conventions

- Time, the file system and the Bluetooth stack are arguments: the application passes the time and
  the bytes in, and carries out the actions that it gets back.
- Floating-point numbers are kept as bit patterns; the application does the arithmetic on them.
- Capture files start with `BMON`; the layout of a record is described in `capture`.
