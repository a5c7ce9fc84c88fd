# PROJEKTIL Control

Control of a show installation: projectors, amplifiers, media server, power supply, network
devices and cameras, with logs, alerts and a web interface for the local network.

- `src/` is the library. Its functions compute: they build requests, read responses, decide what
  to ask next and what to report. Each one states in its contract what it returns, and Verus
  proves that it does.
- `app/` is the program around it: sockets, files, threads, the desktop window and the tray. It
  also holds what is computed in floating point.
- `tests/` runs the library on examples.

## Modules

| Module | What it is about |
| --- | --- |
| `text`, `numerals`, `strmap`, `json`, `calendar`, `digest` | texts, numbers, JSON values, dates |
| `snmp`, `ups`, `netdevices` | SNMP messages; polls of the power supply, the storage, the switch and the router |
| `pjlink`, `projector_extras` | projectors |
| `oca`, `osc` | amplifiers, Open Sound Control |
| `pixera` | the media server and its scheduler |
| `camera` | streams, snapshots, movements |
| `config`, `logs`, `alerts`, `health` | settings, log files, messages that leave, the state of devices |
| `anydesk`, `system` | the machine itself, the power meter |
| `webapi` | routes, commands and parameters of the web interface |

## Amplifier presets

The commands `preset_1`, `preset_2` and `preset_3` send a frame of the amplifier that the settings
hold under `d40_presets`: a list of texts in hexadecimal, that of the first preset first.

```json
{ "d40_presets": ["3b0001...", "3b0001...", "3b0001..."] }
```

A preset without a frame is answered with an error that says so, and nothing is sent.

## Outside crates

An outside crate is only called through a small function that says what is believed of the call:
`serde_json` in `json`, `md5` in `digest`, `base64` in `camera`, `chrono` in `calendar`; the
standard library's Unicode conversions in `text` and `numerals`.
