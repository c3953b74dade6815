# isdt_charger

Talk to ISDT battery chargers (the CM1620 and its relatives) over Bluetooth
Low Energy, with the protocol logic proved correct by Verus.

## Layout

`src/` is the verified library. Every function there carries a contract and
is checked by Verus.

| Module | What it holds |
|---|---|
| `frame` | Framing, byte stuffing, checksums, GATT chunking and the streaming decoder, with round-trip laws |
| `request`, `response` | The packet layer: every command and reply the charger speaks |
| `types` | Chemistries, task and charger states, fault flags, the app's ranges |
| `tokens` | Client identifiers, and the sorted token store with its file format |
| `link` | The errors a frame carrier reports |
| `client` | What each arriving frame means, when to resend, what each reply says, and the firmware write plan |
| `ble` | Characteristic choice, what a scan keeps and how it is ordered, advertised-name parsing |
| `session` | The desktop backend's decisions: commands, scan entries, polling |
| `window` | The desktop window's state and how each update changes it |
| `cli` | The command line tool's argument parsing and checks |
| `text` | Small string helpers the rest is built on |

`app/` is the `isdtctl` command line tool: argument handling, the Bluetooth
radio (btleplug), the async request loop, the token file on disk and JSON
output. It does the waiting and the I/O and asks the library for every
decision.

`tests/` exercises the library on concrete values.
