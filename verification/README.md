# ptouch_core

Brother P-Touch label printers over USB and, for the PT-P300BT, Bluetooth. The
library in `src/` is verified with Verus; `app/` performs the transfers that it
asks for.

| Module | What it holds |
| --- | --- |
| `device`, `model`, `tape` | printer models, their profiles, printable widths |
| `protocol`, `p300bt` | commands and print jobs of the two dialects |
| `status`, `frames`, `waiting` | status reports, cutting them from a byte stream, waiting for one |
| `link`, `session` | actions, replies, and the lifecycle of a printer |
| `lifecycle`, `hearing` | what holds of whole operations |
| `transport` | a printer on the USB bus |
| `pairing`, `opening`, `rfcomm`, `bluetooth` | a PT-P300BT over an RFCOMM channel |
| `worker`, `helper`, `sample` | the background worker, its Bluetooth helper, a sample label |
| `error`, `text` | errors, and texts as sequences of characters |

Proof functions whose names begin with `law_` state what the library promises
beyond single calls. Times are nanoseconds on a clock that never runs backwards.

The list of supported USB models is a parameter: the caller hands a table of
`DeviceInfo` to `PtouchDevice::open` and `PtouchDevice::open_first`.
