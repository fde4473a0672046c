# quickvm

One keyboard and mouse for two machines, over QUIC. Push the cursor off the configured
edge of the controller's screen to drive the other machine; push it back off the edge
that it came in by to return.

The library in `src/` holds what is decided and computed, with contracts that Verus
proves; `app/` is the program around it, which captures, sends, injects and stores.

| module            | what it holds                                                              |
|-------------------|----------------------------------------------------------------------------|
| `event`, `coord`  | the input model; numbers as bit patterns, with their order                  |
| `wire`, `proto`   | the wire format: postcard's integers and strings, and the messages of them  |
| `link`            | what goes over a connection; positions that never go back                   |
| `handshake`       | the secret, and proving that both ends know it                              |
| `config`          | the screens, and where the cursor crosses                                   |
| `controller`      | the edge-switching state machine                                            |
| `controlled`      | what is injected for what comes in                                          |
| `emulation`       | keys and buttons as an injector knows them, and what is held down           |
| `keymap`          | the key tables of the Mac and of Windows                                    |
| `macos`, `windows`| what the capture backends do with each event                                |
| `clipboard`, `clipboard_files` | what is synchronised, and when                                 |
| `transfer`, `names` | streaming files, and what they are called                                 |
| `tray`            | the decisions of the Windows tray icon                                      |

Every message is read back as it was written, and so is the header of a batch of files
that is no longer than a message may be; positions are delivered in rising order only;
local input is swallowed only while the other machine is being driven; and once the
controller has left or is gone, nothing stays pressed on the controlled machine. These
and the other laws are the public proof functions of the modules.

What postcard, hmac, rand and the standard library do is stated, not proved, in the
functions marked `external_body`; each says what it claims.
