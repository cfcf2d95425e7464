# ftp_audit

The decisions of an FTP proxy that audits uploads: every file that a client uploads goes to the
FTP server, and a copy of it to an ICAP service for as long as the service keeps up. The service
can neither stop nor change an upload.

`src/` is the library, verified with Verus. It does no I/O. A relay, a transfer or a copy is a
state machine: `step` takes an event and returns the action to perform.

* `command`, `reply`, `passive`: the lines of an FTP control channel, and the addresses in them
* `control`, `tunnel`: control channels of native and of tunnelled clients
* `data_channel`, `copy`: data channels
* `upload_state`, `pairs`: the marks that control channels leave for data channels
* `transfer`, `body`, `adaptation`, `header`, `keylog`, `reqmod`: an upload and its ICAP request
* `audit`, `task`, `server`, `config`, `stats`: how a server and its tasks are set up
* `net`, `text`: addresses and text
* `outside`: the calls into other crates

The proof functions whose names begin with `law_` state what holds of whole channels and
transfers.

`app/` drives the machines with streams, timers and channels of `tokio` and `flume`. `tests/` runs
the library on concrete values.
