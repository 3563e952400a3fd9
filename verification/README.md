# kwoo-sensor-collector

A background service that waits for a LoRa gateway to connect over TCP, reads the
Modbus RTU units behind it, keeps their answers in SQLite and uploads them in
batches over HTTPS, signed with HMAC-SHA256.

The logic is a library verified with Verus; the service around it is ordinary
Rust.

| Module | What it holds |
| --- | --- |
| `crc` | the Modbus CRC-16 and what it detects |
| `modbus` | read requests and frame lengths |
| `frames` | cutting the gateway's byte stream into answers |
| `gateway` | the one connection to the gateway |
| `config` | the configuration, its defaults and its rules |
| `poller` | the schedule, the retries and the outcome of a read |
| `event`, `hex_text`, `decimal`, `clock` | what is recorded, and how it is written |
| `queue` | the capacity rule of the queue |
| `signing` | the signed text and the headers of an upload |
| `uploader` | backoff, pauses and acknowledgements |

Each module ends with the laws that its functions keep, as proof functions named
`law_...`.

`app/` holds the sockets, the database, the HTTP client, the configuration file
and `main`. `tests/` runs the library on concrete values.

Two unit addresses do not get along with the gateway's protocol: answers of unit
86 start with its heartbeat byte and are not seen, and answers of unit 42 that are
shorter than ten bytes wait until more has arrived.
