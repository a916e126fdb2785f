# Pi_Forwarder

Forwards sensor data with low latency. Readings come from serial ports, or from sensors that
connect over a websocket. Each is broadcast to every connected client at once, stored in a local
SQLite database, and sent to a remote server in batches. Records are deleted from the database only
when the server has confirmed them.

The rules of the program are a library verified with Verus (`src/`). Ports, sockets, the database
and the threads are in `app/`.

| module | what it holds |
| --- | --- |
| `layout`, `setup` | the configured serial sensors, and each one's part of the reading buffer |
| `serial` | collecting one reading from every sensor |
| `fields`, `record`, `clock` | comma separated fields, the JSON record, its timestamp |
| `link` | who connects over a websocket, and the one place for the sensors |
| `cycle`, `pacing`, `timing` | the steps of a cycle, its deadline, how long the cycles take |
| `batch`, `upload` | the request that sends records, an attempt to send them, and when to make one |
| `queries`, `text` | SQL statements, decimal numerals and UTF-8 |
| `packet` | what the calls into the `bytes` crate do |

What is taken on trust is marked where it stands: the calls into `bytes` (`packet`), `chrono`
(`clock`), `serde_json` (`batch`) and `rayon` (`timing`).

## Configuration

`src/config.toml`, read from the directory that the program is started in:

```toml
[debug]
interval = 3_000                             # cycles between two timing reports of a debug build

[addrs]
local = "0.0.0.0:8080"                       # address of the local websocket server
remote = "XX.X.X.XXX:7878"                   # address that batches are sent to
endpoint = "/sessions-sensors-data/batch"    # endpoint that batches are posted to
sensors = [                                  # serial sensors, may be left out
    ["/dev/ttyACM0", 115200, "force", 16],   # port, baud rate, name, size of a reading
]

[database]
file = "data_acquisition.db"                 # name of the database file

[batch]
interval = 10                                # seconds between two batches
count = 10_000                               # most records of a batch
```

A websocket client introduces itself with one binary message. The sensors start theirs with `S`.
