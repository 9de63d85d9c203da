# wsn_server

Server for a wireless network of CC32xx magnetic sensors. The devices publish
their samples over MQTT; the server registers them, counts their packets, keeps
their clock synchronisation and writes the samples to InfluxDB 2 with the line
protocol.

The logic is a Verus library, with contracts proved by Verus:

- `src/comm/message.rs`: the wire format of messages, commands and data packets,
  decoded and encoded with `bincode`.
- `src/comm/devices/`: the `Devices` and `DataBuffer` traits and the CC32xx
  implementation: the registry of devices (local ids given by MAC, measurement
  contexts, bookkeeping), the unpacking of 12-bit samples and the line-protocol
  body of a buffer with its timestamps.
- `src/comm/influx_state.rs`: per-device counters, lost packets and synchronisation.
- `src/comm/influxdb.rs`, `influx_info.rs`, `influx_error.rs`: precisions, contexts,
  the write requests (URL, token header, body) and the information lines.
- `src/server.rs`: the decisions of the MQTT server: how a topic routes a message,
  what each published message leads to, the topics it subscribes to and the
  answers it publishes.
- `src/buf.rs`, `src/codec.rs`, `src/clock.rs`: the calls into `bytes`, `bincode`
  and the system clock, with the contracts the library relies on.

`app/` is the program around the library: it reads the configuration file, runs
the MQTT event loop with `rumqttc` and `tokio`, posts the requests with `reqwest`
and performs what the library decides. `tests/` exercise the library on concrete
messages.
