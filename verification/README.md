# OpenAY Mic

OpenAY Mic turns a phone into a microphone for a desktop: the phone sends audio
packets over UDP, TCP or Bluetooth, and the desktop plays them into a virtual
audio source.

`src/` is the verified library: packet format, framing, loss accounting, jitter
buffer, depth control, engine state, network impairment, loopback measurement,
and what the console window knows and shows. It does no I/O, reads no clock of
its own and uses no floating point.

| Part | Modules |
| --- | --- |
| Packets and transports | `protocol`, `sequence`, `stats`, `udp`, `tcp` |
| Audio | `codec`, `ingest`, `jitter`, `playback`, `depth`, `millis` |
| Engine | `engine`, `run`, `setup` |
| Network impairment | `rng`, `profile`, `delay`, `proxy` |
| Measurement | `loopback`, `filler`, `sorting` |
| Console | `config`, `autostart`, `console`, `screen`, `display`, `vu`, `tray` |
| Text | `text` |

Durations in milliseconds are whole ticks of 1/6000 ms (`millis`), levels are
millionths of a decibel (`vu`), and probabilities are fractions of 2^53
(`profile`).

`app/` is ordinary Rust around the library: sockets, audio devices, files,
windows and command lines. One binary holds all programs and picks one by its
own name or by its first argument: `server`, `gui`, `proxy` or `loopback`. The
parts that need system libraries sit behind the configuration features `opus`,
`pipewire`, `tray` and `bluetooth`.

`tests/` runs the library on concrete values.
