# lianli-devices (LCD link core)

The wired HydroShift II LCD and the AIO controller share one USB bulk pipe.
While the panel plays H.264, control commands wait in a queue and go out
only when the panel reports headroom; commands that hang the panel in play
mode never go out mid-stream and are dropped at stream end.

- `src/` is the verified library: the deferred-command queue (`pending`),
  the flush rule (`headroom`), link recovery (`recovery`), one-retry packet
  delivery (`delivery`), the buffer-drain wait (`buffer_wait`), stream-loop
  decisions and pacing (`stream`), packet framing and reply parsing (`wire`),
  blank layer encoding (`blank`, through the `image` crate), device identity
  from sysfs (`serial`) and the per-panel state (`session`).
- `app/` is the driver around it: mutexes and atomics, USB and file I/O,
  clocks and logging. The bulk transport and the header builder are taken
  through the traits in `app/pipe.rs`.
- `tests/` runs the library on concrete values.
