# telemon

A hardware and game telemetry exporter's library, verified with Verus.

- `src/` is the library: configuration and its checks, metric names and
  the Prometheus text encoding, the sysfs/procfs/xprop parsers, the
  Steam Deck game-state detection steps, the Gamescope Wayland and MangoApp
  message framing, the NVML rules, and the LibreHardwareMonitor HTTP and
  WMI sensor naming. Every function states its behaviour in `requires` /
  `ensures`, and the laws that span functions are proof functions.
- `app/` is the host around it: file, socket and message-queue I/O,
  dynamic loading of NVML, threads, the `serde` mirrors of the
  configuration, and the floating-point figures the library does not hold.
- `tests/` runs the library on concrete values.
