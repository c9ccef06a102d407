# spark-signals

Host telemetry for NVIDIA DGX Spark: what an agent says of a host and what a
bridge makes of it for OpenTelemetry, with contracts that Verus proves.

- `src/` is the library. It takes the contents of files, the readings of NVML,
  the replies of model servers and the payloads of messages as plain values, and
  decides what is published, emitted, recorded or refused.
  - `schema`, `catalogue`: signal envelopes of schema v1 and their finite names.
  - `linux`: host points and inventory from procfs and sysfs.
  - `nvidia`: GPU points and inventory, hardware capability profiles.
  - `probes`: system services and model servers.
  - `signal_policy`: which observations are emitted.
  - `agent`: envelopes, cadences, health events and publication.
  - `bridge`: measurements, logs and export targets.
  - `table`, `text`, `rows`, `arith`, `doubles`, `series`: what these are built
    on.
- `tests/` runs the library.
- `app/` is the program around it: arguments, files, NVML, HTTP, NATS and the
  exporters.

A point has a number only where its source has the observation behind it; where
the source lacks it, the point is left out or says why, and no zero stands in for
it. The laws in `linux::laws`, `nvidia::laws` and `probes::laws` state this for
each source.
The library holds no floating point: a measured number is described by integers,
texts or the bits of a double, and `app/` evaluates it.
