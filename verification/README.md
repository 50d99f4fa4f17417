# pcc_vivace

The PCC Vivace congestion controller for a QUIC stack, with its integer
core verified by Verus.

- `src/` is the verified library:
  - `quic_time.rs`: microsecond times and offsets (`QuicTime`, `Delta`) with
    their arithmetic and order.
  - `quic_bandwidth.rs`: `QuicBandwidth` in bits per second, its unit
    conversions, rate measurement and transfer times.
  - `quic_type.rs`: acknowledged and lost packets.
  - `monitor_interval_queue.rs`: the queue of monitor intervals. Sent
    packets, acknowledgements and losses are accounted to intervals, RTT
    samples are recorded with the reliability that an estimator gives for
    each request of `reliability_requests`, and the useful intervals are
    handed on once all of their utilities are available. Its contracts are
    stated over `QueueView` / `MonitorIntervalView` and the scan in
    `congestion_event_outcome`.
  - `pcc.rs`: the controller's configuration and its integer decisions:
    useful-interval allowance, when a new interval starts, what a congestion
    event does first and what the utilities of a round lead to in each mode,
    the probing rate plan and directions, agreement of a probing round,
    majority direction, rate-change limits, the minimum-rate rule, when a
    decision is confirmed, the RTT deviation and minimum updates, and the
    congestion window. The RTT-inflation guard is a method of the queue.
- `app/` holds the controller itself (`PccVivace`, the `Controller` and
  `ControllerFactory` interfaces, the utility functions, the reliability
  estimator and RTT statistics). Its rate, utility and RTT-average
  arithmetic is floating point; the decisions listed above are taken by the
  library.
- `tests/` exercises the library on concrete values.
