# ezal-core

The hardware-independent logic of the ezal antenna-rotator controller, as a
Verus-verified library, and the Pico 2 W firmware shell around it.

- `src/` — the verified library:
  - `ads1015` — ADS1015 register model: Config encoding, read-back
    comparison, conversion decoding and scaling.
  - `ads1015_post` — the ADC power-on self-test as a state machine over bus
    operations, and the register byte framing.
  - `wifi`, `wifi_post` — credential rules and the join self-test decisions.
  - `drive` — drive vocabulary and the actuator debouncer with its timing laws.
  - `outputs` — pin-write plans that never energise opposite outputs together.
  - `direction` — the leased drive-control loop.
  - `control` — the shared state between connections and the drive.
  - `session` — what a dashboard WebSocket connection does with each frame.
  - `protocol`, `web`, `dashboard` — the browser wire protocol and the page.
  - `morse` — the Morse encoder and its laws.
- `tests/` — host tests of the library.
- `app/` — the firmware: peripherals, network, executor; every decision is
  delegated to the library.
