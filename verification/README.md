# memsonic

An embeddable simulation engine for MEMS accelerometer, gyroscope, barometer,
and magnetometer, tailored for high-power rocketry.

## Layout

- `src/` is the verified library (Verus). It holds the engine's integer and
  bookkeeping logic, each function with a contract:
  - `env`: the xorshift32 pocket PRNG and the launch sites;
  - `noise`: xorshift32 itself and the integer draws of the Irwin-Hall
    noise source, and the bit pattern of a random unit offset;
  - `profile`: the bounded, time-ordered flight plan and the dispenser that
    finds the segment bracketing a moment;
  - `engine`: the lazy engine clock that decides how many propagation
    steps are due and towards which target;
  - `filters`: the decimation control of the oversampling FIR;
  - `sensors`: the latch that tells a new reading from an old one;
  - `builder`: the builder API and the engine rate derived from the output
    data rates.
- `app/` is the real-valued side: the physics model, sensor noise and bias,
  biquad and windowed-sinc arithmetic, and the `Simulation` facade. It uses
  `libm` and calls the library for every decision above.
- `tests/` exercises the library.
