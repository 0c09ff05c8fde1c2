# smart_meter_emulator

A SunSpec smart meter emulator for Fronius inverters and EVCC, fed from
OpenDTU over MQTT and served over Modbus TCP. The logic is a Verus-verified
library; the program around it (`app/`) does the networking.

Layout of `src/`:

- `registers` – SunSpec string encoding, 32-bit values over two registers,
  reads of consecutive registers.
- `meter` – the register map of one emulated meter (SunSpec marker, Model 1,
  Model 213, end marker, discovery registers), storing readings (with the
  active-power sign inverted on inverting meters), routing requests by unit id
  and answering them; the laws of read-after-write, inversion and routing.
- `mqtt` – which OpenDTU topic (channel 0 of the configured inverter, or of
  any inverter when no serial is set) carries which measurement, how its
  value is scaled, and which readings it becomes.
- `settings` – settings given under several environment variable names
  (switches, `u8`/`u16` numbers, texts) and the two bridge meters.
- `text` – Unicode whitespace, trimming, byte pieces and equality.
- `home_assistant`, `shelly` – the sensor request of a Home Assistant
  connection; the Shelly 3EM total power registers.

Readings travel as the bit patterns of their `f32` values; `app/` converts
between floats and bits, parses payloads as floats and scales them.
