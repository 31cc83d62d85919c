# grapple-probe

Verified logic of the Grapple Probe, a CMSIS-DAP debug probe, and of its host
tool. Everything under `src/` is checked by Verus against its contracts.

- `src/cmsis_dap/`: the CMSIS-DAP v2 command codec (`protocol/`), the debug
  access port engine that turns transfers into SWD and JTAG bit sequences
  (`dap.rs`, whose contracts state the calls made on the port through a
  ghost record of them, and the value and status taken from what came
  back), the request dispatcher (`dispatcher.rs`, whose replies are stated
  over the same record of port calls), the trace capture
  bookkeeping (`swo.rs`) and the decisions of a software-driven pin port
  (`bitbang.rs`).
- `src/device_info.rs`: the device-info record (length, Fletcher-16
  checksum, typed fields).
- `src/probe/`: the Grapple vendor packets, the power control field (held
  by value, or over a caller's buffer that its setters write into) and the
  host side of the vendor requests.
- `src/usb_i2c/`: the USB-I2C bridge packets and the bridge's plan for each
  request.
- `src/pio.rs`: the access port that runs SWD and JTAG on programmable I/O
  state machines: clock dividers (computed with the `fixed` crate), command
  words, how bytes are packed into and unpacked from FIFO words, and which
  program is open.
- `src/firmware.rs`, `src/uart_bridge.rs`: the probe firmware's decisions
  (vendor replies, regulator duty counts, LED, ADC, debounced inputs, serial
  bridge).
- `app/`: the host command line tool (clap, nusb) and the asynchronous glue
  of the probe (embassy USB classes, trace tasks, bridges, flash store).
- `tests/`: tests of the library.
