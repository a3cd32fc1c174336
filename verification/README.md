# esp32s3_soc

Register-level models of the ESP32-S3 on-chip peripherals, written in Rust and
verified with Verus.

Every block is an executable type with a mathematical state as its view. The
contract of each operation gives the state after it, and what it returns, in
terms of the state before. Properties that span several operations are proof
functions named `law_*` in the module they are about.

## Layout

- `src/bits.rs`, `bytes.rs`, `regstore.rs`: bit and byte helpers, register banks
- `src/memmap.rs`, `memory.rs`, `flashenc.rs`: address map, memories, cache
  windows, image loading, flash encryption
- `src/uart.rs`, `spi.rs`, `sdspi.rs`, `systimer.rs`, `timg.rs`, `touch.rs`,
  `twai.rs`, `uhci.rs`, `ulp.rs`, `usb_otg.rs`, `usb_serial_jtag.rs`, `wifi.rs`,
  `pll.rs`, `pads.rs`: one block each
- `src/block_cache.rs`: lengths of decoded straight-line runs
- `src/scan_fixture.rs`, `wifi_host.rs`: scripted network runs
- `src/soc.rs` and `src/soc/`: the chip: bus, time, interrupts and sleep, host
  frontends, DMA, RTOS queues and heap of the firmware, network events, and what
  further blocks get from the chip (clocks, register writes, input levels)
- `tests/`: executable tests of all of it

The crate computes on plain values only: it has no I/O and no dependencies. What
other parts of an emulator supply (pad registers, interrupt sources of further
blocks, decoded instructions, ciphertext) is handed in by its callers.
