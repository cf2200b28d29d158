# rp_usb

USB device driver for the RP2040, with its rules verified by Verus.

- `src/` is the verified library. It decides which endpoints and which endpoint memory are handed
  out, which words go into which registers and in which order, which buffer of a double-buffered
  endpoint is served next, and what the USB stack is told. It does not touch the hardware: an
  operation appends the register accesses that are due to a list, and where it has to look at a
  register or has to wait, it asks for that and is continued with another step.
  - `regs`, `ops`: the registers, their fields, and what can be asked for
  - `types`, `instance`: the vocabulary that is shared with the USB stack
  - `buffer`: endpoint buffers and buffer control words
  - `driver`, `bus`, `endpoint`, `control`, `interrupt`: the parts of the driver
  - `laws`: what holds of the driver as a whole
- `app/` owns the peripheral. It carries out what the library asks for and implements the traits of
  `embassy-usb-driver`.
- `tests/` runs the library on concrete values, and holds its register layout against `rp-pac`.
