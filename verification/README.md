# pi

A text console on the Raspberry Pi's linear framebuffer, verified with Verus.

- `src/color.rs`: pixel colours and their 32-bit memory words.
- `src/mailbox.rs`: the VideoCore mailbox property interface: channels, tags,
  buffer status, the property buffer, and the words written to and read from
  the mailbox.
- `src/font.rs`: the code page 850 bitmap font and PC Screen Font 2 files.
- `src/surface.rs`: framebuffer memory as bytes, the stores the console makes,
  and the proofs about what they leave behind.
- `src/hdmi.rs`: the console state machine: set-up from the firmware's reply,
  writing bytes with line feeds, wrap-around and scroll requests, and laws on
  what is drawn.
- `src/framebuffer.rs`: the kernel's console; it sets itself up on first use
  with the framebuffer that each operation is handed for that purpose.
- `app/`: the hardware side: mailbox registers, framebuffer memory, asking the
  firmware for the framebuffer the console is set up with, scrolling through
  the mailbox, and single CPU instructions.
- `tests/`: tests on concrete values.
