# mini-bootloader

A first-stage bootloader for the ESP32-P4. The chip ROM loads it from flash @
0x2000; it picks an application slot, checks the image against its appended
SHA-256, copies the segments to their load addresses, and jumps.

The decisions are in a library that is verified with Verus, under `src/`. The
library touches no hardware. Whatever needs the flash, a register or the
console is a *step*: a value that says what to do next, with a continuation
that takes the answer. The program under `app/` performs the steps on the board.

| Module | What it decides |
| --- | --- |
| `flash` | which reads the ROM takes, and what its status means |
| `partition` | the partition table and the searches in it |
| `app` | the image header, the image size, the load of the segments |
| `verify`, `sha` | the check against the appended digest |
| `layout` | the image format as a whole, and what the walks make of it |
| `bring_up` | the start of a boot: the reports, then the PSRAM |
| `slot_select` | A/B selection with the factory application as the rescue |
| `boot` | from the chosen partition to the jump, or to the heartbeat |
| `reset_cause`, `boot_history_report`, `bootstat_report`, `crashdump_report` | the reports at the start of a boot |
| `recovery` | the serial shell that re-writes the identity partition |
| `boot_log`, `text`, `uart` | the lines on the console and their bytes |
| `gpio` | the registers of the recovery pin |
| `bytes` | little-endian words and wrapping addresses |

What holds of every boot:

* A jump needs a readable header, a digest that matches where the header
  declares one, and every segment in memory (`boot::law_jump_is_earned`; the
  type `boot::Launch` cannot be had otherwise).
* A well-formed image with the right digest boots, with exactly its segments in
  memory; with a wrong digest it never does (`boot::law_boot_of_image`).
* A slot without an image is never booted, and the factory application boots
  only in its place (`slot_select`).
* Before the jump the log is on the wire and the watchdog is armed, in this
  order (`boot::launch_steps`).
* An otadata state that cannot be stored costs a line in the log and nothing
  else (`slot_select::law_failed_store_adds_one_line`).
* The recovery shell never shows the token (`recovery::law_token_is_redacted`).

Addresses in flash wrap at 32 bits, as they do in a release build.

SHA-256 comes from `sha2`, the PSRAM sizes from `esp-p4-psram`. Their contracts,
and those of a few functions of the standard library, are taken on trust; each
stands beside the call.
