# ventrail (verified core)

Parsing and processing of hydrothermal-vent observatory data: HVWS wire
sessions (an 8-byte header and LEB128-framed sections dispatched by tag)
and HVBK expedition bundles (a header and a table of tagged sections with
CRC-32 health bytes). The library in `src/` is written in Verus; every
public function states its result over a mathematical model of the bytes,
and the main properties (reading back what was written, varint
round-trips, section framing, accumulator extremes) are proved as lemmas
beside the code.

Layout:

- `src/common`: status codes, the byte buffer, little-endian readers, CRC-32.
- `src/wire`: session framing, varints, section dispatch and tag statistics.
- `src/risk`: extent and window budgets, consumers and cached view slots.
- `src/calibration`: calibration quality windows.
- `src/package`: HVBK bundle tables and validation.
- `app/`: the `ventrail` command-line tool and the floating-point helpers.
- `tests/`: executable tests of the library.
