# rf_tines

The control logic of the RF-Tines electric-piano instrument, written in Verus
and proved against its contracts. The audio itself is floating-point physics
and stays outside the library, and so do the checks on floating-point values;
the library takes their answers as arguments. Key ownership, MIDI decoding and
scheduling, the saved state, the program library's decisions, the panel's
protocol and the command line are here.

## Layout

- `src/keyboard.rs`: key and pedal ownership per MIDI channel, the dampers,
  all-notes-off, all-sound-off and reset, and the laws that hold of them.
- `src/midi.rs`: MIDI 1.0 and 2.0 checks and decoding into exact fractions,
  event order inside a block, the per-frame schedule and block admission.
- `src/state.rs`: the saved-state codec, the current schema and the older
  ones it still reads, with the round-trip law.
- `src/program.rs`: program documents, their storage envelope, the transfer
  buffer, draft identities and the library limit.
- `src/editor.rs`: the program editor's fields and pages, decimal parsing and
  edits.
- `src/panel.rs`: the control panel's request protocol with the host, its
  controls and tab navigation.
- `src/page.rs`: reading element ids and parameter controls out of a page.
- `src/options.rs`: the laboratory's command line.
- `src/package.rs`: where packaging finds and writes its files.
- `src/model.rs`: the pickup laws and the model's error value.
- `app/`: ordinary Rust around the library: the settings as floating-point
  values and their JSON form, the panel's JSON messages, the laboratory's
  floating-point options and the packaging steps that run the host's tools.
- `tests/`: tests of the library through its public interface.
