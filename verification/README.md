# sorahk

The settings, gamepad mapping and collector-injection logic of Sorahk, a key-repeat and
gamepad-mapping tool with vibration feedback for DFO clients, written in Verus and proved
against its contracts.

## Layout

- `src/` — the verified library.
  - `config.rs`: key mappings, presets, capture modes, the application settings, the rules
    a configuration read from disk is brought under, and how a vibration file is taken over.
  - `keys.rs`: the target-key list of a mapping (smallvec's `SmallVec`, behind trusted wrappers).
  - `vibration.rs`, `presets.rs`, `act.rs`: vibration defaults, the built-in presets, the
    placement and healing of the ACT1 preset, and the "-ACT" preset family.
  - `device.rs`: input devices and the names they are stored under (writer and reader,
    with a proof that every name written reads back).
  - `slots.rs`, `capture.rs`, `pad_mapping.rs`: gamepad slots and calibration order,
    folding one physical press into one capture, and reading and writing each slot's mapping.
  - `inject.rs`, `inject_round.rs`, `pe_export.rs`: choosing the collector DLL for a client,
    the injection service's bookkeeping between polls, and the walk through a module's
    export table, one memory read at a time.
  - `hid_ids.rs`: the "VID:PID[:Serial]" identifiers activated HID devices are stored
    under, reading vendor and product back out of them, and keeping stored baselines and
    per-device API choices in step with the device manager.
  - `gp_flow.rs`: the per-frame decisions of the gamepad page (calibration flag, leaving
    the page, picking a slot from a fresh press, quick listen, the keyboard capture).
  - `switch_key.rs`, `dialogs.rs`: the toggle hotkey's edge detection and the small pick-one dialogs.
  - `text.rs`, `seq_util.rs`: string and sequence helpers.
- `tests/` — tests on concrete values.
- `app/` — the program around the library: TOML files (serde copies of the settings
  types), and on Windows the process scanning and remote injection.
