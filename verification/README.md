# ssh_stamp

Configuration, storage, session handling and firmware update of a serial bridge that is
reached over SSH, verified with Verus.

- `src/config.rs` the configuration, how it is made and how client keys are added
- `src/codec.rs` its encoding, and that a configuration comes back as it was written
- `src/wire.rs` the numbers, texts and byte strings that encodings are made of
- `src/store.rs` the flash record: loading, saving, what a start comes to
- `src/handle.rs`, `src/handle/` requests of a client: environment variables, authentication,
  channels
- `src/ota.rs`, `src/ota/` firmware updates
- `src/outside.rs` calls into other crates, with what is taken for granted of each
- `app/` the code that takes events from the SSH server and the flash, and does what the
  library decides
- `tests/` tests on concrete values
