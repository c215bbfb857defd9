# vm_rust (verified parts)

Verified pieces of a Director movie player, written in Verus.

- `src/bit_reader.rs`: a bit-level reader for PFR1 font data. The reader is
  modelled by its bytes and a bit cursor; every read is specified over that
  model (most significant bit first, zero past the end).
- `src/header.rs`: the PFR1 header parser (fields at fixed big-endian
  offsets) and the logical font directory parser (a grammar over the bit
  reader's model).
- `src/door_guard.rs`, `src/legacy_online_actor.rs`, `src/player_datum.rs`:
  the decisions of two scripted room objects and of the `_player` datum,
  taking what the player runtime reports as plain values: handler actions,
  typed property reads with their error messages, frame cropping and the
  layout of an actor's frame member, and the steps of setting up an actor.
- `src/text.rs`: decimal formatting, ASCII case-insensitive comparison, and
  lossy UTF-8 decoding (the one trusted call).
- `app/`: the floating-point parts (stroke outlines, room geometry).
