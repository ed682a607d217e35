# Hermito

The state machines, protocol rules and text coordinates of the Hermito terminal
workbench, written in Verus: each function states what it does, and the verifier
proves it.

## What is where

- `src/text.rs`, `words.rs`, `path.rs`, `rope.rs`, `encoding.rs`, `secret.rs`, `json.rs`:
  texts, paths, the rope, digests, secrets and JSON values.
- `src/document.rs`, `edit.rs`, `buffer.rs`, `coordinate.rs`, `layout.rs`: documents,
  their edits and revisions, display coordinates, and the panes on the screen.
- `src/protocol/`: the frames and messages between the workbench and its helper.
- `src/remote/`: what the helper does with each message.
- `src/config/`, `first_run.rs`: the configuration, known hosts, records of trust.
- `src/authority/`: where files are read and programs run, and who may do so;
  workspace edits that are made wholly or not at all.
- `src/app/`: the workbench: actions, overlays, terminals, trust, language services,
  what is kept between runs.
- `src/input/`: from keys and the mouse to actions.
- `src/coalesce.rs`, `src/event_loop/`: background work, one piece at a time, and
  the loop that starts it.
- `app/`: the helper's program, and the files, terminals and sockets around the
  library. It is ordinary Rust, and nothing is proved of it.
- `tests/`: the library at work on given values.

## Where the proofs end

Functions of other crates are called through declarations whose contracts the
verifier believes: `ropey` in `src/rope.rs`, `unicode-segmentation` and
`unicode-width` in `src/coordinate.rs`, `sha2`, `hex`, `base64`, `url` and `uuid` in
`src/encoding.rs`, `zeroize` in `src/secret.rs`, and a few of the standard library
in `src/text.rs` and `src/words.rs`. Each names the function and says what is claimed of it.

Paths are texts, taken apart as on Unix.
