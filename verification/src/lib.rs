//! Save-data manifests and remote synchronisation for PC game backups.
//!
//! The crate has two halves.
//!
//! The first is about manifests, which tell where each game keeps its
//! saves. `manifest` holds the data, `decode` reads it from a YAML document,
//! `merge` takes secondary manifests and custom games into the primary one,
//! `titles` resolves aliases and selects the games that can be looked for,
//! `ids` finds titles by the ids of stores, `update` decides when and how a
//! manifest is fetched anew, and `sideload` reads the library of games that
//! were added to the Heroic launcher by hand.
//!
//! The second is about mirroring backups to a remote by way of a
//! synchronisation tool. `cloud` describes the remotes and builds the
//! command lines of the tool, `process` decodes its log and judges its
//! exit, and `monitor` is the state machine that supervises one run of it.
//!
//! Underneath lie `text` for strings, `dict` and `ranked` for ordered maps
//! and sets, and `tree` for documents as trees of plain values. The library
//! does no input or output of its own: it is handed texts and hands back
//! values, and says in its contracts what they are.

pub mod cloud;
pub mod decode;
pub mod dict;
pub mod error;
pub mod ids;
pub mod manifest;
pub mod merge;
pub mod monitor;
pub mod placeholder;
pub mod process;
pub mod ranked;
pub mod sideload;
pub mod text;
pub mod titles;
pub mod tree;
pub mod update;
