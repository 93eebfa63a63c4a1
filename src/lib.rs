//! Live telemetry bridge and marker data model for a game overlay.
//!
//! - `link`: the shared telemetry record, its packed little-endian layout, the
//!   datagram that refreshes it, and typed views of it (context block, UI flags).
//! - `poi`: markers, marker categories held in an arena, and the inheritance of
//!   display attributes along parent links.
//! - `overlay`: the loaded marker data and the pass that binds markers to the
//!   categories that their dotted types name.
//! - `trail`: the binary track format; `strips`: segmentation of a track into
//!   ribbon strips and the ribbon's triangle indices.
//! - `env`: environment lists for starting the telemetry helper.
//! - `bytes`, `text`: little-endian reads and splitting of text.

pub mod bytes;
pub mod env;
pub mod link;
pub mod overlay;
pub mod poi;
pub mod strips;
pub mod text;
pub mod trail;
