//! Mirrors the host's effective audio output volume onto the display of a
//! keyboard that speaks a small fixed-size raw-HID command protocol.
//!
//! The modules follow the data flow. Audio-topology notifications arrive as
//! plain values and are classified by [`adapter`]; [`aggregator`] owns the
//! per-node volume and mute facts and the identity of the default output
//! node, and emits the effective volume only when it changes; [`handoff`]
//! carries that value to the slower device-writing context, newest value
//! winning; [`writer`] picks the addressed devices and builds the exact
//! packet; [`codec`] fixes the wire format, the response validation, and
//! the perceptual volume scaling.

pub mod adapter;
pub mod aggregator;
pub mod codec;
pub mod handoff;
pub mod writer;
