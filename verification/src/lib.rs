//! Identity resolution, capability decoding and segment mapping for
//! network-attached WLED light controllers.
//!
//! The crate turns what a controller reports about itself into a fully
//! characterised [`wled_net::PhysicalWled`]: a checked hardware and network
//! address, a colour buffer with one entry per pixel, and the ordered table of
//! segments, each tagged with the colour model it supports.  The crate performs
//! no network traffic of its own; [`bring_up`] says which exchange with the
//! controller is due next and what follows from its outcome.

pub mod address;
pub mod bring_up;
pub mod dispatcher;
pub mod error;
pub mod numeral;
pub mod universe;
pub mod wled_color;
pub mod wled_net;
