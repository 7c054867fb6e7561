//! A turn-order and status-effect engine for a turn-based tabletop session.
//!
//! The library keeps a roster of creatures sorted by descending initiative,
//! advances a turn cursor with wraparound, and manages timed status effects
//! that expire at creature-specific trigger points (start or end of the
//! owning creature's turn).

pub mod creature;
pub mod status_effect;
pub mod text;
pub mod turn_order;
