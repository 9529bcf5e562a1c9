//! Input layer, decoupled from the rest of the client: plain key events
//! and the modifier rescue, the one key-to-action table, and the `/keys`
//! documentation generated from it.

pub mod keys;
pub mod keymap;
