//! paint_type: verified core logic of the paint.type image editor.
//!
//! The crate holds the parts of the editor whose behaviour can be stated
//! and proved: the branching undo graph, the collaborative CRDT tile and
//! its permission-gated session, the `.ptype` container codec, the plugin
//! manifest model, and the small text utilities of the plugin tooling.

pub mod text;
pub mod undo;
pub mod ptype;
pub mod crdt;
pub mod permission;
pub mod session;
pub mod transport;
pub mod llm;
pub mod groove;
pub mod plugins;
pub mod tile;
pub mod layers;
pub mod fill;
pub mod brush;
pub mod host;
pub mod png;
pub mod half;
pub mod tools;
