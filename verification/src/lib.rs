//! Diagnostic client core for a local forwarding agent: the command grammar,
//! the framing of replies on an unframed byte stream, the classification of
//! replies and the decisions a session takes between round trips.

pub mod dispatch;
pub mod parse;
pub mod render;
pub mod repl;
pub mod reply;
pub mod survey;
pub mod text;
pub mod transport;
pub mod types;
pub mod well_formed;
pub mod wire;
