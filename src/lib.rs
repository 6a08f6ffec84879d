//! The message pipeline of a chat bot that answers requests through the
//! Yozuk command engine: which messages are answered, how their text is
//! cleaned up, when a request is turned away, and how the engine's output
//! becomes chat messages and attachments.
use vstd::prelude::*;

pub mod external;
pub mod normalize;
pub mod pipeline;
pub mod render;

verus! {

} // verus!
