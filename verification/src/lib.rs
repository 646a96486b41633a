//! Per-turn orchestration for a retrieval-augmented question-answering bot.
//!
//! The crate holds the decision logic of one conversational turn: deriving a
//! conversation identifier, recognising the restart control message, gating
//! retrieval on a relevance verdict, filtering and deduplicating retrieved
//! passages, distilling recent question/answer recall, and composing the
//! prompts handed to a completion service.  Every network call (embedding,
//! vector search, completion, key-value store) happens outside this crate;
//! the functions here take those calls' results as plain values and decide
//! what happens next.

pub mod settings;
pub mod text;
pub mod identity;
pub mod retrieval;
pub mod distill;
pub mod prompts;
pub mod turn;
