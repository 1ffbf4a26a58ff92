//! A small framework for building interactive line-command tools.
//!
//! The crate has two layers, built bottom-up:
//!
//! * a quote- and escape-aware tokenizer ([`parse`]) that turns one raw
//!   input line into an ordered sequence of string tokens, and
//! * a command dispatcher ([`Repl`]) that owns a registry mapping command
//!   names to handlers plus a shared state value, and routes each token
//!   sequence to the registered handler (or a fallback) until an exit
//!   command is seen.
//!
//! A thin batch variant ([`Interpreter`]) replays lines against the same
//! registry without prompt or exit handling.

pub mod interpreter;
pub mod registry;
pub mod repl;
pub mod utils;

pub use interpreter::Interpreter;
pub use repl::Action;
pub use repl::Handler;
pub use repl::Outcome;
pub use repl::Parser;
pub use repl::QuoteParser;
pub use repl::Repl;
pub use repl::WhitespaceParser;
pub use utils::parse;
pub use utils::ParseError;
