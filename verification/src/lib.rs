//! Declarative task-graph builder.
//!
//! A configuration document names units of work and the order constraints
//! between them.  This crate turns such a document into a set of task
//! values, each carrying a process-unique numeric identifier and a resolved
//! list of numeric predecessor identifiers, ready for a downstream scheduler
//! that walks the numeric graph.

pub mod action;
pub mod error;
pub mod ident;
pub mod node;
pub mod parser;
pub mod task;
pub mod yaml_input;

pub use action::Action;
pub use action::ActionView;
pub use error::FileContentError;
pub use error::ParseError;
pub use error::YamlTaskError;
pub use ident::IdAllocator;
pub use node::Node;
pub use parser::YamlParser;
pub use task::TaskView;
pub use task::YamlTask;
