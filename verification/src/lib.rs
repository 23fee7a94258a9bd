//! An agent loop around a language model that works through tools.
//!
//! The model is asked for a turn; the turn may name one tool and give it
//! arguments; the tool's output is handed back as the next turn of the user;
//! and so on until the model says that it is done. This library holds the
//! logic of that loop, with its contracts proved:
//!
//! - [`schema`]: what a tool is called and which arguments it takes; how raw
//!   arguments are brought into the declared shape.
//! - [`declare`]: schemas from declarations, with the checks a declaration
//!   must pass.
//! - [`toolset`]: the tools and the registry that invokes them by name.
//! - [`tools`]: the schemas and typed arguments of the tools that come along.
//! - [`stream`]: the decoder that joins a streamed response into text.
//! - [`agent`]: the endpoint, the settings, and the bounded history.
//! - [`directive`]: the parser for a turn's directive, and the control loop.
//! - [`command`]: the commands of an interactive session.
//! - [`text`]: searching byte strings.
//!
//! Three modules hold what is taken on trust from outside: [`json`] for
//! `serde_json`, [`ring`] for `ringbuffer`, and [`stdtext`] for a few string
//! functions of the standard library. Sending requests and touching files is
//! left to the caller.

pub mod agent;
pub mod command;
pub mod declare;
pub mod directive;
pub mod error;
pub mod json;
pub mod ring;
pub mod schema;
pub mod stdtext;
pub mod stream;
pub mod text;
pub mod tools;
pub mod toolset;
