//! Declaration and parsing of command-line parameters: flags with short and
//! long spellings, positional parameters, and a typed result of one parse.

pub mod text;
pub mod arg;
pub mod matches;
pub mod args;
pub mod error;
pub mod model;
pub mod app;
pub mod help;
pub mod laws;

pub use app::{App, Invocation};
pub use arg::Arg;
pub use error::ArgError;
pub use matches::{ArgMatch, ArgMatches};
