//! A command-line option layer in the style of `getopts`: callers declare
//! flags and options (short name, long name, description, value arity),
//! the declarations are compiled into a grammar for the underlying engine
//! (`clap`), and a successful parse yields an immutable [`Matches`] value
//! that answers presence and value queries under either the short or the
//! long name of an option.

pub mod engine;
pub mod help;
pub mod laws;
pub mod matches;
pub mod options;
pub mod parse;

pub use help::HelpText;
pub use help::HelpTextBuilder;
pub use matches::Matches;
pub use matches::MatchEntry;
pub use options::Arity;
pub use options::ConfigError;
pub use options::CoreOptions;
pub use options::OptionDescriptor;
pub use parse::ParseOutcome;
