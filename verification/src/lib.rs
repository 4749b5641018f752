//! Verified core of an mpv client plugin library: the value formats and
//! error codes of the libmpv client API, the classification of raw events,
//! the conversion between nodes and their C layout, and the parsing rules
//! behind plugin options and log files.

pub mod text;
pub mod assoc;
pub mod format;
pub mod error;
pub mod event;
pub mod options;
pub mod logging;
pub mod client;
pub mod node;
