//! Client-side encoder for a line-oriented text ingestion protocol.
//!
//! A row is a table name, comma-separated symbols and columns written as
//! `key=value`, an optional timestamp and a newline. [`LineSender`] builds
//! rows through a sequence of calls, refuses calls made out of order, and
//! hands the finished lines to a transport on `flush`.
//!
//! The modules, leaves first:
//! - [`text`]: what is taken on trust about `String` and debug formatting;
//! - [`encoding`], [`decimal`]: byte lengths of text, decimal text of
//!   integers;
//! - [`error`], [`connect`]: errors and their messages;
//! - [`name`]: the rule that admits the names of tables and fields;
//! - [`escape`]: the two ways of escaping text, and that both can be undone;
//! - [`state`]: which operation may follow which;
//! - [`model`]: the sender as a mathematical object, and what each call
//!   does to it;
//! - [`sender`]: the sender itself, each call proved against the model;
//! - [`syntax`], [`sequence`], [`history`]: what holds of the text on the
//!   wire after any sequence of calls.

pub mod connect;
pub mod decimal;
pub mod encoding;
pub mod error;
pub mod escape;
pub mod history;
pub mod model;
pub mod name;
pub mod sender;
pub mod sequence;
pub mod state;
pub mod syntax;
pub mod text;

pub use connect::{connect_error, ConnectStep};
pub use error::{map_io_to_socket_err, Error, ErrorCode, ErrorView};
pub use model::{Call, SenderView, Step};
pub use name::Name;
pub use sender::LineSender;
pub use state::{Op, State};
