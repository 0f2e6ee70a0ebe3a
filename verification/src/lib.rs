//! The protocol core of a small HTTP/1.1 server.
//!
//! The text of a message goes in, and what the server does about it comes
//! out: `request` parses the message, `encoding` negotiates the content
//! coding, `router` chooses the answer, and `response` turns it into the
//! bytes for the wire, with `compress` applying the coding. `tokens` holds
//! the closed vocabulary of the protocol, `header` the headers, `text` and
//! `numeral` the operations on text that the rest is written in, and
//! `theorems` and `framing` what is proved of the whole.
//!
//! Nothing here reads a socket or touches a file. The caller hands over the
//! text it received and the base directory of the file routes, performs the
//! file access that an answer may call for, and sends the bytes.

pub mod text;
pub mod tokens;
pub mod numeral;
pub mod header;
pub mod request;
pub mod encoding;
pub mod compress;
pub mod response;
pub mod router;
pub mod theorems;
pub mod framing;
