//! Client library for driving a text editor through its file-based control
//! interface: decoding the editor's framed textual event records, re-encoding
//! caller decisions back into the stream, and building the per-window control
//! commands.  All I/O is left to the caller: the types here work on plain
//! characters fed in and drained out.

pub mod codec;
pub mod errors;
pub mod event;
pub mod log;
pub mod num;
pub mod props;
pub mod scan;
pub mod strutil;
pub mod text;
pub mod win;

pub use errors::Error;
pub use errors::ErrorKind;
