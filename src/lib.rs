//! UTF-8 text that is also a nul-terminated C string.
//!
//! [`CUtf8`] borrows such a string and [`CUtf8Buf`] owns one. Each holds text
//! whose last character is the nul terminator, found nowhere else in it, so
//! its bytes are valid UTF-8 followed by a single zero byte.

pub mod c_utf8;
pub mod c_utf8_buf;
pub mod error;
pub mod ext;
pub mod internal;
pub mod model;
pub mod strings;

pub use crate::c_utf8::CUtf8;
pub use crate::c_utf8_buf::CUtf8Buf;
pub use crate::error::{Error, Utf8Error};
pub use crate::ext::IsNulTerminated;
