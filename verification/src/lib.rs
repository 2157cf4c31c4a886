//! Verified core of a browser front end for a decompiler: the application
//! state (log buffer, function list, navigation history), the text that the
//! views render (hex dump, function names, search filter) and the decisions
//! that the asynchronous glue takes.

pub mod hex;
pub mod text;
pub mod hexdump;
pub mod state;
pub mod panels;
pub mod poll;
pub mod status;
