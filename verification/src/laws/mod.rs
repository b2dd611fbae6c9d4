//! What each operation is for, said in terms of what goes in and what comes
//! out: characters, bytes and reply codes.

pub mod client;
pub mod exchange;
pub mod far_end;
pub mod files;
pub mod reply;
pub mod session;
pub mod text;
pub mod views;
