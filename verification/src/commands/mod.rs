//! The commands of the `iceman` front end, as far as they compute rather than
//! talk to a catalog or the terminal.
pub mod describe;
pub mod info;
pub mod info_text;
pub mod inspect;
pub mod list;
pub mod py_describe;
