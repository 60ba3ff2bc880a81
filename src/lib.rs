//! Decoding of the access-broker's database listing and the state behind the
//! guided connection dialog.
pub mod app;
pub mod catalog;
pub mod config;
pub mod labels;
pub mod layout;
pub mod text;
pub mod tsh;
pub mod widgets;
