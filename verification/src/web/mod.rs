//! The web frontend's logic: authentication, sanitising, downloads and the
//! numbers its pages show.
pub mod app;
pub mod auth;
pub mod download;
pub mod sanitize;
pub mod toc;
