//! The logic of locally-euclidean, a service that keeps blobs for buck2.
//!
//! Nothing here does I/O. Request handlers and the opening of files are
//! machines: each step takes the outcome of the last action and says what to
//! do next. What the service promises as a whole is stated in [`store`], and
//! what its statements do to the database in [`tables`] and [`blob`].

pub mod blob;
pub mod config;
pub mod dirs;
pub mod errors;
pub mod exchange;
pub mod explore;
pub mod file_backend;
pub mod headers;
pub mod path;
pub mod postgres;
pub mod range;
pub mod span;
pub mod sql;
pub mod store;
pub mod tables;
pub mod tasks;
pub mod text;
pub mod time;
pub mod upload;
