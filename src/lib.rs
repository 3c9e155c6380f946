//! Configuration language and sampling rules for a synthetic face-image generator.
//!
//! `config::parse_config` turns the lines of a configuration into sessions, each a
//! typed description of the distributions that instances are drawn from; its result
//! is exactly `config::config_of` of the text. `raster` holds the pixel rules of the
//! sampler and `naming` the names of the files a session writes.
pub mod config;
pub mod laws;
pub mod lexer;
pub mod naming;
pub mod number;
pub mod raster;
pub mod session;
pub mod text;
pub mod values;
