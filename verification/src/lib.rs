//! Planning and packaging for a country-by-country export of road layers.
//!
//! A configuration names database tables and the ISO3 country codes to pull
//! from each of them. For every table the crate derives the layer name, the
//! filter query and the arguments of the conversion tool, packs the exported
//! directory into a zip archive, and says where the archive is uploaded. The
//! crate itself touches neither the file system nor the network: callers
//! perform each step and hand back what they found.

pub mod archive;
pub mod config;
pub mod document;
pub mod job;
pub mod pipeline;
pub mod text;
