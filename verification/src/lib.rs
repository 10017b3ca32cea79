//! A small library for collecting and rendering named system facts.
//!
//! A *fact* is a named value (an integer or a piece of text) describing the
//! host: its processor count, page size, hostname, and the like. The library
//! is split into a pure core, verified here, and thin platform probes that an
//! application supplies: the application gathers raw values (file contents,
//! command output, kernel structure fields) and hands them to [`collect`],
//! which assembles the fact sequence; [`render`] turns a fact sequence into
//! output lines, either human-readable text or a structured key-value form.

pub mod collect;
pub mod facts;
pub mod render;
pub mod text;

pub use collect::collect;
pub use facts::{Fact, FactValue, LinuxProbe, MacProbe, OutputFormat, Probe, Query, WindowsProbe};
pub use render::render;
