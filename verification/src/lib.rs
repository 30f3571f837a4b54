//! Build-time static resource compiler: discovers source files, resolves the
//! URL paths each one answers to, renders templated HTML and djot markup into
//! final HTML, classifies media types, and synthesizes a routing table for a
//! host HTTP server.

pub mod errors;
pub mod laws;
pub mod media;
pub mod pathspec;
pub mod pipeline;
pub mod render;
pub mod resource;
pub mod routes;
pub mod scan;
pub mod strutil;
