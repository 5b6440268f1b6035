//! Extraction of typed content (titles, dates, paragraphs, links, images,
//! lists) from a parsed HTML document, driven by prioritised selector rules.

pub mod config;
pub mod date;
pub mod dom;
pub mod extractor;
pub mod formatter;
pub mod harvest;
pub mod outside;
pub mod matcher;
pub mod part;
pub mod pattern;
pub mod rule;
pub mod rules;
pub mod selector;
pub mod text;
pub mod website;
