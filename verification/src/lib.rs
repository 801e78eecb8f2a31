//! Builds a validated, owned model of an HAProxy-style configuration from an
//! already-lexed sequence of sections.
//!
//! The [`sections`] module holds the consumed input: classified lines in a
//! borrowed and an owned form, and the sections that group them. The
//! [`config`] module holds the section builders, which validate each section
//! kind and assemble the whole [`config::Config`], reporting structured
//! errors that name every offending line or entry.

pub mod config;
pub mod sections;
