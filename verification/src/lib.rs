//! Doxcer core: the verified logic of a Markdown documentation generator.
//!
//! The crate takes a notebook source file, strips platform metadata lines,
//! resolves a documentation profile from CLI tokens, optionally renders a
//! definitions table fetched from a SQL backend as Markdown, and assembles
//! everything into a single prompt payload for a chat-completion API.
//! All decision logic and text transformations live here with contracts;
//! the surrounding binary performs the environment, file, database and
//! network work and hands plain values in and out.

pub mod cleaner;
pub mod cli;
pub mod config;
pub mod definitions;
pub mod markdown;
pub mod paths;
pub mod profiles;
pub mod prompt;
pub mod text;

pub use cli::CliArgs;
pub use profiles::PromptProfile;
