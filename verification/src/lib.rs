//! A minimal static blog site generator.
//!
//! Source markdown documents (posts and pages) and assets are turned into a
//! static HTML site by an ordered pipeline of build stages.  Pluggable
//! features can hook into any stage, before or after its main work, without
//! the stage knowing about them.  A content registry owns all posts, pages,
//! stylesheets and assets of one build, assigns collision-free output
//! filenames and enforces that the site has at most one landing page.

pub mod error;
pub mod text;
pub mod date;
pub mod page;
pub mod post;
pub mod stylesheet;
pub mod blog_registry;
pub mod path_config;
pub mod features;
pub mod config;
pub mod blog;
pub mod pipeline;
pub mod html;
pub mod stages;
pub mod utils;
pub mod input;
pub mod cli;
