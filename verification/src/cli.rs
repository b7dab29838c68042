//! The command-line surface of the tool, as plain data.
//!
//! Argument parsing itself belongs to the program around the library; what
//! it produces is one of these commands.

use vstd::prelude::*;

verus! {

/// A parsed invocation.
pub struct Cli {
    pub command: Commands,
}

/// The top-level commands.
pub enum Commands {
    /// Creates a new page or post.
    New(NewArgs),
    /// Initializes a new blog environment.
    Init(InitArgs),
    /// Shows information about the current blog.
    Info,
    /// Builds the blog into a static blog site.
    Build,
}

/// What `new` can create.
pub enum NewCommands {
    /// Creates a new blog post.
    Post,
    /// Creates a new blog page.
    Page,
}

/// The arguments of `new`.
pub struct NewArgs {
    pub command: NewCommands,
}

/// The arguments of `init`.
pub struct InitArgs {
    /// The name of the directory for the new blog environment.
    pub dir_name: String,
}

/// The arguments of `build`.
pub struct BuildArgs {
}

} // verus!
