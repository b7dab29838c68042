//! The resolved filesystem layout of a blog environment, derived from its
//! working directory.  Paths are held as plain strings, joined with `/`.

use vstd::prelude::*;

verus! {

/// A path below `dir`: the directory, a separator, and the entry's name.
pub open spec fn sub_path(dir: Seq<char>, name: Seq<char>) -> Seq<char> {
    dir + "/"@ + name
}

/// All source and build paths of one blog environment.
pub struct PathConfig {
    pub config_file: String,
    pub assets_dir: String,
    pub base_dir: String,
    pub build_assets_dir: String,
    pub build_css_dir: String,
    pub build_dir: String,
    pub build_meta_dir: String,
    pub build_pages_dir: String,
    pub build_posts_dir: String,
    pub css_dir: String,
    pub meta_dir: String,
    pub pages_dir: String,
    pub posts_dir: String,
}

/// Joins `dir` and `name` with a `/` separator.
fn join_path(dir: &str, name: &str) -> (r: String)
    ensures
        r@ == sub_path(dir@, name@),
{
    let mut out = String::from_str(dir);
    out.append("/");
    out.append(name);
    out
}

impl PathConfig {
    /// The layout rooted at `working_dir`: the configuration file and the
    /// source directories lie directly below it, and everything built goes
    /// below its `build` directory (pages at the top of it).
    pub fn new(working_dir: String) -> (r: PathConfig)
        ensures
            r.base_dir@ == working_dir@,
            r.config_file@ == sub_path(working_dir@, "mublog.toml"@),
            r.assets_dir@ == sub_path(working_dir@, "assets"@),
            r.css_dir@ == sub_path(working_dir@, "css"@),
            r.meta_dir@ == sub_path(working_dir@, "meta"@),
            r.pages_dir@ == sub_path(working_dir@, "pages"@),
            r.posts_dir@ == sub_path(working_dir@, "posts"@),
            r.build_dir@ == sub_path(working_dir@, "build"@),
            r.build_pages_dir@ == sub_path(working_dir@, "build"@),
            r.build_assets_dir@ == sub_path(sub_path(working_dir@, "build"@), "assets"@),
            r.build_css_dir@ == sub_path(sub_path(working_dir@, "build"@), "css"@),
            r.build_meta_dir@ == sub_path(sub_path(working_dir@, "build"@), "meta"@),
            r.build_posts_dir@ == sub_path(sub_path(working_dir@, "build"@), "posts"@),
    {
        let build_dir = join_path(working_dir.as_str(), "build");
        PathConfig {
            config_file: join_path(working_dir.as_str(), "mublog.toml"),
            base_dir: working_dir.clone(),
            build_pages_dir: build_dir.clone(),
            build_assets_dir: join_path(build_dir.as_str(), "assets"),
            build_css_dir: join_path(build_dir.as_str(), "css"),
            build_posts_dir: join_path(build_dir.as_str(), "posts"),
            build_meta_dir: join_path(build_dir.as_str(), "meta"),
            assets_dir: join_path(working_dir.as_str(), "assets"),
            css_dir: join_path(working_dir.as_str(), "css"),
            posts_dir: join_path(working_dir.as_str(), "posts"),
            meta_dir: join_path(working_dir.as_str(), "meta"),
            pages_dir: join_path(working_dir.as_str(), "pages"),
            build_dir,
        }
    }
}

impl Default for PathConfig {
    /// The layout of an empty working directory name.
    fn default() -> (r: PathConfig)
        ensures
            r.base_dir@ == Seq::<char>::empty(),
    {
        PathConfig::new(String::new())
    }
}

} // verus!
