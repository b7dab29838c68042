//! Stylesheets and static assets: files copied into the built site, with
//! their content held in memory during the build.

use vstd::prelude::*;

verus! {

/// A CSS stylesheet of the site.
#[derive(Debug)]
pub struct Stylesheet {
    pub content: String,
    pub filename: String,
}

impl Default for Stylesheet {
    /// A stylesheet with empty content and filename.
    fn default() -> (r: Stylesheet)
        ensures
            r.content@ == Seq::<char>::empty(),
            r.filename@ == Seq::<char>::empty(),
    {
        Stylesheet { content: String::new(), filename: String::new() }
    }
}

/// A static asset of the site, such as an image.
#[derive(Debug)]
pub struct Asset {
    pub content: String,
    pub filename: String,
}

impl Default for Asset {
    /// An asset with empty content and filename.
    fn default() -> (r: Asset)
        ensures
            r.content@ == Seq::<char>::empty(),
            r.filename@ == Seq::<char>::empty(),
    {
        Asset { content: String::new(), filename: String::new() }
    }
}

} // verus!
