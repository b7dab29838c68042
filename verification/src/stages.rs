//! The concrete build stages.
//!
//! The pure transformation stages are implemented and specified here: the
//! global-variable substitution, the markdown conversion of posts and
//! pages, and the wrapping of converted content into full HTML documents.
//! The stages that touch the filesystem (loading sources, creating build
//! directories, writing output) are driven by the program around the
//! library: their logic lives in the content registry, which works on file
//! contents handed in as plain values.
//!
//! Each stage kind has a numeric tag, used as the registration key for
//! feature hooks.

use vstd::prelude::*;
use crate::blog::BlogContext;
use crate::blog_registry::SiteComponentRegistry;
use crate::config::BlogConfig;
use crate::error::BlogError;
use crate::html::{
    attr_views, container_html, ct_new_div, ct_new_footer, ct_new_main, ct_with_attributes,
    ct_with_container, ct_with_raw, head_link_html, hp_new, hp_to_html_string,
    hp_with_container, hp_with_head_link, hp_with_head_link_attr, hp_with_meta,
    hp_with_stylesheet, hp_with_title, meta_html, page_html, title_html,
};
use crate::pipeline::PipelineStage;
use crate::text::{i64_to_string, int_str, replace_all, replace_spec};

verus! {

pub const CREATE_BUILD_DIRECTORIES_KIND: u64 = 1;

pub const LOAD_STYLESHEETS_KIND: u64 = 2;

pub const LOAD_ASSETS_KIND: u64 = 3;

pub const LOAD_POSTS_KIND: u64 = 4;

pub const LOAD_PAGES_KIND: u64 = 5;

pub const APPLY_GLOBAL_VARS_KIND: u64 = 6;

pub const CONVERT_POSTS_KIND: u64 = 7;

pub const CONVERT_PAGES_KIND: u64 = 8;

pub const WRAP_POSTS_KIND: u64 = 9;

pub const WRAP_PAGES_KIND: u64 = 10;

pub const WRITE_STYLESHEETS_KIND: u64 = 11;

pub const WRITE_ASSETS_KIND: u64 = 12;

pub const WRITE_PAGES_KIND: u64 = 13;

pub const WRITE_POSTS_KIND: u64 = 14;

/// What the markdown renderer emits for the given markdown text, with its
/// default options.  The result depends on the text alone.
pub uninterp spec fn html_of(md: Seq<char>) -> Seq<char>;

/// Relies on `markdown::to_html`: a pure function from markdown text to
/// HTML text; the result depends on the input alone.
#[verifier::external_body]
fn md_to_html(md: &str) -> (r: String)
    ensures
        r@ == html_of(md@),
{
    markdown::to_html(md)
}

/// What the markdown renderer emits for the given markdown text when raw
/// HTML in the source is allowed through.  The result depends on the text
/// alone.
pub uninterp spec fn html_dangerous_of(md: Seq<char>) -> Seq<char>;

/// Relies on `markdown::to_html_with_options` with default options plus
/// `allow_dangerous_html`: its documentation says it never errors unless
/// MDX is turned on, which it is not here, and the result depends on the
/// input alone.
#[verifier::external_body]
fn md_to_html_dangerous(md: &str) -> (r: Option<String>)
    ensures
        r is Some,
        r matches Some(h) ==> h@ == html_dangerous_of(md@),
{
    let options = markdown::Options {
        compile: markdown::CompileOptions {
            allow_dangerous_html: true,
            ..markdown::CompileOptions::default()
        },
        ..markdown::Options::default()
    };
    markdown::to_html_with_options(md, &options).ok()
}

/// A piece of content with the global placeholders filled in: every
/// `{{{AUTHOR_NAME}}}` replaced by the author, then every
/// `{{{COPYRIGHT_YEAR}}}` by the year, then every `{{{AUTHOR_EMAIL}}}` by
/// the email address.
pub open spec fn global_vars_spec(
    content: Seq<char>,
    author: Seq<char>,
    year: int,
    email: Seq<char>,
) -> Seq<char> {
    replace_spec(
        replace_spec(
            replace_spec(content, "{{{AUTHOR_NAME}}}"@, author),
            "{{{COPYRIGHT_YEAR}}}"@,
            int_str(year),
        ),
        "{{{AUTHOR_EMAIL}}}"@,
        email,
    )
}

/// Fills the global placeholders of one piece of content.
fn apply_global_vars(content: &str, config: &BlogConfig) -> (r: String)
    ensures
        r@ == global_vars_spec(
            content@,
            config.blog_author@,
            config.blog_copyright_year as int,
            config.blog_email@,
        ),
{
    proof {
        reveal_strlit("{{{AUTHOR_NAME}}}");
        reveal_strlit("{{{COPYRIGHT_YEAR}}}");
        reveal_strlit("{{{AUTHOR_EMAIL}}}");
    }
    let year = i64_to_string(config.blog_copyright_year);
    let step1 = replace_all(content, "{{{AUTHOR_NAME}}}", config.blog_author.as_str());
    let step2 = replace_all(step1.as_str(), "{{{COPYRIGHT_YEAR}}}", year.as_str());
    replace_all(step2.as_str(), "{{{AUTHOR_EMAIL}}}", config.blog_email.as_str())
}

/// The stage that fills `{{{AUTHOR_NAME}}}`, `{{{COPYRIGHT_YEAR}}}` and
/// `{{{AUTHOR_EMAIL}}}` in every page and post from the configuration.
pub struct ApplyGlobalVarsStage;

impl ApplyGlobalVarsStage {
    /// Fills the global placeholders in the content of every page and
    /// post; all other fields and collections stay as they are.
    #[verifier::loop_isolation(false)]
    pub fn apply(config: &BlogConfig, registry: &mut SiteComponentRegistry)
        ensures
            final(registry).spec_stylesheets() == old(registry).spec_stylesheets(),
            final(registry).spec_assets() == old(registry).spec_assets(),
            final(registry).spec_pages().len() == old(registry).spec_pages().len(),
            final(registry).spec_posts().len() == old(registry).spec_posts().len(),
            forall|k: int|
                0 <= k < old(registry).spec_pages().len() ==> {
                    let p = #[trigger] final(registry).spec_pages()[k];
                    let q = old(registry).spec_pages()[k];
                    &&& p.content@ == global_vars_spec(
                        q.content@,
                        config.blog_author@,
                        config.blog_copyright_year as int,
                        config.blog_email@,
                    )
                    &&& p.title == q.title
                    &&& p.draft == q.draft
                    &&& p.index == q.index
                    &&& p.html_filename == q.html_filename
                    &&& p.md_filename == q.md_filename
                },
            forall|k: int|
                0 <= k < old(registry).spec_posts().len() ==> {
                    let p = #[trigger] final(registry).spec_posts()[k];
                    let q = old(registry).spec_posts()[k];
                    &&& p.content@ == global_vars_spec(
                        q.content@,
                        config.blog_author@,
                        config.blog_copyright_year as int,
                        config.blog_email@,
                    )
                    &&& p.header == q.header
                    &&& p.html_filename == q.html_filename
                    &&& p.md_filename == q.md_filename
                },
    {
        let ghost pages0 = registry.spec_pages();
        let ghost posts0 = registry.spec_posts();
        let pages = registry.get_pages_mut();
        let mut k: usize = 0;
        while k < pages.len()
            invariant
                pages@.len() == pages0.len(),
                0 <= k <= pages0.len(),
                forall|j: int| k <= j < pages0.len() ==> pages@[j] == pages0[j],
                forall|j: int|
                    0 <= j < k ==> {
                        let p = #[trigger] pages@[j];
                        let q = pages0[j];
                        &&& p.content@ == global_vars_spec(
                            q.content@,
                            config.blog_author@,
                            config.blog_copyright_year as int,
                            config.blog_email@,
                        )
                        &&& p.title == q.title
                        &&& p.draft == q.draft
                        &&& p.index == q.index
                        &&& p.html_filename == q.html_filename
                        &&& p.md_filename == q.md_filename
                    },
            decreases pages0.len() - k,
        {
            let updated = apply_global_vars(pages[k].content.as_str(), config);
            let page = &mut pages[k];
            page.content = updated;
            k = k + 1;
        }
        let posts = registry.get_posts_mut();
        let mut k: usize = 0;
        while k < posts.len()
            invariant
                posts@.len() == posts0.len(),
                0 <= k <= posts0.len(),
                forall|j: int| k <= j < posts0.len() ==> posts@[j] == posts0[j],
                forall|j: int|
                    0 <= j < k ==> {
                        let p = #[trigger] posts@[j];
                        let q = posts0[j];
                        &&& p.content@ == global_vars_spec(
                            q.content@,
                            config.blog_author@,
                            config.blog_copyright_year as int,
                            config.blog_email@,
                        )
                        &&& p.header == q.header
                        &&& p.html_filename == q.html_filename
                        &&& p.md_filename == q.md_filename
                    },
            decreases posts0.len() - k,
        {
            let updated = apply_global_vars(posts[k].content.as_str(), config);
            let post = &mut posts[k];
            post.content = updated;
            k = k + 1;
        }
    }
}

impl PipelineStage for ApplyGlobalVarsStage {
    fn initialize(&self, ctx: &mut BlogContext) -> Result<(), BlogError> {
        Ok(())
    }

    fn process(&self, ctx: &mut BlogContext) -> Result<(), BlogError> {
        ApplyGlobalVarsStage::apply(&ctx.config, &mut ctx.registry);
        Ok(())
    }

    fn finalize(&self, ctx: &mut BlogContext) -> Result<(), BlogError> {
        Ok(())
    }
}

/// The stage that converts every post's markdown content to HTML, allowing
/// raw HTML in the source through.
pub struct ConvertPostsStage;

impl ConvertPostsStage {
    /// Converts every post's content from markdown to HTML in place; all
    /// other fields and collections stay as they are.
    #[verifier::loop_isolation(false)]
    pub fn convert(registry: &mut SiteComponentRegistry)
        ensures
            final(registry).spec_pages() == old(registry).spec_pages(),
            final(registry).spec_stylesheets() == old(registry).spec_stylesheets(),
            final(registry).spec_assets() == old(registry).spec_assets(),
            final(registry).spec_posts().len() == old(registry).spec_posts().len(),
            forall|k: int|
                0 <= k < old(registry).spec_posts().len() ==> {
                    let p = #[trigger] final(registry).spec_posts()[k];
                    let q = old(registry).spec_posts()[k];
                    &&& p.content@ == html_dangerous_of(q.content@)
                    &&& p.header == q.header
                    &&& p.html_filename == q.html_filename
                    &&& p.md_filename == q.md_filename
                },
    {
        let ghost posts0 = registry.spec_posts();
        let posts = registry.get_posts_mut();
        let mut k: usize = 0;
        while k < posts.len()
            invariant
                posts@.len() == posts0.len(),
                0 <= k <= posts0.len(),
                forall|j: int| k <= j < posts0.len() ==> posts@[j] == posts0[j],
                forall|j: int|
                    0 <= j < k ==> {
                        let p = #[trigger] posts@[j];
                        let q = posts0[j];
                        &&& p.content@ == html_dangerous_of(q.content@)
                        &&& p.header == q.header
                        &&& p.html_filename == q.html_filename
                        &&& p.md_filename == q.md_filename
                    },
            decreases posts0.len() - k,
        {
            let converted = match md_to_html_dangerous(posts[k].content.as_str()) {
                Some(h) => h,
                None => String::new(),
            };
            let post = &mut posts[k];
            post.content = converted;
            k = k + 1;
        }
    }
}

impl PipelineStage for ConvertPostsStage {
    fn initialize(&self, ctx: &mut BlogContext) -> Result<(), BlogError> {
        Ok(())
    }

    fn process(&self, ctx: &mut BlogContext) -> Result<(), BlogError> {
        ConvertPostsStage::convert(&mut ctx.registry);
        Ok(())
    }

    fn finalize(&self, ctx: &mut BlogContext) -> Result<(), BlogError> {
        Ok(())
    }
}

/// The stage that converts every page's markdown content to HTML.
pub struct ConvertPagesStage;

impl ConvertPagesStage {
    /// Converts every page's content from markdown to HTML in place; all
    /// other fields and collections stay as they are.
    #[verifier::loop_isolation(false)]
    pub fn convert(registry: &mut SiteComponentRegistry)
        ensures
            final(registry).spec_posts() == old(registry).spec_posts(),
            final(registry).spec_stylesheets() == old(registry).spec_stylesheets(),
            final(registry).spec_assets() == old(registry).spec_assets(),
            final(registry).spec_pages().len() == old(registry).spec_pages().len(),
            forall|k: int|
                0 <= k < old(registry).spec_pages().len() ==> {
                    let p = #[trigger] final(registry).spec_pages()[k];
                    let q = old(registry).spec_pages()[k];
                    &&& p.content@ == html_of(q.content@)
                    &&& p.title == q.title
                    &&& p.draft == q.draft
                    &&& p.index == q.index
                    &&& p.html_filename == q.html_filename
                    &&& p.md_filename == q.md_filename
                },
    {
        let ghost pages0 = registry.spec_pages();
        let pages = registry.get_pages_mut();
        let mut k: usize = 0;
        while k < pages.len()
            invariant
                pages@.len() == pages0.len(),
                0 <= k <= pages0.len(),
                forall|j: int| k <= j < pages0.len() ==> pages@[j] == pages0[j],
                forall|j: int|
                    0 <= j < k ==> {
                        let p = #[trigger] pages@[j];
                        let q = pages0[j];
                        &&& p.content@ == html_of(q.content@)
                        &&& p.title == q.title
                        &&& p.draft == q.draft
                        &&& p.index == q.index
                        &&& p.html_filename == q.html_filename
                        &&& p.md_filename == q.md_filename
                    },
            decreases pages0.len() - k,
        {
            let converted = md_to_html(pages[k].content.as_str());
            let page = &mut pages[k];
            page.content = converted;
            k = k + 1;
        }
    }
}

impl PipelineStage for ConvertPagesStage {
    fn initialize(&self, ctx: &mut BlogContext) -> Result<(), BlogError> {
        Ok(())
    }

    fn process(&self, ctx: &mut BlogContext) -> Result<(), BlogError> {
        ConvertPagesStage::convert(&mut ctx.registry);
        Ok(())
    }

    fn finalize(&self, ctx: &mut BlogContext) -> Result<(), BlogError> {
        Ok(())
    }
}

/// The shared head of a wrapped document: the meta data, the title, the
/// stylesheet and icon links.  `site_name`, `descr` and `date_label` are
/// the three entries where posts and pages differ.
pub open spec fn wrap_head(
    title: Seq<char>,
    author: Seq<char>,
    site_name: Seq<char>,
    descr: Seq<char>,
    date_label: Seq<char>,
) -> Seq<char> {
    meta_html(seq![("charset"@, "utf-8"@)]) + title_html(title) + meta_html(
        seq![("name"@, "viewport"@), ("content"@, "width=device-width, initial-scale=1"@)],
    ) + meta_html(seq![("name"@, "robots"@), ("content"@, "index, archive"@)]) + meta_html(
        seq![("name"@, "canonical"@), ("content"@, "BLOG_URL"@)],
    ) + meta_html(seq![("name"@, "description"@), ("content"@, "BLOG_DESCRIPTION"@)])
        + meta_html(seq![("property"@, "og:type"@), ("content"@, "article"@)]) + meta_html(
        seq![("property"@, "og:locale"@), ("content"@, "en_US"@)],
    ) + meta_html(seq![("property"@, "og:site_name"@), ("content"@, site_name)]) + meta_html(
        seq![("property"@, "og:title"@), ("content"@, "POST_TITLE"@)],
    ) + meta_html(seq![("property"@, "og:description"@), ("content"@, descr)]) + meta_html(
        seq![("property"@, "og:url"@), ("content"@, "POST_URL"@)],
    ) + meta_html(seq![("property"@, "og:article:published_time"@), ("content"@, date_label)])
        + meta_html(seq![("property"@, "og:article:author"@), ("content"@, author)])
        + head_link_html("/css/layout.css"@, "stylesheet"@, Seq::empty()) + head_link_html(
        "/meta/webmanifest.xml"@,
        "manifest"@,
        Seq::empty(),
    ) + head_link_html(
        "/meta/apple-touch-icon.png"@,
        "apple-touch-icon"@,
        seq![("sizes"@, "180x180"@)],
    ) + head_link_html(
        "/meta/favicon-32x32.png"@,
        "icon"@,
        seq![("type"@, "image/png"@), ("sizes"@, "32x32"@)],
    ) + head_link_html(
        "/meta/favicon-16x16.png"@,
        "icon"@,
        seq![("type"@, "image/png"@), ("sizes"@, "16x16"@)],
    ) + head_link_html("/meta/favicon.ico"@, "favicon"@, Seq::empty()) + title_html(title)
}

/// The footer of a wrapped document: a rule and the copyright year in its
/// nested divs.
pub open spec fn wrap_footer(year: int) -> Seq<char> {
    container_html(
        "footer"@,
        Seq::empty(),
        seq![
            "<hr>"@,
            container_html(
                "div"@,
                seq![("class"@, "footer-elements"@)],
                seq![
                    container_html(
                        "div"@,
                        seq![("class"@, "footer-copyright"@)],
                        seq![int_str(year)],
                    ),
                ],
            ),
        ],
    )
}

/// The full document a post is wrapped into: the shared head, then the
/// content behind a rule in the main section, then the footer.
pub open spec fn wrap_post_doc(
    title: Seq<char>,
    content: Seq<char>,
    author: Seq<char>,
    year: int,
) -> Seq<char> {
    page_html(
        wrap_head(title, author, "BLOG_TITLE"@, "POST_DESCRIPTION"@, "POST_DATE"@),
        container_html("main"@, Seq::empty(), seq!["<hr>"@, content]) + wrap_footer(year),
    )
}

/// The full document a page is wrapped into: the shared head with the
/// page's own title as the site name, then the content in the main
/// section, then the footer.
pub open spec fn wrap_page_doc(
    title: Seq<char>,
    content: Seq<char>,
    author: Seq<char>,
    year: int,
) -> Seq<char> {
    page_html(
        wrap_head(title, author, title, "PAGE_DESCRIPTION"@, "PAGE_DATE"@),
        container_html("main"@, Seq::empty(), seq![content]) + wrap_footer(year),
    )
}

/// One attribute pair as a vector, for the html builder calls.
pub(crate) fn one_attr(k: &str, v: &str) -> (r: Vec<(String, String)>)
    ensures
        attr_views(r@) == seq![(k@, v@)],
{
    let mut r: Vec<(String, String)> = Vec::new();
    r.push((String::from_str(k), String::from_str(v)));
    proof {
        assert(attr_views(r@) =~= seq![(k@, v@)]);
    }
    r
}

/// Two attribute pairs as a vector, for the html builder calls.
pub(crate) fn two_attrs(k1: &str, v1: &str, k2: &str, v2: &str) -> (r: Vec<(String, String)>)
    ensures
        attr_views(r@) == seq![(k1@, v1@), (k2@, v2@)],
{
    let mut r: Vec<(String, String)> = Vec::new();
    r.push((String::from_str(k1), String::from_str(v1)));
    r.push((String::from_str(k2), String::from_str(v2)));
    proof {
        assert(attr_views(r@) =~= seq![(k1@, v1@), (k2@, v2@)]);
    }
    r
}

/// Builds the shared head on a fresh page.
#[verifier::rlimit(100)]
fn build_wrap_head(
    title: &str,
    author: &str,
    site_name: &str,
    descr: &str,
    date_label: &str,
) -> (r: build_html::HtmlPage)
    ensures
        crate::html::hp_head(r) == wrap_head(title@, author@, site_name@, descr@, date_label@),
        crate::html::hp_body(r) == Seq::<char>::empty(),
{
    let p = hp_new();
    let p = hp_with_meta(p, &one_attr("charset", "utf-8"));
    let p = hp_with_title(p, title);
    let p = hp_with_meta(
        p,
        &two_attrs("name", "viewport", "content", "width=device-width, initial-scale=1"),
    );
    let p = hp_with_meta(p, &two_attrs("name", "robots", "content", "index, archive"));
    let p = hp_with_meta(p, &two_attrs("name", "canonical", "content", "BLOG_URL"));
    let p = hp_with_meta(p, &two_attrs("name", "description", "content", "BLOG_DESCRIPTION"));
    let p = hp_with_meta(p, &two_attrs("property", "og:type", "content", "article"));
    let p = hp_with_meta(p, &two_attrs("property", "og:locale", "content", "en_US"));
    let p = hp_with_meta(p, &two_attrs("property", "og:site_name", "content", site_name));
    let p = hp_with_meta(p, &two_attrs("property", "og:title", "content", "POST_TITLE"));
    let p = hp_with_meta(p, &two_attrs("property", "og:description", "content", descr));
    let p = hp_with_meta(p, &two_attrs("property", "og:url", "content", "POST_URL"));
    let p = hp_with_meta(
        p,
        &two_attrs("property", "og:article:published_time", "content", date_label),
    );
    let p = hp_with_meta(p, &two_attrs("property", "og:article:author", "content", author));
    let p = hp_with_stylesheet(p, "/css/layout.css");
    let p = hp_with_head_link(p, "/meta/webmanifest.xml", "manifest");
    let p = hp_with_head_link_attr(
        p,
        "/meta/apple-touch-icon.png",
        "apple-touch-icon",
        &one_attr("sizes", "180x180"),
    );
    let p = hp_with_head_link_attr(
        p,
        "/meta/favicon-32x32.png",
        "icon",
        &two_attrs("type", "image/png", "sizes", "32x32"),
    );
    let p = hp_with_head_link_attr(
        p,
        "/meta/favicon-16x16.png",
        "icon",
        &two_attrs("type", "image/png", "sizes", "16x16"),
    );
    let p = hp_with_head_link(p, "/meta/favicon.ico", "favicon");
    let p = hp_with_title(p, title);
    proof {
        assert(crate::html::hp_head(p) =~= wrap_head(
            title@,
            author@,
            site_name@,
            descr@,
            date_label@,
        ));
    }
    p
}

/// Builds the footer container.
#[verifier::rlimit(60)]
fn build_wrap_footer(year: i64) -> (r: build_html::Container)
    ensures
        container_html(
            crate::html::ct_tag(r),
            crate::html::ct_attrs(r),
            crate::html::ct_children(r),
        ) == wrap_footer(year as int),
{
    let inner = ct_with_raw(
        ct_with_attributes(ct_new_div(), &one_attr("class", "footer-copyright")),
        i64_to_string(year).as_str(),
    );
    let ghost inner_html = container_html(
        crate::html::ct_tag(inner),
        crate::html::ct_attrs(inner),
        crate::html::ct_children(inner),
    );
    let mid = ct_with_container(
        ct_with_attributes(ct_new_div(), &one_attr("class", "footer-elements")),
        inner,
    );
    let footer = ct_with_container(ct_with_raw(ct_new_footer(), "<hr>"), mid);
    proof {
        reveal_strlit("footer");
        reveal_strlit("div");
        reveal_strlit("ol");
        reveal_strlit("ul");
        assert(Seq::<(Seq<char>, Seq<char>)>::empty() + seq![("class"@, "footer-copyright"@)]
            =~= seq![("class"@, "footer-copyright"@)]);
        assert(Seq::<(Seq<char>, Seq<char>)>::empty() + seq![("class"@, "footer-elements"@)]
            =~= seq![("class"@, "footer-elements"@)]);
        assert("div"@ != "ol"@ && "div"@ != "ul"@) by {
            assert("div"@.len() == 3);
        }
        assert("footer"@ != "ol"@ && "footer"@ != "ul"@) by {
            assert("footer"@.len() == 6);
        }
        assert(crate::html::ct_children(inner) =~= seq![int_str(year as int)]);
        assert(inner_html == container_html(
            "div"@,
            seq![("class"@, "footer-copyright"@)],
            seq![int_str(year as int)],
        ));
        assert(crate::html::ct_children(mid) =~= seq![inner_html]);
        assert(crate::html::ct_children(footer) =~= seq![
            "<hr>"@,
            container_html("div"@, seq![("class"@, "footer-elements"@)], seq![inner_html]),
        ]);
        assert(container_html(
            crate::html::ct_tag(footer),
            crate::html::ct_attrs(footer),
            crate::html::ct_children(footer),
        ) =~= wrap_footer(year as int));
    }
    footer
}

/// Builds the full document a post is wrapped into.
#[verifier::rlimit(60)]
fn build_wrapped_post(title: &str, content: &str, author: &str, year: i64) -> (r: String)
    ensures
        r@ == wrap_post_doc(title@, content@, author@, year as int),
{
    let head = build_wrap_head(title, author, "BLOG_TITLE", "POST_DESCRIPTION", "POST_DATE");
    let main = ct_with_raw(ct_with_raw(ct_new_main(), "<hr>"), content);
    proof {
        reveal_strlit("main");
        reveal_strlit("ol");
        reveal_strlit("ul");
        assert("main"@ != "ol"@ && "main"@ != "ul"@) by {
            assert("main"@.len() == 4);
        }
        assert(crate::html::ct_children(main) =~= seq!["<hr>"@, content@]);
    }
    let page = hp_with_container(head, main);
    let page = hp_with_container(page, build_wrap_footer(year));
    let r = hp_to_html_string(&page);
    proof {
        assert(crate::html::hp_body(page) =~= container_html(
            "main"@,
            Seq::empty(),
            seq!["<hr>"@, content@],
        ) + wrap_footer(year as int));
        assert(r@ =~= wrap_post_doc(title@, content@, author@, year as int));
    }
    r
}

/// Builds the full document a page is wrapped into.
#[verifier::rlimit(60)]
fn build_wrapped_page(title: &str, content: &str, author: &str, year: i64) -> (r: String)
    ensures
        r@ == wrap_page_doc(title@, content@, author@, year as int),
{
    let head = build_wrap_head(title, author, title, "PAGE_DESCRIPTION", "PAGE_DATE");
    let main = ct_with_raw(ct_new_main(), content);
    proof {
        reveal_strlit("main");
        reveal_strlit("ol");
        reveal_strlit("ul");
        assert("main"@ != "ol"@ && "main"@ != "ul"@) by {
            assert("main"@.len() == 4);
        }
        assert(crate::html::ct_children(main) =~= seq![content@]);
    }
    let page = hp_with_container(head, main);
    let page = hp_with_container(page, build_wrap_footer(year));
    let r = hp_to_html_string(&page);
    proof {
        assert(crate::html::hp_body(page) =~= container_html(
            "main"@,
            Seq::empty(),
            seq![content@],
        ) + wrap_footer(year as int));
        assert(r@ =~= wrap_page_doc(title@, content@, author@, year as int));
    }
    r
}

/// The stage that wraps every converted post into a full HTML document.
pub struct WrapPostsStage;

impl WrapPostsStage {
    /// Replaces every post's content with the wrapped document around it;
    /// all other fields and collections stay as they are.
    #[verifier::loop_isolation(false)]
    #[verifier::rlimit(60)]
    pub fn wrap(config: &BlogConfig, registry: &mut SiteComponentRegistry)
        ensures
            final(registry).spec_pages() == old(registry).spec_pages(),
            final(registry).spec_stylesheets() == old(registry).spec_stylesheets(),
            final(registry).spec_assets() == old(registry).spec_assets(),
            final(registry).spec_posts().len() == old(registry).spec_posts().len(),
            forall|k: int|
                0 <= k < old(registry).spec_posts().len() ==> {
                    let p = #[trigger] final(registry).spec_posts()[k];
                    let q = old(registry).spec_posts()[k];
                    &&& p.content@ == wrap_post_doc(
                        q.header.title@,
                        q.content@,
                        config.blog_author@,
                        config.blog_copyright_year as int,
                    )
                    &&& p.header == q.header
                    &&& p.html_filename == q.html_filename
                    &&& p.md_filename == q.md_filename
                },
    {
        let ghost posts0 = registry.spec_posts();
        let posts = registry.get_posts_mut();
        let mut k: usize = 0;
        while k < posts.len()
            invariant
                posts@.len() == posts0.len(),
                0 <= k <= posts0.len(),
                forall|j: int| k <= j < posts0.len() ==> posts@[j] == posts0[j],
                forall|j: int|
                    0 <= j < k ==> {
                        let p = #[trigger] posts@[j];
                        let q = posts0[j];
                        &&& p.content@ == wrap_post_doc(
                            q.header.title@,
                            q.content@,
                            config.blog_author@,
                            config.blog_copyright_year as int,
                        )
                        &&& p.header == q.header
                        &&& p.html_filename == q.html_filename
                        &&& p.md_filename == q.md_filename
                    },
            decreases posts0.len() - k,
        {
            let doc = build_wrapped_post(
                posts[k].header.title.as_str(),
                posts[k].content.as_str(),
                config.blog_author.as_str(),
                config.blog_copyright_year,
            );
            let post = &mut posts[k];
            post.content = doc;
            k = k + 1;
        }
    }
}

impl PipelineStage for WrapPostsStage {
    fn initialize(&self, ctx: &mut BlogContext) -> Result<(), BlogError> {
        Ok(())
    }

    fn process(&self, ctx: &mut BlogContext) -> Result<(), BlogError> {
        WrapPostsStage::wrap(&ctx.config, &mut ctx.registry);
        Ok(())
    }

    fn finalize(&self, ctx: &mut BlogContext) -> Result<(), BlogError> {
        Ok(())
    }
}

/// The stage that wraps every converted page into a full HTML document.
pub struct WrapPagesStage;

impl WrapPagesStage {
    /// Replaces every page's content with the wrapped document around it;
    /// all other fields and collections stay as they are.
    #[verifier::loop_isolation(false)]
    #[verifier::rlimit(60)]
    pub fn wrap(config: &BlogConfig, registry: &mut SiteComponentRegistry)
        ensures
            final(registry).spec_posts() == old(registry).spec_posts(),
            final(registry).spec_stylesheets() == old(registry).spec_stylesheets(),
            final(registry).spec_assets() == old(registry).spec_assets(),
            final(registry).spec_pages().len() == old(registry).spec_pages().len(),
            forall|k: int|
                0 <= k < old(registry).spec_pages().len() ==> {
                    let p = #[trigger] final(registry).spec_pages()[k];
                    let q = old(registry).spec_pages()[k];
                    &&& p.content@ == wrap_page_doc(
                        q.title@,
                        q.content@,
                        config.blog_author@,
                        config.blog_copyright_year as int,
                    )
                    &&& p.title == q.title
                    &&& p.draft == q.draft
                    &&& p.index == q.index
                    &&& p.html_filename == q.html_filename
                    &&& p.md_filename == q.md_filename
                },
    {
        let ghost pages0 = registry.spec_pages();
        let pages = registry.get_pages_mut();
        let mut k: usize = 0;
        while k < pages.len()
            invariant
                pages@.len() == pages0.len(),
                0 <= k <= pages0.len(),
                forall|j: int| k <= j < pages0.len() ==> pages@[j] == pages0[j],
                forall|j: int|
                    0 <= j < k ==> {
                        let p = #[trigger] pages@[j];
                        let q = pages0[j];
                        &&& p.content@ == wrap_page_doc(
                            q.title@,
                            q.content@,
                            config.blog_author@,
                            config.blog_copyright_year as int,
                        )
                        &&& p.title == q.title
                        &&& p.draft == q.draft
                        &&& p.index == q.index
                        &&& p.html_filename == q.html_filename
                        &&& p.md_filename == q.md_filename
                    },
            decreases pages0.len() - k,
        {
            let doc = build_wrapped_page(
                pages[k].title.as_str(),
                pages[k].content.as_str(),
                config.blog_author.as_str(),
                config.blog_copyright_year,
            );
            let page = &mut pages[k];
            page.content = doc;
            k = k + 1;
        }
    }
}

impl PipelineStage for WrapPagesStage {
    fn initialize(&self, ctx: &mut BlogContext) -> Result<(), BlogError> {
        Ok(())
    }

    fn process(&self, ctx: &mut BlogContext) -> Result<(), BlogError> {
        WrapPagesStage::wrap(&ctx.config, &mut ctx.registry);
        Ok(())
    }

    fn finalize(&self, ctx: &mut BlogContext) -> Result<(), BlogError> {
        Ok(())
    }
}

/// The stage that clears a previous build directory and creates the build
/// directory tree.  Its work is filesystem I/O, driven by the program
/// around the library.
pub struct CreateBuildDirectoriesStage;

/// The stage that loads the stylesheets from the source tree into the
/// registry.  The filesystem walk is driven by the program around the
/// library; the registry takes the file contents as plain values.
pub struct LoadStylesheetsStage;

/// The stage that loads the assets from the source tree into the registry.
pub struct LoadAssetsStage;

/// The stage that loads and parses the posts from the source tree into the
/// registry.
pub struct LoadPostsStage;

/// The stage that loads and parses the pages from the source tree into the
/// registry.
pub struct LoadPagesStage;

/// The stage that writes the stylesheets into the build directory.
pub struct WriteStylesheetsStage;

/// The stage that writes the assets into the build directory.
pub struct WriteAssetsStage;

/// The stage that writes the wrapped pages into the build directory.
pub struct WritePagesStage;

/// The stage that writes the wrapped posts into the build directory.
pub struct WritePostsStage;

} // verus!
