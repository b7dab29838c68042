//! Pluggable build features and their configurations.
//!
//! A feature attaches behavior to one or more (stage, lifecycle) pairs of
//! the pipeline without the stage knowing about it: the navbar feature
//! injects a navigation bar into every converted page and post, and the
//! post-listing feature inserts a listing of all posts and their tags into
//! chosen pages.

use vstd::prelude::*;
use crate::blog::BlogContext;
use crate::blog_registry::SiteComponentRegistry;
use crate::config::BlogConfig;
use crate::error::BlogError;
use crate::date::date_str;
use crate::date::date_to_string;
use crate::html::{
    container_html, ct_new_div, ct_new_nav, ct_new_ul, ct_to_html_string, ct_with_attributes,
    ct_with_container, ct_with_link, ct_with_link_attr, ct_with_raw, li_wrap, link_html,
};
use crate::post::Post;
use crate::page::Page;
use crate::pipeline::{Feature, FeatureRegistry, PipelineStageLifetime};
use crate::stages::{CONVERT_PAGES_KIND, CONVERT_POSTS_KIND, LOAD_STYLESHEETS_KIND};
use crate::text::str_eq;

verus! {

/// The configuration of the navbar feature: the `.md` filenames of the
/// pages the navigation bar links to, in order.
#[derive(Debug)]
pub struct NavbarConfig {
    pub links: Vec<String>,
}

/// The order in which the post listing presents the posts.
#[derive(Clone, Copy, PartialEq, Eq, Structural, Debug)]
pub enum PostSortingOrder {
    OldestOnTop,
    NewestOnTop,
}

/// The order in which the tag listing presents the tags.
#[derive(Clone, Copy, PartialEq, Eq, Structural, Debug)]
pub enum TagSortingOrder {
    Count,
    Alphabetic,
}

/// The configuration of the post-listing feature.
#[derive(Debug)]
pub struct PostlistingConfig {
    pub tags_enabled: bool,
    pub tag_listing_page: String,
    pub tag_listing_order: TagSortingOrder,
    pub post_listing_page: String,
    pub post_listing_order: PostSortingOrder,
}

/// One enabled feature, with its configuration.
#[derive(Debug)]
pub enum FeatureConfig {
    Navbar(NavbarConfig),
    Tags,
    Postlisting(PostlistingConfig),
}

/// The first navbar configuration among the enabled features, if any.
pub open spec fn find_navbar_cfg(features: Seq<FeatureConfig>) -> Option<int>
    decreases features.len(),
{
    if features.len() == 0 {
        None
    } else if features[0] is Navbar {
        Some(0)
    } else {
        match find_navbar_cfg(features.drop_first()) {
            Some(i) => Some(i + 1),
            None => None,
        }
    }
}

/// The first page whose `.md` filename is `name`, if any.
pub open spec fn find_page_by_md(pages: Seq<Page>, name: Seq<char>) -> Option<int>
    decreases pages.len(),
{
    if pages.len() == 0 {
        None
    } else if pages[0].md_filename@ == name {
        Some(0)
    } else {
        match find_page_by_md(pages.drop_first(), name) {
            Some(i) => Some(i + 1),
            None => None,
        }
    }
}

/// The navigation entry for a page: a link to its output file, titled and
/// labeled with the page's title.
pub open spec fn navbar_link_of(p: Page) -> Seq<char> {
    link_html("/"@ + p.html_filename@, p.title@, seq![("title"@, p.title@)])
}

pub open spec fn navbar_missing_page_msg(link: Seq<char>) -> Seq<char> {
    "Navbar configuration expected a page '"@ + link + "'. No such page was found."@
}

pub open spec fn navbar_cfg_missing_msg() -> Seq<char> {
    "Failed to find navbar cfg in features vector"@
}

/// The navigation entries for the configured links, in order: each link
/// must name the `.md` file of a registered page (the first such page
/// supplies the entry), and the first link without a page decides the
/// error.
pub open spec fn navbar_children_spec(pages: Seq<Page>, links: Seq<Seq<char>>) -> Result<
    Seq<Seq<char>>,
    Seq<char>,
>
    decreases links.len(),
{
    if links.len() == 0 {
        Ok(Seq::empty())
    } else {
        match find_page_by_md(pages, links[0]) {
            None => Err(navbar_missing_page_msg(links[0])),
            Some(i) => match navbar_children_spec(pages, links.drop_first()) {
                Ok(rest) => Ok(seq![navbar_link_of(pages[i])] + rest),
                Err(m) => Err(m),
            },
        }
    }
}

proof fn lemma_find_page_by_md_bounds(pages: Seq<Page>, name: Seq<char>)
    ensures
        match find_page_by_md(pages, name) {
            Some(i) => 0 <= i < pages.len() && pages[i].md_filename@ == name && forall|k: int|
                0 <= k < i ==> pages[k].md_filename@ != name,
            None => forall|k: int| 0 <= k < pages.len() ==> pages[k].md_filename@ != name,
        },
    decreases pages.len(),
{
    if pages.len() != 0 && pages[0].md_filename@ != name {
        let t = pages.drop_first();
        lemma_find_page_by_md_bounds(t, name);
        match find_page_by_md(t, name) {
            Some(i) => {
                assert(pages[i + 1] == t[i]);
                assert forall|k: int| 0 <= k < i + 1 implies pages[k].md_filename@ != name by {
                    if k > 0 {
                        assert(t[k - 1] == pages[k]);
                    }
                }
            },
            None => {
                assert forall|k: int|
                    0 <= k < pages.len() implies pages[k].md_filename@ != name by {
                    if k > 0 {
                        assert(t[k - 1] == pages[k]);
                    }
                }
            },
        }
    }
}

/// Finds the first page whose `.md` filename is `name`.
fn find_page_index(pages: &Vec<Page>, name: &str) -> (r: Option<usize>)
    ensures
        match r {
            Some(i) => find_page_by_md(pages@, name@) == Some(i as int) && i < pages@.len(),
            None => find_page_by_md(pages@, name@) is None,
        },
{
    let mut i: usize = 0;
    while i < pages.len()
        invariant
            0 <= i <= pages@.len(),
            forall|k: int| 0 <= k < i ==> pages@[k].md_filename@ != name@,
        decreases pages@.len() - i,
    {
        if str_eq(pages[i].md_filename.as_str(), name) {
            proof {
                lemma_find_page_by_md_bounds(pages@, name@);
            }
            return Some(i);
        }
        i = i + 1;
    }
    proof {
        lemma_find_page_by_md_bounds(pages@, name@);
    }
    None
}

/// The navbar feature: injects a navigation bar of configured page links
/// ahead of every converted post and page, and its styling into the layout
/// stylesheet.
pub struct NavbarFeature;

impl NavbarFeature {
    /// The first navbar configuration among the enabled features; its link
    /// list is returned as a copy.
    #[verifier::loop_isolation(false)]
    pub fn get_navbar_config(config: &BlogConfig) -> (r: Result<NavbarConfig, BlogError>)
        ensures
            match r {
                Ok(c) => {
                    &&& find_navbar_cfg(config.features@) matches Some(i)
                    &&& config.features@[i] matches FeatureConfig::Navbar(n) && c.links@.map(
                        |k: int, l: String| l@,
                    ) == n.links@.map(|k: int, l: String| l@)
                },
                Err(e) => {
                    &&& find_navbar_cfg(config.features@) is None
                    &&& e.wf()
                    &&& e.chain() == seq![navbar_cfg_missing_msg()]
                },
            },
    {
        let mut i: usize = 0;
        while i < config.features.len()
            invariant
                0 <= i <= config.features@.len(),
                forall|k: int| 0 <= k < i ==> !(#[trigger] config.features@[k] is Navbar),
            decreases config.features@.len() - i,
        {
            match &config.features[i] {
                FeatureConfig::Navbar(cfg) => {
                    let mut links: Vec<String> = Vec::new();
                    let mut j: usize = 0;
                    while j < cfg.links.len()
                        invariant
                            0 <= j <= cfg.links@.len(),
                            links@.map(|k: int, l: String| l@) =~= cfg.links@.map(
                                |k: int, l: String| l@,
                            ).take(j as int),
                        decreases cfg.links@.len() - j,
                    {
                        links.push(cfg.links[j].clone());
                        proof {
                            assert(cfg.links@.map(|k: int, l: String| l@)[j as int]
                                == cfg.links@[j as int]@);
                            assert(links@.map(|k: int, l: String| l@) =~= cfg.links@.map(
                                |k: int, l: String| l@,
                            ).take(j + 1));
                        }
                        j = j + 1;
                    }
                    proof {
                        lemma_find_navbar_at(config.features@, i as int);
                        assert(cfg.links@.map(|k: int, l: String| l@).take(
                            cfg.links@.len() as int,
                        ) =~= cfg.links@.map(|k: int, l: String| l@));
                    }
                    return Ok(NavbarConfig { links });
                },
                _ => {},
            }
            i = i + 1;
        }
        proof {
            lemma_find_navbar_at(config.features@, config.features@.len() as int);
        }
        Err(BlogError::new(String::from_str("Failed to find navbar cfg in features vector")))
    }

    /// Builds the navigation bar container: one link per configured page,
    /// in order, then a rule.  The first configured link that names no
    /// registered page decides the error.
    #[verifier::loop_isolation(false)]
    pub fn create_navbar_html(pages: &Vec<Page>, cfg: &NavbarConfig) -> (r: Result<
        build_html::Container,
        BlogError,
    >)
        ensures
            ({
                let links = cfg.links@.map(|k: int, l: String| l@);
                match r {
                    Ok(c) => {
                        &&& navbar_children_spec(pages@, links) matches Ok(children)
                        &&& crate::html::ct_tag(c) == "nav"@
                        &&& crate::html::ct_attrs(c) == Seq::<(Seq<char>, Seq<char>)>::empty()
                        &&& crate::html::ct_children(c) == children.push("<hr>"@)
                    },
                    Err(e) => {
                        &&& navbar_children_spec(pages@, links) matches Err(m)
                        &&& e.wf()
                        &&& e.chain() == seq![m]
                    },
                }
            }),
    {
        let ghost links = cfg.links@.map(|k: int, l: String| l@);
        let mut nav = ct_new_nav();
        let ghost children0 = crate::html::ct_children(nav);
        let mut i: usize = 0;
        proof {
            reveal_strlit("nav");
            reveal_strlit("ol");
            reveal_strlit("ul");
            assert("nav"@ != "ol"@ && "nav"@ != "ul"@) by {
                assert("nav"@[0] == 'n');
            }
        }
        while i < cfg.links.len()
            invariant
                0 <= i <= cfg.links@.len(),
                crate::html::ct_tag(nav) == "nav"@,
                crate::html::ct_attrs(nav) == Seq::<(Seq<char>, Seq<char>)>::empty(),
                navbar_children_spec(pages@, links.take(i as int)) matches Ok(cs) && cs
                    == crate::html::ct_children(nav),
            decreases cfg.links@.len() - i,
        {
            proof {
                assert(links[i as int] == cfg.links@[i as int]@);
            }
            let link = &cfg.links[i];
            match find_page_index(pages, link.as_str()) {
                None => {
                    let mut m = String::from_str("Navbar configuration expected a page '");
                    m.append(link.as_str());
                    m.append("'. No such page was found.");
                    proof {
                        reveal_strlit("Navbar configuration expected a page '");
                        reveal_strlit("'. No such page was found.");
                        assert(m@ =~= navbar_missing_page_msg(links[i as int]));
                        lemma_navbar_children_err(pages@, links, i as int);
                    }
                    return Err(BlogError::new(m));
                },
                Some(pi) => {
                    let page = &pages[pi];
                    let mut href = String::from_str("/");
                    href.append(page.html_filename.as_str());
                    let mut attrs: Vec<(String, String)> = Vec::new();
                    attrs.push((String::from_str("title"), page.title.clone()));
                    proof {
                        reveal_strlit("/");
                        assert(crate::html::attr_views(attrs@) =~= seq![
                            ("title"@, page.title@),
                        ]);
                        assert(href@ =~= "/"@ + page.html_filename@);
                    }
                    nav = ct_with_link_attr(nav, href.as_str(), page.title.as_str(), &attrs);
                    proof {
                        lemma_navbar_children_ok(pages@, links, i as int);
                    }
                },
            }
            i = i + 1;
        }
        proof {
            assert(links.take(links.len() as int) =~= links);
        }
        let nav = ct_with_raw(nav, "<hr>");
        Ok(nav)
    }

    /// The navigation bar as rendered HTML: the entries of
    /// `create_navbar_html` between `<nav>` tags, with a rule at the end.
    pub fn navbar_html(pages: &Vec<Page>, cfg: &NavbarConfig) -> (r: Result<String, BlogError>)
        ensures
            ({
                let links = cfg.links@.map(|k: int, l: String| l@);
                match r {
                    Ok(h) => {
                        &&& navbar_children_spec(pages@, links) matches Ok(children)
                        &&& h@ == container_html(
                            "nav"@,
                            Seq::empty(),
                            children.push("<hr>"@),
                        )
                    },
                    Err(e) => {
                        &&& navbar_children_spec(pages@, links) matches Err(m)
                        &&& e.wf()
                        &&& e.chain() == seq![m]
                    },
                }
            }),
    {
        match Self::create_navbar_html(pages, cfg) {
            Ok(nav) => Ok(ct_to_html_string(&nav)),
            Err(e) => Err(e),
        }
    }

    /// Prepends the navigation bar's HTML to every post's content.
    #[verifier::loop_isolation(false)]
    pub fn inject_navbar_in_post(registry: &mut SiteComponentRegistry, nav: &str)
        ensures
            final(registry).spec_pages() == old(registry).spec_pages(),
            final(registry).spec_stylesheets() == old(registry).spec_stylesheets(),
            final(registry).spec_assets() == old(registry).spec_assets(),
            final(registry).spec_posts().len() == old(registry).spec_posts().len(),
            forall|k: int|
                0 <= k < old(registry).spec_posts().len() ==> {
                    let p = #[trigger] final(registry).spec_posts()[k];
                    let q = old(registry).spec_posts()[k];
                    &&& p.content@ == nav@ + q.content@
                    &&& p.header == q.header
                    &&& p.html_filename == q.html_filename
                    &&& p.md_filename == q.md_filename
                },
    {
        let ghost posts0 = registry.spec_posts();
        let posts = registry.get_posts_mut();
        let mut k: usize = 0;
        while k < posts.len()
            invariant
                posts@.len() == posts0.len(),
                0 <= k <= posts0.len(),
                forall|j: int| k <= j < posts0.len() ==> posts@[j] == posts0[j],
                forall|j: int|
                    0 <= j < k ==> {
                        let p = #[trigger] posts@[j];
                        let q = posts0[j];
                        &&& p.content@ == nav@ + q.content@
                        &&& p.header == q.header
                        &&& p.html_filename == q.html_filename
                        &&& p.md_filename == q.md_filename
                    },
            decreases posts0.len() - k,
        {
            let mut updated = String::from_str(nav);
            updated.append(posts[k].content.as_str());
            let post = &mut posts[k];
            post.content = updated;
            k = k + 1;
        }
    }

    /// Prepends the navigation bar's HTML to every page's content.
    #[verifier::loop_isolation(false)]
    pub fn inject_navbar_in_page(registry: &mut SiteComponentRegistry, nav: &str)
        ensures
            final(registry).spec_posts() == old(registry).spec_posts(),
            final(registry).spec_stylesheets() == old(registry).spec_stylesheets(),
            final(registry).spec_assets() == old(registry).spec_assets(),
            final(registry).spec_pages().len() == old(registry).spec_pages().len(),
            forall|k: int|
                0 <= k < old(registry).spec_pages().len() ==> {
                    let p = #[trigger] final(registry).spec_pages()[k];
                    let q = old(registry).spec_pages()[k];
                    &&& p.content@ == nav@ + q.content@
                    &&& p.title == q.title
                    &&& p.draft == q.draft
                    &&& p.index == q.index
                    &&& p.html_filename == q.html_filename
                    &&& p.md_filename == q.md_filename
                },
    {
        let ghost pages0 = registry.spec_pages();
        let pages = registry.get_pages_mut();
        let mut k: usize = 0;
        while k < pages.len()
            invariant
                pages@.len() == pages0.len(),
                0 <= k <= pages0.len(),
                forall|j: int| k <= j < pages0.len() ==> pages@[j] == pages0[j],
                forall|j: int|
                    0 <= j < k ==> {
                        let p = #[trigger] pages@[j];
                        let q = pages0[j];
                        &&& p.content@ == nav@ + q.content@
                        &&& p.title == q.title
                        &&& p.draft == q.draft
                        &&& p.index == q.index
                        &&& p.html_filename == q.html_filename
                        &&& p.md_filename == q.md_filename
                    },
            decreases pages0.len() - k,
        {
            let mut updated = String::from_str(nav);
            updated.append(pages[k].content.as_str());
            let page = &mut pages[k];
            page.content = updated;
            k = k + 1;
        }
    }

    /// Appends the navbar's styling to the first stylesheet named
    /// `layout.css`; without such a stylesheet the feature fails.
    #[verifier::loop_isolation(false)]
    pub fn inject_navbar_css(registry: &mut SiteComponentRegistry) -> (r: Result<(), BlogError>)
        ensures
            final(registry).spec_posts() == old(registry).spec_posts(),
            final(registry).spec_pages() == old(registry).spec_pages(),
            final(registry).spec_assets() == old(registry).spec_assets(),
            final(registry).spec_stylesheets().len() == old(
                registry,
            ).spec_stylesheets().len(),
            match r {
                Ok(u) => exists|i: int|
                    {
                        &&& 0 <= i < old(registry).spec_stylesheets().len()
                        &&& (#[trigger] old(registry).spec_stylesheets()[i]).filename@
                            == "layout.css"@
                        &&& (forall|k: int|
                            0 <= k < i ==> old(registry).spec_stylesheets()[k].filename@
                                != "layout.css"@)
                        &&& final(registry).spec_stylesheets()[i].filename == old(
                            registry,
                        ).spec_stylesheets()[i].filename
                        &&& final(registry).spec_stylesheets()[i].content@ == old(
                            registry,
                        ).spec_stylesheets()[i].content@ + navbar_css()
                        &&& (forall|k: int|
                            0 <= k < old(registry).spec_stylesheets().len() && k != i
                                ==> final(registry).spec_stylesheets()[k] == old(
                                registry,
                            ).spec_stylesheets()[k])
                    },
                Err(e) => {
                    &&& final(registry).spec_stylesheets() == old(registry).spec_stylesheets()
                    &&& (forall|i: int|
                        0 <= i < old(registry).spec_stylesheets().len() ==> (#[trigger] old(
                            registry,
                        ).spec_stylesheets()[i]).filename@ != "layout.css"@)
                    &&& e.wf()
                    &&& e.chain() == seq![no_layout_css_msg()]
                },
            },
    {
        let mut found: Option<usize> = None;
        let sheets_ro = registry.get_stylesheets();
        let mut i: usize = 0;
        while i < sheets_ro.len()
            invariant
                found is None,
                0 <= i <= sheets_ro@.len(),
                forall|k: int|
                    0 <= k < i ==> (#[trigger] sheets_ro@[k]).filename@ != "layout.css"@,
            decreases sheets_ro@.len() - i,
        {
            if str_eq(sheets_ro[i].filename.as_str(), "layout.css") {
                found = Some(i);
                break;
            }
            i = i + 1;
        }
        match found {
            Some(i) => {
                let sheets = registry.get_stylesheets_mut();
                let mut updated = sheets[i].content.clone();
                updated.append(navbar_css_text());
                let sheet = &mut sheets[i];
                sheet.content = updated;
                Ok(())
            },
            None => Err(
                BlogError::new(
                    String::from_str("No such file layout.css in SiteComponentRegistry."),
                ),
            ),
        }
    }
}

pub open spec fn no_layout_css_msg() -> Seq<char> {
    "No such file layout.css in SiteComponentRegistry."@
}

/// The styling the navbar feature appends to the layout stylesheet.
pub open spec fn navbar_css() -> Seq<char> {
    "\n        body nav {\n            font-size: 1.2rem;\n            text-align: center;\n            margin-bottom: 30px;\n            margin-top: 30px;\n        }\n        nav a {\n            margin-left: 0.4rem;\n            margin-right: 0.4rem;\n        }\n    "@
}

/// The styling the navbar feature appends, as text.
fn navbar_css_text() -> (r: &'static str)
    ensures
        r@ == navbar_css(),
{
    "\n        body nav {\n            font-size: 1.2rem;\n            text-align: center;\n            margin-bottom: 30px;\n            margin-top: 30px;\n        }\n        nav a {\n            margin-left: 0.4rem;\n            margin-right: 0.4rem;\n        }\n    "
}

proof fn lemma_find_navbar_at(features: Seq<FeatureConfig>, i: int)
    requires
        0 <= i <= features.len(),
        forall|k: int| 0 <= k < i ==> !(#[trigger] features[k] is Navbar),
        i < features.len() ==> features[i] is Navbar,
    ensures
        i < features.len() ==> find_navbar_cfg(features) == Some(i),
        i == features.len() ==> find_navbar_cfg(features) is None,
    decreases i,
{
    if i > 0 {
        let t = features.drop_first();
        assert forall|k: int| 0 <= k < i - 1 implies !(#[trigger] t[k] is Navbar) by {
            assert(t[k] == features[k + 1]);
        }
        assert(i - 1 < t.len() ==> t[i - 1] == features[i]);
        lemma_find_navbar_at(t, i - 1);
    }
}

proof fn lemma_navbar_children_err(pages: Seq<Page>, links: Seq<Seq<char>>, i: int)
    requires
        0 <= i < links.len(),
        navbar_children_spec(pages, links.take(i)) is Ok,
        find_page_by_md(pages, links[i]) is None,
    ensures
        navbar_children_spec(pages, links) == Err::<Seq<Seq<char>>, Seq<char>>(
            navbar_missing_page_msg(links[i]),
        ),
    decreases i,
{
    if i == 0 {
    } else {
        let t = links.drop_first();
        assert(links.take(i)[0] == links[0]);
        assert(links.take(i).drop_first() =~= t.take(i - 1));
        lemma_navbar_children_err(pages, t, i - 1);
        assert(t[i - 1] == links[i]);
    }
}

proof fn lemma_navbar_children_ok(pages: Seq<Page>, links: Seq<Seq<char>>, i: int)
    requires
        0 <= i < links.len(),
        navbar_children_spec(pages, links.take(i)) is Ok,
        find_page_by_md(pages, links[i]) is Some,
    ensures
        navbar_children_spec(pages, links.take(i + 1)) matches Ok(cs) && cs
            == navbar_children_spec(pages, links.take(i))->Ok_0.push(
            navbar_link_of(pages[find_page_by_md(pages, links[i])->Some_0]),
        ),
    decreases i,
{
    let a = links.take(i);
    let b = links.take(i + 1);
    if i == 0 {
        assert(b[0] == links[0]);
        assert(b.drop_first() =~= Seq::<Seq<char>>::empty());
        let pi = find_page_by_md(pages, links[0])->Some_0;
        assert(navbar_children_spec(pages, b.drop_first()) == Ok::<Seq<Seq<char>>, Seq<char>>(
            Seq::empty(),
        ));
        assert(navbar_children_spec(pages, b) matches Ok(cs) && cs =~= Seq::<
            Seq<char>,
        >::empty().push(navbar_link_of(pages[pi])));
    } else {
        let ta = a.drop_first();
        let tb = b.drop_first();
        assert(a[0] == links[0]);
        assert(b[0] == links[0]);
        let tl = links.drop_first();
        assert(ta =~= tl.take(i - 1));
        assert(tb =~= tl.take(i));
        assert(tl[i - 1] == links[i]);
        lemma_navbar_children_ok(pages, tl, i - 1);
        let pi0 = find_page_by_md(pages, links[0])->Some_0;
        let rest_a = navbar_children_spec(pages, ta)->Ok_0;
        let rest_b = navbar_children_spec(pages, tb)->Ok_0;
        let pi = find_page_by_md(pages, links[i])->Some_0;
        assert(rest_b == rest_a.push(navbar_link_of(pages[pi])));
        assert(navbar_children_spec(pages, b)->Ok_0 =~= navbar_children_spec(
            pages,
            a,
        )->Ok_0.push(navbar_link_of(pages[pi])));
    }
}

impl Feature for NavbarFeature {
    /// The navbar observes the post conversion, the page conversion and
    /// the stylesheet loading, after each one's main work.
    fn register(&self, registry: &mut FeatureRegistry<NavbarFeature>) {
        registry.register(CONVERT_POSTS_KIND, PipelineStageLifetime::PostProcess, NavbarFeature);
        registry.register(CONVERT_PAGES_KIND, PipelineStageLifetime::PostProcess, NavbarFeature);
        registry.register(
            LOAD_STYLESHEETS_KIND,
            PipelineStageLifetime::PostProcess,
            NavbarFeature,
        );
    }

    fn run(
        &mut self,
        ctx: &mut BlogContext,
        pipeline_type: u64,
        lifetime: PipelineStageLifetime,
    ) -> Result<(), BlogError> {
        if (pipeline_type == CONVERT_POSTS_KIND || pipeline_type == CONVERT_PAGES_KIND)
            && lifetime == PipelineStageLifetime::PostProcess {
            let cfg = match NavbarFeature::get_navbar_config(&ctx.config) {
                Ok(c) => c,
                Err(e) => {
                    return Err(
                        e.context(
                            String::from_str("Failed to retrieve NavbarFeature configuration"),
                        ),
                    );
                },
            };
            let nav_html = match NavbarFeature::navbar_html(ctx.registry.get_pages(), &cfg) {
                Ok(n) => n,
                Err(e) => {
                    return Err(
                        e.context(
                            String::from_str("Failed to generate navbar html structure"),
                        ),
                    );
                },
            };
            if pipeline_type == CONVERT_POSTS_KIND {
                NavbarFeature::inject_navbar_in_post(&mut ctx.registry, nav_html.as_str());
            } else {
                NavbarFeature::inject_navbar_in_page(&mut ctx.registry, nav_html.as_str());
            }
            Ok(())
        } else if pipeline_type == LOAD_STYLESHEETS_KIND && lifetime
            == PipelineStageLifetime::PostProcess {
            match NavbarFeature::inject_navbar_css(&mut ctx.registry) {
                Ok(u) => Ok(()),
                Err(e) => Err(e.context(String::from_str("Failed to inject navbar css"))),
            }
        } else {
            Ok(())
        }
    }
}

/// The first post-listing configuration among the enabled features, if
/// any.
pub open spec fn find_postlisting_cfg(features: Seq<FeatureConfig>) -> Option<int>
    decreases features.len(),
{
    if features.len() == 0 {
        None
    } else if features[0] is Postlisting {
        Some(0)
    } else {
        match find_postlisting_cfg(features.drop_first()) {
            Some(i) => Some(i + 1),
            None => None,
        }
    }
}

/// Chronological order between two posts, by publication date; reversed
/// when the newest post should come first.
pub open spec fn post_date_leq(a: Post, b: Post, oldest_first: bool) -> bool {
    if oldest_first {
        a.header.date.le_spec(&b.header.date)
    } else {
        b.header.date.le_spec(&a.header.date)
    }
}

/// Decides `post_date_leq`.
fn post_leq(a: &Post, b: &Post, oldest_first: bool) -> (r: bool)
    ensures
        r == post_date_leq(*a, *b, oldest_first),
{
    if oldest_first {
        a.header.date.le(&b.header.date)
    } else {
        b.header.date.le(&a.header.date)
    }
}

/// Sorts the posts by publication date, oldest or newest first.  The
/// result holds the same posts (as a multiset) in sorted order.
#[verifier::loop_isolation(false)]
pub fn sort_posts_by_date(posts: &mut Vec<Post>, oldest_first: bool)
    ensures
        final(posts)@.len() == old(posts)@.len(),
        final(posts)@.to_multiset() == old(posts)@.to_multiset(),
        forall|i: int, j: int|
            0 <= i <= j < final(posts)@.len() ==> post_date_leq(
                final(posts)@[i],
                final(posts)@[j],
                oldest_first,
            ),
{
    broadcast use vstd::seq_lib::group_to_multiset_ensures;

    let ghost orig = posts@;
    let mut out: Vec<Post> = Vec::new();
    while posts.len() > 0
        invariant
            out@.len() + posts@.len() == orig.len(),
            out@.to_multiset().add(posts@.to_multiset()) =~= orig.to_multiset(),
            forall|a: int, b: int|
                0 <= a <= b < out@.len() ==> post_date_leq(out@[a], out@[b], oldest_first),
            forall|a: int, b: int|
                0 <= a < out@.len() && 0 <= b < posts@.len() ==> post_date_leq(
                    out@[a],
                    posts@[b],
                    oldest_first,
                ),
        decreases posts@.len(),
    {
        let mut min: usize = 0;
        let mut k: usize = 1;
        while k < posts.len()
            invariant
                posts@.len() > 0,
                0 <= min < posts@.len(),
                1 <= k <= posts@.len(),
                forall|b: int|
                    0 <= b < k ==> post_date_leq(
                        posts@[min as int],
                        posts@[b],
                        oldest_first,
                    ),
            decreases posts@.len() - k,
        {
            if !post_leq(&posts[min], &posts[k], oldest_first) {
                min = k;
            }
            k = k + 1;
        }
        let ghost pre = posts@;
        let chosen = posts.remove(min);
        out.push(chosen);
        proof {
            assert(out@.to_multiset().add(posts@.to_multiset()) =~= orig.to_multiset());
            assert forall|b: int|
                0 <= b < posts@.len() implies post_date_leq(
                chosen,
                posts@[b],
                oldest_first,
            ) by {
                if b < min {
                    assert(posts@[b] == pre[b]);
                } else {
                    assert(posts@[b] == pre[b + 1]);
                }
            }
        }
    }
    *posts = out;
}

/// One entry of the post listing: the publication date and a link to the
/// post's output file, in their styled divs.
pub open spec fn post_entry_html(p: Post) -> Seq<char> {
    container_html(
        "div"@,
        seq![("class"@, "post_entry"@)],
        seq![
            container_html(
                "div"@,
                seq![("class"@, "post_entry_date"@)],
                seq![date_str(p.header.date)],
            ),
            container_html(
                "div"@,
                seq![("class"@, "post_entry_link"@)],
                seq![link_html("posts/"@ + p.html_filename@, p.header.title@, Seq::empty())],
            ),
        ],
    )
}

/// The post listing: one entry per post, in list order.
pub open spec fn post_listing_html(posts: Seq<Post>) -> Seq<char> {
    container_html(
        "ul"@,
        seq![("class"@, "articles"@)],
        posts.map(|i: int, p: Post| li_wrap("ul"@, post_entry_html(p))),
    )
}

/// One tag chip: the styled div with an empty inner div and a link labeled
/// with the tag.
pub open spec fn tag_chip_html(
    tag: Seq<char>,
    listing_page: Seq<char>,
    href: Seq<char>,
) -> Seq<char> {
    container_html(
        "div"@,
        seq![("class"@, "tag"@), ("onclick"@, "posts/"@ + listing_page), ("class"@, "tag-text"@)],
        seq![
            container_html("div"@, Seq::empty(), Seq::empty()),
            link_html(href, tag, Seq::empty()),
        ],
    )
}

/// A block of tag chips.
pub open spec fn tags_block_html(
    tags: Seq<Seq<char>>,
    listing_page: Seq<char>,
    href: Seq<char>,
) -> Seq<char> {
    container_html(
        "div"@,
        seq![("class"@, "tags"@)],
        tags.map(|i: int, t: Seq<char>| tag_chip_html(t, listing_page, href)),
    )
}

/// `acc` extended by `t`, unless `t` is already in it.
pub open spec fn add_tag(acc: Seq<Seq<char>>, t: Seq<char>) -> Seq<Seq<char>> {
    if acc.contains(t) {
        acc
    } else {
        acc.push(t)
    }
}

/// `acc` extended by the given tags, in order, without duplicates.
pub open spec fn collect_tags(acc: Seq<Seq<char>>, tags: Seq<Seq<char>>) -> Seq<Seq<char>>
    decreases tags.len(),
{
    if tags.len() == 0 {
        acc
    } else {
        collect_tags(add_tag(acc, tags[0]), tags.drop_first())
    }
}

/// `acc` extended by every tag of every post, in first-seen order, without
/// duplicates.
pub open spec fn collect_posts_tags(acc: Seq<Seq<char>>, posts: Seq<Post>) -> Seq<Seq<char>>
    decreases posts.len(),
{
    if posts.len() == 0 {
        acc
    } else {
        collect_posts_tags(
            collect_tags(acc, posts[0].header.tags@.map(|i: int, t: String| t@)),
            posts.drop_first(),
        )
    }
}

/// The distinct tags of the posts, each in the position of its first
/// occurrence.
pub open spec fn distinct_tags(posts: Seq<Post>) -> Seq<Seq<char>> {
    collect_posts_tags(Seq::empty(), posts)
}

proof fn lemma_collect_tags_snoc(acc: Seq<Seq<char>>, tags: Seq<Seq<char>>, t: Seq<char>)
    ensures
        collect_tags(acc, tags.push(t)) == add_tag(collect_tags(acc, tags), t),
    decreases tags.len(),
{
    let g = tags.push(t);
    if tags.len() == 0 {
        assert(g[0] == t);
        assert(g.drop_first() =~= Seq::<Seq<char>>::empty());
        assert(collect_tags(add_tag(acc, t), g.drop_first()) == add_tag(acc, t));
        assert(collect_tags(acc, g) == add_tag(acc, t));
    } else {
        assert(g[0] == tags[0]);
        lemma_collect_tags_snoc(add_tag(acc, tags[0]), tags.drop_first(), t);
        assert(g.drop_first() =~= tags.drop_first().push(t));
        assert(collect_tags(acc, g) == collect_tags(add_tag(acc, tags[0]), g.drop_first()));
        assert(collect_tags(acc, tags) == collect_tags(add_tag(acc, tags[0]), tags.drop_first()));
    }
}

proof fn lemma_collect_posts_tags_snoc(acc: Seq<Seq<char>>, posts: Seq<Post>, p: Post)
    ensures
        collect_posts_tags(acc, posts.push(p)) == collect_tags(
            collect_posts_tags(acc, posts),
            p.header.tags@.map(|i: int, t: String| t@),
        ),
    decreases posts.len(),
{
    let g = posts.push(p);
    let tv = p.header.tags@.map(|i: int, t: String| t@);
    if posts.len() == 0 {
        assert(g[0] == p);
        assert(g.drop_first() =~= Seq::<Post>::empty());
        assert(collect_posts_tags(collect_tags(acc, tv), g.drop_first()) == collect_tags(
            acc,
            tv,
        ));
        assert(collect_posts_tags(acc, g) == collect_tags(acc, tv));
    } else {
        let tv0 = posts[0].header.tags@.map(|i: int, t: String| t@);
        assert(g[0] == posts[0]);
        lemma_collect_posts_tags_snoc(collect_tags(acc, tv0), posts.drop_first(), p);
        assert(g.drop_first() =~= posts.drop_first().push(p));
        assert(collect_posts_tags(acc, g) == collect_posts_tags(
            collect_tags(acc, tv0),
            g.drop_first(),
        ));
        assert(collect_posts_tags(acc, posts) == collect_posts_tags(
            collect_tags(acc, tv0),
            posts.drop_first(),
        ));
    }
}

/// Whether `t` is among the collected tags.
fn contains_tag(acc: &Vec<String>, t: &str) -> (r: bool)
    ensures
        r == acc@.map(|i: int, s: String| s@).contains(t@),
{
    let ghost view = acc@.map(|i: int, s: String| s@);
    let mut i: usize = 0;
    while i < acc.len()
        invariant
            view == acc@.map(|k: int, s: String| s@),
            0 <= i <= acc@.len(),
            forall|k: int| 0 <= k < i ==> view[k] != t@,
        decreases acc@.len() - i,
    {
        proof {
            assert(view[i as int] == acc@[i as int]@);
        }
        if str_eq(acc[i].as_str(), t) {
            return true;
        }
        i = i + 1;
    }
    proof {
        assert(!view.contains(t@));
    }
    false
}

/// Collects the distinct tags of the posts, in first-seen order.
#[verifier::loop_isolation(false)]
pub fn collect_distinct_tags(posts: &Vec<Post>) -> (r: Vec<String>)
    ensures
        r@.map(|i: int, s: String| s@) == distinct_tags(posts@),
{
    let mut acc: Vec<String> = Vec::new();
    let mut k: usize = 0;
    proof {
        assert(acc@.map(|i: int, s: String| s@) =~= Seq::<Seq<char>>::empty());
        assert(posts@.take(0) =~= Seq::<Post>::empty());
    }
    while k < posts.len()
        invariant
            0 <= k <= posts@.len(),
            acc@.map(|i: int, s: String| s@) == collect_posts_tags(
                Seq::empty(),
                posts@.take(k as int),
            ),
        decreases posts@.len() - k,
    {
        let tags = &posts[k].header.tags;
        let ghost tv = tags@.map(|i: int, t: String| t@);
        let ghost acc0 = acc@.map(|i: int, s: String| s@);
        let mut j: usize = 0;
        while j < tags.len()
            invariant
                0 <= j <= tags@.len(),
                tv == tags@.map(|i: int, t: String| t@),
                acc@.map(|i: int, s: String| s@) == collect_tags(acc0, tv.take(j as int)),
            decreases tags@.len() - j,
        {
            proof {
                assert(tv[j as int] == tags@[j as int]@);
            }
            if !contains_tag(&acc, tags[j].as_str()) {
                acc.push(tags[j].clone());
                proof {
                    assert(acc@.map(|i: int, s: String| s@) =~= collect_tags(
                        acc0,
                        tv.take(j as int),
                    ).push(tv[j as int]));
                }
            }
            proof {
                lemma_collect_tags_snoc(acc0, tv.take(j as int), tv[j as int]);
                assert(tv.take(j as int).push(tv[j as int]) =~= tv.take(j + 1));
            }
            j = j + 1;
        }
        proof {
            assert(tv.take(tv.len() as int) =~= tv);
            lemma_collect_posts_tags_snoc(
                Seq::empty(),
                posts@.take(k as int),
                posts@[k as int],
            );
            assert(posts@.take(k as int).push(posts@[k as int]) =~= posts@.take(k + 1));
        }
        k = k + 1;
    }
    proof {
        assert(posts@.take(posts@.len() as int) =~= posts@);
    }
    acc
}

/// Builds a block of tag chips.
#[verifier::loop_isolation(false)]
#[verifier::rlimit(60)]
pub fn build_tags_block(tags: &Vec<String>, listing_page: &str, href: &str) -> (r: String)
    ensures
        r@ == tags_block_html(tags@.map(|i: int, t: String| t@), listing_page@, href@),
{
    let ghost tv = tags@.map(|i: int, t: String| t@);
    proof {
        reveal_strlit("div");
        reveal_strlit("ol");
        reveal_strlit("ul");
        assert("div"@ != "ol"@ && "div"@ != "ul"@) by {
            assert("div"@.len() == 3);
        }
    }
    let mut block = ct_with_attributes(ct_new_div(), &crate::stages::one_attr("class", "tags"));
    let ghost chip = |i: int, t: Seq<char>| tag_chip_html(t, listing_page@, href@);
    let mut i: usize = 0;
    proof {
        assert(crate::html::ct_children(block) =~= Seq::<Seq<char>>::empty());
        assert(Seq::<(Seq<char>, Seq<char>)>::empty() + seq![("class"@, "tags"@)] =~= seq![
            ("class"@, "tags"@),
        ]);
    }
    while i < tags.len()
        invariant
            0 <= i <= tags@.len(),
            tv == tags@.map(|k: int, t: String| t@),
            crate::html::ct_tag(block) == "div"@,
            crate::html::ct_attrs(block) == seq![("class"@, "tags"@)],
            crate::html::ct_children(block) == tv.take(i as int).map(chip),
        decreases tags@.len() - i,
    {
        proof {
            assert(tv[i as int] == tags@[i as int]@);
        }
        let mut onclick = String::from_str("posts/");
        onclick.append(listing_page);
        let mut attrs: Vec<(String, String)> = Vec::new();
        attrs.push((String::from_str("class"), String::from_str("tag")));
        attrs.push((String::from_str("class"), String::from_str("tag-text")));
        proof {
            reveal_strlit("posts/");
            assert(onclick@ =~= "posts/"@ + listing_page@);
        }
        let chip_ct = ct_with_link(
            ct_with_attributes(
                ct_with_container(
                    ct_with_attributes(
                        ct_new_div(),
                        &crate::stages::two_attrs("class", "tag", "onclick", onclick.as_str()),
                    ),
                    ct_new_div(),
                ),
                &crate::stages::one_attr("class", "tag-text"),
            ),
            href,
            tags[i].as_str(),
        );
        proof {
            assert(crate::html::ct_attrs(chip_ct) =~= seq![
                ("class"@, "tag"@),
                ("onclick"@, "posts/"@ + listing_page@),
                ("class"@, "tag-text"@),
            ]);
            assert(crate::html::ct_children(chip_ct) =~= seq![
                container_html("div"@, Seq::empty(), Seq::empty()),
                link_html(href@, tv[i as int], Seq::empty()),
            ]);
        }
        block = ct_with_container(block, chip_ct);
        proof {
            assert(container_html(
                crate::html::ct_tag(chip_ct),
                crate::html::ct_attrs(chip_ct),
                crate::html::ct_children(chip_ct),
            ) == tag_chip_html(tv[i as int], listing_page@, href@));
            assert(crate::html::ct_children(block) =~= tv.take(i + 1).map(chip));
        }
        i = i + 1;
    }
    proof {
        assert(tv.take(tv.len() as int) =~= tv);
    }
    let r = ct_to_html_string(&block);
    proof {
        assert(r@ =~= tags_block_html(tv, listing_page@, href@));
    }
    r
}

/// Builds the post listing.
#[verifier::loop_isolation(false)]
#[verifier::rlimit(60)]
pub fn build_post_listing(posts: &Vec<Post>) -> (r: String)
    ensures
        r@ == post_listing_html(posts@),
{
    proof {
        reveal_strlit("div");
        reveal_strlit("ol");
        reveal_strlit("ul");
        assert("div"@ != "ol"@ && "div"@ != "ul"@) by {
            assert("div"@.len() == 3);
        }
        assert("ul"@ != "ol"@) by {
            assert("ul"@[0] == 'u');
        }
    }
    let mut articles = ct_with_attributes(
        ct_new_ul(),
        &crate::stages::one_attr("class", "articles"),
    );
    let ghost entry = |i: int, p: Post| li_wrap("ul"@, post_entry_html(p));
    let mut i: usize = 0;
    proof {
        assert(crate::html::ct_children(articles) =~= Seq::<Seq<char>>::empty());
        assert(Seq::<(Seq<char>, Seq<char>)>::empty() + seq![("class"@, "articles"@)] =~= seq![
            ("class"@, "articles"@),
        ]);
    }
    while i < posts.len()
        invariant
            0 <= i <= posts@.len(),
            crate::html::ct_tag(articles) == "ul"@,
            crate::html::ct_attrs(articles) == seq![("class"@, "articles"@)],
            crate::html::ct_children(articles) == posts@.take(i as int).map(entry),
        decreases posts@.len() - i,
    {
        let p = &posts[i];
        let date_div = ct_with_raw(
            ct_with_attributes(ct_new_div(), &crate::stages::one_attr("class", "post_entry_date")),
            date_to_string(&p.header.date).as_str(),
        );
        let mut path = String::from_str("posts/");
        path.append(p.html_filename.as_str());
        proof {
            reveal_strlit("posts/");
            assert(path@ =~= "posts/"@ + p.html_filename@);
        }
        let link_div = ct_with_link(
            ct_with_attributes(ct_new_div(), &crate::stages::one_attr("class", "post_entry_link")),
            path.as_str(),
            p.header.title.as_str(),
        );
        let entry_ct = ct_with_attributes(
            ct_with_container(ct_with_container(ct_new_div(), date_div), link_div),
            &crate::stages::one_attr("class", "post_entry"),
        );
        proof {
            assert(crate::html::ct_children(date_div) =~= seq![date_str(p.header.date)]);
            assert(crate::html::ct_attrs(date_div) =~= seq![("class"@, "post_entry_date"@)]);
            assert(crate::html::ct_children(link_div) =~= seq![
                link_html("posts/"@ + p.html_filename@, p.header.title@, Seq::empty()),
            ]);
            assert(crate::html::ct_attrs(link_div) =~= seq![("class"@, "post_entry_link"@)]);
            assert(crate::html::ct_attrs(entry_ct) =~= seq![("class"@, "post_entry"@)]);
            assert(crate::html::ct_children(entry_ct) =~= seq![
                container_html(
                    "div"@,
                    seq![("class"@, "post_entry_date"@)],
                    seq![date_str(p.header.date)],
                ),
                container_html(
                    "div"@,
                    seq![("class"@, "post_entry_link"@)],
                    seq![
                        link_html("posts/"@ + p.html_filename@, p.header.title@, Seq::empty()),
                    ],
                ),
            ]);
        }
        articles = ct_with_container(articles, entry_ct);
        proof {
            assert(container_html(
                crate::html::ct_tag(entry_ct),
                crate::html::ct_attrs(entry_ct),
                crate::html::ct_children(entry_ct),
            ) == post_entry_html(posts@[i as int]));
            assert(crate::html::ct_children(articles) =~= posts@.take(i + 1).map(entry));
        }
        i = i + 1;
    }
    proof {
        assert(posts@.take(posts@.len() as int) =~= posts@);
    }
    let r = ct_to_html_string(&articles);
    proof {
        assert(r@ =~= post_listing_html(posts@));
    }
    r
}

pub open spec fn postlisting_cfg_missing_msg() -> Seq<char> {
    "PostListingConfig not found in the vector"@
}

pub open spec fn no_tag_marker_msg(page: Seq<char>) -> Seq<char> {
    "No marker found in "@ + page + " to insert tag listing"@
}

pub open spec fn no_post_marker_msg(page: Seq<char>) -> Seq<char> {
    "No marker found in "@ + page + " to insert post listing"@
}

/// The post-listing feature: appends each post's tags to its content,
/// inserts a listing of all tags into one configured page, and a dated
/// listing of all posts, sorted by publication date, into another.
pub struct PostListingFeature;

impl PostListingFeature {
    /// The first post-listing configuration among the enabled features,
    /// as a copy.
    #[verifier::loop_isolation(false)]
    pub fn get_postlisting_config(config: &BlogConfig) -> (r: Result<
        PostlistingConfig,
        BlogError,
    >)
        ensures
            match r {
                Ok(c) => {
                    &&& find_postlisting_cfg(config.features@) matches Some(i)
                    &&& config.features@[i] matches FeatureConfig::Postlisting(p) && {
                        &&& c.tags_enabled == p.tags_enabled
                        &&& c.tag_listing_page@ == p.tag_listing_page@
                        &&& c.tag_listing_order == p.tag_listing_order
                        &&& c.post_listing_page@ == p.post_listing_page@
                        &&& c.post_listing_order == p.post_listing_order
                    }
                },
                Err(e) => {
                    &&& find_postlisting_cfg(config.features@) is None
                    &&& e.wf()
                    &&& e.chain() == seq![postlisting_cfg_missing_msg()]
                },
            },
    {
        let mut i: usize = 0;
        while i < config.features.len()
            invariant
                0 <= i <= config.features@.len(),
                forall|k: int| 0 <= k < i ==> !(#[trigger] config.features@[k] is Postlisting),
            decreases config.features@.len() - i,
        {
            match &config.features[i] {
                FeatureConfig::Postlisting(cfg) => {
                    proof {
                        lemma_find_postlisting_at(config.features@, i as int);
                    }
                    return Ok(
                        PostlistingConfig {
                            tags_enabled: cfg.tags_enabled,
                            tag_listing_page: cfg.tag_listing_page.clone(),
                            tag_listing_order: cfg.tag_listing_order,
                            post_listing_page: cfg.post_listing_page.clone(),
                            post_listing_order: cfg.post_listing_order,
                        },
                    );
                },
                _ => {},
            }
            i = i + 1;
        }
        proof {
            lemma_find_postlisting_at(config.features@, config.features@.len() as int);
        }
        Err(BlogError::new(String::from_str("PostListingConfig not found in the vector")))
    }

    /// Appends each post's block of tag chips to its content.
    #[verifier::loop_isolation(false)]
    pub fn insert_tags_in_posts(registry: &mut SiteComponentRegistry, cfg: &PostlistingConfig)
        ensures
            final(registry).spec_pages() == old(registry).spec_pages(),
            final(registry).spec_stylesheets() == old(registry).spec_stylesheets(),
            final(registry).spec_assets() == old(registry).spec_assets(),
            final(registry).spec_posts().len() == old(registry).spec_posts().len(),
            forall|k: int|
                0 <= k < old(registry).spec_posts().len() ==> {
                    let p = #[trigger] final(registry).spec_posts()[k];
                    let q = old(registry).spec_posts()[k];
                    &&& p.content@ == q.content@ + tags_block_html(
                        q.header.tags@.map(|i: int, t: String| t@),
                        cfg.post_listing_page@,
                        "http://localhost:8000"@,
                    )
                    &&& p.header == q.header
                    &&& p.html_filename == q.html_filename
                    &&& p.md_filename == q.md_filename
                },
    {
        let ghost posts0 = registry.spec_posts();
        let posts = registry.get_posts_mut();
        let mut k: usize = 0;
        while k < posts.len()
            invariant
                posts@.len() == posts0.len(),
                0 <= k <= posts0.len(),
                forall|j: int| k <= j < posts0.len() ==> posts@[j] == posts0[j],
                forall|j: int|
                    0 <= j < k ==> {
                        let p = #[trigger] posts@[j];
                        let q = posts0[j];
                        &&& p.content@ == q.content@ + tags_block_html(
                            q.header.tags@.map(|i: int, t: String| t@),
                            cfg.post_listing_page@,
                            "http://localhost:8000"@,
                        )
                        &&& p.header == q.header
                        &&& p.html_filename == q.html_filename
                        &&& p.md_filename == q.md_filename
                    },
            decreases posts0.len() - k,
        {
            let block = build_tags_block(
                &posts[k].header.tags,
                cfg.post_listing_page.as_str(),
                "http://localhost:8000",
            );
            let mut updated = posts[k].content.clone();
            updated.append(block.as_str());
            let post = &mut posts[k];
            post.content = updated;
            k = k + 1;
        }
    }

    /// Replaces the `{{{TAG_LISTING}}}` marker of every page named as the
    /// tag listing page with the block of all distinct tags; without such a
    /// page the feature fails and the pages stay unchanged.
    #[verifier::loop_isolation(false)]
    pub fn insert_tags_listing_in_page(
        registry: &mut SiteComponentRegistry,
        cfg: &PostlistingConfig,
    ) -> (r: Result<(), BlogError>)
        ensures
            final(registry).spec_posts() == old(registry).spec_posts(),
            final(registry).spec_stylesheets() == old(registry).spec_stylesheets(),
            final(registry).spec_assets() == old(registry).spec_assets(),
            final(registry).spec_pages().len() == old(registry).spec_pages().len(),
            ({
                let listing = tags_block_html(
                    distinct_tags(old(registry).spec_posts()),
                    cfg.post_listing_page@,
                    "http://localhost:8000/posts.html"@,
                );
                forall|k: int|
                    0 <= k < old(registry).spec_pages().len() ==> {
                        let p = #[trigger] final(registry).spec_pages()[k];
                        let q = old(registry).spec_pages()[k];
                        &&& (q.md_filename@ == cfg.tag_listing_page@ ==> p.content@
                            == crate::text::replace_spec(
                            q.content@,
                            "{{{TAG_LISTING}}}"@,
                            listing,
                        ))
                        &&& (q.md_filename@ != cfg.tag_listing_page@ ==> p.content@
                            == q.content@)
                        &&& p.title == q.title
                        &&& p.draft == q.draft
                        &&& p.index == q.index
                        &&& p.html_filename == q.html_filename
                        &&& p.md_filename == q.md_filename
                    }
            }),
            match r {
                Ok(u) => exists|k: int|
                    0 <= k < old(registry).spec_pages().len() && (#[trigger] old(
                        registry,
                    ).spec_pages()[k]).md_filename@ == cfg.tag_listing_page@,
                Err(e) => {
                    &&& (forall|k: int|
                        0 <= k < old(registry).spec_pages().len() ==> (#[trigger] old(
                            registry,
                        ).spec_pages()[k]).md_filename@ != cfg.tag_listing_page@)
                    &&& e.wf()
                    &&& e.chain() == seq![no_tag_marker_msg(cfg.tag_listing_page@)]
                },
            },
    {
        let tags = collect_distinct_tags(registry.get_posts());
        let listing = build_tags_block(
            &tags,
            cfg.post_listing_page.as_str(),
            "http://localhost:8000/posts.html",
        );
        let ghost pages0 = registry.spec_pages();
        let pages = registry.get_pages_mut();
        let mut inserted = false;
        let mut k: usize = 0;
        proof {
            reveal_strlit("{{{TAG_LISTING}}}");
        }
        while k < pages.len()
            invariant
                pages@.len() == pages0.len(),
                0 <= k <= pages0.len(),
                inserted == exists|j: int|
                    0 <= j < k && (#[trigger] pages0[j]).md_filename@
                        == cfg.tag_listing_page@,
                forall|j: int| k <= j < pages0.len() ==> pages@[j] == pages0[j],
                forall|j: int|
                    0 <= j < k ==> {
                        let p = #[trigger] pages@[j];
                        let q = pages0[j];
                        &&& (q.md_filename@ == cfg.tag_listing_page@ ==> p.content@
                            == crate::text::replace_spec(
                            q.content@,
                            "{{{TAG_LISTING}}}"@,
                            listing@,
                        ))
                        &&& (q.md_filename@ != cfg.tag_listing_page@ ==> p.content@
                            == q.content@)
                        &&& p.title == q.title
                        &&& p.draft == q.draft
                        &&& p.index == q.index
                        &&& p.html_filename == q.html_filename
                        &&& p.md_filename == q.md_filename
                    },
            decreases pages0.len() - k,
        {
            if str_eq(pages[k].md_filename.as_str(), cfg.tag_listing_page.as_str()) {
                proof {
                    assert((#[trigger] pages0[k as int]).md_filename@ == cfg.tag_listing_page@);
                }
                let updated = crate::text::replace_all(
                    pages[k].content.as_str(),
                    "{{{TAG_LISTING}}}",
                    listing.as_str(),
                );
                let page = &mut pages[k];
                page.content = updated;
                inserted = true;
            } else {
                proof {
                    assert((#[trigger] pages0[k as int]).md_filename@ != cfg.tag_listing_page@);
                }
            }
            k = k + 1;
        }
        if !inserted {
            let mut m = String::from_str("No marker found in ");
            m.append(cfg.tag_listing_page.as_str());
            m.append(" to insert tag listing");
            proof {
                reveal_strlit("No marker found in ");
                reveal_strlit(" to insert tag listing");
                assert(m@ =~= no_tag_marker_msg(cfg.tag_listing_page@));
            }
            return Err(BlogError::new(m));
        }
        Ok(())
    }

    /// Sorts the posts by publication date in the configured order, then
    /// replaces the `{{{POST_LISTING}}}` marker of every page named as the
    /// post listing page with the listing of the sorted posts; without such
    /// a page the feature fails (the posts stay sorted).
    #[verifier::loop_isolation(false)]
    pub fn insert_post_listing_in_page(
        registry: &mut SiteComponentRegistry,
        cfg: &PostlistingConfig,
    ) -> (r: Result<(), BlogError>)
        ensures
            final(registry).spec_stylesheets() == old(registry).spec_stylesheets(),
            final(registry).spec_assets() == old(registry).spec_assets(),
            final(registry).spec_posts().len() == old(registry).spec_posts().len(),
            final(registry).spec_posts().to_multiset() == old(
                registry,
            ).spec_posts().to_multiset(),
            forall|i: int, j: int|
                0 <= i <= j < final(registry).spec_posts().len() ==> post_date_leq(
                    final(registry).spec_posts()[i],
                    final(registry).spec_posts()[j],
                    cfg.post_listing_order is OldestOnTop,
                ),
            final(registry).spec_pages().len() == old(registry).spec_pages().len(),
            ({
                let listing = post_listing_html(final(registry).spec_posts());
                forall|k: int|
                    0 <= k < old(registry).spec_pages().len() ==> {
                        let p = #[trigger] final(registry).spec_pages()[k];
                        let q = old(registry).spec_pages()[k];
                        &&& (q.md_filename@ == cfg.post_listing_page@ ==> p.content@
                            == crate::text::replace_spec(
                            q.content@,
                            "{{{POST_LISTING}}}"@,
                            listing,
                        ))
                        &&& (q.md_filename@ != cfg.post_listing_page@ ==> p.content@
                            == q.content@)
                        &&& p.title == q.title
                        &&& p.draft == q.draft
                        &&& p.index == q.index
                        &&& p.html_filename == q.html_filename
                        &&& p.md_filename == q.md_filename
                    }
            }),
            match r {
                Ok(u) => exists|k: int|
                    0 <= k < old(registry).spec_pages().len() && (#[trigger] old(
                        registry,
                    ).spec_pages()[k]).md_filename@ == cfg.post_listing_page@,
                Err(e) => {
                    &&& (forall|k: int|
                        0 <= k < old(registry).spec_pages().len() ==> (#[trigger] old(
                            registry,
                        ).spec_pages()[k]).md_filename@ != cfg.post_listing_page@)
                    &&& e.wf()
                    &&& e.chain() == seq![no_post_marker_msg(cfg.post_listing_page@)]
                },
            },
    {
        let oldest_first = match cfg.post_listing_order {
            PostSortingOrder::OldestOnTop => true,
            PostSortingOrder::NewestOnTop => false,
        };
        sort_posts_by_date(registry.get_posts_mut(), oldest_first);
        let listing = build_post_listing(registry.get_posts());
        let ghost pages0 = registry.spec_pages();
        let pages = registry.get_pages_mut();
        let mut inserted = false;
        let mut k: usize = 0;
        proof {
            reveal_strlit("{{{POST_LISTING}}}");
        }
        while k < pages.len()
            invariant
                pages@.len() == pages0.len(),
                0 <= k <= pages0.len(),
                inserted == exists|j: int|
                    0 <= j < k && (#[trigger] pages0[j]).md_filename@
                        == cfg.post_listing_page@,
                forall|j: int| k <= j < pages0.len() ==> pages@[j] == pages0[j],
                forall|j: int|
                    0 <= j < k ==> {
                        let p = #[trigger] pages@[j];
                        let q = pages0[j];
                        &&& (q.md_filename@ == cfg.post_listing_page@ ==> p.content@
                            == crate::text::replace_spec(
                            q.content@,
                            "{{{POST_LISTING}}}"@,
                            listing@,
                        ))
                        &&& (q.md_filename@ != cfg.post_listing_page@ ==> p.content@
                            == q.content@)
                        &&& p.title == q.title
                        &&& p.draft == q.draft
                        &&& p.index == q.index
                        &&& p.html_filename == q.html_filename
                        &&& p.md_filename == q.md_filename
                    },
            decreases pages0.len() - k,
        {
            if str_eq(pages[k].md_filename.as_str(), cfg.post_listing_page.as_str()) {
                proof {
                    assert((#[trigger] pages0[k as int]).md_filename@ == cfg.post_listing_page@);
                }
                let updated = crate::text::replace_all(
                    pages[k].content.as_str(),
                    "{{{POST_LISTING}}}",
                    listing.as_str(),
                );
                let page = &mut pages[k];
                page.content = updated;
                inserted = true;
            } else {
                proof {
                    assert((#[trigger] pages0[k as int]).md_filename@ != cfg.post_listing_page@);
                }
            }
            k = k + 1;
        }
        if !inserted {
            let mut m = String::from_str("No marker found in ");
            m.append(cfg.post_listing_page.as_str());
            m.append(" to insert post listing");
            proof {
                reveal_strlit("No marker found in ");
                reveal_strlit(" to insert post listing");
                assert(m@ =~= no_post_marker_msg(cfg.post_listing_page@));
            }
            return Err(BlogError::new(m));
        }
        Ok(())
    }
}

proof fn lemma_find_postlisting_at(features: Seq<FeatureConfig>, i: int)
    requires
        0 <= i <= features.len(),
        forall|k: int| 0 <= k < i ==> !(#[trigger] features[k] is Postlisting),
        i < features.len() ==> features[i] is Postlisting,
    ensures
        i < features.len() ==> find_postlisting_cfg(features) == Some(i),
        i == features.len() ==> find_postlisting_cfg(features) is None,
    decreases i,
{
    if i > 0 {
        let t = features.drop_first();
        assert forall|k: int| 0 <= k < i - 1 implies !(#[trigger] t[k] is Postlisting) by {
            assert(t[k] == features[k + 1]);
        }
        assert(i - 1 < t.len() ==> t[i - 1] == features[i]);
        lemma_find_postlisting_at(t, i - 1);
    }
}

impl Feature for PostListingFeature {
    /// The post listing observes the post conversion and the page
    /// conversion, after each one's main work.
    fn register(&self, registry: &mut FeatureRegistry<PostListingFeature>) {
        registry.register(
            CONVERT_POSTS_KIND,
            PipelineStageLifetime::PostProcess,
            PostListingFeature,
        );
        registry.register(
            CONVERT_PAGES_KIND,
            PipelineStageLifetime::PostProcess,
            PostListingFeature,
        );
    }

    fn run(
        &mut self,
        ctx: &mut BlogContext,
        pipeline_type: u64,
        lifetime: PipelineStageLifetime,
    ) -> Result<(), BlogError> {
        if pipeline_type == CONVERT_PAGES_KIND && lifetime
            == PipelineStageLifetime::PostProcess {
            let cfg = match PostListingFeature::get_postlisting_config(&ctx.config) {
                Ok(c) => c,
                Err(e) => {
                    return Err(e);
                },
            };
            PostListingFeature::insert_tags_in_posts(&mut ctx.registry, &cfg);
            match PostListingFeature::insert_tags_listing_in_page(&mut ctx.registry, &cfg) {
                Ok(u) => {},
                Err(e) => {
                    return Err(e);
                },
            }
            match PostListingFeature::insert_post_listing_in_page(&mut ctx.registry, &cfg) {
                Ok(u) => {},
                Err(e) => {
                    return Err(e);
                },
            }
            Ok(())
        } else {
            Ok(())
        }
    }
}

} // verus!
