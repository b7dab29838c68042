//! The build context: the one mutable object a pipeline run threads through
//! every stage and feature hook.

use vstd::prelude::*;
use crate::blog_registry::SiteComponentRegistry;
use crate::config::BlogConfig;
use crate::date::date_str;
use crate::date::date_to_string;
use crate::page::Page;
use crate::path_config::PathConfig;
use crate::post::Post;
use crate::text::{bool_str, bool_to_str, dec_str, uint_to_string};
use crate::utils::{trunc_spec, TruncWithDots};

verus! {

/// Everything one build works on: the configuration, the resolved paths,
/// and the content registry.  Exactly one instance exists per build.
pub struct BlogContext {
    pub config: BlogConfig,
    pub paths: PathConfig,
    pub registry: SiteComponentRegistry,
}

impl BlogContext {
    /// A context from resolved paths and a parsed configuration, with an
    /// empty content registry.
    pub fn init(paths: PathConfig, config: BlogConfig) -> (r: BlogContext)
        ensures
            r.config == config,
            r.paths == paths,
            r.registry.spec_posts() == Seq::<crate::post::Post>::empty(),
            r.registry.spec_pages() == Seq::<crate::page::Page>::empty(),
            r.registry.spec_stylesheets() == Seq::<crate::stylesheet::Stylesheet>::empty(),
            r.registry.spec_assets() == Seq::<crate::stylesheet::Asset>::empty(),
    {
        BlogContext { config, paths, registry: SiteComponentRegistry::new() }
    }
}

impl Default for BlogContext {
    /// A context with an empty configuration, the default path layout and
    /// an empty registry.
    fn default() -> (r: BlogContext)
        ensures
            r.config.blog_author@ == Seq::<char>::empty(),
            r.registry.spec_posts() == Seq::<crate::post::Post>::empty(),
            r.registry.spec_pages() == Seq::<crate::page::Page>::empty(),
    {
        BlogContext {
            config: BlogConfig::default(),
            paths: PathConfig::default(),
            registry: SiteComponentRegistry::new(),
        }
    }
}

/// `n` spaces (none for a non-positive count).
pub open spec fn spaces(n: int) -> Seq<char> {
    Seq::new(if n >= 0 { n as nat } else { 0 }, |i: int| ' ')
}

/// `s` padded with spaces on the right to at least `w` characters.
pub open spec fn pad_right(s: Seq<char>, w: int) -> Seq<char> {
    if s.len() >= w {
        s
    } else {
        s + spaces(w - s.len())
    }
}

/// `s` padded with spaces on the left to at least `w` characters.
pub open spec fn pad_left(s: Seq<char>, w: int) -> Seq<char> {
    if s.len() >= w {
        s
    } else {
        spaces(w - s.len()) + s
    }
}

/// A separator line: `n` em-dashes and a newline.
pub open spec fn separator_line(n: int) -> Seq<char> {
    Seq::new(if n >= 0 { n as nat } else { 0 }, |i: int| '\u{2014}') + "\n"@
}

/// One row of the post table: title, date and draft flag in their columns.
pub open spec fn post_row(p: Post) -> Seq<char> {
    pad_right(trunc_spec(p.header.title@, 30), 30) + "  "@ + pad_left(
        date_str(p.header.date),
        12,
    ) + "  "@ + pad_left(bool_str(p.header.draft), 12) + "\n"@
}

/// One row of the page table: title, draft and index flags in their
/// columns.
pub open spec fn page_row(p: Page) -> Seq<char> {
    pad_right(trunc_spec(p.title@, 30), 30) + "  "@ + pad_left(bool_str(p.draft), 12) + "  "@
        + pad_left(bool_str(p.index), 12) + "\n"@
}

/// The rows of the post table, in registry order.
pub open spec fn post_rows(posts: Seq<Post>) -> Seq<char>
    decreases posts.len(),
{
    if posts.len() == 0 {
        Seq::empty()
    } else {
        post_rows(posts.drop_last()) + post_row(posts.last())
    }
}

/// The rows of the page table, in registry order.
pub open spec fn page_rows(pages: Seq<Page>) -> Seq<char>
    decreases pages.len(),
{
    if pages.len() == 0 {
        Seq::empty()
    } else {
        page_rows(pages.drop_last()) + page_row(pages.last())
    }
}

/// How many posts are drafts.
pub open spec fn count_draft_posts(posts: Seq<Post>) -> nat
    decreases posts.len(),
{
    if posts.len() == 0 {
        0
    } else {
        count_draft_posts(posts.drop_last()) + (if posts.last().header.draft {
            1nat
        } else {
            0nat
        })
    }
}

/// How many pages are drafts.
pub open spec fn count_draft_pages(pages: Seq<Page>) -> nat
    decreases pages.len(),
{
    if pages.len() == 0 {
        0
    } else {
        count_draft_pages(pages.drop_last()) + (if pages.last().draft {
            1nat
        } else {
            0nat
        })
    }
}

/// The header and rows of the post table, a blank line after it.
pub open spec fn posts_section(posts: Seq<Post>) -> Seq<char> {
    pad_right("Post Title"@, 30) + "  "@ + pad_left("Date"@, 12) + "  "@ + pad_left(
        "Draft"@,
        12,
    ) + "\n"@ + separator_line(58) + post_rows(posts) + "\n"@
}

/// The header and rows of the page table.
pub open spec fn pages_section(pages: Seq<Page>) -> Seq<char> {
    pad_right("Page Title"@, 30) + "  "@ + pad_left("Draft"@, 12) + "  "@ + pad_left(
        "Index"@,
        12,
    ) + "\n"@ + separator_line(58) + page_rows(pages)
}

/// The counts line of one collection: total, finalized and drafts.
pub open spec fn stats_line(
    label: Seq<char>,
    finalized: nat,
    drafts: nat,
) -> Seq<char> {
    "  "@ + dec_str(finalized + drafts) + " "@ + label + " ("@ + dec_str(finalized)
        + " Finalized, "@ + dec_str(drafts) + " Drafts)\n"@
}

/// The statistics block: the post and page counts.
pub open spec fn general_section(posts: Seq<Post>, pages: Seq<Page>) -> Seq<char> {
    "\nStatistics:\n"@ + separator_line(58) + stats_line(
        "Posts"@,
        (posts.len() - count_draft_posts(posts)) as nat,
        count_draft_posts(posts),
    ) + stats_line(
        "Pages"@,
        (pages.len() - count_draft_pages(pages)) as nat,
        count_draft_pages(pages),
    )
}

/// The whole report `info` renders: the post table, the page table, and
/// the statistics.
pub open spec fn info_report(posts: Seq<Post>, pages: Seq<Page>) -> Seq<char> {
    posts_section(posts) + pages_section(pages) + general_section(posts, pages)
}

/// Pads `s` with spaces on the right to at least `w` characters.
fn pad_right_str(s: &str, w: usize) -> (r: String)
    ensures
        r@ == pad_right(s@, w as int),
{
    let mut out = String::from_str(s);
    let n = s.unicode_len();
    let mut i: usize = n;
    while i < w
        invariant
            n == s@.len(),
            n <= i <= w || (i == n && n >= w),
            out@ == s@ + spaces(i - n),
        decreases w - i,
    {
        proof {
            reveal_strlit(" ");
        }
        out.append(" ");
        proof {
            assert(out@ =~= s@ + spaces(i + 1 - n));
        }
        i = i + 1;
    }
    proof {
        assert(out@ =~= pad_right(s@, w as int));
    }
    out
}

/// Pads `s` with spaces on the left to at least `w` characters.
fn pad_left_str(s: &str, w: usize) -> (r: String)
    ensures
        r@ == pad_left(s@, w as int),
{
    let mut out = String::new();
    let n = s.unicode_len();
    let mut i: usize = n;
    while i < w
        invariant
            n == s@.len(),
            n <= i <= w || (i == n && n >= w),
            out@ == spaces(i - n),
        decreases w - i,
    {
        proof {
            reveal_strlit(" ");
        }
        out.append(" ");
        proof {
            assert(out@ =~= spaces(i + 1 - n));
        }
        i = i + 1;
    }
    out.append(s);
    proof {
        assert(out@ =~= pad_left(s@, w as int));
    }
    out
}

/// A line of `n` em-dashes.
fn separator_line_str(n: usize) -> (r: String)
    ensures
        r@ == separator_line(n as int),
{
    let mut out = String::new();
    let mut i: usize = 0;
    while i < n
        invariant
            0 <= i <= n,
            out@ == Seq::new(i as nat, |k: int| '\u{2014}'),
        decreases n - i,
    {
        proof {
            reveal_strlit("\u{2014}");
        }
        out.append("\u{2014}");
        proof {
            assert(out@ =~= Seq::new((i + 1) as nat, |k: int| '\u{2014}'));
        }
        i = i + 1;
    }
    proof {
        reveal_strlit("\n");
    }
    out.append("\n");
    proof {
        assert(out@ =~= separator_line(n as int));
    }
    out
}

/// Renders the post table: the column headers, a separator, and one row
/// per post.
#[verifier::loop_isolation(false)]
#[verifier::rlimit(60)]
fn info_posts(posts: &Vec<Post>) -> (r: String)
    ensures
        r@ == posts_section(posts@),
{
    let mut out = String::new();
    proof {
        reveal_strlit("  ");
        reveal_strlit("\n");
        reveal_strlit("Post Title");
        reveal_strlit("Date");
        reveal_strlit("Draft");
    }
    out.append(pad_right_str("Post Title", 30).as_str());
    out.append("  ");
    out.append(pad_left_str("Date", 12).as_str());
    out.append("  ");
    out.append(pad_left_str("Draft", 12).as_str());
    out.append("\n");
    out.append(separator_line_str(58).as_str());
    let mut k: usize = 0;
    while k < posts.len()
        invariant
            0 <= k <= posts@.len(),
            out@ == pad_right("Post Title"@, 30) + "  "@ + pad_left("Date"@, 12) + "  "@
                + pad_left("Draft"@, 12) + "\n"@ + separator_line(58) + post_rows(
                posts@.take(k as int),
            ),
        decreases posts@.len() - k,
    {
        let p = &posts[k];
        out.append(pad_right_str(p.header.title.trunc_with_dots(30).as_str(), 30).as_str());
        out.append("  ");
        out.append(pad_left_str(date_to_string(&p.header.date).as_str(), 12).as_str());
        out.append("  ");
        out.append(pad_left_str(bool_to_str(p.header.draft), 12).as_str());
        out.append("\n");
        proof {
            assert(posts@.take(k + 1).drop_last() =~= posts@.take(k as int));
            assert(posts@.take(k + 1).last() == posts@[k as int]);
            assert(out@ =~= pad_right("Post Title"@, 30) + "  "@ + pad_left("Date"@, 12)
                + "  "@ + pad_left("Draft"@, 12) + "\n"@ + separator_line(58) + post_rows(
                posts@.take(k + 1),
            ));
        }
        k = k + 1;
    }
    out.append("\n");
    proof {
        assert(posts@.take(posts@.len() as int) =~= posts@);
        assert(out@ =~= posts_section(posts@));
    }
    out
}

/// Renders the page table: the column headers, a separator, and one row
/// per page.
#[verifier::loop_isolation(false)]
#[verifier::rlimit(60)]
fn info_pages(pages: &Vec<Page>) -> (r: String)
    ensures
        r@ == pages_section(pages@),
{
    let mut out = String::new();
    proof {
        reveal_strlit("  ");
        reveal_strlit("\n");
        reveal_strlit("Page Title");
        reveal_strlit("Draft");
        reveal_strlit("Index");
    }
    out.append(pad_right_str("Page Title", 30).as_str());
    out.append("  ");
    out.append(pad_left_str("Draft", 12).as_str());
    out.append("  ");
    out.append(pad_left_str("Index", 12).as_str());
    out.append("\n");
    out.append(separator_line_str(58).as_str());
    let mut k: usize = 0;
    while k < pages.len()
        invariant
            0 <= k <= pages@.len(),
            out@ == pad_right("Page Title"@, 30) + "  "@ + pad_left("Draft"@, 12) + "  "@
                + pad_left("Index"@, 12) + "\n"@ + separator_line(58) + page_rows(
                pages@.take(k as int),
            ),
        decreases pages@.len() - k,
    {
        let p = &pages[k];
        out.append(pad_right_str(p.title.trunc_with_dots(30).as_str(), 30).as_str());
        out.append("  ");
        out.append(pad_left_str(bool_to_str(p.draft), 12).as_str());
        out.append("  ");
        out.append(pad_left_str(bool_to_str(p.index), 12).as_str());
        out.append("\n");
        proof {
            assert(pages@.take(k + 1).drop_last() =~= pages@.take(k as int));
            assert(pages@.take(k + 1).last() == pages@[k as int]);
            assert(out@ =~= pad_right("Page Title"@, 30) + "  "@ + pad_left("Draft"@, 12)
                + "  "@ + pad_left("Index"@, 12) + "\n"@ + separator_line(58) + page_rows(
                pages@.take(k + 1),
            ));
        }
        k = k + 1;
    }
    proof {
        assert(pages@.take(pages@.len() as int) =~= pages@);
        assert(out@ =~= pages_section(pages@));
    }
    out
}

/// Counts the draft posts.
fn count_drafts_posts(posts: &Vec<Post>) -> (r: usize)
    ensures
        r == count_draft_posts(posts@),
        r <= posts@.len(),
{
    let mut drafts: usize = 0;
    let mut k: usize = 0;
    while k < posts.len()
        invariant
            0 <= k <= posts@.len(),
            drafts == count_draft_posts(posts@.take(k as int)),
            drafts <= k,
        decreases posts@.len() - k,
    {
        if posts[k].header.draft {
            drafts = drafts + 1;
        }
        proof {
            assert(posts@.take(k + 1).drop_last() =~= posts@.take(k as int));
            assert(posts@.take(k + 1).last() == posts@[k as int]);
        }
        k = k + 1;
    }
    proof {
        assert(posts@.take(posts@.len() as int) =~= posts@);
    }
    drafts
}

/// Counts the draft pages.
fn count_drafts_pages(pages: &Vec<Page>) -> (r: usize)
    ensures
        r == count_draft_pages(pages@),
        r <= pages@.len(),
{
    let mut drafts: usize = 0;
    let mut k: usize = 0;
    while k < pages.len()
        invariant
            0 <= k <= pages@.len(),
            drafts == count_draft_pages(pages@.take(k as int)),
            drafts <= k,
        decreases pages@.len() - k,
    {
        if pages[k].draft {
            drafts = drafts + 1;
        }
        proof {
            assert(pages@.take(k + 1).drop_last() =~= pages@.take(k as int));
            assert(pages@.take(k + 1).last() == pages@[k as int]);
        }
        k = k + 1;
    }
    proof {
        assert(pages@.take(pages@.len() as int) =~= pages@);
    }
    drafts
}

/// Renders one statistics line.
#[verifier::rlimit(60)]
fn info_stats_line(label: &str, total: usize, finalized: usize, drafts: usize) -> (r: String)
    requires
        finalized + drafts == total,
    ensures
        r@ == stats_line(label@, finalized as nat, drafts as nat),
{
    let mut out = String::new();
    proof {
        reveal_strlit("  ");
        reveal_strlit(" ");
        reveal_strlit(" (");
        reveal_strlit(" Finalized, ");
        reveal_strlit(" Drafts)\n");
    }
    out.append("  ");
    out.append(uint_to_string(total as u128).as_str());
    out.append(" ");
    out.append(label);
    out.append(" (");
    out.append(uint_to_string(finalized as u128).as_str());
    out.append(" Finalized, ");
    out.append(uint_to_string(drafts as u128).as_str());
    out.append(" Drafts)\n");
    proof {
        assert(out@ =~= stats_line(label@, finalized as nat, drafts as nat));
    }
    out
}

/// Renders the statistics block.
#[verifier::rlimit(60)]
fn info_general(posts: &Vec<Post>, pages: &Vec<Page>) -> (r: String)
    ensures
        r@ == general_section(posts@, pages@),
{
    let mut out = String::new();
    proof {
        reveal_strlit("\nStatistics:\n");
        reveal_strlit("Posts");
        reveal_strlit("Pages");
    }
    out.append("\nStatistics:\n");
    out.append(separator_line_str(58).as_str());
    let drafts_p = count_drafts_posts(posts);
    out.append(info_stats_line("Posts", posts.len(), posts.len() - drafts_p, drafts_p).as_str());
    let drafts_g = count_drafts_pages(pages);
    out.append(info_stats_line("Pages", pages.len(), pages.len() - drafts_g, drafts_g).as_str());
    proof {
        assert(out@ =~= general_section(posts@, pages@));
    }
    out
}

/// Renders the overview of all posts and pages: a table of the posts with
/// their dates and draft flags, a table of the pages with their draft and
/// landing-page flags, and the counts of finalized and draft entries.
pub fn info(posts: &Vec<Post>, pages: &Vec<Page>) -> (r: String)
    ensures
        r@ == info_report(posts@, pages@),
{
    let mut out = info_posts(posts);
    out.append(info_pages(pages).as_str());
    out.append(info_general(posts, pages).as_str());
    proof {
        assert(out@ =~= info_report(posts@, pages@));
    }
    out
}

} // verus!
