use mublog::blog::info;
use mublog::error::BlogError;
use mublog::stages::{WrapPagesStage, WrapPostsStage};
use mublog::blog_registry::SiteComponentRegistry;
use mublog::config::BlogConfig;
use mublog::date::{date_to_string, Date};
use mublog::features::{
    sort_posts_by_date, NavbarConfig, NavbarFeature, PostListingFeature, PostSortingOrder,
    PostlistingConfig, TagSortingOrder,
};
use mublog::input::{CommaListValidator, EmptyOrWhitespaceValidator};
use mublog::page::Page;
use mublog::path_config::PathConfig;
use mublog::post::Post;
use mublog::stages::{ApplyGlobalVarsStage, ConvertPagesStage, ConvertPostsStage};
use mublog::utils::TruncWithDots;

fn post_with(title: &str, content: &str, date: Date) -> Post {
    let mut p = Post::default();
    p.header.title = title.to_string();
    p.content = content.to_string();
    p.header.date = date;
    p
}

#[test]
fn apply_global_vars_fills_placeholders() {
    let mut registry = SiteComponentRegistry::new();
    let mut page = Page::default();
    page.title = "home".to_string();
    page.content = "by {{{AUTHOR_NAME}}} ({{{AUTHOR_EMAIL}}}), {{{COPYRIGHT_YEAR}}}".to_string();
    _ = registry.register_page(page);
    let mut config = BlogConfig::default();
    config.blog_author = "ada".to_string();
    config.blog_email = "ada@example.org".to_string();
    config.blog_copyright_year = 2024;
    ApplyGlobalVarsStage::apply(&config, &mut registry);
    assert_eq!(registry.get_pages()[0].content, "by ada (ada@example.org), 2024");
}

#[test]
fn convert_pages_renders_markdown() {
    let mut registry = SiteComponentRegistry::new();
    let mut page = Page::default();
    page.title = "home".to_string();
    page.content = "# Hi".to_string();
    _ = registry.register_page(page);
    ConvertPagesStage::convert(&mut registry);
    assert_eq!(registry.get_pages()[0].content, "<h1>Hi</h1>");
}

#[test]
fn convert_posts_allows_raw_html() {
    let mut registry = SiteComponentRegistry::new();
    let mut post = Post::default();
    post.header.title = "p".to_string();
    post.content = "<div>\n\n# Hi\n\n</div>".to_string();
    _ = registry.register_post(post);
    ConvertPostsStage::convert(&mut registry);
    assert_eq!(registry.get_posts()[0].content, "<div>\n<h1>Hi</h1>\n</div>");
}

#[test]
fn navbar_html_links_configured_pages() {
    let mut registry = SiteComponentRegistry::new();
    let mut page = Page::default();
    page.title = "About".to_string();
    _ = registry.register_page(page);
    let cfg = NavbarConfig { links: vec!["about.md".to_string()] };
    let html = NavbarFeature::navbar_html(registry.get_pages(), &cfg)
        .expect("navbar should build");
    assert_eq!(
        html,
        "<nav><a href=\"/about.html\" title=\"About\">About</a><hr></nav>"
    );
}

#[test]
fn navbar_missing_page_fails() {
    let registry = SiteComponentRegistry::new();
    let cfg = NavbarConfig { links: vec!["missing.md".to_string()] };
    let err = NavbarFeature::navbar_html(registry.get_pages(), &cfg).unwrap_err();
    assert_eq!(
        err.message().as_str(),
        "Navbar configuration expected a page 'missing.md'. No such page was found."
    );
}

#[test]
fn navbar_css_requires_layout_stylesheet() {
    let mut registry = SiteComponentRegistry::new();
    let err = NavbarFeature::inject_navbar_css(&mut registry).unwrap_err();
    assert_eq!(
        err.message().as_str(),
        "No such file layout.css in SiteComponentRegistry."
    );
    registry.init_stylesheets(&vec![("layout.css".to_string(), "body {}".to_string())]);
    NavbarFeature::inject_navbar_css(&mut registry).expect("css should be injected");
    assert!(registry.get_stylesheets()[0].content.starts_with("body {}\n"));
    assert!(registry.get_stylesheets()[0].content.contains("body nav"));
}

#[test]
fn sort_posts_oldest_and_newest_first() {
    let mut posts = vec![
        post_with("b", "", Date { year: 2022, month: 5, day: 1 }),
        post_with("a", "", Date { year: 2020, month: 1, day: 9 }),
        post_with("c", "", Date { year: 2021, month: 12, day: 31 }),
    ];
    sort_posts_by_date(&mut posts, true);
    let titles: Vec<&str> = posts.iter().map(|p| p.header.title.as_str()).collect();
    assert_eq!(titles, ["a", "c", "b"]);
    sort_posts_by_date(&mut posts, false);
    let titles: Vec<&str> = posts.iter().map(|p| p.header.title.as_str()).collect();
    assert_eq!(titles, ["b", "c", "a"]);
}

#[test]
fn post_listing_inserted_into_marker_page() {
    let mut registry = SiteComponentRegistry::new();
    _ = registry.register_post(post_with("old", "", Date { year: 2020, month: 1, day: 1 }));
    _ = registry.register_post(post_with("new", "", Date { year: 2023, month: 6, day: 2 }));
    let mut page = Page::default();
    page.title = "archive".to_string();
    page.content = "before {{{POST_LISTING}}} after".to_string();
    _ = registry.register_page(page);
    let cfg = PostlistingConfig {
        tags_enabled: false,
        tag_listing_page: String::new(),
        tag_listing_order: TagSortingOrder::Count,
        post_listing_page: "archive.md".to_string(),
        post_listing_order: PostSortingOrder::NewestOnTop,
    };
    PostListingFeature::insert_post_listing_in_page(&mut registry, &cfg)
        .expect("listing should be inserted");
    let content = &registry.get_pages()[0].content;
    assert!(content.starts_with("before <ul class=\"articles\">"));
    let new_pos = content.find("new.html").expect("newest post should be listed");
    let old_pos = content.find("old.html").expect("oldest post should be listed");
    assert!(new_pos < old_pos);
    assert!(content.contains("2023-06-02"));
}

#[test]
fn post_listing_without_marker_page_fails() {
    let mut registry = SiteComponentRegistry::new();
    let cfg = PostlistingConfig {
        tags_enabled: false,
        tag_listing_page: "tags.md".to_string(),
        tag_listing_order: TagSortingOrder::Count,
        post_listing_page: "archive.md".to_string(),
        post_listing_order: PostSortingOrder::OldestOnTop,
    };
    let err = PostListingFeature::insert_post_listing_in_page(&mut registry, &cfg).unwrap_err();
    assert_eq!(
        err.message().as_str(),
        "No marker found in archive.md to insert post listing"
    );
    let err = PostListingFeature::insert_tags_listing_in_page(&mut registry, &cfg).unwrap_err();
    assert_eq!(
        err.message().as_str(),
        "No marker found in tags.md to insert tag listing"
    );
}

#[test]
fn tag_chips_appended_to_posts() {
    let mut registry = SiteComponentRegistry::new();
    let mut post = post_with("p", "body", Date { year: 2020, month: 1, day: 1 });
    post.header.tags = vec!["rust".to_string()];
    _ = registry.register_post(post);
    let cfg = PostlistingConfig {
        tags_enabled: true,
        tag_listing_page: String::new(),
        tag_listing_order: TagSortingOrder::Alphabetic,
        post_listing_page: "posts.md".to_string(),
        post_listing_order: PostSortingOrder::OldestOnTop,
    };
    PostListingFeature::insert_tags_in_posts(&mut registry, &cfg);
    let content = &registry.get_posts()[0].content;
    assert!(content.starts_with("body<div class=\"tags\">"));
    assert!(content.contains(
        "<a href=\"http://localhost:8000\">rust</a>"
    ));
    assert!(content.contains("onclick=\"posts/posts.md\""));
}

#[test]
fn date_renders_zero_padded() {
    assert_eq!(date_to_string(&Date { year: 2023, month: 6, day: 2 }), "2023-06-02");
    assert_eq!(date_to_string(&Date { year: 33, month: 12, day: 31 }), "0033-12-31");
    assert_eq!(date_to_string(&Date { year: -1, month: 1, day: 1 }), "-0001-01-01");
    assert_eq!(date_to_string(&Date { year: 10000, month: 1, day: 1 }), "+10000-01-01");
}

#[test]
fn info_reports_counts_and_rows() {
    let mut registry = SiteComponentRegistry::new();
    let mut post = post_with(
        "a very long title that will get truncated somewhere",
        "",
        Date { year: 2021, month: 2, day: 3 },
    );
    post.header.draft = true;
    _ = registry.register_post(post);
    let mut page = Page::default();
    page.title = "home".to_string();
    page.index = true;
    _ = registry.register_page(page);
    let report = info(registry.get_posts(), registry.get_pages());
    assert!(report.contains("a very long title that will..."));
    assert!(report.contains("  1 Posts (0 Finalized, 1 Drafts)"));
    assert!(report.contains("  1 Pages (1 Finalized, 0 Drafts)"));
    assert!(report.contains("2021-02-03"));
}

#[test]
fn trunc_with_dots_cuts_long_text() {
    let short = "short".to_string();
    assert_eq!(short.trunc_with_dots(30), "short");
    let long = "abcdefghijklmnop".to_string();
    assert_eq!(long.trunc_with_dots(10), "abcdefg...");
}

#[test]
fn validators_accept_and_reject() {
    let v = EmptyOrWhitespaceValidator::default();
    assert!(v.validate("hello"));
    assert!(!v.validate("  \t"));
    assert_eq!(v.message, "Value must consist of printable characters");
    let c = CommaListValidator::default();
    assert!(c.validate("a,b,c"));
    assert!(!c.validate("a,,c"));
    assert!(!c.validate(""));
    assert_eq!(c.message, "Requires comma-separated, non-empty values.");
}

#[test]
fn path_config_layout() {
    let paths = PathConfig::new("/tmp/blog".to_string());
    assert_eq!(paths.config_file, "/tmp/blog/mublog.toml");
    assert_eq!(paths.posts_dir, "/tmp/blog/posts");
    assert_eq!(paths.build_dir, "/tmp/blog/build");
    assert_eq!(paths.build_pages_dir, "/tmp/blog/build");
    assert_eq!(paths.build_posts_dir, "/tmp/blog/build/posts");
    assert_eq!(paths.build_assets_dir, "/tmp/blog/build/assets");
}

#[test]
fn wrapped_page_document_layout() {
    let mut registry = SiteComponentRegistry::new();
    let mut page = Page::default();
    page.title = "Home".to_string();
    page.content = "<p>hi</p>".to_string();
    _ = registry.register_page(page);
    let mut config = BlogConfig::default();
    config.blog_author = "ada".to_string();
    config.blog_copyright_year = 2024;
    WrapPagesStage::wrap(&config, &mut registry);
    let doc = &registry.get_pages()[0].content;
    assert!(doc.starts_with("<!DOCTYPE html><html><head><meta charset=\"utf-8\"><title>Home</title>"));
    assert!(doc.contains("<meta property=\"og:article:author\" content=\"ada\">"));
    assert!(doc.contains("<link href=\"/css/layout.css\" rel=\"stylesheet\">"));
    assert!(doc.contains("<body><main><p>hi</p></main>"));
    assert!(doc.contains("<div class=\"footer-copyright\">2024</div>"));
    assert!(doc.ends_with("</body></html>"));
}

#[test]
fn wrapped_post_document_has_rule_before_content() {
    let mut registry = SiteComponentRegistry::new();
    let post = post_with("T", "<p>body</p>", Date { year: 2020, month: 1, day: 1 });
    _ = registry.register_post(post);
    let config = BlogConfig::default();
    WrapPostsStage::wrap(&config, &mut registry);
    let doc = &registry.get_posts()[0].content;
    assert!(doc.contains("<body><main><hr><p>body</p></main>"));
    assert!(doc.contains("<meta property=\"og:site_name\" content=\"BLOG_TITLE\">"));
}

#[test]
fn error_context_builds_causal_chain() {
    let inner = BlogError::new("disk full".to_string());
    let outer = inner.context("Failed to write page".to_string());
    assert_eq!(outer.message().as_str(), "Failed to write page");
    let chain = outer.messages();
    assert_eq!(chain.len(), 2);
    assert_eq!(chain[1], "disk full");
}

#[test]
fn tag_listing_lists_distinct_tags_once() {
    let mut registry = SiteComponentRegistry::new();
    let mut p1 = post_with("p1", "", Date { year: 2020, month: 1, day: 1 });
    p1.header.tags = vec!["b".to_string(), "a".to_string()];
    let mut p2 = post_with("p2", "", Date { year: 2020, month: 1, day: 2 });
    p2.header.tags = vec!["a".to_string(), "c".to_string()];
    _ = registry.register_post(p1);
    _ = registry.register_post(p2);
    let mut page = Page::default();
    page.title = "tags".to_string();
    page.content = "{{{TAG_LISTING}}}".to_string();
    _ = registry.register_page(page);
    let cfg = PostlistingConfig {
        tags_enabled: true,
        tag_listing_page: "tags.md".to_string(),
        tag_listing_order: TagSortingOrder::Count,
        post_listing_page: "posts.md".to_string(),
        post_listing_order: PostSortingOrder::OldestOnTop,
    };
    PostListingFeature::insert_tags_listing_in_page(&mut registry, &cfg)
        .expect("tag listing should be inserted");
    let content = &registry.get_pages()[0].content;
    assert_eq!(content.matches(">a</a>").count(), 1);
    assert_eq!(content.matches(">b</a>").count(), 1);
    assert_eq!(content.matches(">c</a>").count(), 1);
    let b_pos = content.find(">b</a>").unwrap();
    let a_pos = content.find(">a</a>").unwrap();
    let c_pos = content.find(">c</a>").unwrap();
    assert!(b_pos < a_pos && a_pos < c_pos);
}
