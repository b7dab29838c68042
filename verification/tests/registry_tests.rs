use mublog::blog_registry::SiteComponentRegistry;
use mublog::page::Page;
use mublog::post::Post;

#[test]
fn register_post_incremental_filename() {
    let mut reg = SiteComponentRegistry::new();
    let mut p1 = Post::default();
    let mut p2 = Post::default();
    let mut p3 = Post::default();
    p1.header.title = "post".into();
    p2.header.title = "post".into();
    p3.header.title = "post".into();

    _ = reg.register_post(p1);
    _ = reg.register_post(p2);
    _ = reg.register_post(p3);

    let posts = reg.get_posts();
    assert_eq!(posts.get(0).unwrap().html_filename.clone(), "post.html".to_owned());
    assert_eq!(posts.get(0).unwrap().md_filename.clone(), "post.md".to_owned());
    assert_eq!(posts.get(1).unwrap().html_filename.clone(), "post_1.html".to_owned());
    assert_eq!(posts.get(1).unwrap().md_filename.clone(), "post_1.md".to_owned());
    assert_eq!(posts.get(2).unwrap().html_filename.clone(), "post_2.html".to_owned());
    assert_eq!(posts.get(2).unwrap().md_filename.clone(), "post_2.md".to_owned());
}

#[test]
fn register_page_incremental_filename() {
    let mut reg = SiteComponentRegistry::new();
    let mut p1 = Page::default();
    let mut p2 = Page::default();
    let mut p3 = Page::default();
    p1.title = "page".into();
    p2.title = "page".into();
    p3.title = "page".into();

    _ = reg.register_page(p1);
    _ = reg.register_page(p2);
    _ = reg.register_page(p3);

    let pages = reg.get_pages();
    assert_eq!(pages.get(0).unwrap().html_filename.clone(), "page.html".to_owned());
    assert_eq!(pages.get(0).unwrap().md_filename.clone(), "page.md".to_owned());
    assert_eq!(pages.get(1).unwrap().html_filename.clone(), "page_1.html".to_owned());
    assert_eq!(pages.get(1).unwrap().md_filename.clone(), "page_1.md".to_owned());
    assert_eq!(pages.get(2).unwrap().html_filename.clone(), "page_2.html".to_owned());
    assert_eq!(pages.get(2).unwrap().md_filename.clone(), "page_2.md".to_owned());
}

#[test]
fn register_page_index_page() {
    let mut reg = SiteComponentRegistry::new();
    let mut p1 = Page::default();
    p1.index = true;
    p1.title = "test".into();

    _ = reg.register_page(p1);

    let pages = reg.get_pages();
    assert_eq!(pages.get(0).unwrap().html_filename.clone(), "index.html".to_owned());
    assert_eq!(pages.get(0).unwrap().md_filename.clone(), "test.md".to_owned());
}

#[test]
fn register_page_fake_index_page() {
    let mut reg = SiteComponentRegistry::new();
    let mut p1 = Page::default();
    p1.index = false;
    p1.title = "index".into();

    let err = reg.register_page(p1).unwrap_err();

    assert_eq!(err.message().as_str(), "Non-index page can't be named 'index'");
}

#[test]
fn register_page_duplicate_index_page() {
    let mut reg = SiteComponentRegistry::new();
    let mut p1 = Page::default();
    let mut p2 = Page::default();
    p1.index = true;
    p1.title = "test".into();
    p2.index = true;
    p2.title = "hello".into();

    let res1 = reg.register_page(p1);
    let res2 = reg.register_page(p2);
    let pages = reg.get_pages();

    assert!(res1.is_ok());
    assert_eq!(pages.get(0).unwrap().html_filename.clone(), "index.html".to_owned());
    assert!(res2.is_err());
    assert_eq!(
        res2.unwrap_err().message().as_str(),
        "Duplicate index pages are not allowed."
    );
    assert_eq!(pages.len(), 1);
}

#[test]
fn register_post_normalizes_title() {
    let mut reg = SiteComponentRegistry::new();
    let mut p = Post::default();
    p.header.title = "  My First Post  ".into();
    _ = reg.register_post(p);
    let posts = reg.get_posts();
    assert_eq!(posts[0].html_filename, "my_first_post.html");
    assert_eq!(posts[0].md_filename, "my_first_post.md");
    assert_eq!(posts[0].header.title, "  My First Post  ");
}

#[test]
fn register_page_reserved_title_not_added() {
    let mut reg = SiteComponentRegistry::new();
    let mut p1 = Page::default();
    p1.index = false;
    p1.title = "Index".into();
    let res = reg.register_page(p1);
    assert!(res.is_err());
    assert_eq!(reg.get_pages().len(), 0);
}

#[test]
fn init_posts_loads_and_reports_first_failure() {
    let mut reg = SiteComponentRegistry::new();
    let good = "---\ntitle: a\ndescription: d\ndate: 2020-05-06\ntags: t\ndraft: false\n---\nbody";
    let bad = "---\nnot a post";
    let files = vec![
        ("a.md".to_string(), good.to_string()),
        ("b.md".to_string(), bad.to_string()),
    ];
    let err = reg.init_posts(&files).unwrap_err();
    let chain = err.messages();
    assert_eq!(chain[0], "Failed to parse post 'b.md'");
    assert_eq!(chain[1], "File contains an incomplete header.");
    assert_eq!(reg.get_posts().len(), 1);
    assert_eq!(reg.get_posts()[0].html_filename, "a.html");
}

#[test]
fn init_pages_reports_register_failure() {
    let mut reg = SiteComponentRegistry::new();
    let first = "---\ntitle: home\ndraft: false\nindex: true\n---\nwelcome";
    let second = "---\ntitle: other\ndraft: false\nindex: true\n---\nwelcome";
    let files = vec![
        ("home.md".to_string(), first.to_string()),
        ("other.md".to_string(), second.to_string()),
    ];
    let err = reg.init_pages(&files).unwrap_err();
    let chain = err.messages();
    assert_eq!(chain[0], "Failed to register new page");
    assert_eq!(chain[1], "Duplicate index pages are not allowed.");
    assert_eq!(reg.get_pages().len(), 1);
}

#[test]
fn init_stylesheets_and_assets_keep_order() {
    let mut reg = SiteComponentRegistry::new();
    reg.init_stylesheets(&vec![
        ("layout.css".to_string(), "body {}".to_string()),
        ("extra.css".to_string(), "p {}".to_string()),
    ]);
    reg.init_assets(&vec![("logo.png".to_string(), "binary".to_string())]);
    assert_eq!(reg.get_stylesheets().len(), 2);
    assert_eq!(reg.get_stylesheets()[0].filename, "layout.css");
    assert_eq!(reg.get_stylesheets()[1].filename, "extra.css");
    assert_eq!(reg.get_assets().len(), 1);
    assert_eq!(reg.get_assets()[0].content, "binary");
}

#[test]
fn initialize_loads_posts_and_pages() {
    let mut reg = SiteComponentRegistry::new();
    let post = "---\ntitle: a\ndescription: d\ndate: 2020-05-06\ntags: t\ndraft: false\n---\nbody";
    let page = "---\ntitle: home\ndraft: false\nindex: true\n---\nwelcome";
    let posts = vec![("a.md".to_string(), post.to_string())];
    let pages = vec![("home.md".to_string(), page.to_string())];
    reg.initialize(&posts, &pages).expect("loading should succeed");
    assert_eq!(reg.get_posts().len(), 1);
    assert_eq!(reg.get_pages().len(), 1);
    assert_eq!(reg.get_pages()[0].html_filename, "index.html");
}

#[test]
fn initialize_wraps_post_loading_failure() {
    let mut reg = SiteComponentRegistry::new();
    let posts = vec![("bad.md".to_string(), "not a post".to_string())];
    let pages: Vec<(String, String)> = Vec::new();
    let err = reg.initialize(&posts, &pages).unwrap_err();
    let chain = err.messages();
    assert_eq!(chain[0], "Failed to load posts from disk");
    assert_eq!(chain[1], "Failed to parse post 'bad.md'");
    assert_eq!(chain[2], "File contains an incomplete header.");
}
