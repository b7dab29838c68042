use mublog::page::{parse_from_string, parse_to_string, Page};

#[test]
fn parse_page_header_incomplete() {
    let exp = "---\ntitle: test title\n---";
    let res = parse_from_string(exp).unwrap_err();
    assert_eq!(res.message().as_str(), "Page header is incomplete");
}

#[test]
fn parse_page_header_missing_start_marker() {
    let exp = "title: test\ndraft: false\nindex: false\n---\nHello World";
    let res = parse_from_string(exp).unwrap_err();
    assert_eq!(
        res.message().as_str(),
        "Page start marker missing or formatted incorrectly"
    );
}

#[test]
fn parse_page_header_missing_end_marker() {
    let exp = "---\ntitle: test\ndraft: false\nindex: false\nHello World";
    let res = parse_from_string(exp).unwrap_err();
    assert_eq!(
        res.message().as_str(),
        "Page end marker missing or formatted incorrectly"
    );
}

#[test]
fn parse_page_header_duplicate_fields() {
    let exp = "---\ntitle: test\ndraft: false\ndraft: true\n---\nHello World";
    let res = parse_from_string(exp).unwrap_err();
    assert_eq!(
        res.message().as_str(),
        "Duplicate page header field found: 'draft'"
    );
}

#[test]
fn parse_page_valid_with_content() {
    let exp = "---\ntitle: my page\ndraft: false\nindex: true\n---\nhello";
    let res = parse_from_string(exp).expect("Page should be valid");
    assert_eq!(res.title, "my page");
    assert_eq!(res.draft, false);
    assert_eq!(res.index, true);
    assert_eq!(res.content, "hello");
}

#[test]
fn parse_page_valid_without_content() {
    let exp = "---\ntitle: my page\ndraft: false\nindex: true\n---\n";
    let res = parse_from_string(exp).expect("Page should be valid");
    assert_eq!(res.title, "my page");
    assert_eq!(res.draft, false);
    assert_eq!(res.index, true);
    assert_eq!(res.content, String::new());
}

#[test]
fn parse_page_unsupported_field() {
    let exp = "---\ntitle: test\ndraft: false\nauthor: me\n---\nHello";
    let res = parse_from_string(exp).unwrap_err();
    assert_eq!(
        res.message().as_str(),
        "Unsupported page header field: 'author'"
    );
}

#[test]
fn parse_page_invalid_header_line() {
    let exp = "---\ntitle: test\ndraft: false\nnocolon\n---\nHello";
    let res = parse_from_string(exp).unwrap_err();
    assert_eq!(res.message().as_str(), "Invalid page header line: 'nocolon'");
}

#[test]
fn parse_page_bad_bool() {
    let exp = "---\ntitle: test\ndraft: maybe\nindex: false\n---\nHello";
    let res = parse_from_string(exp).unwrap_err();
    assert_eq!(
        res.message().as_str(),
        "Draft field must be either 'true' or 'false'."
    );
}

#[test]
fn parse_page_empty_title() {
    let exp = "---\ntitle:   \ndraft: false\nindex: false\n---\nHello";
    let res = parse_from_string(exp).unwrap_err();
    assert_eq!(
        res.message().as_str(),
        "The title cannot be empty or consist of only whitespace characters."
    );
}

#[test]
fn page_round_trip() {
    let mut page = Page::default();
    page.title = "my page".to_string();
    page.draft = true;
    page.index = false;
    page.content = "hello\nworld".to_string();
    let text = parse_to_string(&page);
    assert_eq!(text, "---\ntitle: my page\ndraft: true\nindex: false\n---\nhello\nworld");
    let back = parse_from_string(&text).expect("rendered page should parse");
    assert_eq!(back.title, "my page");
    assert_eq!(back.draft, true);
    assert_eq!(back.index, false);
    assert_eq!(back.content, "hello\nworld");
}
