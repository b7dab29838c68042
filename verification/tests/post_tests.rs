use mublog::date::Date;
use mublog::post::{
    parse_date, parse_description, parse_draft, parse_from_string, parse_tags, parse_title,
    parse_to_string, Post,
};

#[test]
fn parse_header_incomplete() {
    let expected = "---\ntitle: test title\ndescription: test description\n---".to_owned();
    let res = parse_from_string(expected).unwrap_err();
    assert_eq!(res.message().as_str(), "File contains an incomplete header.");
}

#[test]
fn parse_header_duplicate_fields() {
    let expected = "---\ntitle: test\ndescription: dulicate1\ntags: test,test2,test3\ndescription: duplicate2\ndraft: false\n---\nSome more text".to_owned();
    let res = parse_from_string(expected).unwrap_err();
    assert_eq!(
        res.message().as_str(),
        "Failed to parse header, duplicate field found: description"
    );
}

#[test]
fn parse_header_missing_start_marker() {
    let expected = "title: test title\ndescription: test description\ntags: test,test2,test3\ndate: 2023-01-23\ndraft: false\n---\nmore data\nsome more text".to_owned();
    let res = parse_from_string(expected).unwrap_err();
    assert_eq!(
        res.message().as_str(),
        "Starting marker missing or formatted incorrectly"
    );
}

#[test]
fn parse_header_missing_end_marker() {
    let expected = "---\ntitle: test title\ndescription: test description\ntags: test,test2,test3\ndate: 2023-01-23\ndraft: false\nsome more data\ngoes here\n".to_owned();
    let res = parse_from_string(expected).unwrap_err();
    assert_eq!(
        res.message().as_str(),
        "Ending marker missing or formatted incorrectly"
    );
}

#[test]
fn parse_header_unsupported_field() {
    let expected = "---\ntitle: test title\ndescription: test description\nunsupported: test,test2,test3\ndate: 2023-01-23\ndraft: false\n---\nsome more data".to_owned();
    let res = parse_from_string(expected).unwrap_err();
    assert_eq!(res.message().as_str(), "Unsupported header field: unsupported");
}

#[test]
fn parse_valid_with_content() {
    let expected = "---\ntitle: test title\ndescription: test description\ntags: test,test2,test3\ndate: 2023-01-23\ndraft: false\n---\nSome Text\nMore Text".to_owned();
    let res = parse_from_string(expected).expect("Header should be valid");
    assert_eq!(res.header.title, "test title");
    assert_eq!(res.header.description, "test description");
    assert_eq!(res.header.tags, vec!["test", "test2", "test3"]);
    assert_eq!(res.header.date, Date { year: 2023, month: 1, day: 23 });
    assert_eq!(res.header.draft, false);
    assert_eq!(res.content, "Some Text\nMore Text");
}

#[test]
fn parse_valid_no_content() {
    let expected = "---\ntitle: test title\ndescription: test description\ntags: test,test2,test3\ndate: 2023-01-23\ndraft: false\n---".to_owned();
    let res = parse_from_string(expected).expect("Header should be valid");
    assert_eq!(res.header.title, "test title");
    assert_eq!(res.header.description, "test description");
    assert_eq!(res.header.tags, vec!["test", "test2", "test3"]);
    assert_eq!(res.header.date, Date { year: 2023, month: 1, day: 23 });
    assert_eq!(res.header.draft, false);
    assert_eq!(res.content, "");
}

#[test]
fn parse_title_valid() {
    let title = "My title";
    assert!(parse_title(title).is_ok());
}

#[test]
fn parse_title_empty() {
    let title = parse_title("").unwrap_err();
    assert_eq!(
        title.message().as_str(),
        "The title cannot be empty or consist of only whitespace characters."
    );
}

#[test]
fn parse_title_whitespace() {
    let title = parse_title(" \t").unwrap_err();
    assert_eq!(
        title.message().as_str(),
        "The title cannot be empty or consist of only whitespace characters."
    );
}

#[test]
fn parse_description_valid() {
    assert!(parse_description("My description").is_ok());
}

#[test]
fn parse_description_empty() {
    assert_eq!(
        parse_description("").unwrap_err().message().as_str(),
        "The description cannot be empty or consist of only whitespace characters."
    );
}

#[test]
fn parse_description_whitespace() {
    assert_eq!(
        parse_description(" \r\t").unwrap_err().message().as_str(),
        "The description cannot be empty or consist of only whitespace characters."
    );
}

#[test]
fn parse_date_valid() {
    assert!(parse_date("2023-03-17").is_ok());
}

#[test]
fn parse_date_invalid() {
    assert_eq!(
        parse_date(" \t\r").unwrap_err().message().as_str(),
        "The date must be a valid string in YYYY-MM-DD format"
    );
}

#[test]
fn parse_date_exact() {
    let date = parse_date(" 2023-03-17 ").expect("date should parse");
    assert_eq!(date, Date { year: 2023, month: 3, day: 17 });
}

#[test]
fn parse_tags_valid() {
    let tags: Vec<String> = parse_tags("tag1,tag2,tag3").unwrap();
    assert_eq!(vec!["tag1", "tag2", "tag3"], tags);
}

#[test]
fn parse_tags_no_tags() {
    let tags = parse_tags("").unwrap_err();
    assert_eq!(
        "The tags field requires at least one non-empty value.",
        tags.message().as_str()
    );
}

#[test]
fn parse_tags_no_empty_tags() {
    let tags = parse_tags("test1,test2,,test3,test4").unwrap_err();
    assert_eq!(
        "The tags field requires at least one non-empty value.",
        tags.message().as_str()
    );
}

#[test]
fn parse_draft_valid() {
    let r1 = parse_draft("true").ok();
    let r2 = parse_draft("false").ok();
    assert_eq!(r1.unwrap(), true);
    assert_eq!(r2.unwrap(), false);
}

#[test]
fn parse_draft_invalid() {
    let draft_res = parse_draft("test").unwrap_err();
    assert_eq!(
        "Draft field must be either 'true' or 'false'.",
        draft_res.message().as_str()
    );
}

#[test]
fn post_round_trip() {
    let source = "---\ntitle: test title\ndescription: test description\ndate: 2023-01-23\ntags: a,b\ndraft: true\n---\nbody text".to_owned();
    let post = parse_from_string(source).expect("post should parse");
    let text = parse_to_string(&post);
    assert_eq!(
        text,
        "---\ntitle: test title\ndescription: test description\ndate: 2023-01-23\ntags: a,b\ndraft: true\n---\nbody text"
    );
}

#[test]
fn post_default_date_is_epoch() {
    let post = Post::default();
    assert_eq!(post.header.date, Date { year: 1970, month: 1, day: 1 });
}
