//! Posts: dated blog articles.
//!
//! A post file carries a five-line front-matter header between two `---`
//! marker lines (`title`, `description`, `date`, `tags` and `draft` fields
//! in any order, each exactly once), followed by the markdown body.

use vstd::prelude::*;
use crate::date::{date_parse_spec, date_str, date_to_string, parse_date_opt, Date};
use crate::error::BlogError;
use crate::text::{
    bool_of_field, bool_str, bool_to_str, find_char, find_char_spec, join_strings, join_with,
    parse_bool_field, split_char, split_lines, split_lines_spec, split_on, str_eq, trim,
    trim_spec,
};

verus! {

/// The front-matter fields of a post.
#[derive(Debug)]
pub struct PostHeader {
    pub title: String,
    pub description: String,
    pub date: Date,
    pub tags: Vec<String>,
    pub draft: bool,
}

impl PostHeader {
    /// A header from its five fields.
    pub fn new(date: Date, description: String, draft: bool, tags: Vec<String>, title: String) -> (r:
        PostHeader)
        ensures
            r.date == date,
            r.description == description,
            r.draft == draft,
            r.tags == tags,
            r.title == title,
    {
        PostHeader { title, description, date, tags, draft }
    }
}

impl Default for PostHeader {
    /// A header with empty text fields, no tags, the default date, and the
    /// draft flag off.
    fn default() -> (r: PostHeader)
        ensures
            r.title@ == Seq::<char>::empty(),
            r.description@ == Seq::<char>::empty(),
            r.date == (Date { year: 1970, month: 1, day: 1 }),
            r.tags@ == Seq::<String>::empty(),
            r.draft == false,
    {
        PostHeader {
            title: String::new(),
            description: String::new(),
            date: Date::default(),
            tags: Vec::new(),
            draft: false,
        }
    }
}

/// A blog post.  The filenames are empty until the post is registered with
/// the content registry, which assigns collision-free names.
#[derive(Debug)]
pub struct Post {
    pub content: String,
    pub header: PostHeader,
    pub html_filename: String,
    pub md_filename: String,
}

impl Post {
    /// A post from its header and body.
    pub fn new(header: PostHeader, content: String) -> (r: Post)
        ensures
            r.header == header,
            r.content == content,
            r.html_filename@ == Seq::<char>::empty(),
            r.md_filename@ == Seq::<char>::empty(),
    {
        Post { content, header, html_filename: String::new(), md_filename: String::new() }
    }
}

impl Default for Post {
    /// A post with an empty body and a default header.
    fn default() -> (r: Post)
        ensures
            r.content@ == Seq::<char>::empty(),
            r.header.title@ == Seq::<char>::empty(),
            r.header.description@ == Seq::<char>::empty(),
            r.header.date == (Date { year: 1970, month: 1, day: 1 }),
            r.header.tags@ == Seq::<String>::empty(),
            r.header.draft == false,
            r.html_filename@ == Seq::<char>::empty(),
            r.md_filename@ == Seq::<char>::empty(),
    {
        Post {
            content: String::new(),
            header: PostHeader::default(),
            html_filename: String::new(),
            md_filename: String::new(),
        }
    }
}

/// The fields a parsed post file yields.
pub ghost struct PostData {
    pub title: Seq<char>,
    pub description: Seq<char>,
    pub date: Date,
    pub tags: Seq<Seq<char>>,
    pub draft: bool,
    pub content: Seq<char>,
}

/// The running state of header-field processing.
pub ghost struct PostAcc {
    pub seen_title: bool,
    pub seen_description: bool,
    pub seen_date: bool,
    pub seen_tags: bool,
    pub seen_draft: bool,
    pub title: Seq<char>,
    pub description: Seq<char>,
    pub date: Date,
    pub tags: Seq<Seq<char>>,
    pub draft: bool,
}

/// The accumulator before any header field was processed.
pub open spec fn post_acc_init() -> PostAcc {
    PostAcc {
        seen_title: false,
        seen_description: false,
        seen_date: false,
        seen_tags: false,
        seen_draft: false,
        title: Seq::empty(),
        description: Seq::empty(),
        date: Date { year: 1970, month: 1, day: 1 },
        tags: Seq::empty(),
        draft: false,
    }
}

pub open spec fn post_incomplete_msg() -> Seq<char> {
    "File contains an incomplete header."@
}

pub open spec fn post_start_marker_msg() -> Seq<char> {
    "Starting marker missing or formatted incorrectly"@
}

pub open spec fn post_end_marker_msg() -> Seq<char> {
    "Ending marker missing or formatted incorrectly"@
}

pub open spec fn post_invalid_line_msg(line: Seq<char>) -> Seq<char> {
    "Failed to parse line '"@ + line + "' into key value pair."@
}

pub open spec fn post_dup_field_msg(key: Seq<char>) -> Seq<char> {
    "Failed to parse header, duplicate field found: "@ + key
}

pub open spec fn post_unsupported_field_msg(key: Seq<char>) -> Seq<char> {
    "Unsupported header field: "@ + key
}

pub open spec fn empty_title_msg() -> Seq<char> {
    "The title cannot be empty or consist of only whitespace characters."@
}

pub open spec fn empty_description_msg() -> Seq<char> {
    "The description cannot be empty or consist of only whitespace characters."@
}

pub open spec fn bad_date_msg() -> Seq<char> {
    "The date must be a valid string in YYYY-MM-DD format"@
}

pub open spec fn bad_tags_msg() -> Seq<char> {
    "The tags field requires at least one non-empty value."@
}

pub open spec fn bad_draft_msg() -> Seq<char> {
    "Draft field must be either 'true' or 'false'."@
}

/// The tag list a `tags` field value denotes: the trimmed value split at
/// commas, every part non-empty.
pub open spec fn tags_of_field(v: Seq<char>) -> Option<Seq<Seq<char>>> {
    let parts = split_on(trim_spec(v), ',');
    if parts.len() == 0 || (exists|i: int| 0 <= i < parts.len() && parts[i].len() == 0) {
        None
    } else {
        Some(parts)
    }
}

/// Parses the `title` field value: trimmed, and it must not be empty.
pub fn parse_title(title: &str) -> (r: Result<String, BlogError>)
    ensures
        match r {
            Ok(t) => trim_spec(title@).len() > 0 && t@ == trim_spec(title@),
            Err(e) => trim_spec(title@).len() == 0 && e.wf() && e.chain() == seq![
                empty_title_msg(),
            ],
        },
{
    let t = trim(title);
    if t.unicode_len() == 0 {
        Err(
            BlogError::new(
                String::from_str(
                    "The title cannot be empty or consist of only whitespace characters.",
                ),
            ),
        )
    } else {
        Ok(String::from_str(t))
    }
}

/// Parses the `description` field value: trimmed, and it must not be empty.
pub fn parse_description(description: &str) -> (r: Result<String, BlogError>)
    ensures
        match r {
            Ok(t) => trim_spec(description@).len() > 0 && t@ == trim_spec(description@),
            Err(e) => trim_spec(description@).len() == 0 && e.wf() && e.chain() == seq![
                empty_description_msg(),
            ],
        },
{
    let t = trim(description);
    if t.unicode_len() == 0 {
        Err(
            BlogError::new(
                String::from_str(
                    "The description cannot be empty or consist of only whitespace characters.",
                ),
            ),
        )
    } else {
        Ok(String::from_str(t))
    }
}

/// Parses the `date` field value: trimmed, it must be a date in `YYYY-MM-DD`
/// format.
pub fn parse_date(date: &str) -> (r: Result<Date, BlogError>)
    ensures
        match r {
            Ok(d) => date_parse_spec(trim_spec(date@)) == Some(d) && d.wf(),
            Err(e) => date_parse_spec(trim_spec(date@)) is None && e.wf() && e.chain() == seq![
                bad_date_msg(),
            ],
        },
{
    match parse_date_opt(trim(date)) {
        Some(d) => Ok(d),
        None => Err(
            BlogError::new(
                String::from_str("The date must be a valid string in YYYY-MM-DD format"),
            ),
        ),
    }
}

/// Parses the `tags` field value: a comma-separated list with no empty
/// entry.  The entries keep their surrounding whitespace; only the whole
/// value is trimmed.
pub fn parse_tags(tags: &str) -> (r: Result<Vec<String>, BlogError>)
    ensures
        match r {
            Ok(ts) => tags_of_field(tags@) == Some(ts@.map(|i: int, t: String| t@)),
            Err(e) => tags_of_field(tags@) is None && e.wf() && e.chain() == seq![bad_tags_msg()],
        },
{
    let parts = split_char(trim(tags), ',');
    let ghost pv = split_on(trim_spec(tags@), ',');
    proof {
        assert(parts@.map(|i: int, t: String| t@) == pv);
    }
    let mut k: usize = 0;
    let mut any_empty = parts.len() == 0;
    while k < parts.len()
        invariant
            parts@.map(|i: int, t: String| t@) == pv,
            0 <= k <= parts@.len(),
            any_empty == (parts@.len() == 0 || exists|i: int|
                0 <= i < k && #[trigger] pv[i].len() == 0),
        decreases parts@.len() - k,
    {
        proof {
            assert(parts@[k as int]@ == pv[k as int]);
        }
        if parts[k].as_str().unicode_len() == 0 {
            any_empty = true;
            proof {
                assert(pv[k as int].len() == 0);
            }
        }
        k = k + 1;
    }
    if any_empty {
        Err(
            BlogError::new(
                String::from_str("The tags field requires at least one non-empty value."),
            ),
        )
    } else {
        Ok(parts)
    }
}

/// Parses the `draft` field value: the trimmed value must be `true` or
/// `false`.
pub fn parse_draft(draft: &str) -> (r: Result<bool, BlogError>)
    ensures
        match r {
            Ok(b) => bool_of_field(draft@) == Some(b),
            Err(e) => bool_of_field(draft@) is None && e.wf() && e.chain() == seq![
                bad_draft_msg(),
            ],
        },
{
    match parse_bool_field(draft) {
        Some(b) => Ok(b),
        None => Err(
            BlogError::new(
                String::from_str("Draft field must be either 'true' or 'false'."),
            ),
        ),
    }
}

/// The error for a header field that occurs twice.
fn dup_field_error(key: &str) -> (r: BlogError)
    ensures
        r.wf(),
        r.chain() == seq![post_dup_field_msg(key@)],
{
    let mut m = String::from_str("Failed to parse header, duplicate field found: ");
    m.append(key);
    proof {
        reveal_strlit("Failed to parse header, duplicate field found: ");
        assert(m@ =~= post_dup_field_msg(key@));
    }
    BlogError::new(m)
}

/// Processes the header lines `lines[i..6]` in order, starting from the
/// state `acc`: each line must be `key: value` with a known key not seen
/// before and a well-formed value.  The first offending line decides the
/// error.
pub open spec fn post_fields_spec(lines: Seq<Seq<char>>, i: int, acc: PostAcc) -> Result<
    PostAcc,
    Seq<char>,
>
    decreases 6 - i,
{
    if i < 1 || i >= 6 {
        Ok(acc)
    } else {
        let line = lines[i];
        match find_char_spec(line, ':') {
            None => Err(post_invalid_line_msg(line)),
            Some(j) => {
                let key = line.subrange(0, j);
                let value = line.subrange(j + 1, line.len() as int);
                if key == "title"@ {
                    if acc.seen_title {
                        Err(post_dup_field_msg(key))
                    } else if trim_spec(value).len() == 0 {
                        Err(empty_title_msg())
                    } else {
                        post_fields_spec(
                            lines,
                            i + 1,
                            PostAcc { seen_title: true, title: trim_spec(value), ..acc },
                        )
                    }
                } else if key == "description"@ {
                    if acc.seen_description {
                        Err(post_dup_field_msg(key))
                    } else if trim_spec(value).len() == 0 {
                        Err(empty_description_msg())
                    } else {
                        post_fields_spec(
                            lines,
                            i + 1,
                            PostAcc {
                                seen_description: true,
                                description: trim_spec(value),
                                ..acc
                            },
                        )
                    }
                } else if key == "date"@ {
                    if acc.seen_date {
                        Err(post_dup_field_msg(key))
                    } else {
                        match date_parse_spec(trim_spec(value)) {
                            Some(d) => post_fields_spec(
                                lines,
                                i + 1,
                                PostAcc { seen_date: true, date: d, ..acc },
                            ),
                            None => Err(bad_date_msg()),
                        }
                    }
                } else if key == "tags"@ {
                    if acc.seen_tags {
                        Err(post_dup_field_msg(key))
                    } else {
                        match tags_of_field(value) {
                            Some(ts) => post_fields_spec(
                                lines,
                                i + 1,
                                PostAcc { seen_tags: true, tags: ts, ..acc },
                            ),
                            None => Err(bad_tags_msg()),
                        }
                    }
                } else if key == "draft"@ {
                    if acc.seen_draft {
                        Err(post_dup_field_msg(key))
                    } else {
                        match bool_of_field(value) {
                            Some(b) => post_fields_spec(
                                lines,
                                i + 1,
                                PostAcc { seen_draft: true, draft: b, ..acc },
                            ),
                            None => Err(bad_draft_msg()),
                        }
                    }
                } else {
                    Err(post_unsupported_field_msg(key))
                }
            },
        }
    }
}

/// What parsing a post file yields: the header fields and the body, or the
/// message of the first error.  The file must hold at least seven lines; the
/// first and the seventh must be `---` markers (up to surrounding
/// whitespace); lines two to six are the header fields; everything after the
/// seventh line is the body, the lines joined back with `\n`.
pub open spec fn parse_post_spec(s: Seq<char>) -> Result<PostData, Seq<char>> {
    let lines = split_lines_spec(s);
    if lines.len() < 7 {
        Err(post_incomplete_msg())
    } else if trim_spec(lines[0]) != "---"@ {
        Err(post_start_marker_msg())
    } else if trim_spec(lines[6]) != "---"@ {
        Err(post_end_marker_msg())
    } else {
        match post_fields_spec(lines, 1, post_acc_init()) {
            Err(m) => Err(m),
            Ok(acc) => Ok(
                PostData {
                    title: acc.title,
                    description: acc.description,
                    date: acc.date,
                    tags: acc.tags,
                    draft: acc.draft,
                    content: join_with(lines.skip(7), seq!['\n']),
                },
            ),
        }
    }
}

/// Parses a post file: front-matter header, then body.  Exactly the inputs
/// `parse_post_spec` accepts yield a post, and a rejected input reports the
/// message `parse_post_spec` gives.
#[verifier::loop_isolation(false)]
pub fn parse_from_string(data: String) -> (r: Result<Post, BlogError>)
    ensures
        match r {
            Ok(p) => {
                &&& parse_post_spec(data@) matches Ok(d)
                &&& p.header.title@ == d.title
                &&& p.header.description@ == d.description
                &&& p.header.date == d.date
                &&& p.header.tags@.map(|i: int, t: String| t@) == d.tags
                &&& p.header.draft == d.draft
                &&& p.content@ == d.content
                &&& p.html_filename@ == Seq::<char>::empty()
                &&& p.md_filename@ == Seq::<char>::empty()
            },
            Err(e) => {
                &&& parse_post_spec(data@) matches Err(m)
                &&& e.wf()
                &&& e.chain() == seq![m]
            },
        },
{
    let lines = split_lines(data.as_str());
    let ghost lv = split_lines_spec(data@);
    proof {
        assert(lines@.map(|i: int, p: String| p@) == lv);
        assert(lines@.len() == lv.len());
    }
    if lines.len() < 7 {
        return Err(BlogError::new(String::from_str("File contains an incomplete header.")));
    }
    proof {
        assert(lines@[0]@ == lv[0]);
        assert(lines@[6]@ == lv[6]);
    }
    if !str_eq(trim(lines[0].as_str()), "---") {
        return Err(
            BlogError::new(String::from_str("Starting marker missing or formatted incorrectly")),
        );
    }
    if !str_eq(trim(lines[6].as_str()), "---") {
        return Err(
            BlogError::new(String::from_str("Ending marker missing or formatted incorrectly")),
        );
    }
    let mut header = PostHeader::default();
    proof {
        assert(header.tags@.map(|t: int, s: String| s@) =~= Seq::<Seq<char>>::empty());
    }
    let mut seen_title = false;
    let mut seen_description = false;
    let mut seen_date = false;
    let mut seen_tags = false;
    let mut seen_draft = false;
    let mut i: usize = 1;
    while i < 6
        invariant
            1 <= i <= 6,
            post_fields_spec(lv, 1, post_acc_init()) == post_fields_spec(
                lv,
                i as int,
                PostAcc {
                    seen_title,
                    seen_description,
                    seen_date,
                    seen_tags,
                    seen_draft,
                    title: header.title@,
                    description: header.description@,
                    date: header.date,
                    tags: header.tags@.map(|t: int, s: String| s@),
                    draft: header.draft,
                },
            ),
        decreases 6 - i,
    {
        proof {
            assert(lines@[i as int]@ == lv[i as int]);
        }
        let ghost acc = PostAcc {
            seen_title,
            seen_description,
            seen_date,
            seen_tags,
            seen_draft,
            title: header.title@,
            description: header.description@,
            date: header.date,
            tags: header.tags@.map(|t: int, s: String| s@),
            draft: header.draft,
        };
        let line = &lines[i];
        let n = line.as_str().unicode_len();
        match find_char(line.as_str(), ':') {
            None => {
                let mut m = String::from_str("Failed to parse line '");
                m.append(line.as_str());
                m.append("' into key value pair.");
                proof {
                    reveal_strlit("Failed to parse line '");
                    reveal_strlit("' into key value pair.");
                    assert(m@ =~= post_invalid_line_msg(lv[i as int]));
                }
                return Err(BlogError::new(m));
            },
            Some(j) => {
                let key = line.as_str().substring_char(0, j);
                let value = line.as_str().substring_char(j + 1, n);
                let ghost kv = lv[i as int].subrange(0, j as int);
                let ghost vv = lv[i as int].subrange(j + 1, lv[i as int].len() as int);
                proof {
                    assert(key@ == kv);
                    assert(value@ == vv);
                }
                if str_eq(key, "title") {
                    if seen_title {
                        return Err(dup_field_error(key));
                    }
                    match parse_title(value) {
                        Ok(t) => {
                            header.title = t;
                            seen_title = true;
                        },
                        Err(e) => {
                            return Err(e);
                        },
                    }
                } else if str_eq(key, "description") {
                    if seen_description {
                        return Err(dup_field_error(key));
                    }
                    match parse_description(value) {
                        Ok(t) => {
                            header.description = t;
                            seen_description = true;
                        },
                        Err(e) => {
                            return Err(e);
                        },
                    }
                } else if str_eq(key, "date") {
                    if seen_date {
                        return Err(dup_field_error(key));
                    }
                    match parse_date(value) {
                        Ok(d) => {
                            header.date = d;
                            seen_date = true;
                        },
                        Err(e) => {
                            return Err(e);
                        },
                    }
                } else if str_eq(key, "tags") {
                    if seen_tags {
                        return Err(dup_field_error(key));
                    }
                    match parse_tags(value) {
                        Ok(ts) => {
                            header.tags = ts;
                            seen_tags = true;
                        },
                        Err(e) => {
                            return Err(e);
                        },
                    }
                } else if str_eq(key, "draft") {
                    if seen_draft {
                        return Err(dup_field_error(key));
                    }
                    match parse_draft(value) {
                        Ok(b) => {
                            header.draft = b;
                            seen_draft = true;
                        },
                        Err(e) => {
                            return Err(e);
                        },
                    }
                } else {
                    let mut m = String::from_str("Unsupported header field: ");
                    m.append(key);
                    proof {
                        reveal_strlit("Unsupported header field: ");
                        assert(m@ =~= post_unsupported_field_msg(kv));
                    }
                    return Err(BlogError::new(m));
                }
            },
        }
        i = i + 1;
    }
    let mut tail: Vec<String> = Vec::new();
    let mut k: usize = 7;
    while k < lines.len()
        invariant
            7 <= k <= lines@.len(),
            tail@.map(|t: int, p: String| p@) == lv.skip(7).take(k - 7),
        decreases lines@.len() - k,
    {
        proof {
            assert(lines@[k as int]@ == lv[k as int]);
        }
        tail.push(lines[k].clone());
        proof {
            assert(tail@.map(|t: int, p: String| p@) =~= lv.skip(7).take(k + 1 - 7));
        }
        k = k + 1;
    }
    proof {
        assert(lv.skip(7).take(lv.len() - 7) =~= lv.skip(7));
    }
    let content = join_strings(&tail, "\n");
    proof {
        reveal_strlit("\n");
        assert("\n"@ =~= seq!['\n']);
    }
    Ok(Post::new(header, content))
}

/// Renders a post back into its file format: the five header fields between
/// `---` markers, then the body.
pub open spec fn post_to_string_spec(p: &Post) -> Seq<char> {
    "---\ntitle: "@ + p.header.title@ + "\ndescription: "@ + p.header.description@ + "\ndate: "@
        + date_str(p.header.date) + "\ntags: "@ + join_with(
        p.header.tags@.map(|i: int, t: String| t@),
        seq![','],
    ) + "\ndraft: "@ + bool_str(p.header.draft) + "\n---\n"@ + p.content@
}

/// Renders a post into its file format.
pub fn parse_to_string(post: &Post) -> (r: String)
    ensures
        r@ == post_to_string_spec(post),
{
    let mut out = String::new();
    proof {
        reveal_strlit("---\ntitle: ");
        reveal_strlit("\ndescription: ");
        reveal_strlit("\ndate: ");
        reveal_strlit("\ntags: ");
        reveal_strlit("\ndraft: ");
        reveal_strlit("\n---\n");
        reveal_strlit(",");
        assert(","@ =~= seq![',']);
    }
    out.append("---\ntitle: ");
    out.append(post.header.title.as_str());
    out.append("\ndescription: ");
    out.append(post.header.description.as_str());
    out.append("\ndate: ");
    out.append(date_to_string(&post.header.date).as_str());
    out.append("\ntags: ");
    out.append(join_strings(&post.header.tags, ",").as_str());
    out.append("\ndraft: ");
    out.append(bool_to_str(post.header.draft));
    out.append("\n---\n");
    out.append(post.content.as_str());
    out
}

} // verus!
